//! The `rtrb` ring halves, as the audio code uses them.

use vstd::prelude::*;

use rtrb::chunks::ChunkError;
use rtrb::{Consumer, Producer};

verus! {

#[verifier::external_type_specification]
#[verifier::external_body]
#[verifier::reject_recursive_types(T)]
pub struct ExProducer<T>(Producer<T>);

#[verifier::external_type_specification]
#[verifier::external_body]
#[verifier::reject_recursive_types(T)]
pub struct ExConsumer<T>(Consumer<T>);

#[verifier::external_type_specification]
#[verifier::external_body]
pub struct ExChunkError(ChunkError);

/// Every sample this producer has made readable, in order.
pub uninterp spec fn written(producer: Producer<i16>) -> Seq<i16>;

/// Every sample this consumer has taken out, in order.
pub uninterp spec fn taken(consumer: Consumer<i16>) -> Seq<i16>;

/// The free slots as this producer last saw them: the ring's capacity less
/// the distance from the read position it last loaded to its own write
/// position. Only the producer fills slots, so there are at least that many.
pub uninterp spec fn known_free(producer: Producer<i16>) -> nat;

/// `rtrb::Producer::slots`: loads the reader's position (freed slots show up
/// at any time, so nothing is claimed of how many) and returns the free
/// slots it now sees, which becomes what the producer knows to be free.
/// Nothing is written.
#[verifier::external_body]
pub(crate) fn free_slots(producer: &mut Producer<i16>) -> (free: usize)
    ensures
        free == known_free(*final(producer)),
        written(*final(producer)) == written(*old(producer)),
{
    producer.slots()
}

/// `rtrb::Producer::push_entire_slice`: copies all of `samples` into the
/// ring, or, when fewer slots are free, nothing, returning the error. Its
/// check goes by the free slots the producer knows of before looking again,
/// so a slice no longer than those always goes in, and uses them up.
#[verifier::external_body]
pub(crate) fn push_all(producer: &mut Producer<i16>, samples: &[i16]) -> (pushed: Result<(), ChunkError>)
    ensures
        samples@.len() <= known_free(*old(producer)) ==> pushed is Ok && known_free(*final(producer))
            == known_free(*old(producer)) - samples@.len(),
        pushed is Ok ==> written(*final(producer)) == written(*old(producer)) + samples@,
        pushed is Err ==> written(*final(producer)) == written(*old(producer)),
{
    producer.push_entire_slice(samples)
}

/// `rtrb::Consumer::pop_entire_slice`: fills all of `out` from the ring, or,
/// when fewer samples are readable, copies nothing and returns the error. An
/// empty `out` always succeeds (no sample is needed); otherwise how many are
/// readable depends on the writing thread, so nothing is claimed of which.
#[verifier::external_body]
pub(crate) fn pop_all(consumer: &mut Consumer<i16>, out: &mut Vec<i16>) -> (popped: Result<(), ChunkError>)
    ensures
        final(out)@.len() == old(out)@.len(),
        old(out)@.len() == 0 ==> popped is Ok,
        popped is Ok ==> taken(*final(consumer)) == taken(*old(consumer)) + final(out)@,
        popped is Err ==> taken(*final(consumer)) == taken(*old(consumer)),
        popped is Err ==> final(out)@ == old(out)@,
{
    consumer.pop_entire_slice(out.as_mut_slice())
}

} // verus!
