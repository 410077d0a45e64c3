use iced_pv_meet::audio::audio_sink::{fill_len, AudioSink};
use iced_pv_meet::audio::audio_source::AudioSource;
use iced_pv_meet::audio::{frame_len, ring_capacity, samples_per_channel};
use rtrb::RingBuffer;

#[test]
fn the_ring_holds_about_200_ms() {
    assert_eq!(ring_capacity(48_000, 2), 19_200);
    assert_eq!(ring_capacity(44_100, 1), 8_820);
    assert_eq!(ring_capacity(u32::MAX, 2), (u32::MAX / 1000) as usize);
    assert_eq!(ring_capacity(0, 2), 0);
}

#[test]
fn a_frame_is_ten_milliseconds() {
    assert_eq!(frame_len(48_000, 2), Ok(960));
    assert_eq!(frame_len(44_100, 1), Ok(441));
    assert_eq!(samples_per_channel(48_000), 480);
    assert_eq!(
        frame_len(u32::MAX, u16::MAX),
        Err("Overflow in audio frame length calculation".to_owned())
    );
}

#[test]
fn the_sink_queues_what_fits_and_drops_the_rest() {
    let (producer, mut consumer) = RingBuffer::<i16>::new(4);
    let mut sink = AudioSink::from_ring(producer, 48_000, 2);
    assert_eq!((sink.sample_rate(), sink.channels()), (48_000, 2));

    assert_eq!(sink.push(&[1, 2, 3]), 3);
    assert_eq!(sink.push(&[4, 5, 6]), 1);
    assert_eq!(sink.push(&[7]), 0);
    let mut out = Vec::new();
    while let Ok(sample) = consumer.pop() {
        out.push(sample);
    }
    assert_eq!(out, [1, 2, 3, 4]);
}

#[test]
fn the_source_hands_out_whole_frames_only() {
    let (mut producer, consumer) = RingBuffer::<i16>::new(8);
    let mut source = AudioSource::from_ring(consumer, 1000, 1, 3);
    assert_eq!(source.frame_len(), 3);

    for sample in [10, 20] {
        producer.push(sample).unwrap();
    }
    let mut out = vec![7, 7];
    assert!(!source.pop_frame(&mut out));
    assert_eq!(out, [7, 7]);

    for sample in [30, 40, 50, 60, 70] {
        producer.push(sample).unwrap();
    }
    assert!(source.pop_frame(&mut out));
    assert_eq!(out, [10, 20, 30]);
    assert!(source.pop_frame(&mut out));
    assert_eq!(out, [40, 50, 60]);
    assert!(!source.pop_frame(&mut out));
    assert_eq!(out, [40, 50, 60]);
}

#[test]
fn an_empty_frame_is_always_ready() {
    let (_producer, consumer) = RingBuffer::<i16>::new(4);
    let mut source = AudioSource::from_ring(consumer, 50, 1, 0);
    let mut out = vec![1, 2];
    assert!(source.pop_frame(&mut out));
    assert!(out.is_empty());
}

#[test]
fn what_fits_is_the_smaller_of_the_two() {
    assert_eq!(fill_len(3, 10), 3);
    assert_eq!(fill_len(10, 3), 3);
    assert_eq!(fill_len(0, 3), 0);
    assert_eq!(fill_len(4, 4), 4);
}

#[test]
fn the_sink_fills_every_free_slot_it_sees() {
    let (producer, mut consumer) = RingBuffer::<i16>::new(3);
    let mut sink = AudioSink::from_ring(producer, 48_000, 2);
    assert_eq!(sink.push(&[1, 2, 3, 4, 5]), 3);
    assert_eq!(consumer.pop(), Ok(1));
    assert_eq!(sink.push(&[6, 7]), 1);
    let mut out = Vec::new();
    while let Ok(sample) = consumer.pop() {
        out.push(sample);
    }
    assert_eq!(out, [2, 3, 6]);
}
