//! The toast that previews a chat message while the chat panel is hidden.

use vstd::prelude::*;

use super::meeting_chat::{ChatEntry, ChatEntryView};

verus! {

/// How long a toast stays up, in seconds.
pub const DISMISS_TIMEOUT_SECS: u64 = 5;

/// The toast's width, in logical pixels.
pub const TOAST_WIDTH: u32 = 320;

#[derive(Debug)]
pub struct ChatNotification {
    showing: Option<(u64, ChatEntry)>,
    next_id: u64,
}

#[derive(Debug)]
pub enum ChatNotificationMessage {
    Show(ChatEntry),
    Pressed,
    Dismiss(u64),
}

/// What the caller has to do for the toast to behave.
#[derive(Debug)]
pub enum ChatNotificationAction {
    Nothing,
    OpenChat,
    /// Send `Dismiss` with this id once `DISMISS_TIMEOUT_SECS` have passed:
    /// the countdown that takes the toast back off screen.
    ScheduleDismiss(u64),
}

/// The toast as plain data: the shown entry with its id, and the next id.
pub type NotificationView = (Option<(u64, ChatEntryView)>, u64);

impl View for ChatNotification {
    type V = NotificationView;

    closed spec fn view(&self) -> NotificationView {
        (
            match self.showing {
                Some((id, entry)) => Some((id, entry@)),
                None => None,
            },
            self.next_id,
        )
    }
}

/// Showing `entry` takes the next id, which then moves on by one (wrapping).
pub open spec fn spec_show(n: NotificationView, entry: ChatEntryView) -> NotificationView {
    (Some((n.1, entry)), (if n.1 == u64::MAX { 0 } else { (n.1 + 1) as u64 }))
}

/// A dismissal only takes down the toast it was scheduled for.
pub open spec fn spec_dismiss(n: NotificationView, id: u64) -> NotificationView {
    match n.0 {
        Some((shown, _)) => if shown == id {
            (None, n.1)
        } else {
            n
        },
        None => n,
    }
}

/// A late countdown from an earlier toast never takes down the one shown
/// after it, while the toast's own countdown does.
pub proof fn lemma_dismiss_only_own(n: NotificationView, entry: ChatEntryView, stale: u64)
    ensures
        spec_dismiss(spec_show(n, entry), n.1).0 is None,
        stale != n.1 ==> spec_dismiss(spec_show(n, entry), stale) == spec_show(n, entry),
{
}

/// The toast after `message`, and what the caller has to do.
pub open spec fn spec_notification_update(n: NotificationView, message: ChatNotificationMessage) -> (
    NotificationView,
    ChatNotificationAction,
) {
    match message {
        ChatNotificationMessage::Show(entry) => (
            spec_show(n, entry@),
            ChatNotificationAction::ScheduleDismiss(n.1),
        ),
        ChatNotificationMessage::Pressed => (n, ChatNotificationAction::OpenChat),
        ChatNotificationMessage::Dismiss(id) => (spec_dismiss(n, id), ChatNotificationAction::Nothing),
    }
}

impl ChatNotification {
    pub fn new() -> (notification: Self)
        ensures
            notification@ == (None::<(u64, ChatEntryView)>, 0u64),
    {
        Self { showing: None, next_id: 0 }
    }

    pub fn update(&mut self, message: ChatNotificationMessage) -> (action: ChatNotificationAction)
        ensures
            (final(self)@, action) == spec_notification_update(old(self)@, message),
    {
        match message {
            ChatNotificationMessage::Show(entry) => {
                let id = self.next_id;
                self.showing = Some((id, entry));
                self.next_id = id.wrapping_add(1);
                return ChatNotificationAction::ScheduleDismiss(id);
            },
            ChatNotificationMessage::Pressed => return ChatNotificationAction::OpenChat,
            ChatNotificationMessage::Dismiss(id) => {
                let current = match &self.showing {
                    Some((shown, _)) => *shown == id,
                    None => false,
                };
                if current {
                    self.showing = None;
                }
            },
        }
        ChatNotificationAction::Nothing
    }

    /// Takes the toast down, whatever is showing.
    pub fn dismiss(&mut self)
        ensures
            final(self)@ == (None::<(u64, ChatEntryView)>, old(self)@.1),
    {
        self.showing = None;
    }

    /// The entry on screen, if any.
    pub fn showing(&self) -> (entry: Option<&ChatEntry>)
        ensures
            entry is None <==> self@.0 is None,
            entry matches Some(e) ==> self@.0 matches Some(s) && s.1 == e@,
    {
        match &self.showing {
            Some((_, entry)) => Some(entry),
            None => None,
        }
    }
}

} // verus!
