//! The application's screens and how messages move between them.

use vstd::prelude::*;

use crate::common::ApiKey;
use crate::pages::login::{login_update, LoginPage, LoginPageAction, LoginPageMessage, LoginView};
use crate::pages::meeting_room::meeting_room_page::{
    page_effect, spec_page_update, MeetingRoomEffect, MeetingRoomMessage, MeetingRoomPage,
};

verus! {

/// The screen on show.
pub enum Screen<B> {
    Login(LoginPage),
    MeetingRoom(MeetingRoomPage<B>),
}

/// A message for one of the screens.
pub enum Message<B> {
    Login(LoginPageMessage),
    MeetingRoom(MeetingRoomMessage<B>),
}

impl<B> Screen<B> {
    /// The login screen, pre-filled from the settings found in the
    /// environment.
    pub fn new(api_key: ApiKey) -> (screen: Self)
        ensures
            screen matches Screen::Login(page) && page@ == (
                api_key.api_key@,
                api_key.api_secret@,
                api_key.api_url@,
                api_key.identity@,
                api_key.room@,
                None::<Seq<char>>,
            ),
    {
        Screen::Login(LoginPage::default(api_key))
    }

    /// A meeting room on show keeps its invariant.
    pub open spec fn wf(&self) -> bool {
        self matches Screen::MeetingRoom(page) ==> page.wf()
    }
}

/// Routes `message` to the screen it is for; a message for a screen that is
/// no longer shown is dropped. A successful login replaces the login screen
/// with a meeting room connecting to the URL the form named; the room's
/// subscription then drives the connection.
pub fn update<B>(screen: &mut Screen<B>, message: Message<B>) -> (effect: MeetingRoomEffect)
    requires
        old(screen).wf(),
        message matches Message::MeetingRoom(MeetingRoomMessage::Participants { remote, .. })
            ==> remote.wf(),
    ensures
        final(screen).wf(),
        match (*old(screen), message) {
            (Screen::MeetingRoom(before), Message::MeetingRoom(m)) => {
                &&& *final(screen) matches Screen::MeetingRoom(after)
                &&& after@ == spec_page_update(before@, m).0
                &&& after.spec_token() == before.spec_token()
                &&& after.spec_url() == before.spec_url()
                &&& page_effect(before@, m, effect)
            },
            // The login page handles the message; a login it asks for opens
            // a meeting room with its token and URL, anything else leaves
            // the login screen as the page left it.
            (Screen::Login(before), Message::Login(m)) => {
                &&& effect is Nothing
                &&& exists|page: LoginView, action: LoginPageAction|
                    #![trigger login_update(before@, m, page, action)]
                    login_update(before@, m, page, action) && match action {
                        LoginPageAction::Login { token, api_url } => {
                            &&& *final(screen) matches Screen::MeetingRoom(after)
                            &&& after.spec_token() == token@
                            &&& after.spec_url() == api_url@
                            &&& after@.0 is Connecting
                            &&& after@.1 is None
                            &&& after@.2.len() == 0
                            &&& after@.3.len() == 0
                        },
                        LoginPageAction::Nothing => *final(screen) matches Screen::Login(after)
                            && after@ == page,
                    }
            },
            _ => {
                &&& *final(screen) == *old(screen)
                &&& effect is Nothing
            },
        },
{
    match message {
        Message::Login(message) => {
            let ghost m = message;
            let ghost before = *screen;
            let next = match screen {
                Screen::Login(page) => {
                    let action = page.update(message);
                    let ghost page_after = page@;
                    let ghost act = action;
                    assert(before matches Screen::Login(b) && login_update(b@, m, page_after, act));
                    match action {
                        LoginPageAction::Login { token, api_url } => Some((token, api_url)),
                        LoginPageAction::Nothing => None,
                    }
                },
                Screen::MeetingRoom(_) => return MeetingRoomEffect::Nothing,
            };
            if let Some((token, api_url)) = next {
                *screen = Screen::MeetingRoom(MeetingRoomPage::new(token, api_url));
            }
            MeetingRoomEffect::Nothing
        },
        Message::MeetingRoom(message) => match screen {
            Screen::MeetingRoom(page) => page.update(message),
            Screen::Login(_) => MeetingRoomEffect::Nothing,
        },
    }
}

} // verus!
