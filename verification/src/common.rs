//! Connection settings shared by the login screens, and the UI language.

use vstd::prelude::*;

use crate::text::{lowercase, str_eq, to_lowercase, trim, trimmed};

verus! {

/// What it takes to join a room: the server's credentials and URL, who we
/// are, and which room.
#[derive(Debug)]
pub struct ApiKey {
    pub api_key: String,
    pub api_secret: String,
    pub api_url: String,
    pub identity: String,
    pub room: String,
}

/// The settings as plain text, in field order.
pub type ApiKeyView = (Seq<char>, Seq<char>, Seq<char>, Seq<char>, Seq<char>);

impl View for ApiKey {
    type V = ApiKeyView;

    open spec fn view(&self) -> ApiKeyView {
        (self.api_key@, self.api_secret@, self.api_url@, self.identity@, self.room@)
    }
}

impl Clone for ApiKey {
    fn clone(&self) -> (copy: Self)
        ensures
            copy@ == self@,
    {
        ApiKey {
            api_key: self.api_key.clone(),
            api_secret: self.api_secret.clone(),
            api_url: self.api_url.clone(),
            identity: self.identity.clone(),
            room: self.room.clone(),
        }
    }
}

impl Default for ApiKey {
    /// Every setting empty.
    fn default() -> (key: Self)
        ensures
            key@ == (
                Seq::<char>::empty(),
                Seq::<char>::empty(),
                Seq::<char>::empty(),
                Seq::<char>::empty(),
                Seq::<char>::empty(),
            ),
    {
        ApiKey {
            api_key: String::new(),
            api_secret: String::new(),
            api_url: String::new(),
            identity: String::new(),
            room: String::new(),
        }
    }
}

/// The language a `LANG` value asks for: trimmed, then lowercased, and only
/// when it is one of the known locales.
pub open spec fn spec_chosen_locale(lang: Seq<char>, known: Seq<Seq<char>>) -> Option<Seq<char>> {
    let language = lowercase(trimmed(lang));
    if known.contains(language) {
        Some(language)
    } else {
        None
    }
}

/// The views of a sequence of strings.
pub open spec fn string_views(s: Seq<String>) -> Seq<Seq<char>> {
    s.map_values(|k: String| k@)
}

/// The locale to switch to for `lang` — a bare `en`, `es`, `it` or `pt`, not
/// a POSIX tag — or `None` to keep the fallback.
pub fn chosen_locale(lang: &str, known: &[String]) -> (locale: Option<String>)
    ensures
        locale matches Some(l) ==> spec_chosen_locale(lang@, string_views(known@))
            == Some(l@),
        locale is None ==> spec_chosen_locale(lang@, string_views(known@)) is None,
{
    let trimmed_lang = trim(lang);
    let language = to_lowercase(trimmed_lang);
    assert(language@ == lowercase(trimmed(lang@)));
    let ghost views = string_views(known@);
    let mut i: usize = 0;
    while i < known.len()
        invariant
            i <= known@.len(),
            views == string_views(known@),
            language@ == lowercase(trimmed(lang@)),
            forall|j: int| 0 <= j < i ==> views[j] != language@,
        decreases known@.len() - i,
    {
        if str_eq(known[i].as_str(), language.as_str()) {
            assert(views[i as int] == language@);
            assert(views.contains(language@));
            return Some(language);
        }
        i = i + 1;
    }
    assert(!views.contains(language@));
    None
}

} // verus!
