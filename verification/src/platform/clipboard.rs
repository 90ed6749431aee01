//! Which clipboard texts are taken over, and in which form.

use vstd::prelude::*;
use vstd::string::*;

use crate::platform::report::{equal_ignoring_case, lower_ascii, BackendError, BackendKind};
use crate::text::{chars_of, same_text};

verus! {

pub const UTF8_TEXT: &'static str = "text/plain;charset=utf-8";

pub const PLAIN_TEXT: &'static str = "text/plain";

/// What a clipboard service tells.
#[derive(Debug, PartialEq, Eq)]
pub enum ClipboardServiceEvent {
    Ready { backend: BackendKind },
    Changed { text: String },
    Applied,
    Failed { operation: &'static str, reason: String },
    Stopped,
}

/// Checks the length of a text in UTF-8 bytes.
pub fn validate_text_length(text: &str, maximum: usize) -> (result: Result<(), BackendError>)
    ensures
        result == if vstd::utf8::encode_utf8(text@).len() > maximum {
            Err::<(), BackendError>(
                BackendError::ClipboardTextTooLarge {
                    actual: vstd::utf8::encode_utf8(text@).len() as usize,
                    maximum,
                },
            )
        } else {
            Ok(())
        },
{
    let actual: usize = text.as_bytes().len();
    if actual > maximum {
        return Err(BackendError::ClipboardTextTooLarge { actual, maximum });
    }
    Ok(())
}

/// The text without its spaces.
pub open spec fn without_spaces(text: Seq<char>) -> Seq<char> {
    text.filter(|c: char| c != ' ')
}

/// The type is plain text in UTF-8, whatever its case and spacing.
pub open spec fn is_utf8_text(mime_type: Seq<char>) -> bool {
    crate::identity::pairing::has_prefix(
        without_spaces(crate::identity::pairing::lowered(mime_type)),
        UTF8_TEXT@,
    )
}

/// The type is plain text in no named encoding, whatever its case.
pub open spec fn is_plain_text(mime_type: Seq<char>) -> bool {
    crate::platform::report::same_ignoring_case(mime_type, PLAIN_TEXT@)
}

pub open spec fn type_views(mime_types: Seq<String>) -> Seq<Seq<char>> {
    mime_types.map_values(|mime_type: String| mime_type@)
}

/// The first UTF-8 text type stands at `index`.
pub open spec fn is_first_utf8(mime_types: Seq<Seq<char>>, index: int) -> bool {
    &&& 0 <= index < mime_types.len()
    &&& is_utf8_text(mime_types[index])
    &&& forall|i: int| 0 <= i < index ==> !is_utf8_text(#[trigger] mime_types[i])
}

/// The first plain text type stands at `index`, and none is UTF-8 text.
pub open spec fn is_first_plain(mime_types: Seq<Seq<char>>, index: int) -> bool {
    &&& 0 <= index < mime_types.len()
    &&& is_plain_text(mime_types[index])
    &&& forall|i: int| 0 <= i < index ==> !is_plain_text(#[trigger] mime_types[i])
    &&& forall|i: int| 0 <= i < mime_types.len() ==> !is_utf8_text(#[trigger] mime_types[i])
}

/// The type that a text is read in stands at `index`.
pub open spec fn is_preferred(mime_types: Seq<Seq<char>>, index: int) -> bool {
    is_first_utf8(mime_types, index) || is_first_plain(mime_types, index)
}

fn utf8_text(mime_type: &str) -> (result: bool)
    ensures
        result == is_utf8_text(mime_type@),
{
    let characters = chars_of(mime_type);
    let expected = chars_of(UTF8_TEXT);
    let ghost lower = crate::identity::pairing::lowered(mime_type@);
    let mut plain: Vec<char> = Vec::new();
    let mut index: usize = 0;
    assert(lower.take(0) =~= Seq::<char>::empty());
    proof {
        reveal(Seq::filter);
    }
    while index < characters.len()
        invariant
            index <= characters@.len(),
            characters@ == mime_type@,
            lower == crate::identity::pairing::lowered(mime_type@),
            plain@ == without_spaces(lower.take(index as int)),
        decreases characters@.len() - index,
    {
        let character = lower_ascii(characters[index]);
        proof {
            reveal(Seq::filter);
            assert(lower.take(index + 1).drop_last() =~= lower.take(index as int));
            assert(lower.take(index + 1).last() == character);
        }
        if character != ' ' {
            plain.push(character);
        }
        index += 1;
    }
    assert(lower.take(index as int) =~= lower);
    if plain.len() < expected.len() {
        return false;
    }
    let mut index: usize = 0;
    while index < expected.len()
        invariant
            index <= expected@.len() <= plain@.len(),
            plain@ == without_spaces(lower),
            lower == crate::identity::pairing::lowered(mime_type@),
            expected@ == UTF8_TEXT@,
            forall|i: int| 0 <= i < index ==> #[trigger] plain@[i] == expected@[i],
        decreases expected@.len() - index,
    {
        if plain[index] != expected[index] {
            assert(plain@.take(expected@.len() as int)[index as int] != expected@[index as int]);
            return false;
        }
        index += 1;
    }
    assert(plain@.take(expected@.len() as int) =~= expected@);
    true
}

/// The type that a text is read in: the first of UTF-8 text, or else the first
/// of plain text.
pub fn text_mime_type(mime_types: &[String]) -> (mime_type: Option<&str>)
    ensures
        match mime_type {
            Some(mime_type) => exists|index: int|
                #[trigger] is_preferred(type_views(mime_types@), index) && mime_type@
                    == type_views(mime_types@)[index],
            None => forall|i: int|
                0 <= i < mime_types@.len() ==> !is_utf8_text(
                    #[trigger] type_views(mime_types@)[i],
                ) && !is_plain_text(type_views(mime_types@)[i]),
        },
{
    let ghost views = type_views(mime_types@);
    let mut index: usize = 0;
    while index < mime_types.len()
        invariant
            index <= mime_types@.len(),
            views == type_views(mime_types@),
            forall|i: int| 0 <= i < index ==> !is_utf8_text(#[trigger] views[i]),
        decreases mime_types@.len() - index,
    {
        assert(views[index as int] == mime_types@[index as int]@);
        if utf8_text(mime_types[index].as_str()) {
            assert(is_preferred(views, index as int));
            return Some(mime_types[index].as_str());
        }
        index += 1;
    }
    let mut index: usize = 0;
    while index < mime_types.len()
        invariant
            index <= mime_types@.len(),
            views == type_views(mime_types@),
            forall|i: int| 0 <= i < mime_types@.len() ==> !is_utf8_text(#[trigger] views[i]),
            forall|i: int| 0 <= i < index ==> !is_plain_text(#[trigger] views[i]),
        decreases mime_types@.len() - index,
    {
        assert(views[index as int] == mime_types@[index as int]@);
        if equal_ignoring_case(mime_types[index].as_str(), PLAIN_TEXT) {
            assert(is_preferred(views, index as int));
            return Some(mime_types[index].as_str());
        }
        index += 1;
    }
    None
}

/// The types that an own text is offered in.
pub open spec fn is_offered_type(mime_type: Seq<char>) -> bool {
    mime_type == PLAIN_TEXT@ || mime_type == UTF8_TEXT@
}

pub fn is_supported_text_mime(mime_type: &str) -> (result: bool)
    ensures
        result == is_offered_type(mime_type@),
{
    same_text(mime_type, PLAIN_TEXT) || same_text(mime_type, UTF8_TEXT)
}

/// Whether a change of the clipboard's owner is read: one that this session did
/// not make itself.
pub fn is_foreign_change(belongs_to_session: bool, session_is_owner: Option<bool>) -> (result:
    bool)
    ensures
        result == (belongs_to_session && session_is_owner != Some(true)),
{
    belongs_to_session && match session_is_owner {
        Some(owner) => !owner,
        None => true,
    }
}

/// What reading the clipboard came to.
#[derive(Debug, PartialEq, Eq)]
pub enum ClipboardNews {
    Nothing,
    Changed(String),
    TooLarge(BackendError),
    Unreadable(String),
}

/// A clipboard that is looked at again and again.
#[derive(Debug)]
pub struct WatchedClipboard {
    last_seen: Option<String>,
    last_error: Option<String>,
    maximum_text_bytes: usize,
}

pub ghost struct WatchedView {
    pub last_seen: Option<Seq<char>>,
    pub last_error: Option<Seq<char>>,
    pub maximum_text_bytes: usize,
}

pub open spec fn text_view(text: Option<String>) -> Option<Seq<char>> {
    match text {
        Some(text) => Some(text@),
        None => None,
    }
}

impl View for WatchedClipboard {
    type V = WatchedView;

    closed spec fn view(&self) -> WatchedView {
        WatchedView {
            last_seen: text_view(self.last_seen),
            last_error: text_view(self.last_error),
            maximum_text_bytes: self.maximum_text_bytes,
        }
    }
}

/// The state after a look at the clipboard.
pub open spec fn watched_after(
    state: WatchedView,
    read: Result<Option<Seq<char>>, Seq<char>>,
) -> WatchedView {
    match read {
        Ok(text) => WatchedView { last_seen: text, last_error: None, ..state },
        Err(reason) => WatchedView { last_error: Some(reason), ..state },
    }
}

/// `news` is what a look at the clipboard tells: a text that is new, or an error
/// that is new.
pub open spec fn is_news(
    news: ClipboardNews,
    state: WatchedView,
    read: Result<Option<Seq<char>>, Seq<char>>,
) -> bool {
    match read {
        Ok(Some(text)) => if state.last_seen == Some(text) {
            news is Nothing
        } else if vstd::utf8::encode_utf8(text).len() > state.maximum_text_bytes {
            news == ClipboardNews::TooLarge(
                BackendError::ClipboardTextTooLarge {
                    actual: vstd::utf8::encode_utf8(text).len() as usize,
                    maximum: state.maximum_text_bytes,
                },
            )
        } else {
            news matches ClipboardNews::Changed(changed) && changed@ == text
        },
        Ok(None) => news is Nothing,
        Err(reason) => if state.last_error == Some(reason) {
            news is Nothing
        } else {
            news matches ClipboardNews::Unreadable(told) && told@ == reason
        },
    }
}

pub open spec fn read_view(read: Result<Option<String>, String>) -> Result<
    Option<Seq<char>>,
    Seq<char>,
> {
    match read {
        Ok(text) => Ok(text_view(text)),
        Err(reason) => Err(reason@),
    }
}

fn same_optional_text(a: &Option<String>, b: &Option<String>) -> (result: bool)
    ensures
        result == (text_view(*a) == text_view(*b)),
{
    match (a, b) {
        (Some(a), Some(b)) => same_text(a.as_str(), b.as_str()),
        (None, None) => true,
        _ => false,
    }
}

fn copy_optional_text(text: &Option<String>) -> (copy: Option<String>)
    ensures
        text_view(copy) == text_view(*text),
{
    match text {
        Some(text) => Some(text.clone()),
        None => None,
    }
}

impl WatchedClipboard {
    /// A clipboard that held this text at first.
    pub fn new(first: Option<String>, maximum_text_bytes: usize) -> (clipboard: WatchedClipboard)
        ensures
            clipboard@ == (WatchedView {
                last_seen: text_view(first),
                last_error: None,
                maximum_text_bytes,
            }),
    {
        WatchedClipboard { last_seen: first, last_error: None, maximum_text_bytes }
    }

    /// An own text was put into the clipboard.
    pub fn applied(&mut self, text: String)
        ensures
            final(self)@ == (WatchedView { last_seen: Some(text@), ..old(self)@ }),
    {
        self.last_seen = Some(text);
    }

    /// The clipboard was looked at.
    pub fn observe(&mut self, read: Result<Option<String>, String>) -> (news: ClipboardNews)
        ensures
            is_news(news, old(self)@, read_view(read)),
            final(self)@ == watched_after(old(self)@, read_view(read)),
    {
        match read {
            Ok(text) => {
                self.last_error = None;
                if same_optional_text(&text, &self.last_seen) {
                    return ClipboardNews::Nothing;
                }
                self.last_seen = copy_optional_text(&text);
                match text {
                    Some(text) => match validate_text_length(
                        text.as_str(),
                        self.maximum_text_bytes,
                    ) {
                        Ok(()) => ClipboardNews::Changed(text),
                        Err(error) => ClipboardNews::TooLarge(error),
                    },
                    None => ClipboardNews::Nothing,
                }
            },
            Err(reason) => {
                let known = match &self.last_error {
                    Some(last) => same_text(last.as_str(), reason.as_str()),
                    None => false,
                };
                if known {
                    return ClipboardNews::Nothing;
                }
                self.last_error = Some(reason.clone());
                ClipboardNews::Unreadable(reason)
            },
        }
    }
}

/// A text that this node put into the clipboard is not taken for news, and
/// neither is a text or an error that was told already.
pub proof fn law_known_clipboard_states_are_no_news(
    state: WatchedView,
    text: Seq<char>,
    read: Result<Option<Seq<char>>, Seq<char>>,
    news: ClipboardNews,
)
    ensures
        is_news(news, WatchedView { last_seen: Some(text), ..state }, Ok(Some(text)))
            ==> news is Nothing,
        is_news(news, watched_after(state, read), read) ==> news is Nothing,
{
}

} // verus!
