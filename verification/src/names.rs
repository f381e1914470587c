//! Rules for the names of catalog objects, and the ids minted for them.
use crate::error::{debug_form, debug_text, refused, text_wrapped, wrapped, Error, Fault};
use crate::text::chars_of;
use vstd::prelude::*;

verus! {

// ---------------------------------------------------------------------------
// Names
// ---------------------------------------------------------------------------

/// Why a name is refused for being empty; `what` says what it would name.
pub open spec fn empty_name(what: Seq<char>, name: Seq<char>) -> Option<Fault> {
    if name.len() == 0 {
        Some(Fault::Constraint(wrapped(what, " name must not be empty"@, ""@)))
    } else {
        None
    }
}

/// Whether a name may not be a segment of a storage path: a separator would
/// nest or collide prefixes, and a dot segment would leave the catalog root.
pub open spec fn unsafe_segment(name: Seq<char>) -> bool {
    name.contains('/') || name.contains('\\') || name == seq!['.'] || name == seq!['.', '.']
}

/// Why a name is refused where a storage path is derived from it.
pub open spec fn unsafe_name(what: Seq<char>, name: Seq<char>) -> Option<Fault> {
    if name.len() == 0 {
        empty_name(what, name)
    } else if unsafe_segment(name) {
        Some(
            Fault::Constraint(
                wrapped(
                    wrapped(what, " name "@, ""@),
                    debug_text(name),
                    " is unsafe in a storage path"@,
                ),
            ),
        )
    } else {
        None
    }
}

/// Refuses an empty name.
pub fn nonempty_name(what: &str, name: &str) -> (r: Result<(), Error>)
    ensures
        match empty_name(what@, name@) {
            Some(f) => refused(r, f),
            None => r is Ok,
        },
{
    if chars_of(name).len() == 0 {
        return Err(Error::Constraint(text_wrapped(what, " name must not be empty", "")));
    }
    Ok(())
}

fn is_unsafe_segment(name: &str) -> (r: bool)
    ensures
        r == unsafe_segment(name@),
{
    let chars = chars_of(name);
    let mut i: usize = 0;
    while i < chars.len()
        invariant
            i <= chars@.len(),
            chars@ == name@,
            forall|j: int| 0 <= j < i ==> #[trigger] chars@[j] != '/' && chars@[j] != '\\',
        decreases chars.len() - i,
    {
        if chars[i] == '/' || chars[i] == '\\' {
            assert(name@[i as int] == chars@[i as int]);
            return true;
        }
        i = i + 1;
    }
    if chars.len() == 1 && chars[0] == '.' {
        assert(name@ =~= seq!['.']);
        return true;
    }
    if chars.len() == 2 && chars[0] == '.' && chars[1] == '.' {
        assert(name@ =~= seq!['.', '.']);
        return true;
    }
    false
}

/// Refuses a name that is unsafe in the storage path derived from it.
pub fn path_safe_name(what: &str, name: &str) -> (r: Result<(), Error>)
    ensures
        match unsafe_name(what@, name@) {
            Some(f) => refused(r, f),
            None => r is Ok,
        },
{
    if chars_of(name).len() == 0 {
        return nonempty_name(what, name);
    }
    if is_unsafe_segment(name) {
        let head = text_wrapped(what, " name ", "");
        let shown = debug_form(name);
        return Err(
            Error::Constraint(
                text_wrapped(head.as_str(), shown.as_str(), " is unsafe in a storage path"),
            ),
        );
    }
    Ok(())
}

// ---------------------------------------------------------------------------
// Unique ids
// ---------------------------------------------------------------------------

/// A lower-case hexadecimal digit.
pub open spec fn hex_digit(c: char) -> bool {
    '0' <= c <= '9' || 'a' <= c <= 'f'
}

/// The text form of a random unique id: five groups of lower-case hexadecimal
/// digits, with the version and the variant in their places.
pub open spec fn uuid_text(t: Seq<char>) -> bool {
    &&& t.len() == 36
    &&& t[8] == '-' && t[13] == '-' && t[18] == '-' && t[23] == '-'
    &&& t[14] == '4'
    &&& t[19] == '8' || t[19] == '9' || t[19] == 'a' || t[19] == 'b'
    &&& forall|i: int|
        0 <= i < 36 && i != 8 && i != 13 && i != 18 && i != 23 ==> hex_digit(#[trigger] t[i])
}

/// `uuid::Uuid::new_v4`, in text: a fresh random id of version 4. Which one is
/// left to chance; its form is not.
#[verifier::external_body]
pub(crate) fn new_uuid() -> (t: String)
    ensures
        uuid_text(t@),
{
    uuid::Uuid::new_v4().to_string()
}

} // verus!
