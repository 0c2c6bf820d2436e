use vstd::prelude::*;

verus! {

/// Appends one character to a string.
/// Relies on `String::push`, which adds `c` at the end.
#[verifier::external_body]
pub(crate) fn push_char(s: &mut String, c: char)
    ensures
        final(s)@ == old(s)@.push(c),
{
    s.push(c);
}

/// The text that a byte sequence decodes to as UTF-8, if it is well formed.
pub uninterp spec fn utf8_text_of(b: Seq<u8>) -> Option<Seq<char>>;

/// Decodes bytes as UTF-8.
/// Relies on `std::str::from_utf8`: `Err` exactly when the bytes are not
/// well-formed UTF-8; otherwise the text that they encode.
#[verifier::external_body]
pub(crate) fn decode_utf8(b: &[u8]) -> (r: Option<String>)
    ensures
        r.is_some() == utf8_text_of(b@).is_some(),
        r.is_some() ==> r.unwrap()@ == utf8_text_of(b@).unwrap(),
{
    match std::str::from_utf8(b) {
        Ok(t) => Some(t.to_string()),
        Err(_) => None,
    }
}

/// A text with its trailing whitespace removed.
pub uninterp spec fn trim_end_of(s: Seq<char>) -> Seq<char>;

/// Removes trailing whitespace.
/// Relies on `str::trim_end`: the result depends on the characters alone.
#[verifier::external_body]
pub(crate) fn trim_end(s: &str) -> (r: String)
    ensures
        r@ == trim_end_of(s@),
{
    s.trim_end().to_string()
}

/// A text with its leading and trailing whitespace removed.
pub uninterp spec fn trim_of(s: Seq<char>) -> Seq<char>;

/// Removes leading and trailing whitespace.
/// Relies on `str::trim`: the result depends on the characters alone.
#[verifier::external_body]
pub(crate) fn trim(s: &str) -> (r: String)
    ensures
        r@ == trim_of(s@),
{
    s.trim().to_string()
}

} // verus!
