use vstd::prelude::*;

verus! {

/// The number of bytes that UTF-8 takes for one character.
pub open spec fn char_utf8_len(c: char) -> nat {
    if (c as u32) < 0x80 {
        1
    } else if (c as u32) < 0x800 {
        2
    } else if (c as u32) < 0x10000 {
        3
    } else {
        4
    }
}

/// The number of bytes of the UTF-8 encoding of a character sequence.
pub open spec fn utf8_len(s: Seq<char>) -> nat
    decreases s.len(),
{
    if s.len() == 0 {
        0
    } else {
        utf8_len(s.drop_last()) + char_utf8_len(s.last())
    }
}

/// A text of ASCII characters takes one byte per character.
pub proof fn lemma_ascii_utf8_len(s: Seq<char>)
    requires
        forall|i: int| 0 <= i < s.len() ==> (#[trigger] s[i] as u32) < 0x80,
    ensures
        utf8_len(s) == s.len(),
    decreases s.len(),
{
    if s.len() > 0 {
        lemma_ascii_utf8_len(s.drop_last());
    }
}

/// The text buffer of a widget: a `heapless::String` of 32 bytes.
#[verifier::external_body]
pub struct Text {
    inner: heapless::String<32>,
}

/// The characters that a [`Text`] holds.
pub uninterp spec fn text_chars(t: Text) -> Seq<char>;

/// `<heapless::String<32> as FromStr>::from_str`: copies `s` when its UTF-8
/// encoding takes at most 32 bytes, and fails with `CapacityError` otherwise.
#[verifier::external_body]
pub fn text_from_str(s: &str) -> (r: Result<Text, heapless::CapacityError>)
    ensures
        r is Ok <==> utf8_len(s@) <= 32,
        r matches Ok(t) ==> text_chars(t) == s@,
{
    match <heapless::String<32> as core::str::FromStr>::from_str(s) {
        Ok(inner) => Ok(Text { inner }),
        Err(e) => Err(e),
    }
}

/// `heapless::String::clear`: empties the text.
#[verifier::external_body]
pub fn text_clear(t: &mut Text)
    ensures
        text_chars(*final(t)) == Seq::<char>::empty(),
{
    t.inner.clear()
}

/// `heapless::String::push_str`: appends `s` when the bytes of both fit in 32
/// bytes; otherwise fails with `CapacityError` and leaves the text as it was.
#[verifier::external_body]
pub fn text_push_str(t: &mut Text, s: &str) -> (r: Result<(), heapless::CapacityError>)
    ensures
        r is Ok <==> utf8_len(text_chars(*old(t))) + utf8_len(s@) <= 32,
        r is Ok ==> text_chars(*final(t)) == text_chars(*old(t)) + s@,
        r is Err ==> text_chars(*final(t)) == text_chars(*old(t)),
{
    t.inner.push_str(s)
}

/// `heapless::String::as_str`: the text as a string slice.
#[verifier::external_body]
pub fn text_as_str(t: &Text) -> (r: &str)
    ensures
        r@ == text_chars(*t),
{
    t.inner.as_str()
}

/// `heapless::String::clone`: a copy of the text.
#[verifier::external_body]
pub fn text_clone(t: &Text) -> (r: Text)
    ensures
        text_chars(r) == text_chars(*t),
{
    Text { inner: t.inner.clone() }
}

} // verus!
