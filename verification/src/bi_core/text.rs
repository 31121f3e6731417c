//! Text carried by error values: UTF-8 decoding of the bytes that a field
//! holds.

use vstd::prelude::*;
use vstd::string::*;
use vstd::utf8::*;

verus! {

/// `core::str::Utf8Error`, carried through unchanged; nothing is known of
/// what it holds.
#[verifier::external_type_specification]
#[verifier::external_body]
pub struct ExUtf8Error(core::str::Utf8Error);

/// `core::str::from_utf8` succeeds exactly on well-formed UTF-8, and the
/// string slice it then returns consists of the bytes it was given.
pub assume_specification[ core::str::from_utf8 ](v: &[u8]) -> (res: Result<
    &str,
    core::str::Utf8Error,
>)
    ensures
        res is Ok <==> valid_utf8(v@),
        res matches Ok(s) ==> s.spec_bytes() == v@,
;

/// Whether every byte of `s` is an ASCII character.
pub open spec fn is_ascii_bytes(s: Seq<u8>) -> bool {
    forall|i: int| 0 <= i < s.len() ==> #[trigger] s[i] < 0x80
}

/// A run of ASCII bytes is well-formed UTF-8.
pub proof fn lemma_ascii_is_utf8(s: Seq<u8>)
    requires
        is_ascii_bytes(s),
    ensures
        valid_utf8(s),
{
    assert(s.subrange(0, 0) =~= Seq::<u8>::empty());
    assert(valid_utf8(s.subrange(0, 0)));
    assert(partial_valid_utf8(s, 0));
    assert forall|i: int| 0 <= i < s.len() implies #[trigger] is_leading_byte_width_1(s[i]) by {
        assert(s[i] < 0x80);
    }
    partial_valid_utf8_extend_ascii_block(s, 0, s.len() as int);
    assert(s.subrange(0, s.len() as int) =~= s);
}

/// Decodes `bytes` as UTF-8 text.
pub fn text_of(bytes: &[u8]) -> (res: Result<String, core::str::Utf8Error>)
    ensures
        res is Ok <==> valid_utf8(bytes@),
        res matches Ok(s) ==> s@ == decode_utf8(bytes@),
{
    match core::str::from_utf8(bytes) {
        Ok(s) => {
            proof {
                encode_utf8_decode_utf8(s@);
            }
            Ok(s.to_owned())
        },
        Err(e) => Err(e),
    }
}

/// The text of a run of ASCII bytes.
pub fn ascii_text(bytes: &[u8]) -> (text: String)
    requires
        is_ascii_bytes(bytes@),
    ensures
        text@ == decode_utf8(bytes@),
{
    proof {
        lemma_ascii_is_utf8(bytes@);
    }
    match text_of(bytes) {
        Ok(s) => s,
        Err(_) => String::new(),
    }
}

/// `String::push` appends the character to the string.
#[verifier::external_body]
pub(crate) fn push_char(text: &mut String, c: char)
    ensures
        final(text)@ == old(text)@.push(c),
{
    text.push(c);
}

/// What `core::str::Utf8Error` says of itself when displayed: the text
/// that the standard library's `to_string` gives for it.
pub(crate) fn utf8_error_text(e: &core::str::Utf8Error) -> (text: String)
    ensures
        to_string_from_display_ensures::<core::str::Utf8Error>(e, text),
{
    e.to_string()
}

} // verus!
