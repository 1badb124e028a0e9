use vstd::prelude::*;
use vstd::utf8::{decode_utf8, valid_utf8};

verus! {

#[verifier::external_type_specification]
#[verifier::external_body]
pub struct ExDecodeError(base64::DecodeError);

#[verifier::external_type_specification]
#[verifier::external_body]
pub struct ExFromUtf8Error(std::string::FromUtf8Error);

/// The character of the standard base64 alphabet for a six-bit value.
pub open spec fn base64_symbol(v: int) -> char {
    if v < 26 {
        (65 + v) as char
    } else if v < 52 {
        (71 + v) as char
    } else if v < 62 {
        (v - 4) as char
    } else if v == 62 {
        '+'
    } else {
        '/'
    }
}

/// Standard base64 with `=` padding: each three bytes become four
/// characters; a last one or two bytes become four characters ending in
/// `==` or `=`.
pub open spec fn base64_text(b: Seq<u8>) -> Seq<char>
    decreases b.len(),
{
    if b.len() == 0 {
        Seq::empty()
    } else if b.len() == 1 {
        seq![base64_symbol((b[0] / 4) as int), base64_symbol((b[0] % 4) * 16), '=', '=']
    } else if b.len() == 2 {
        seq![
            base64_symbol((b[0] / 4) as int),
            base64_symbol((b[0] % 4) * 16 + b[1] / 16),
            base64_symbol((b[1] % 16) * 4),
            '=',
        ]
    } else {
        seq![
            base64_symbol((b[0] / 4) as int),
            base64_symbol((b[0] % 4) * 16 + b[1] / 16),
            base64_symbol((b[1] % 16) * 4 + b[2] / 64),
            base64_symbol((b[2] % 64) as int),
        ] + base64_text(b.skip(3))
    }
}

/// The bytes that base64's `decode` (standard alphabet, padding) reads from
/// `text`, if it accepts the text.
pub uninterp spec fn base64_decoded(text: Seq<char>) -> Option<Seq<u8>>;

/// base64's `encode`, which uses the standard alphabet with padding. Its
/// documentation shows that `decode` reads back from this text the bytes
/// that were encoded.
#[verifier::external_body]
pub(crate) fn base64_encode(data: &[u8]) -> (r: String)
    ensures
        r@ == base64_text(data@),
        base64_decoded(r@) == Some(data@),
{
    base64::encode(data)
}

/// base64's `decode` (standard alphabet, padding). The contract names what
/// it returns, which depends on `text` alone.
#[verifier::external_body]
pub(crate) fn base64_decode(text: &str) -> (r: Result<Vec<u8>, base64::DecodeError>)
    ensures
        r is Ok <==> base64_decoded(text@) is Some,
        r matches Ok(bytes) ==> base64_decoded(text@) == Some(bytes@),
{
    base64::decode(text)
}

/// std's `String::from_utf8`: the text that `bytes` encode when they are
/// valid UTF-8, an error otherwise.
#[verifier::external_body]
pub(crate) fn string_from_utf8(bytes: Vec<u8>) -> (r: Result<String, std::string::FromUtf8Error>)
    ensures
        r is Ok <==> valid_utf8(bytes@),
        r matches Ok(s) ==> s@ == decode_utf8(bytes@),
{
    String::from_utf8(bytes)
}

} // verus!
