//! The text codecs that the URI formats are built on: base64, percent
//! encoding, form encoding and UTF-8.

use crate::text::{chars_of, string_of_range, trim_end, trimmed_end};
use vstd::prelude::*;
use vstd::string::StringSliceAdditionalSpecFns;
use vstd::utf8::{decode_utf8, encode_utf8, valid_utf8};

verus! {

/// The error type of `base64::decode`.
#[verifier::external_type_specification]
#[verifier::external_body]
pub struct ExBase64DecodeError(base64::DecodeError);

/// The error type of `String::from_utf8`.
#[verifier::external_type_specification]
#[verifier::external_body]
pub struct ExFromUtf8Error(std::string::FromUtf8Error);

/// `String::from_utf8` of the standard library accepts exactly the byte
/// vectors that are valid UTF-8, and returns the text that they encode.
pub assume_specification[ String::from_utf8 ](bytes: Vec<u8>) -> (r: Result<
    String,
    std::string::FromUtf8Error,
>)
    ensures
        r is Ok <==> valid_utf8(bytes@),
        r matches Ok(s) ==> s@ == decode_utf8(bytes@),
;

/// The padded base64 text, in the standard alphabet, of a byte sequence.
pub uninterp spec fn base64_text(bytes: Seq<u8>) -> Seq<char>;

/// The bytes that a base64 text in the standard alphabet stands for, with
/// or without its padding, where the text is well formed.
pub uninterp spec fn base64_bytes(text: Seq<char>) -> Option<Seq<u8>>;

/// The text that percent-decoding gives: each `%` with two hexadecimal
/// digits behind it becomes the byte they write, and the bytes are read as
/// UTF-8, with the replacement character for what is not.
pub uninterp spec fn percent_decoded(text: Seq<char>) -> Seq<char>;

/// The form-encoded text of a sequence of pairs: `name=value`, joined by
/// `&`.
pub uninterp spec fn form_text(pairs: Seq<(Seq<char>, Seq<char>)>) -> Seq<char>;

/// The pairs that a form-encoded text holds, in its order.
pub uninterp spec fn form_pairs(text: Seq<char>) -> Seq<(Seq<char>, Seq<char>)>;

/// Whether a byte is an ASCII letter or digit.
pub open spec fn is_alphanumeric(b: u8) -> bool {
    ||| 0x30 <= b <= 0x39
    ||| 0x41 <= b <= 0x5a
    ||| 0x61 <= b <= 0x7a
}

/// The upper-case hexadecimal digit for a value below sixteen.
pub open spec fn hex_digit(n: int) -> char {
    if n < 10 {
        (0x30 + n) as u8 as char
    } else {
        (0x41 + n - 10) as u8 as char
    }
}

/// One byte, percent-encoded unless it is an ASCII letter or digit.
pub open spec fn percent_encoded_byte(b: u8) -> Seq<char> {
    if is_alphanumeric(b) {
        seq![b as char]
    } else {
        seq!['%', hex_digit(b as int / 16), hex_digit(b as int % 16)]
    }
}

/// A byte sequence with every byte but ASCII letters and digits written as
/// `%` and two upper-case hexadecimal digits.
pub open spec fn percent_encoded(bytes: Seq<u8>) -> Seq<char>
    decreases bytes.len(),
{
    if bytes.len() == 0 {
        Seq::empty()
    } else {
        percent_encoded(bytes.drop_last()) + percent_encoded_byte(bytes.last())
    }
}

/// The characters of an optional string.
pub open spec fn text_view(s: Option<String>) -> Option<Seq<char>> {
    match s {
        Some(t) => Some(t@),
        None => None,
    }
}

/// The pairs of characters that a vector of string pairs holds.
pub open spec fn pairs_view(pairs: Seq<(String, String)>) -> Seq<(Seq<char>, Seq<char>)> {
    Seq::new(pairs.len(), |i: int| (pairs[i].0@, pairs[i].1@))
}

/// The text that a base64 text holds: its bytes, read as UTF-8. `None`
/// where the base64 text is malformed or the bytes are no UTF-8.
pub open spec fn decoded_text(encoded: Seq<char>) -> Option<Seq<char>> {
    match base64_bytes(encoded) {
        Some(bytes) => if valid_utf8(bytes) {
            Some(decode_utf8(bytes))
        } else {
            None
        },
        None => None,
    }
}

/// The base64 text of the UTF-8 bytes of `text`, without its padding.
pub open spec fn unpadded_base64(text: Seq<char>) -> Seq<char> {
    trim_end(base64_text(encode_utf8(text)), '=')
}

/// Calls `base64::encode`, which encodes with the standard alphabet and
/// with padding. The result depends on the bytes alone.
#[verifier::external_body]
pub(crate) fn base64_encode(bytes: &[u8]) -> (r: String)
    ensures
        r@ == base64_text(bytes@),
{
    base64::encode(bytes)
}

/// Calls `base64::decode`, which reads the standard alphabet and does not
/// ask for padding. The result depends on the text alone.
#[verifier::external_body]
pub(crate) fn base64_decode(text: &str) -> (r: Result<Vec<u8>, base64::DecodeError>)
    ensures
        match r {
            Ok(bytes) => base64_bytes(text@) == Some(bytes@),
            Err(_) => base64_bytes(text@) is None,
        },
{
    base64::decode(text)
}

/// Calls `percent_encoding::percent_encode` with the set
/// `NON_ALPHANUMERIC`: every byte that is no ASCII letter or digit is
/// written as `%` and two upper-case hexadecimal digits, the others stay.
#[verifier::external_body]
pub(crate) fn percent_encode(bytes: &[u8]) -> (r: String)
    ensures
        r@ == percent_encoded(bytes@),
{
    percent_encoding::percent_encode(bytes, percent_encoding::NON_ALPHANUMERIC).to_string()
}

/// Calls `percent_encoding::percent_decode_str` and then
/// `decode_utf8_lossy` on what it returns. The result depends on the text
/// alone.
#[verifier::external_body]
pub(crate) fn percent_decode(text: &str) -> (r: String)
    ensures
        r@ == percent_decoded(text@),
{
    percent_encoding::percent_decode_str(text).decode_utf8_lossy().to_string()
}

/// Calls `extend_pairs` and `finish` on a new
/// `url::form_urlencoded::Serializer`. The result depends on the pairs
/// alone, in their order.
#[verifier::external_body]
pub(crate) fn form_encode(pairs: &Vec<(String, String)>) -> (r: String)
    ensures
        r@ == form_text(pairs_view(pairs@)),
{
    url::form_urlencoded::Serializer::new(String::new()).extend_pairs(pairs.iter()).finish()
}

/// Calls `url::form_urlencoded::parse` and collects the pairs it yields.
/// The result depends on the text alone.
#[verifier::external_body]
pub(crate) fn form_decode(text: &str) -> (r: Vec<(String, String)>)
    ensures
        pairs_view(r@) == form_pairs(text@),
{
    url::form_urlencoded::parse(text.as_bytes()).into_owned().collect()
}

/// Decodes a base64 text and reads the bytes as UTF-8.
pub fn decode_text(encoded: &str) -> (r: Option<String>)
    ensures
        text_view(r) == decoded_text(encoded@),
{
    match base64_decode(encoded) {
        Ok(bytes) => match String::from_utf8(bytes) {
            Ok(text) => Some(text),
            Err(_) => None,
        },
        Err(_) => None,
    }
}

/// Encodes the UTF-8 bytes of a text in base64 and leaves the padding out.
pub fn encode_text(text: &str) -> (r: String)
    ensures
        r@ == unpadded_base64(text@),
{
    let encoded = base64_encode(text.as_bytes());
    let v = chars_of(encoded.as_str());
    let end = trimmed_end(&v, 0, v.len(), '=');
    assert(v@.subrange(0, v@.len() as int) =~= v@);
    string_of_range(&v, 0, end)
}

} // verus!
