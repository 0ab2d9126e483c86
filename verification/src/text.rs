//! Text handling: UTF-8 decoding, null stripping, and decimal rendering
//! of unsigned values.
//!
//! The two functions of std that do the heavy lifting are trusted with
//! contracts stated against vstd's UTF-8 model; everything around them is
//! verified.

use vstd::prelude::*;

verus! {

use vstd::utf8::{decode_utf8, valid_utf8};

/// Relies on `String::from_utf8`: it returns `Ok` exactly when the bytes
/// are valid UTF-8, and the string then holds the characters that the
/// bytes decode to.
#[verifier::external_body]
pub fn utf8_to_string(bytes: &[u8]) -> (result: Option<String>)
    ensures
        result is Some <==> valid_utf8(bytes@),
        result is Some ==> result->0@ == decode_utf8(bytes@),
{
    match String::from_utf8(bytes.to_vec()) {
        Ok(text) => Some(text),
        Err(_) => None,
    }
}

/// Relies on `str::replace`: replacing every occurrence of the
/// one-character pattern `"\0"` with the empty string removes exactly the
/// null characters and keeps the others in order.
#[verifier::external_body]
pub fn strip_nul(text: &String) -> (result: String)
    ensures
        result@ == text@.filter(|c: char| c != '\0'),
{
    text.replace("\0", "")
}

/// Relies on `String::push`: it appends the one character at the end.
#[verifier::external_body]
pub fn push_char(text: &mut String, c: char)
    ensures
        final(text)@ == old(text)@.push(c),
{
    text.push(c);
}

/// The character for one decimal digit.
pub open spec fn spec_digit_char(digit: int) -> char
    recommends
        0 <= digit < 10,
{
    ((48 + digit) as u8) as char
}

/// The decimal rendering of `n`, most significant digit first, with no
/// leading zero except for `n == 0` itself.
pub open spec fn spec_decimal(n: nat) -> Seq<char>
    decreases n,
{
    if n < 10 {
        seq![spec_digit_char(n as int)]
    } else {
        spec_decimal(n / 10).push(spec_digit_char((n % 10) as int))
    }
}

/// Renders `n` in decimal, the way the standard formatter writes an
/// unsigned integer.
pub fn u32_to_decimal(n: u32) -> (text: String)
    ensures
        text@ == spec_decimal(n as nat),
    decreases n,
{
    let digit: u8 = 48 + (n % 10) as u8;
    if n < 10 {
        let mut text = String::new();
        push_char(&mut text, digit as char);
        text
    } else {
        let mut text = u32_to_decimal(n / 10);
        push_char(&mut text, digit as char);
        text
    }
}

} // verus!
