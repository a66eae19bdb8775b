//! The JSON texts of strings and integers, which `serde_json` writes.

use vstd::prelude::*;

verus! {

/// The JSON text that `serde_json` writes for a string value: the string
/// between double quotes, with the characters escaped that JSON asks for.
pub uninterp spec fn json_string_text(text: Seq<char>) -> Seq<char>;

/// The decimal digit for `d`, which is between 0 and 9.
pub open spec fn digit_char(d: int) -> char {
    seq!['0', '1', '2', '3', '4', '5', '6', '7', '8', '9'][d]
}

/// The decimal digits of `n`, most significant first, without leading zeros.
pub open spec fn digits_text(n: nat) -> Seq<char>
    decreases n,
{
    if n < 10 {
        seq![digit_char(n as int)]
    } else {
        digits_text(n / 10).push(digit_char((n % 10) as int))
    }
}

/// The decimal text of an integer: a minus sign where it is negative, then
/// the digits of its magnitude.
pub open spec fn decimal_text(n: int) -> Seq<char> {
    if n < 0 {
        seq!['-'] + digits_text((-n) as nat)
    } else {
        digits_text(n as nat)
    }
}

/// The JSON text of a string, as the `Display` of `serde_json::Value` writes
/// a `Value::String`.
///
/// Not proved: the text depends on the characters of `text` alone. What it
/// is, is left to `serde_json`.
#[verifier::external_body]
pub(crate) fn string_json(text: &str) -> (json: String)
    ensures
        json@ == json_string_text(text@),
{
    serde_json::Value::String(text.to_owned()).to_string()
}

/// The JSON text of a signed integer, as the `Display` of
/// `serde_json::Value` writes a `Value::Number` made from an `i64`.
///
/// Not proved: the text is the integer in decimal.
#[verifier::external_body]
pub(crate) fn i64_json(value: i64) -> (json: String)
    ensures
        json@ == decimal_text(value as int),
{
    serde_json::Value::Number(value.into()).to_string()
}

/// The JSON text of an unsigned integer, as the `Display` of
/// `serde_json::Value` writes a `Value::Number` made from a `u64`.
///
/// Not proved: the text is the integer in decimal.
#[verifier::external_body]
pub(crate) fn u64_json(value: u64) -> (json: String)
    ensures
        json@ == decimal_text(value as int),
{
    serde_json::Value::Number(value.into()).to_string()
}

} // verus!
