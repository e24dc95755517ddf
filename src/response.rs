use vstd::prelude::*;
use vstd::utf8::encode_utf8;
use crate::decimal::{all_digits, digits_value, parse_u32, u32_of_text, unsigned_digits};
use crate::error::{ApiError, DecodeFault};
use crate::scan::{has_overlong_fraction, overlong_fraction};

verus! {

#[verifier::external_type_specification]
#[verifier::external_body]
pub struct ExJsonValue(json::JsonValue);

#[verifier::external_type_specification]
#[verifier::external_body]
pub struct ExJsonError(json::Error);

/// Whether `json::parse` accepts `text` as a JSON document.
pub uninterp spec fn is_json(text: Seq<char>) -> bool;

/// The document that `json::parse` makes of `text`.
pub uninterp spec fn json_of(text: Seq<char>) -> json::JsonValue;

/// What decoding a body as a JSON document yields.
pub open spec fn tree_result(text: Seq<char>) -> Result<json::JsonValue, ApiError> {
    if has_overlong_fraction(encode_utf8(text)) {
        Err(ApiError::Decode(DecodeFault::FractionTooLong))
    } else if !is_json(text) {
        Err(ApiError::Decode(DecodeFault::NotJson))
    } else {
        Ok(json_of(text))
    }
}

/// What decoding quota field `field` out of a body yields.
pub open spec fn quota_result(text: Seq<char>, field: Seq<char>) -> Result<u32, ApiError> {
    match tree_result(text) {
        Ok(t) => quota_in(t, field),
        Err(e) => Err(e),
    }
}

/// Relies on `json::parse`: it returns `Ok` exactly on the texts it accepts,
/// and its result depends on the text alone. Reading the fraction of a
/// number whose integer part is a lone `0`, it lowers an `i16` exponent
/// once per digit that still fits the mantissa, and panics when that
/// overflows; such texts are left out.
#[verifier::external_body]
fn parse_json(text: &str) -> (r: Result<json::JsonValue, json::Error>)
    requires
        !has_overlong_fraction(encode_utf8(text@)),
    ensures
        r is Ok <==> is_json(text@),
        r is Ok ==> r->Ok_0 == json_of(text@),
{
    json::parse(text)
}

/// The members of a JSON object whose values are strings, by key (empty
/// for a value that is not an object).
pub uninterp spec fn string_members(v: json::JsonValue) -> Map<Seq<char>, Seq<char>>;

/// Relies on `JsonValue`'s `Index<&str>` and `JsonValue::as_str`: indexing an
/// object by a key gives that member (`Null` when absent or when the value is
/// no object), and `as_str` gives the text of a string value and `None`
/// otherwise.
#[verifier::external_body]
fn string_member(v: &json::JsonValue, key: &str) -> (r: Option<String>)
    ensures
        r is Some <==> string_members(*v).contains_key(key@),
        r is Some ==> r->0@ == string_members(*v)[key@],
{
    v[key].as_str().map(String::from)
}

/// The quota that a member's text gives: absent, or not a number, is a
/// decoding failure.
pub open spec fn quota_of(member: Option<Seq<char>>) -> Result<u32, ApiError> {
    match member {
        None => Err(ApiError::Decode(DecodeFault::MissingField)),
        Some(t) => match u32_of_text(t) {
            Some(n) => Ok(n),
            None => Err(ApiError::Decode(DecodeFault::NotNumber)),
        },
    }
}

/// The result of reading quota field `field` out of the document `tree`.
pub open spec fn quota_in(tree: json::JsonValue, field: Seq<char>) -> Result<u32, ApiError> {
    quota_of(string_members(tree).get(field))
}

/// Decodes a quota from the text of its member, if there is one.
pub fn quota_from_member(member: Option<&str>) -> (r: Result<u32, ApiError>)
    ensures
        r == quota_of(match member {
            Some(t) => Some(t@),
            None => None,
        }),
{
    match member {
        None => Err(ApiError::Decode(DecodeFault::MissingField)),
        Some(t) => match parse_u32(t) {
            Some(n) => Ok(n),
            None => Err(ApiError::Decode(DecodeFault::NotNumber)),
        },
    }
}

/// Reads the quota held as a decimal string in member `field` of `tree`.
pub fn quota_in_tree(tree: &json::JsonValue, field: &str) -> (r: Result<u32, ApiError>)
    ensures
        r == quota_in(*tree, field@),
{
    let member = string_member(tree, field);
    match member {
        Some(t) => quota_from_member(Some(t.as_str())),
        None => quota_from_member(None),
    }
}

/// Parses a response body as JSON; the tree is returned as parsed.
pub fn decode_tree(body: &str) -> (r: Result<json::JsonValue, ApiError>)
    ensures
        r == tree_result(body@),
{
    if overlong_fraction(body) {
        return Err(ApiError::Decode(DecodeFault::FractionTooLong));
    }
    match parse_json(body) {
        Ok(v) => Ok(v),
        Err(_) => Err(ApiError::Decode(DecodeFault::NotJson)),
    }
}

/// Decodes the quota field `field` of a `getlimit` response body.
pub fn decode_quota(body: &str, field: &str) -> (r: Result<u32, ApiError>)
    ensures
        r == quota_result(body@, field@),
        !is_json(body@) ==> r is Err && r->Err_0 is Decode,
{
    match decode_tree(body) {
        Ok(tree) => quota_in_tree(&tree, field),
        Err(e) => Err(e),
    }
}

/// The daily call limit, from a `getlimit` response body (member `LIMIT`).
pub fn decode_limit(body: &str) -> (r: Result<u32, ApiError>)
    ensures
        r == quota_result(body@, "LIMIT"@),
        !is_json(body@) ==> r is Err && r->Err_0 is Decode,
{
    decode_quota(body, "LIMIT")
}

/// The calls left today, from a `getlimit` response body (member `REMAINING`).
pub fn decode_remaining(body: &str) -> (r: Result<u32, ApiError>)
    ensures
        r == quota_result(body@, "REMAINING"@),
        !is_json(body@) ==> r is Err && r->Err_0 is Decode,
{
    decode_quota(body, "REMAINING")
}

/// A body whose quota member holds a plain digit string that fits in 32
/// bits decodes to exactly that number.
pub proof fn lemma_digit_member_exact(body: Seq<char>, field: Seq<char>, digits: Seq<char>)
    requires
        is_json(body),
        !has_overlong_fraction(encode_utf8(body)),
        string_members(json_of(body)).get(field) == Some(digits),
        digits.len() > 0,
        all_digits(digits),
        digits_value(digits) <= u32::MAX,
    ensures
        quota_result(body, field) == Ok::<u32, ApiError>(digits_value(digits) as u32),
{
    assert(crate::decimal::is_digit(digits[0]));
    assert(unsigned_digits(digits) == digits);
}

} // verus!
