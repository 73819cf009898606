//! Type-condition table for the Rust back-end: a pure mapping from a type
//! keyword to the Rust expression that is TRUE when a JSON value FAILS the
//! type check.

use crate::ast::TypeKeyword;
use crate::decimal::dec_i64;
use crate::decimal::dec_int;
use vstd::prelude::*;
use vstd::string::StringExecFns;

verus! {

/// The failing condition for an integer keyword with the given bounds.
pub open spec fn rs_int_cond_chars(val: Seq<char>, min: int, max: int) -> Seq<char> {
    "!"@ + val + ".as_f64().map_or(false, |n| n.fract() == 0.0 && n >= "@ + dec_int(min)
        + "_f64 && n <= "@ + dec_int(max) + "_f64)"@
}

/// The Rust expression that is true when `val` fails the check for `kw`.
pub open spec fn rs_type_cond_chars(kw: TypeKeyword, val: Seq<char>) -> Seq<char> {
    match kw {
        TypeKeyword::Boolean => "!"@ + val + ".is_boolean()"@,
        TypeKeyword::String => "!"@ + val + ".is_string()"@,
        TypeKeyword::Timestamp => "!"@ + val + ".as_str().map_or(false, |s| is_rfc3339(s))"@,
        TypeKeyword::Float32 => "!"@ + val + ".as_f64().map_or(false, |n| n.is_finite())"@,
        TypeKeyword::Float64 => "!"@ + val + ".as_f64().map_or(false, |n| n.is_finite())"@,
        TypeKeyword::Int8 => rs_int_cond_chars(val, -128, 127),
        TypeKeyword::Uint8 => rs_int_cond_chars(val, 0, 255),
        TypeKeyword::Int16 => rs_int_cond_chars(val, -32768, 32767),
        TypeKeyword::Uint16 => rs_int_cond_chars(val, 0, 65535),
        TypeKeyword::Int32 => rs_int_cond_chars(val, -2147483648, 2147483647),
        TypeKeyword::Uint32 => rs_int_cond_chars(val, 0, 4294967295),
    }
}

/// The failing condition for an integer range check.
fn int_cond(val: &str, min: i64, max: i64) -> (r: String)
    ensures
        r@ == rs_int_cond_chars(val@, min as int, max as int),
{
    let mut out = String::from_str("!");
    out.append(val);
    out.append(".as_f64().map_or(false, |n| n.fract() == 0.0 && n >= ");
    let lo = dec_i64(min);
    out.append(lo.as_str());
    out.append("_f64 && n <= ");
    let hi = dec_i64(max);
    out.append(hi.as_str());
    out.append("_f64)");
    out
}

/// The Rust expression that evaluates to `true` when `val` (a reference to a
/// parsed JSON value) does NOT satisfy the given type keyword.
pub fn type_condition(type_kw: TypeKeyword, val: &str) -> (r: String)
    ensures
        r@ == rs_type_cond_chars(type_kw, val@),
{
    match type_kw {
        TypeKeyword::Boolean => {
            let mut out = String::from_str("!");
            out.append(val);
            out.append(".is_boolean()");
            out
        },
        TypeKeyword::String => {
            let mut out = String::from_str("!");
            out.append(val);
            out.append(".is_string()");
            out
        },
        TypeKeyword::Timestamp => {
            // A string matching RFC 3339 with leap-second support.
            let mut out = String::from_str("!");
            out.append(val);
            out.append(".as_str().map_or(false, |s| is_rfc3339(s))");
            out
        },
        TypeKeyword::Float32 | TypeKeyword::Float64 => {
            // RFC 8927: both widths accept any finite JSON number.
            let mut out = String::from_str("!");
            out.append(val);
            out.append(".as_f64().map_or(false, |n| n.is_finite())");
            out
        },
        TypeKeyword::Int8 => int_cond(val, -128, 127),
        TypeKeyword::Uint8 => int_cond(val, 0, 255),
        TypeKeyword::Int16 => int_cond(val, -32768, 32767),
        TypeKeyword::Uint16 => int_cond(val, 0, 65535),
        TypeKeyword::Int32 => int_cond(val, -2147483648, 2147483647),
        TypeKeyword::Uint32 => int_cond(val, 0, 4294967295),
    }
}

/// True when the keyword's emitted check needs the timestamp helper.
pub fn needs_timestamp_helper(type_kw: TypeKeyword) -> (r: bool)
    ensures
        r == (type_kw is Timestamp),
{
    matches!(type_kw, TypeKeyword::Timestamp)
}

} // verus!
