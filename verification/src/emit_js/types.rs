//! Type-condition table: a pure mapping from a type keyword to the JS
//! expression that is TRUE when the value FAILS the type check.

use crate::ast::TypeKeyword;
use crate::decimal::dec_i64;
use crate::decimal::dec_int;
use vstd::prelude::*;
use vstd::string::StringExecFns;

verus! {

/// The failing condition for an integer keyword with the given bounds.
pub open spec fn int_cond_chars(val: Seq<char>, min: int, max: int) -> Seq<char> {
    "typeof "@ + val + " !== \"number\" || !Number.isInteger("@ + val + ") || "@ + val + " < "@
        + dec_int(min) + " || "@ + val + " > "@ + dec_int(max)
}

/// The JS expression that is true when `val` fails the check for `kw`.
pub open spec fn type_cond_chars(kw: TypeKeyword, val: Seq<char>) -> Seq<char> {
    match kw {
        TypeKeyword::Boolean => "typeof "@ + val + " !== \"boolean\""@,
        TypeKeyword::String => "typeof "@ + val + " !== \"string\""@,
        TypeKeyword::Timestamp => "typeof "@ + val
            + " !== \"string\" || !/^\\d{4}-\\d{2}-\\d{2}[Tt]\\d{2}:\\d{2}:(\\d{2}|60)(\\.\\d+)?([Zz]|[+-]\\d{2}:\\d{2})$/.test("@
            + val + ") || Number.isNaN(Date.parse("@ + val + ".replace(/:60/, \":59\")))"@,
        TypeKeyword::Float32 => "typeof "@ + val + " !== \"number\" || !Number.isFinite("@ + val
            + ")"@,
        TypeKeyword::Float64 => "typeof "@ + val + " !== \"number\" || !Number.isFinite("@ + val
            + ")"@,
        TypeKeyword::Int8 => int_cond_chars(val, -128, 127),
        TypeKeyword::Uint8 => int_cond_chars(val, 0, 255),
        TypeKeyword::Int16 => int_cond_chars(val, -32768, 32767),
        TypeKeyword::Uint16 => int_cond_chars(val, 0, 65535),
        TypeKeyword::Int32 => int_cond_chars(val, -2147483648, 2147483647),
        TypeKeyword::Uint32 => int_cond_chars(val, 0, 4294967295),
    }
}

/// The failing condition for an integer range check.
fn int_cond(val: &str, min: i64, max: i64) -> (r: String)
    ensures
        r@ == int_cond_chars(val@, min as int, max as int),
{
    let mut out = String::from_str("typeof ");
    out.append(val);
    out.append(" !== \"number\" || !Number.isInteger(");
    out.append(val);
    out.append(") || ");
    out.append(val);
    out.append(" < ");
    let lo = dec_i64(min);
    out.append(lo.as_str());
    out.append(" || ");
    out.append(val);
    out.append(" > ");
    let hi = dec_i64(max);
    out.append(hi.as_str());
    out
}

/// The JS expression (as a string) that evaluates to `true` when `val` does
/// NOT satisfy the given type keyword.
pub fn type_condition(type_kw: TypeKeyword, val: &str) -> (r: String)
    ensures
        r@ == type_cond_chars(type_kw, val@),
{
    match type_kw {
        TypeKeyword::Boolean => {
            let mut out = String::from_str("typeof ");
            out.append(val);
            out.append(" !== \"boolean\"");
            out
        },
        TypeKeyword::String => {
            let mut out = String::from_str("typeof ");
            out.append(val);
            out.append(" !== \"string\"");
            out
        },
        TypeKeyword::Timestamp => {
            // RFC 3339 regex + parse check with leap-second normalization.
            let mut out = String::from_str("typeof ");
            out.append(val);
            out.append(
                " !== \"string\" || !/^\\d{4}-\\d{2}-\\d{2}[Tt]\\d{2}:\\d{2}:(\\d{2}|60)(\\.\\d+)?([Zz]|[+-]\\d{2}:\\d{2})$/.test(",
            );
            out.append(val);
            out.append(") || Number.isNaN(Date.parse(");
            out.append(val);
            out.append(".replace(/:60/, \":59\")))");
            out
        },
        TypeKeyword::Float32 | TypeKeyword::Float64 => {
            // RFC 8927: both widths accept any finite JSON number.
            let mut out = String::from_str("typeof ");
            out.append(val);
            out.append(" !== \"number\" || !Number.isFinite(");
            out.append(val);
            out.append(")");
            out
        },
        TypeKeyword::Int8 => int_cond(val, -128, 127),
        TypeKeyword::Uint8 => int_cond(val, 0, 255),
        TypeKeyword::Int16 => int_cond(val, -32768, 32767),
        TypeKeyword::Uint16 => int_cond(val, 0, 65535),
        TypeKeyword::Int32 => int_cond(val, -2147483648, 2147483647),
        TypeKeyword::Uint32 => int_cond(val, 0, 4294967295),
    }
}

} // verus!
