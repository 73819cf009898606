//! Per-form emitters for the leaf forms: Empty, Type, Enum, Ref.
//!
//! Each writes one fragment of validator source through the `CodeWriter`,
//! and is specified by a spec function giving the exact appended text.

use crate::ast::strs_view;
use crate::ast::TypeKeyword;
use crate::emit_js::context::push_error_chars;
use crate::emit_js::context::CtxChars;
use crate::emit_js::context::EmitContext;
use crate::emit_js::types::type_cond_chars;
use crate::emit_js::types::type_condition;
use crate::emit_js::writer::escape_js;
use crate::emit_js::writer::escape_js_chars;
use crate::emit_js::writer::line_text;
use crate::emit_js::writer::CodeWriter;
use vstd::prelude::*;
use vstd::string::StrSliceExecFns;
use vstd::string::StringExecFns;

verus! {

/// Whether a character counts as alphanumeric under Unicode.
pub uninterp spec fn is_unicode_alphanumeric(c: char) -> bool;

/// Relies on char::is_alphanumeric: true exactly for Unicode alphanumeric
/// characters, a function of the character alone.
pub assume_specification[ char::is_alphanumeric ](c: char) -> (r: bool)
    ensures
        r == is_unicode_alphanumeric(c),
;

// ── Empty ──────────────────────────────────────────────────────────────

/// Empty form: no code emitted; every value is accepted.
pub fn emit_empty(_w: &mut CodeWriter, _ctx: &EmitContext)
    ensures
        final(_w).buf@ == old(_w).buf@,
        final(_w).depth == old(_w).depth,
{
}

// ── Type ───────────────────────────────────────────────────────────────

/// The line a Type form emits.
pub open spec fn type_line(c: CtxChars, kw: TypeKeyword, d: nat) -> Seq<char> {
    line_text(d, "if ("@ + type_cond_chars(kw, c.val) + ") "@ + push_error_chars(c, "/type"@))
}

/// Type form: one inline type check.
pub fn emit_type(w: &mut CodeWriter, ctx: &EmitContext, type_kw: TypeKeyword)
    ensures
        final(w).buf@ == old(w).buf@ + type_line(ctx@, type_kw, old(w).depth as nat),
        final(w).depth == old(w).depth,
{
    let cond = type_condition(type_kw, ctx.val.as_str());
    let err_stmt = ctx.push_error("/type");
    let mut stmt = String::from_str("if (");
    stmt.append(cond.as_str());
    stmt.append(") ");
    stmt.append(err_stmt.as_str());
    w.line(stmt.as_str());
}

// ── Enum ───────────────────────────────────────────────────────────────

/// One enum value as a quoted, escaped JS string literal.
pub open spec fn enum_item(v: Seq<char>) -> Seq<char> {
    "\""@ + escape_js_chars(v) + "\""@
}

/// The enum values as a comma-separated list of JS string literals.
pub open spec fn enum_items(vs: Seq<Seq<char>>) -> Seq<char>
    decreases vs.len(),
{
    if vs.len() == 0 {
        Seq::empty()
    } else if vs.len() == 1 {
        enum_item(vs[0])
    } else {
        enum_items(vs.drop_last()) + ","@ + enum_item(vs.last())
    }
}

/// The line an Enum form emits.
pub open spec fn enum_line(c: CtxChars, vs: Seq<Seq<char>>, d: nat) -> Seq<char> {
    line_text(
        d,
        "if (typeof "@ + c.val + " !== \"string\" || !["@ + enum_items(vs) + "].includes("@
            + c.val + ")) "@ + push_error_chars(c, "/enum"@),
    )
}

/// Enum form: string type guard plus set membership.
pub fn emit_enum(w: &mut CodeWriter, ctx: &EmitContext, values: &Vec<String>)
    ensures
        final(w).buf@ == old(w).buf@ + enum_line(ctx@, strs_view(values@), old(w).depth as nat),
        final(w).depth == old(w).depth,
{
    let ghost vs = strs_view(values@);
    let n = values.len();
    let mut arr = String::new();
    let mut i: usize = 0;
    while i < n
        invariant
            n == values@.len(),
            0 <= i <= n,
            vs == strs_view(values@),
            arr@ == enum_items(vs.take(i as int)),
        decreases n - i,
    {
        if i > 0 {
            arr.append(",");
        }
        arr.append("\"");
        let e = escape_js(values[i].as_str());
        arr.append(e.as_str());
        arr.append("\"");
        proof {
            assert(vs.take(i as int + 1).drop_last() =~= vs.take(i as int));
            assert(vs.take(i as int + 1).last() == values@[i as int]@);
        }
        i += 1;
    }
    proof {
        assert(vs.take(n as int) =~= vs);
    }
    let err_stmt = ctx.push_error("/enum");
    let mut stmt = String::from_str("if (typeof ");
    stmt.append(ctx.val.as_str());
    stmt.append(" !== \"string\" || ![");
    stmt.append(arr.as_str());
    stmt.append("].includes(");
    stmt.append(ctx.val.as_str());
    stmt.append(")) ");
    stmt.append(err_stmt.as_str());
    w.line(stmt.as_str());
}

// ── Ref ────────────────────────────────────────────────────────────────

/// A definition name with every non-alphanumeric, non-underscore character
/// replaced by an underscore.
pub open spec fn sanitize_chars(s: Seq<char>) -> Seq<char>
    decreases s.len(),
{
    if s.len() == 0 {
        Seq::empty()
    } else {
        sanitize_chars(s.drop_last()) + (if is_unicode_alphanumeric(s.last()) || s.last() == '_' {
            seq![s.last()]
        } else {
            seq!['_']
        })
    }
}

/// The generated function name for a definition.
pub open spec fn def_fn_name_chars(name: Seq<char>) -> Seq<char> {
    "validate_"@ + sanitize_chars(name)
}

/// Sanitize a definition name into a valid JS function name.
pub fn def_fn_name(name: &str) -> (r: String)
    ensures
        r@ == def_fn_name_chars(name@),
{
    let n = name.unicode_len();
    let mut out = String::from_str("validate_");
    let mut i: usize = 0;
    while i < n
        invariant
            n == name@.len(),
            0 <= i <= n,
            out@ == "validate_"@ + sanitize_chars(name@.take(i as int)),
        decreases n - i,
    {
        let c = name.get_char(i);
        if c.is_alphanumeric() || c == '_' {
            let piece = name.substring_char(i, i + 1);
            out.append(piece);
            proof {
                assert(piece@ =~= seq![name@[i as int]]);
            }
        } else {
            out.append("_");
            proof {
                reveal_strlit("_");
                assert("_"@ =~= seq!['_']);
            }
        }
        proof {
            assert(name@.take(i as int + 1).drop_last() =~= name@.take(i as int));
            assert(name@.take(i as int + 1).last() == name@[i as int]);
        }
        i += 1;
    }
    proof {
        assert(name@.take(n as int) =~= name@);
    }
    out
}

/// The line a Ref form emits: a call to the generated definition function.
pub open spec fn ref_line(c: CtxChars, name: Seq<char>, d: nat) -> Seq<char> {
    line_text(
        d,
        def_fn_name_chars(name) + "("@ + c.val + ", "@ + c.err + ", "@ + c.ip
            + ", \"/definitions/"@ + escape_js_chars(name) + "\");"@,
    )
}

/// Ref form: call the generated definition function.  The schema path is
/// always the absolute `/definitions/<name>`, whatever the call depth --
/// recursive refs must not accumulate path prefixes.
pub fn emit_ref(w: &mut CodeWriter, ctx: &EmitContext, def_name: &str)
    ensures
        final(w).buf@ == old(w).buf@ + ref_line(ctx@, def_name@, old(w).depth as nat),
        final(w).depth == old(w).depth,
{
    let mut stmt = def_fn_name(def_name);
    stmt.append("(");
    stmt.append(ctx.val.as_str());
    stmt.append(", ");
    stmt.append(ctx.err.as_str());
    stmt.append(", ");
    stmt.append(ctx.ip.as_str());
    stmt.append(", \"/definitions/");
    let escaped = escape_js(def_name);
    stmt.append(escaped.as_str());
    stmt.append("\");");
    w.line(stmt.as_str());
}

} // verus!
