//! EmitContext: the lexical scope threaded through each emit function.
//!
//! The context carries the JS expressions for the value under test, the
//! error accumulator, the instance path and the schema path, plus a nesting
//! counter for synthesizing loop-variable names.  Each descent into a child
//! node produces a fresh context; keys are escaped as they enter the
//! generated expressions.

use crate::decimal::dec_nat;
use crate::decimal::dec_u64;
use crate::emit_js::writer::escape_js;
use crate::emit_js::writer::escape_js_chars;
use vstd::prelude::*;
use vstd::string::StrSliceExecFns;
use vstd::string::StringExecFns;

verus! {

/// The spec-level shape of an `EmitContext`.
pub struct CtxChars {
    pub val: Seq<char>,
    pub err: Seq<char>,
    pub ip: Seq<char>,
    pub sp: Seq<char>,
    pub depth: nat,
}

/// Context passed to each per-node emit function.
#[derive(Debug)]
pub struct EmitContext {
    /// JS expression for the value being validated.
    pub val: String,
    /// JS expression for the errors array.
    pub err: String,
    /// JS expression for the instance path.
    pub ip: String,
    /// JS expression for the schema path.
    pub sp: String,
    /// Nesting depth for generating unique loop variable names.
    pub depth: usize,
}

impl View for EmitContext {
    type V = CtxChars;

    open spec fn view(&self) -> CtxChars {
        CtxChars {
            val: self.val@,
            err: self.err@,
            ip: self.ip@,
            sp: self.sp@,
            depth: self.depth as nat,
        }
    }
}

/// The root context: scope of the exported `validate` entry point.
pub open spec fn ctx_root_chars() -> CtxChars {
    CtxChars { val: "instance"@, err: "e"@, ip: "\"\""@, sp: "\"\""@, depth: 0 }
}

/// The definition context: scope of a generated definition function body.
pub open spec fn ctx_definition_chars() -> CtxChars {
    CtxChars { val: "v"@, err: "e"@, ip: "p"@, sp: "sp"@, depth: 0 }
}

/// The loop index variable for a nesting depth: `i`, `i1`, `i2`, ...
pub open spec fn idx_var_chars(d: nat) -> Seq<char> {
    if d == 0 {
        "i"@
    } else {
        "i"@ + dec_nat(d)
    }
}

/// The loop key variable for a nesting depth: `k`, `k1`, `k2`, ...
pub open spec fn key_var_chars(d: nat) -> Seq<char> {
    if d == 0 {
        "k"@
    } else {
        "k"@ + dec_nat(d)
    }
}

/// The context one required property down.
pub open spec fn ctx_required_prop(c: CtxChars, key: Seq<char>) -> CtxChars {
    CtxChars {
        val: c.val + "[\""@ + escape_js_chars(key) + "\"]"@,
        err: c.err,
        ip: c.ip + " + \"/"@ + escape_js_chars(key) + "\""@,
        sp: c.sp + " + \"/properties/"@ + escape_js_chars(key) + "\""@,
        depth: c.depth,
    }
}

/// The context one optional property down.
pub open spec fn ctx_optional_prop(c: CtxChars, key: Seq<char>) -> CtxChars {
    CtxChars {
        val: c.val + "[\""@ + escape_js_chars(key) + "\"]"@,
        err: c.err,
        ip: c.ip + " + \"/"@ + escape_js_chars(key) + "\""@,
        sp: c.sp + " + \"/optionalProperties/"@ + escape_js_chars(key) + "\""@,
        depth: c.depth,
    }
}

/// The context one array element down, indexed by the loop variable.
pub open spec fn ctx_element(c: CtxChars, idx: Seq<char>) -> CtxChars {
    CtxChars {
        val: c.val + "["@ + idx + "]"@,
        err: c.err,
        ip: c.ip + " + \"/\" + "@ + idx,
        sp: c.sp + " + \"/elements\""@,
        depth: c.depth + 1,
    }
}

/// The context one member value down, keyed by the loop variable.
pub open spec fn ctx_values_entry(c: CtxChars, key: Seq<char>) -> CtxChars {
    CtxChars {
        val: c.val + "["@ + key + "]"@,
        err: c.err,
        ip: c.ip + " + \"/\" + "@ + key,
        sp: c.sp + " + \"/values\""@,
        depth: c.depth + 1,
    }
}

/// The context scoped to one discriminator variant.
pub open spec fn ctx_discrim_variant(c: CtxChars, key: Seq<char>) -> CtxChars {
    CtxChars {
        val: c.val,
        err: c.err,
        ip: c.ip,
        sp: c.sp + " + \"/mapping/"@ + escape_js_chars(key) + "\""@,
        depth: c.depth,
    }
}

/// The statement pushing an error whose schema path gets `sp_suffix` appended.
pub open spec fn push_error_chars(c: CtxChars, sp_suffix: Seq<char>) -> Seq<char> {
    let sp_expr = if sp_suffix.len() == 0 {
        c.sp
    } else {
        c.sp + " + \""@ + sp_suffix + "\""@
    };
    c.err + ".push({instancePath: "@ + c.ip + ", schemaPath: "@ + sp_expr + "});"@
}

/// The statement pushing an error with both path suffixes appended.
pub open spec fn push_error_at_chars(
    c: CtxChars,
    ip_suffix: Seq<char>,
    sp_suffix: Seq<char>,
) -> Seq<char> {
    let ip_expr = if ip_suffix.len() == 0 {
        c.ip
    } else {
        c.ip + " + \""@ + ip_suffix + "\""@
    };
    let sp_expr = if sp_suffix.len() == 0 {
        c.sp
    } else {
        c.sp + " + \""@ + sp_suffix + "\""@
    };
    c.err + ".push({instancePath: "@ + ip_expr + ", schemaPath: "@ + sp_expr + "});"@
}

impl EmitContext {
    /// Root context for the entry-point `validate()` function.
    pub fn root() -> (r: EmitContext)
        ensures
            r@ == ctx_root_chars(),
    {
        EmitContext {
            val: String::from_str("instance"),
            err: String::from_str("e"),
            ip: String::from_str("\"\""),
            sp: String::from_str("\"\""),
            depth: 0,
        }
    }

    /// Context for a definition function body: `validate_foo(v, e, p, sp)`.
    pub fn definition() -> (r: EmitContext)
        ensures
            r@ == ctx_definition_chars(),
    {
        EmitContext {
            val: String::from_str("v"),
            err: String::from_str("e"),
            ip: String::from_str("p"),
            sp: String::from_str("sp"),
            depth: 0,
        }
    }

    /// Generate a unique loop index variable name (`i`, `i1`, `i2`, ...).
    pub fn idx_var(&self) -> (r: String)
        ensures
            r@ == idx_var_chars(self@.depth),
    {
        if self.depth == 0 {
            String::from_str("i")
        } else {
            let mut s = String::from_str("i");
            let tail = dec_u64(self.depth as u64);
            s.append(tail.as_str());
            s
        }
    }

    /// Generate a unique loop key variable name (`k`, `k1`, `k2`, ...).
    pub fn key_var(&self) -> (r: String)
        ensures
            r@ == key_var_chars(self@.depth),
    {
        if self.depth == 0 {
            String::from_str("k")
        } else {
            let mut s = String::from_str("k");
            let tail = dec_u64(self.depth as u64);
            s.append(tail.as_str());
            s
        }
    }

    /// Descend into a required property value.
    pub fn required_prop(&self, key: &str) -> (r: EmitContext)
        ensures
            r@ == ctx_required_prop(self@, key@),
    {
        let e = escape_js(key);
        let mut val = self.val.clone();
        val.append("[\"");
        val.append(e.as_str());
        val.append("\"]");
        let mut ip = self.ip.clone();
        ip.append(" + \"/");
        ip.append(e.as_str());
        ip.append("\"");
        let mut sp = self.sp.clone();
        sp.append(" + \"/properties/");
        sp.append(e.as_str());
        sp.append("\"");
        EmitContext { val, err: self.err.clone(), ip, sp, depth: self.depth }
    }

    /// Descend into an optional property value.
    pub fn optional_prop(&self, key: &str) -> (r: EmitContext)
        ensures
            r@ == ctx_optional_prop(self@, key@),
    {
        let e = escape_js(key);
        let mut val = self.val.clone();
        val.append("[\"");
        val.append(e.as_str());
        val.append("\"]");
        let mut ip = self.ip.clone();
        ip.append(" + \"/");
        ip.append(e.as_str());
        ip.append("\"");
        let mut sp = self.sp.clone();
        sp.append(" + \"/optionalProperties/");
        sp.append(e.as_str());
        sp.append("\"");
        EmitContext { val, err: self.err.clone(), ip, sp, depth: self.depth }
    }

    /// Descend into an array element; `idx_var` is the loop variable name.
    pub fn element(&self, idx_var: &str) -> (r: EmitContext)
        requires
            self@.depth < usize::MAX,
        ensures
            r@ == ctx_element(self@, idx_var@),
    {
        let mut val = self.val.clone();
        val.append("[");
        val.append(idx_var);
        val.append("]");
        let mut ip = self.ip.clone();
        ip.append(" + \"/\" + ");
        ip.append(idx_var);
        let mut sp = self.sp.clone();
        sp.append(" + \"/elements\"");
        EmitContext { val, err: self.err.clone(), ip, sp, depth: self.depth + 1 }
    }

    /// Descend into a member value; `key_var` is the for-in loop variable.
    pub fn values_entry(&self, key_var: &str) -> (r: EmitContext)
        requires
            self@.depth < usize::MAX,
        ensures
            r@ == ctx_values_entry(self@, key_var@),
    {
        let mut val = self.val.clone();
        val.append("[");
        val.append(key_var);
        val.append("]");
        let mut ip = self.ip.clone();
        ip.append(" + \"/\" + ");
        ip.append(key_var);
        let mut sp = self.sp.clone();
        sp.append(" + \"/values\"");
        EmitContext { val, err: self.err.clone(), ip, sp, depth: self.depth + 1 }
    }

    /// Scope the schema path to one discriminator variant.
    pub fn discrim_variant(&self, variant_key: &str) -> (r: EmitContext)
        ensures
            r@ == ctx_discrim_variant(self@, variant_key@),
    {
        let e = escape_js(variant_key);
        let mut sp = self.sp.clone();
        sp.append(" + \"/mapping/");
        sp.append(e.as_str());
        sp.append("\"");
        EmitContext {
            val: self.val.clone(),
            err: self.err.clone(),
            ip: self.ip.clone(),
            sp,
            depth: self.depth,
        }
    }

    /// The statement pushing an error with the given schema path suffix.
    pub fn push_error(&self, sp_suffix: &str) -> (r: String)
        ensures
            r@ == push_error_chars(self@, sp_suffix@),
    {
        let mut out = self.err.clone();
        out.append(".push({instancePath: ");
        out.append(self.ip.as_str());
        out.append(", schemaPath: ");
        if sp_suffix.is_empty() {
            out.append(self.sp.as_str());
        } else {
            out.append(self.sp.as_str());
            out.append(" + \"");
            out.append(sp_suffix);
            out.append("\"");
        }
        out.append("});");
        out
    }

    /// The statement pushing an error with instance and schema path suffixes.
    pub fn push_error_at(&self, ip_suffix: &str, sp_suffix: &str) -> (r: String)
        ensures
            r@ == push_error_at_chars(self@, ip_suffix@, sp_suffix@),
    {
        let mut out = self.err.clone();
        out.append(".push({instancePath: ");
        out.append(self.ip.as_str());
        if !ip_suffix.is_empty() {
            out.append(" + \"");
            out.append(ip_suffix);
            out.append("\"");
        }
        out.append(", schemaPath: ");
        out.append(self.sp.as_str());
        if !sp_suffix.is_empty() {
            out.append(" + \"");
            out.append(sp_suffix);
            out.append("\"");
        }
        out.append("});");
        out
    }
}

} // verus!
