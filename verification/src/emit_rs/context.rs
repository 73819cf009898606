//! EmitContext for the Rust back-end: tracks the Rust expressions for the
//! value, error list, instance path and schema path.

use crate::decimal::dec_nat;
use crate::decimal::dec_u64;
use vstd::prelude::*;
use vstd::string::StringExecFns;

verus! {

/// The spec-level shape of an `RsCtx`.
pub struct RsCtxChars {
    pub val: Seq<char>,
    pub err: Seq<char>,
    pub ip: Seq<char>,
    pub sp: Seq<char>,
    pub depth: nat,
}

/// Context for Rust code generation.
#[derive(Debug)]
pub struct RsCtx {
    /// Rust expression for the value reference being validated.
    pub val: String,
    /// Rust expression for the mutable error list.
    pub err: String,
    /// Rust expression for the instance path.
    pub ip: String,
    /// Rust expression for the schema path.
    pub sp: String,
    /// Nesting depth for unique variable names.
    pub depth: usize,
}

impl View for RsCtx {
    type V = RsCtxChars;

    open spec fn view(&self) -> RsCtxChars {
        RsCtxChars {
            val: self.val@,
            err: self.err@,
            ip: self.ip@,
            sp: self.sp@,
            depth: self.depth as nat,
        }
    }
}

/// The root context: scope of the entry point.
pub open spec fn rs_root_chars() -> RsCtxChars {
    RsCtxChars { val: "instance"@, err: "e"@, ip: "p"@, sp: "sp"@, depth: 0 }
}

/// The definition context: scope of a generated definition function body.
pub open spec fn rs_definition_chars() -> RsCtxChars {
    RsCtxChars { val: "v"@, err: "e"@, ip: "p"@, sp: "sp"@, depth: 0 }
}

/// The loop index variable for a nesting depth: `i`, `i1`, `i2`, ...
pub open spec fn rs_idx_var_chars(d: nat) -> Seq<char> {
    if d == 0 {
        "i"@
    } else {
        "i"@ + dec_nat(d)
    }
}

/// The loop key variable for a nesting depth: `k`, `k1`, `k2`, ...
pub open spec fn rs_key_var_chars(d: nat) -> Seq<char> {
    if d == 0 {
        "k"@
    } else {
        "k"@ + dec_nat(d)
    }
}

impl RsCtx {
    /// Root context for the entry point.
    pub fn root() -> (r: RsCtx)
        ensures
            r@ == rs_root_chars(),
    {
        RsCtx {
            val: String::from_str("instance"),
            err: String::from_str("e"),
            ip: String::from_str("p"),
            sp: String::from_str("sp"),
            depth: 0,
        }
    }

    /// Context for a definition function body.
    pub fn definition() -> (r: RsCtx)
        ensures
            r@ == rs_definition_chars(),
    {
        RsCtx {
            val: String::from_str("v"),
            err: String::from_str("e"),
            ip: String::from_str("p"),
            sp: String::from_str("sp"),
            depth: 0,
        }
    }

    /// Generate a unique loop index variable name (`i`, `i1`, `i2`, ...).
    pub fn idx_var(&self) -> (r: String)
        ensures
            r@ == rs_idx_var_chars(self@.depth),
    {
        if self.depth == 0 {
            String::from_str("i")
        } else {
            let mut s = String::from_str("i");
            let tail = dec_u64(self.depth as u64);
            s.append(tail.as_str());
            s
        }
    }

    /// Generate a unique loop key variable name (`k`, `k1`, `k2`, ...).
    pub fn key_var(&self) -> (r: String)
        ensures
            r@ == rs_key_var_chars(self@.depth),
    {
        if self.depth == 0 {
            String::from_str("k")
        } else {
            let mut s = String::from_str("k");
            let tail = dec_u64(self.depth as u64);
            s.append(tail.as_str());
            s
        }
    }

    /// The same scope one nesting level deeper.
    pub fn deeper(&self) -> (r: RsCtx)
        requires
            self@.depth < usize::MAX,
        ensures
            r@.val == self@.val,
            r@.err == self@.err,
            r@.ip == self@.ip,
            r@.sp == self@.sp,
            r@.depth == self@.depth + 1,
    {
        RsCtx {
            val: self.val.clone(),
            err: self.err.clone(),
            ip: self.ip.clone(),
            sp: self.sp.clone(),
            depth: self.depth + 1,
        }
    }
}

} // verus!
