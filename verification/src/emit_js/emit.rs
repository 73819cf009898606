//! Composite per-form emitters and the top-level composition: walks a
//! `CompiledSchema` AST and produces a complete ES module.
//!
//! The composite emitters and the dispatcher recurse into child nodes
//! directly, so they live together.  Every function is specified by a spec
//! function giving the exact text it appends to the writer.

use crate::ast::lemma_nlist_height_mem;
use crate::ast::nlist_height;
use crate::ast::nlist_view;
use crate::ast::node_height;
use crate::ast::node_view;
use crate::ast::strs_view;
use crate::ast::CompiledSchema;
use crate::ast::Node;
use crate::emit_js::context::ctx_definition_chars;
use crate::emit_js::context::ctx_discrim_variant;
use crate::emit_js::context::ctx_element;
use crate::emit_js::context::ctx_optional_prop;
use crate::emit_js::context::ctx_required_prop;
use crate::emit_js::context::ctx_root_chars;
use crate::emit_js::context::ctx_values_entry;
use crate::emit_js::context::idx_var_chars;
use crate::emit_js::context::key_var_chars;
use crate::emit_js::context::push_error_at_chars;
use crate::emit_js::context::push_error_chars;
use crate::emit_js::context::CtxChars;
use crate::emit_js::context::EmitContext;
use crate::emit_js::nodes::def_fn_name;
use crate::emit_js::nodes::def_fn_name_chars;
use crate::emit_js::nodes::emit_empty;
use crate::emit_js::nodes::emit_enum;
use crate::emit_js::nodes::emit_ref;
use crate::emit_js::nodes::emit_type;
use crate::emit_js::nodes::enum_line;
use crate::emit_js::nodes::ref_line;
use crate::emit_js::nodes::type_line;
use crate::emit_js::writer::close_open_text;
use crate::emit_js::writer::close_text;
use crate::emit_js::writer::escape_js;
use crate::emit_js::writer::escape_js_chars;
use crate::emit_js::writer::line_text;
use crate::emit_js::writer::open_text;
use crate::emit_js::writer::CodeWriter;
use vstd::prelude::*;
use vstd::string::StringExecFns;

verus! {

/// Concatenation of character sequences reassociates.
proof fn seq_shift(a: Seq<char>, b: Seq<char>, c: Seq<char>)
    ensures
        (a + b) + c == a + (b + c),
{
    vstd::seq_lib::lemma_concat_associative(a, b, c);
}

/// The characters of an optional discriminator tag.
pub open spec fn tag_chars(t: Option<&String>) -> Option<Seq<char>> {
    match t {
        Some(s) => Some(s@),
        None => None,
    }
}

/// The object type guard shared by Properties, Values and Discriminator.
pub open spec fn obj_guard(val: Seq<char>) -> Seq<char> {
    "if ("@ + val + " === null || typeof "@ + val + " !== \"object\" || Array.isArray("@ + val
        + "))"@
}

/// The keys of a keyed node list.
pub open spec fn nlist_keys(s: Seq<(String, Node)>) -> Seq<Seq<char>> {
    Seq::new(s.len(), |i: int| s[i].0@)
}

/// The known keys excluded by the additional-properties loop: the
/// discriminator tag when present, then required keys, then optional keys.
pub open spec fn known_keys(
    tag: Option<Seq<char>>,
    req: Seq<(String, Node)>,
    opt: Seq<(String, Node)>,
) -> Seq<Seq<char>> {
    (match tag {
        Some(t) => seq![t],
        None => Seq::empty(),
    }) + nlist_keys(req) + nlist_keys(opt)
}

/// The conjunction `k !== "a" && k !== "b" && ...` over the known keys.
pub open spec fn known_conds(ks: Seq<Seq<char>>) -> Seq<char>
    decreases ks.len(),
{
    if ks.len() == 0 {
        Seq::empty()
    } else if ks.len() == 1 {
        "k !== \""@ + escape_js_chars(ks[0]) + "\""@
    } else {
        known_conds(ks.drop_last()) + " && k !== \""@ + escape_js_chars(ks.last()) + "\""@
    }
}

/// The statement pushing an unknown-key error inside the additional loop.
pub open spec fn addl_push(c: CtxChars) -> Seq<char> {
    c.err + ".push({instancePath: "@ + c.ip + " + \"/\" + k, schemaPath: "@ + c.sp + "});"@
}

/// The additional-properties rejection loop.
pub open spec fn addl_text(c: CtxChars, ks: Seq<Seq<char>>, d: nat) -> Seq<char> {
    open_text(d, "for (const k in "@ + c.val + ")"@) + line_text(
        d + 1,
        if ks.len() == 0 {
            addl_push(c)
        } else {
            "if ("@ + known_conds(ks) + ") "@ + addl_push(c)
        },
    ) + close_text(d)
}

/// The validation text for one node, at writer depth `d`.
pub open spec fn node_text(c: CtxChars, n: Node, tag: Option<Seq<char>>, d: nat) -> Seq<char>
    decreases node_height(n), 0nat, 0nat,
{
    match n {
        Node::Empty => Seq::empty(),
        Node::Type { type_kw } => type_line(c, type_kw, d),
        Node::Enum { values } => enum_line(c, strs_view(values@), d),
        Node::Ref { name } => ref_line(c, name@, d),
        Node::Nullable { inner } => nullable_text(c, *inner, d),
        Node::Elements { schema } => elements_text(c, *schema, d),
        Node::Values { schema } => values_text(c, *schema, d),
        Node::Properties { required, optional, additional } => properties_text(
            c,
            required@,
            optional@,
            additional,
            tag,
            d,
        ),
        Node::Discriminator { tag: own_tag, mapping } => discriminator_text(
            c,
            own_tag@,
            mapping@,
            d,
        ),
    }
}

/// The text of a Nullable form: the inner check guarded against null.
pub open spec fn nullable_text(c: CtxChars, inner: Node, d: nat) -> Seq<char>
    decreases node_height(inner), 1nat, 0nat,
{
    if inner is Empty {
        Seq::empty()
    } else {
        open_text(d, "if ("@ + c.val + " !== null)"@) + node_text(c, inner, None, d + 1)
            + close_text(d)
    }
}

/// The text of an Elements form: array guard plus an indexed loop.
pub open spec fn elements_text(c: CtxChars, inner: Node, d: nat) -> Seq<char>
    decreases node_height(inner), 1nat, 0nat,
{
    let iv = idx_var_chars(c.depth);
    open_text(d, "if (!Array.isArray("@ + c.val + "))"@) + line_text(
        d + 1,
        push_error_chars(c, "/elements"@),
    ) + close_open_text(d, "else"@) + open_text(
        d + 1,
        "for (let "@ + iv + " = 0; "@ + iv + " < "@ + c.val + ".length; "@ + iv + "++)"@,
    ) + node_text(ctx_element(c, iv), inner, None, d + 2) + close_text(d + 1) + close_text(d)
}

/// The text of a Values form: object guard plus a for-in loop.
pub open spec fn values_text(c: CtxChars, inner: Node, d: nat) -> Seq<char>
    decreases node_height(inner), 1nat, 0nat,
{
    let kv = key_var_chars(c.depth);
    open_text(d, obj_guard(c.val)) + line_text(d + 1, push_error_chars(c, "/values"@))
        + close_open_text(d, "else"@) + open_text(
        d + 1,
        "for (const "@ + kv + " in "@ + c.val + ")"@,
    ) + node_text(ctx_values_entry(c, kv), inner, None, d + 2) + close_text(d + 1) + close_text(d)
}

/// The per-key checks for the required properties.
pub open spec fn req_text(c: CtxChars, s: Seq<(String, Node)>, d: nat) -> Seq<char>
    decreases nlist_height(s), 1nat, s.len(),
{
    if s.len() == 0 {
        Seq::empty()
    } else {
        req_text(c, s.drop_last(), d) + req_item_text(c, s.last().0@, s.last().1, d)
    }
}

/// The check for one required property.
pub open spec fn req_item_text(c: CtxChars, key: Seq<char>, child: Node, d: nat) -> Seq<char>
    decreases node_height(child), 0nat, 1nat,
{
    line_text(
        d,
        "if (!(\""@ + escape_js_chars(key) + "\" in "@ + c.val + ")) "@ + push_error_chars(
            c,
            "/properties/"@ + escape_js_chars(key),
        ),
    ) + open_text(d, "else"@) + node_text(ctx_required_prop(c, key), child, None, d + 1)
        + close_text(d)
}

/// The per-key checks for the optional properties.
pub open spec fn opt_text(c: CtxChars, s: Seq<(String, Node)>, d: nat) -> Seq<char>
    decreases nlist_height(s), 1nat, s.len(),
{
    if s.len() == 0 {
        Seq::empty()
    } else {
        opt_text(c, s.drop_last(), d) + opt_item_text(c, s.last().0@, s.last().1, d)
    }
}

/// The check for one optional property.
pub open spec fn opt_item_text(c: CtxChars, key: Seq<char>, child: Node, d: nat) -> Seq<char>
    decreases node_height(child), 0nat, 1nat,
{
    open_text(d, "if (\""@ + escape_js_chars(key) + "\" in "@ + c.val + ")"@) + node_text(
        ctx_optional_prop(c, key),
        child,
        None,
        d + 1,
    ) + close_text(d)
}

/// The text of a Properties form: object guard, required checks, optional
/// checks, additional-property rejection.
pub open spec fn properties_text(
    c: CtxChars,
    req: Seq<(String, Node)>,
    opt: Seq<(String, Node)>,
    additional: bool,
    tag: Option<Seq<char>>,
    d: nat,
) -> Seq<char>
    decreases nlist_height(req) + nlist_height(opt), 2nat, 0nat,
{
    let guard_sp = if req.len() > 0 {
        "/properties"@
    } else {
        "/optionalProperties"@
    };
    open_text(d, obj_guard(c.val)) + line_text(d + 1, push_error_chars(c, guard_sp))
        + close_open_text(d, "else"@) + req_text(c, req, d + 1) + opt_text(c, opt, d + 1) + (
    if !additional {
        addl_text(c, known_keys(tag, req, opt), d + 1)
    } else {
        Seq::empty()
    }) + close_text(d)
}

/// The dispatch arms for the discriminator variants.
pub open spec fn variants_text(
    c: CtxChars,
    tag: Seq<char>,
    s: Seq<(String, Node)>,
    d: nat,
) -> Seq<char>
    decreases nlist_height(s), 1nat, s.len(),
{
    if s.len() == 0 {
        Seq::empty()
    } else {
        variants_text(c, tag, s.drop_last(), d) + variant_item_text(
            c,
            tag,
            s.last().0@,
            s.last().1,
            d,
        )
    }
}

/// The dispatch arm for one discriminator variant.
pub open spec fn variant_item_text(
    c: CtxChars,
    tag: Seq<char>,
    key: Seq<char>,
    vnode: Node,
    d: nat,
) -> Seq<char>
    decreases node_height(vnode), 0nat, 1nat,
{
    close_open_text(
        d,
        "else if ("@ + c.val + "[\""@ + escape_js_chars(tag) + "\"] === \""@ + escape_js_chars(
            key,
        ) + "\")"@,
    ) + node_text(ctx_discrim_variant(c, key), vnode, Some(tag), d + 1)
}

/// The text of a Discriminator form: the five-step ladder.
pub open spec fn discriminator_text(
    c: CtxChars,
    tag: Seq<char>,
    mapping: Seq<(String, Node)>,
    d: nat,
) -> Seq<char>
    decreases nlist_height(mapping), 2nat, 0nat,
{
    open_text(d, obj_guard(c.val)) + line_text(d + 1, push_error_chars(c, "/discriminator"@))
        + close_open_text(
        d,
        "else if (!(\""@ + escape_js_chars(tag) + "\" in "@ + c.val + "))"@,
    ) + line_text(d + 1, push_error_chars(c, "/discriminator"@)) + close_open_text(
        d,
        "else if (typeof "@ + c.val + "[\""@ + escape_js_chars(tag) + "\"] !== \"string\")"@,
    ) + line_text(d + 1, push_error_at_chars(c, "/"@ + escape_js_chars(tag), "/discriminator"@))
        + variants_text(c, tag, mapping, d) + close_open_text(d, "else"@) + line_text(
        d + 1,
        push_error_at_chars(c, "/"@ + escape_js_chars(tag), "/mapping"@),
    ) + close_text(d)
}

/// The object type guard head shared by three forms.
fn obj_guard_exec(ctx: &EmitContext) -> (r: String)
    ensures
        r@ == obj_guard(ctx@.val),
{
    let mut head = String::from_str("if (");
    head.append(ctx.val.as_str());
    head.append(" === null || typeof ");
    head.append(ctx.val.as_str());
    head.append(" !== \"object\" || Array.isArray(");
    head.append(ctx.val.as_str());
    head.append("))");
    head
}

/// Nullable modifier: emit `if (val !== null) { <inner> }`, or nothing at
/// all when the inner form is Empty -- Nullable(Empty) accepts everything.
#[verifier::rlimit(50)]
pub fn emit_nullable(w: &mut CodeWriter, ctx: &EmitContext, inner: &Node)
    requires
        old(w).depth + 2 * node_height(*inner) + 4 <= usize::MAX,
        ctx@.depth + node_height(*inner) + 1 <= usize::MAX,
    ensures
        final(w).buf@ == old(w).buf@ + nullable_text(ctx@, *inner, old(w).depth as nat),
        final(w).depth == old(w).depth,
    decreases node_height(*inner), 1nat, 0nat,
{
    let ghost base = old(w).buf@;
    let ghost d = old(w).depth as nat;
    if matches!(inner, Node::Empty) {
        proof {
            assert(base + nullable_text(ctx@, *inner, d) =~= base);
        }
        return ;
    }
    let ghost s1 = open_text(d, "if ("@ + ctx@.val + " !== null)"@);
    let ghost s2 = node_text(ctx@, *inner, None, d + 1);
    let ghost s3 = close_text(d);
    let mut head = String::from_str("if (");
    head.append(ctx.val.as_str());
    head.append(" !== null)");
    w.open(head.as_str());
    emit_node(w, ctx, inner, None);
    proof {
        seq_shift(base, s1, s2);
    }
    w.close();
    proof {
        seq_shift(base, s1 + s2, s3);
    }
}

/// Elements form: array type guard plus a loop with the inner check.
#[verifier::rlimit(50)]
pub fn emit_elements(w: &mut CodeWriter, ctx: &EmitContext, inner: &Node)
    requires
        old(w).depth + 2 * node_height(*inner) + 4 <= usize::MAX,
        ctx@.depth + node_height(*inner) + 1 <= usize::MAX,
    ensures
        final(w).buf@ == old(w).buf@ + elements_text(ctx@, *inner, old(w).depth as nat),
        final(w).depth == old(w).depth,
    decreases node_height(*inner), 1nat, 0nat,
{
    let ghost base = old(w).buf@;
    let ghost d = old(w).depth as nat;
    let ghost iv = idx_var_chars(ctx@.depth);
    let ghost s1 = open_text(d, "if (!Array.isArray("@ + ctx@.val + "))"@);
    let ghost s2 = line_text(d + 1, push_error_chars(ctx@, "/elements"@));
    let ghost s3 = close_open_text(d, "else"@);
    let ghost s4 = open_text(
        d + 1,
        "for (let "@ + iv + " = 0; "@ + iv + " < "@ + ctx@.val + ".length; "@ + iv + "++)"@,
    );
    let ghost s5 = node_text(ctx_element(ctx@, iv), *inner, None, d + 2);
    let ghost s6 = close_text(d + 1);
    let ghost s7 = close_text(d);

    // Per the conformance suite, the type guard error points to "/elements".
    let err_stmt = ctx.push_error("/elements");
    let mut head = String::from_str("if (!Array.isArray(");
    head.append(ctx.val.as_str());
    head.append("))");
    w.open(head.as_str());
    w.line(err_stmt.as_str());
    proof {
        seq_shift(base, s1, s2);
    }
    w.close_open("else");
    proof {
        seq_shift(base, s1 + s2, s3);
    }

    let idx = ctx.idx_var();
    let mut forh = String::from_str("for (let ");
    forh.append(idx.as_str());
    forh.append(" = 0; ");
    forh.append(idx.as_str());
    forh.append(" < ");
    forh.append(ctx.val.as_str());
    forh.append(".length; ");
    forh.append(idx.as_str());
    forh.append("++)");
    w.open(forh.as_str());
    proof {
        seq_shift(base, s1 + s2 + s3, s4);
    }
    let elem_ctx = ctx.element(idx.as_str());
    emit_node(w, &elem_ctx, inner, None);
    proof {
        seq_shift(base, s1 + s2 + s3 + s4, s5);
    }
    w.close();
    proof {
        seq_shift(base, s1 + s2 + s3 + s4 + s5, s6);
    }
    w.close();
    proof {
        seq_shift(base, s1 + s2 + s3 + s4 + s5 + s6, s7);
    }
}

/// Values form: object type guard plus a for-in loop with the inner check.
#[verifier::rlimit(50)]
pub fn emit_values(w: &mut CodeWriter, ctx: &EmitContext, inner: &Node)
    requires
        old(w).depth + 2 * node_height(*inner) + 4 <= usize::MAX,
        ctx@.depth + node_height(*inner) + 1 <= usize::MAX,
    ensures
        final(w).buf@ == old(w).buf@ + values_text(ctx@, *inner, old(w).depth as nat),
        final(w).depth == old(w).depth,
    decreases node_height(*inner), 1nat, 0nat,
{
    let ghost base = old(w).buf@;
    let ghost d = old(w).depth as nat;
    let ghost kv = key_var_chars(ctx@.depth);
    let ghost s1 = open_text(d, obj_guard(ctx@.val));
    let ghost s2 = line_text(d + 1, push_error_chars(ctx@, "/values"@));
    let ghost s3 = close_open_text(d, "else"@);
    let ghost s4 = open_text(d + 1, "for (const "@ + kv + " in "@ + ctx@.val + ")"@);
    let ghost s5 = node_text(ctx_values_entry(ctx@, kv), *inner, None, d + 2);
    let ghost s6 = close_text(d + 1);
    let ghost s7 = close_text(d);

    // Per the conformance suite, the type guard error points to "/values".
    let err_stmt = ctx.push_error("/values");
    let guard = obj_guard_exec(ctx);
    w.open(guard.as_str());
    w.line(err_stmt.as_str());
    proof {
        seq_shift(base, s1, s2);
    }
    w.close_open("else");
    proof {
        seq_shift(base, s1 + s2, s3);
    }

    let key_var = ctx.key_var();
    let mut forh = String::from_str("for (const ");
    forh.append(key_var.as_str());
    forh.append(" in ");
    forh.append(ctx.val.as_str());
    forh.append(")");
    w.open(forh.as_str());
    proof {
        seq_shift(base, s1 + s2 + s3, s4);
    }
    let entry_ctx = ctx.values_entry(key_var.as_str());
    emit_node(w, &entry_ctx, inner, None);
    proof {
        seq_shift(base, s1 + s2 + s3 + s4, s5);
    }
    w.close();
    proof {
        seq_shift(base, s1 + s2 + s3 + s4 + s5, s6);
    }
    w.close();
    proof {
        seq_shift(base, s1 + s2 + s3 + s4 + s5 + s6, s7);
    }
}

/// The per-key checks for the required properties of one Properties form.
#[verifier::rlimit(50)]
fn emit_req_props(w: &mut CodeWriter, ctx: &EmitContext, required: &Vec<(String, Node)>)
    requires
        old(w).depth + 2 * nlist_height(required@) + 3 <= usize::MAX,
        ctx@.depth + nlist_height(required@) <= usize::MAX,
    ensures
        final(w).buf@ == old(w).buf@ + req_text(ctx@, required@, old(w).depth as nat),
        final(w).depth == old(w).depth,
    decreases nlist_height(required@), 1nat, 0nat,
{
    let ghost base = old(w).buf@;
    let ghost d = old(w).depth as nat;
    let nr = required.len();
    let mut i: usize = 0;
    while i < nr
        invariant
            nr == required@.len(),
            0 <= i <= nr,
            w.depth == d,
            d + 2 * nlist_height(required@) + 3 <= usize::MAX,
            ctx@.depth + nlist_height(required@) <= usize::MAX,
            w.buf@ == base + req_text(ctx@, required@.take(i as int), d),
        decreases nr - i,
    {
        let ghost acc = req_text(ctx@, required@.take(i as int), d);
        let ghost buf_it = w.buf@;
        proof {
            lemma_nlist_height_mem(required@, i as int);
        }
        let ghost key_chars = required@[i as int].0@;
        let ghost child_node = required@[i as int].1;
        let ghost t1 = line_text(
            d,
            "if (!(\""@ + escape_js_chars(key_chars) + "\" in "@ + ctx@.val + ")) "@
                + push_error_chars(ctx@, "/properties/"@ + escape_js_chars(key_chars)),
        );
        let ghost t2 = open_text(d, "else"@);
        let ghost t3 = node_text(ctx_required_prop(ctx@, key_chars), child_node, None, d + 1);
        let ghost t4 = close_text(d);

        let key = &required[i].0;
        let escaped = escape_js(key.as_str());
        let err_stmt = {
            let mut sfx = String::from_str("/properties/");
            sfx.append(escaped.as_str());
            ctx.push_error(sfx.as_str())
        };
        let mut head = String::from_str("if (!(\"");
        head.append(escaped.as_str());
        head.append("\" in ");
        head.append(ctx.val.as_str());
        head.append(")) ");
        head.append(err_stmt.as_str());
        w.line(head.as_str());
        w.open("else");
        proof {
            seq_shift(buf_it, t1, t2);
        }
        let child_ctx = ctx.required_prop(key.as_str());
        emit_node(w, &child_ctx, &required[i].1, None);
        proof {
            seq_shift(buf_it, t1 + t2, t3);
        }
        w.close();
        proof {
            seq_shift(buf_it, t1 + t2 + t3, t4);
            let item = req_item_text(ctx@, key_chars, child_node, d);
            assert(item == t1 + t2 + t3 + t4);
            assert(w.buf@ == (base + acc) + item);
            seq_shift(base, acc, item);
            assert(required@.take(i as int + 1).drop_last() =~= required@.take(i as int));
            assert(required@.take(i as int + 1).last() == required@[i as int]);
            assert(req_text(ctx@, required@.take(i as int + 1), d) == acc + item);
        }
        i += 1;
    }
    proof {
        assert(required@.take(nr as int) =~= required@);
    }
}

/// The per-key checks for the optional properties of one Properties form.
#[verifier::rlimit(50)]
fn emit_opt_props(w: &mut CodeWriter, ctx: &EmitContext, optional: &Vec<(String, Node)>)
    requires
        old(w).depth + 2 * nlist_height(optional@) + 3 <= usize::MAX,
        ctx@.depth + nlist_height(optional@) <= usize::MAX,
    ensures
        final(w).buf@ == old(w).buf@ + opt_text(ctx@, optional@, old(w).depth as nat),
        final(w).depth == old(w).depth,
    decreases nlist_height(optional@), 1nat, 0nat,
{
    let ghost base = old(w).buf@;
    let ghost d = old(w).depth as nat;
    let no = optional.len();
    let mut j: usize = 0;
    while j < no
        invariant
            no == optional@.len(),
            0 <= j <= no,
            w.depth == d,
            d + 2 * nlist_height(optional@) + 3 <= usize::MAX,
            ctx@.depth + nlist_height(optional@) <= usize::MAX,
            w.buf@ == base + opt_text(ctx@, optional@.take(j as int), d),
        decreases no - j,
    {
        let ghost acc = opt_text(ctx@, optional@.take(j as int), d);
        let ghost buf_it = w.buf@;
        proof {
            lemma_nlist_height_mem(optional@, j as int);
        }
        let ghost key_chars = optional@[j as int].0@;
        let ghost child_node = optional@[j as int].1;
        let ghost t1 = open_text(
            d,
            "if (\""@ + escape_js_chars(key_chars) + "\" in "@ + ctx@.val + ")"@,
        );
        let ghost t2 = node_text(ctx_optional_prop(ctx@, key_chars), child_node, None, d + 1);
        let ghost t3 = close_text(d);

        let key = &optional[j].0;
        let escaped = escape_js(key.as_str());
        let mut head = String::from_str("if (\"");
        head.append(escaped.as_str());
        head.append("\" in ");
        head.append(ctx.val.as_str());
        head.append(")");
        w.open(head.as_str());
        let child_ctx = ctx.optional_prop(key.as_str());
        emit_node(w, &child_ctx, &optional[j].1, None);
        proof {
            seq_shift(buf_it, t1, t2);
        }
        w.close();
        proof {
            seq_shift(buf_it, t1 + t2, t3);
            let item = opt_item_text(ctx@, key_chars, child_node, d);
            assert(item == t1 + t2 + t3);
            assert(w.buf@ == (base + acc) + item);
            seq_shift(base, acc, item);
            assert(optional@.take(j as int + 1).drop_last() =~= optional@.take(j as int));
            assert(optional@.take(j as int + 1).last() == optional@[j as int]);
            assert(opt_text(ctx@, optional@.take(j as int + 1), d) == acc + item);
        }
        j += 1;
    }
    proof {
        assert(optional@.take(no as int) =~= optional@);
    }
}

/// The additional-properties rejection loop of one Properties form.
#[verifier::rlimit(50)]
fn emit_addl(
    w: &mut CodeWriter,
    ctx: &EmitContext,
    required: &Vec<(String, Node)>,
    optional: &Vec<(String, Node)>,
    discrim_tag: Option<&String>,
)
    requires
        old(w).depth < usize::MAX,
    ensures
        final(w).buf@ == old(w).buf@ + addl_text(
            ctx@,
            known_keys(tag_chars(discrim_tag), required@, optional@),
            old(w).depth as nat,
        ),
        final(w).depth == old(w).depth,
{
    let ghost base = old(w).buf@;
    let ghost d = old(w).depth as nat;
    let ghost ks = known_keys(tag_chars(discrim_tag), required@, optional@);
    let ghost tseq = (match tag_chars(discrim_tag) {
        Some(t) => seq![t],
        None => Seq::<Seq<char>>::empty(),
    });
    let ghost s1 = open_text(d, "for (const k in "@ + ctx@.val + ")"@);
    let ghost s3 = close_text(d);

    let mut forh = String::from_str("for (const k in ");
    forh.append(ctx.val.as_str());
    forh.append(")");
    w.open(forh.as_str());

    let push_stmt = {
        let mut s = ctx.err.clone();
        s.append(".push({instancePath: ");
        s.append(ctx.ip.as_str());
        s.append(" + \"/\" + k, schemaPath: ");
        s.append(ctx.sp.as_str());
        s.append("});");
        s
    };
    let any_known = matches!(discrim_tag, Some(_)) || required.len() > 0 || optional.len() > 0;
    if !any_known {
        proof {
            assert(ks =~= Seq::<Seq<char>>::empty());
        }
        w.line(push_stmt.as_str());
        proof {
            seq_shift(base, s1, line_text(d + 1, addl_push(ctx@)));
        }
    } else {
        let mut conds = String::new();
        let mut first: bool = true;
        match discrim_tag {
            Some(tag) => {
                conds.append("k !== \"");
                let e = escape_js(tag.as_str());
                conds.append(e.as_str());
                conds.append("\"");
                first = false;
            },
            None => {},
        }
        proof {
            assert(conds@ =~= known_conds(tseq));
        }
        let nr2 = required.len();
        let mut a: usize = 0;
        while a < nr2
            invariant
                nr2 == required@.len(),
                0 <= a <= nr2,
                tseq == (match tag_chars(discrim_tag) {
                    Some(t) => seq![t],
                    None => Seq::<Seq<char>>::empty(),
                }),
                first == (tseq.len() + a == 0),
                conds@ == known_conds(tseq + nlist_keys(required@.take(a as int))),
            decreases nr2 - a,
        {
            if !first {
                conds.append(" && k !== \"");
            } else {
                conds.append("k !== \"");
            }
            let e = escape_js(required[a].0.as_str());
            conds.append(e.as_str());
            conds.append("\"");
            first = false;
            proof {
                let pre = tseq + nlist_keys(required@.take(a as int));
                let post = tseq + nlist_keys(required@.take(a as int + 1));
                assert(post.drop_last() =~= pre);
                assert(post.last() == required@[a as int].0@);
                assert(conds@ =~= known_conds(post));
            }
            a += 1;
        }
        let no2 = optional.len();
        let mut b: usize = 0;
        while b < no2
            invariant
                nr2 == required@.len(),
                no2 == optional@.len(),
                0 <= b <= no2,
                tseq == (match tag_chars(discrim_tag) {
                    Some(t) => seq![t],
                    None => Seq::<Seq<char>>::empty(),
                }),
                first == (tseq.len() + nr2 + b == 0),
                conds@ == known_conds(
                    tseq + nlist_keys(required@.take(nr2 as int)) + nlist_keys(
                        optional@.take(b as int),
                    ),
                ),
            decreases no2 - b,
        {
            if !first {
                conds.append(" && k !== \"");
            } else {
                conds.append("k !== \"");
            }
            let e = escape_js(optional[b].0.as_str());
            conds.append(e.as_str());
            conds.append("\"");
            first = false;
            proof {
                let pre = tseq + nlist_keys(required@.take(nr2 as int)) + nlist_keys(
                    optional@.take(b as int),
                );
                let post = tseq + nlist_keys(required@.take(nr2 as int)) + nlist_keys(
                    optional@.take(b as int + 1),
                );
                assert(post.drop_last() =~= pre);
                assert(post.last() == optional@[b as int].0@);
                assert(conds@ =~= known_conds(post));
            }
            b += 1;
        }
        proof {
            assert(tseq + nlist_keys(required@.take(nr2 as int)) + nlist_keys(
                optional@.take(no2 as int),
            ) =~= ks);
            assert(ks.len() > 0);
        }
        let mut stmt = String::from_str("if (");
        stmt.append(conds.as_str());
        stmt.append(") ");
        stmt.append(push_stmt.as_str());
        w.line(stmt.as_str());
        proof {
            seq_shift(base, s1, line_text(d + 1, "if ("@ + known_conds(ks) + ") "@ + addl_push(ctx@)));
        }
    }
    let ghost s2 = line_text(
        d + 1,
        if ks.len() == 0 {
            addl_push(ctx@)
        } else {
            "if ("@ + known_conds(ks) + ") "@ + addl_push(ctx@)
        },
    );
    w.close();
    proof {
        seq_shift(base, s1 + s2, s3);
    }
}

/// Properties form: object guard, required checks, optional checks,
/// additional-property rejection.  `discrim_tag` is set inside a
/// discriminator variant, whose tag key the additional loop must admit.
#[verifier::rlimit(50)]
pub fn emit_properties(
    w: &mut CodeWriter,
    ctx: &EmitContext,
    required: &Vec<(String, Node)>,
    optional: &Vec<(String, Node)>,
    additional: bool,
    discrim_tag: Option<&String>,
)
    requires
        old(w).depth + 2 * (nlist_height(required@) + nlist_height(optional@)) + 4 <= usize::MAX,
        ctx@.depth + nlist_height(required@) + nlist_height(optional@) + 1 <= usize::MAX,
    ensures
        final(w).buf@ == old(w).buf@ + properties_text(
            ctx@,
            required@,
            optional@,
            additional,
            tag_chars(discrim_tag),
            old(w).depth as nat,
        ),
        final(w).depth == old(w).depth,
    decreases nlist_height(required@) + nlist_height(optional@), 2nat, 0nat,
{
    let ghost base = old(w).buf@;
    let ghost d = old(w).depth as nat;
    let ghost guard_sp = if required@.len() > 0 {
        "/properties"@
    } else {
        "/optionalProperties"@
    };
    let ghost s1 = open_text(d, obj_guard(ctx@.val));
    let ghost s2 = line_text(d + 1, push_error_chars(ctx@, guard_sp));
    let ghost s3 = close_open_text(d, "else"@);
    let ghost s4 = req_text(ctx@, required@, d + 1);
    let ghost s5 = opt_text(ctx@, optional@, d + 1);
    let ghost s6 = (if !additional {
        addl_text(ctx@, known_keys(tag_chars(discrim_tag), required@, optional@), d + 1)
    } else {
        Seq::<char>::empty()
    });
    let ghost s7 = close_text(d);

    // Object type guard -- the error points to the declared form keyword.
    let guard_sp_str = if required.len() > 0 {
        "/properties"
    } else {
        "/optionalProperties"
    };
    let guard = obj_guard_exec(ctx);
    w.open(guard.as_str());
    let guard_err = ctx.push_error(guard_sp_str);
    w.line(guard_err.as_str());
    proof {
        seq_shift(base, s1, s2);
    }
    w.close_open("else");
    proof {
        seq_shift(base, s1 + s2, s3);
    }

    emit_req_props(w, ctx, required);
    proof {
        seq_shift(base, s1 + s2 + s3, s4);
    }
    emit_opt_props(w, ctx, optional);
    proof {
        seq_shift(base, s1 + s2 + s3 + s4, s5);
    }
    if !additional {
        emit_addl(w, ctx, required, optional, discrim_tag);
    }
    proof {
        if additional {
            assert((s1 + s2 + s3 + s4 + s5) + s6 =~= s1 + s2 + s3 + s4 + s5);
        }
        seq_shift(base, s1 + s2 + s3 + s4 + s5, s6);
    }
    w.close();
    proof {
        seq_shift(base, s1 + s2 + s3 + s4 + s5 + s6, s7);
    }
}

/// The dispatch arms for the discriminator variants.
#[verifier::rlimit(50)]
fn emit_variants(w: &mut CodeWriter, ctx: &EmitContext, tag: &str, mapping: &Vec<(String, Node)>)
    requires
        old(w).depth >= 1,
        old(w).depth + 2 * nlist_height(mapping@) + 2 <= usize::MAX,
        ctx@.depth + nlist_height(mapping@) <= usize::MAX,
    ensures
        final(w).buf@ == old(w).buf@ + variants_text(
            ctx@,
            tag@,
            mapping@,
            (old(w).depth - 1) as nat,
        ),
        final(w).depth == old(w).depth,
    decreases nlist_height(mapping@), 1nat, 0nat,
{
    let ghost base = old(w).buf@;
    let ghost dd = old(w).depth as nat;
    let ghost d = (dd - 1) as nat;
    let escaped_tag = escape_js(tag);
    let tag_string = String::from_str(tag);
    let nv = mapping.len();
    let mut i: usize = 0;
    while i < nv
        invariant
            nv == mapping@.len(),
            0 <= i <= nv,
            w.depth == dd,
            dd >= 1,
            d == dd - 1,
            dd + 2 * nlist_height(mapping@) + 2 <= usize::MAX,
            ctx@.depth + nlist_height(mapping@) <= usize::MAX,
            escaped_tag@ == escape_js_chars(tag@),
            tag_string@ == tag@,
            w.buf@ == base + variants_text(ctx@, tag@, mapping@.take(i as int), d),
        decreases nv - i,
    {
        let ghost acc = variants_text(ctx@, tag@, mapping@.take(i as int), d);
        let ghost buf_it = w.buf@;
        proof {
            lemma_nlist_height_mem(mapping@, i as int);
        }
        let ghost key_chars = mapping@[i as int].0@;
        let ghost vnode = mapping@[i as int].1;
        let ghost t1 = close_open_text(
            d,
            "else if ("@ + ctx@.val + "[\""@ + escape_js_chars(tag@) + "\"] === \""@
                + escape_js_chars(key_chars) + "\")"@,
        );
        let ghost t2 = node_text(ctx_discrim_variant(ctx@, key_chars), vnode, Some(tag@), d + 1);

        let variant_key = &mapping[i].0;
        let escaped_variant = escape_js(variant_key.as_str());
        let mut h4 = String::from_str("else if (");
        h4.append(ctx.val.as_str());
        h4.append("[\"");
        h4.append(escaped_tag.as_str());
        h4.append("\"] === \"");
        h4.append(escaped_variant.as_str());
        h4.append("\")");
        w.close_open(h4.as_str());
        let variant_ctx = ctx.discrim_variant(variant_key.as_str());
        // The variant node is a Properties node; emit it with the tag excluded.
        emit_node(w, &variant_ctx, &mapping[i].1, Some(&tag_string));
        proof {
            seq_shift(buf_it, t1, t2);
            let item = variant_item_text(ctx@, tag@, key_chars, vnode, d);
            assert(item == t1 + t2);
            assert(w.buf@ == (base + acc) + item);
            seq_shift(base, acc, item);
            assert(mapping@.take(i as int + 1).drop_last() =~= mapping@.take(i as int));
            assert(mapping@.take(i as int + 1).last() == mapping@[i as int]);
            assert(variants_text(ctx@, tag@, mapping@.take(i as int + 1), d) == acc + item);
        }
        i += 1;
    }
    proof {
        assert(mapping@.take(nv as int) =~= mapping@);
    }
}

/// Discriminator form: the five-step ladder, dispatching each variant to
/// its Properties check with the tag key excluded.
#[verifier::rlimit(50)]
pub fn emit_discriminator(w: &mut CodeWriter, ctx: &EmitContext, tag: &str, mapping: &Vec<
    (String, Node),
>)
    requires
        old(w).depth + 2 * nlist_height(mapping@) + 4 <= usize::MAX,
        ctx@.depth + nlist_height(mapping@) + 1 <= usize::MAX,
    ensures
        final(w).buf@ == old(w).buf@ + discriminator_text(
            ctx@,
            tag@,
            mapping@,
            old(w).depth as nat,
        ),
        final(w).depth == old(w).depth,
    decreases nlist_height(mapping@), 2nat, 0nat,
{
    let ghost base = old(w).buf@;
    let ghost d = old(w).depth as nat;
    let ghost s1 = open_text(d, obj_guard(ctx@.val));
    let ghost s2 = line_text(d + 1, push_error_chars(ctx@, "/discriminator"@));
    let ghost s3 = close_open_text(
        d,
        "else if (!(\""@ + escape_js_chars(tag@) + "\" in "@ + ctx@.val + "))"@,
    );
    let ghost s4 = line_text(d + 1, push_error_chars(ctx@, "/discriminator"@));
    let ghost s5 = close_open_text(
        d,
        "else if (typeof "@ + ctx@.val + "[\""@ + escape_js_chars(tag@) + "\"] !== \"string\")"@,
    );
    let ghost s6 = line_text(
        d + 1,
        push_error_at_chars(ctx@, "/"@ + escape_js_chars(tag@), "/discriminator"@),
    );
    let ghost s7 = variants_text(ctx@, tag@, mapping@, d);
    let ghost s8 = close_open_text(d, "else"@);
    let ghost s9 = line_text(d + 1, push_error_at_chars(ctx@, "/"@ + escape_js_chars(tag@), "/mapping"@));
    let ghost s10 = close_text(d);

    let escaped_tag = escape_js(tag);

    // Step 1: not an object -- the error points to "/discriminator".
    let guard = obj_guard_exec(ctx);
    w.open(guard.as_str());
    let e1 = ctx.push_error("/discriminator");
    w.line(e1.as_str());
    proof {
        seq_shift(base, s1, s2);
    }

    // Step 2: tag missing -- the error points to "/discriminator".
    let mut h2 = String::from_str("else if (!(\"");
    h2.append(escaped_tag.as_str());
    h2.append("\" in ");
    h2.append(ctx.val.as_str());
    h2.append("))");
    w.close_open(h2.as_str());
    proof {
        seq_shift(base, s1 + s2, s3);
    }
    let e2 = ctx.push_error("/discriminator");
    w.line(e2.as_str());
    proof {
        seq_shift(base, s1 + s2 + s3, s4);
    }

    // Step 3: tag not a string.
    let mut h3 = String::from_str("else if (typeof ");
    h3.append(ctx.val.as_str());
    h3.append("[\"");
    h3.append(escaped_tag.as_str());
    h3.append("\"] !== \"string\")");
    w.close_open(h3.as_str());
    proof {
        seq_shift(base, s1 + s2 + s3 + s4, s5);
    }
    let mut ip_sfx = String::from_str("/");
    ip_sfx.append(escaped_tag.as_str());
    let e3 = ctx.push_error_at(ip_sfx.as_str(), "/discriminator");
    w.line(e3.as_str());
    proof {
        seq_shift(base, s1 + s2 + s3 + s4 + s5, s6);
    }

    // Step 4: dispatch to each variant.
    emit_variants(w, ctx, tag, mapping);
    proof {
        seq_shift(base, s1 + s2 + s3 + s4 + s5 + s6, s7);
    }

    // Step 5: unknown tag value.
    w.close_open("else");
    proof {
        seq_shift(base, s1 + s2 + s3 + s4 + s5 + s6 + s7, s8);
    }
    let e5 = ctx.push_error_at(ip_sfx.as_str(), "/mapping");
    w.line(e5.as_str());
    proof {
        seq_shift(base, s1 + s2 + s3 + s4 + s5 + s6 + s7 + s8, s9);
    }
    w.close();
    proof {
        seq_shift(base, s1 + s2 + s3 + s4 + s5 + s6 + s7 + s8 + s9, s10);
    }
}

/// Recursively emit validation code for one AST node: the dispatcher that
/// connects the per-form emitters.
#[verifier::rlimit(50)]
fn emit_node(w: &mut CodeWriter, ctx: &EmitContext, node: &Node, discrim_tag: Option<&String>)
    requires
        old(w).depth + 2 * node_height(*node) + 2 <= usize::MAX,
        ctx@.depth + node_height(*node) <= usize::MAX,
    ensures
        final(w).buf@ == old(w).buf@ + node_text(
            ctx@,
            *node,
            tag_chars(discrim_tag),
            old(w).depth as nat,
        ),
        final(w).depth == old(w).depth,
    decreases node_height(*node), 0nat, 0nat,
{
    match node {
        Node::Empty => {
            emit_empty(w, ctx);
            proof {
                assert(w.buf@ =~= old(w).buf@ + node_text(
                    ctx@,
                    *node,
                    tag_chars(discrim_tag),
                    old(w).depth as nat,
                ));
            }
        },
        Node::Type { type_kw } => emit_type(w, ctx, *type_kw),
        Node::Enum { values } => emit_enum(w, ctx, values),
        Node::Ref { name } => emit_ref(w, ctx, name.as_str()),
        Node::Nullable { inner } => emit_nullable(w, ctx, inner),
        Node::Elements { schema } => emit_elements(w, ctx, schema),
        Node::Values { schema } => emit_values(w, ctx, schema),
        Node::Properties { required, optional, additional } => {
            emit_properties(w, ctx, required, optional, *additional, discrim_tag);
        },
        Node::Discriminator { tag, mapping } => {
            emit_discriminator(w, ctx, tag.as_str(), mapping);
        },
    }
}

/// The machine limit on schema nesting: every node must leave the writer's
/// indentation depth within `usize`.
pub open spec fn schema_fit(s: CompiledSchema) -> bool {
    &&& 2 * node_height(s.root) + 3 <= usize::MAX
    &&& forall|i: int|
        0 <= i < s.definitions@.len() ==> 2 * node_height(
            #[trigger] s.definitions@[i].1,
        ) + 3 <= usize::MAX
}

/// The text of one generated definition function.
pub open spec fn def_text(name: Seq<char>, n: Node) -> Seq<char> {
    open_text(0, "function "@ + def_fn_name_chars(name) + "(v, e, p, sp)"@) + node_text(
        ctx_definition_chars(),
        n,
        None,
        1,
    ) + close_text(0) + line_text(0, ""@)
}

/// The texts of all generated definition functions, in order.
pub open spec fn defs_text(s: Seq<(String, Node)>) -> Seq<char>
    decreases s.len(),
{
    if s.len() == 0 {
        Seq::empty()
    } else {
        defs_text(s.drop_last()) + def_text(s.last().0@, s.last().1)
    }
}

/// The text of the exported entry point.
pub open spec fn root_text(root: Node) -> Seq<char> {
    open_text(0, "export function validate(instance)"@) + line_text(1, "const e = [];"@)
        + node_text(ctx_root_chars(), root, None, 1) + line_text(1, "return e;"@) + close_text(0)
}

/// The complete emitted ES module for a compiled schema.
pub open spec fn schema_text(s: CompiledSchema) -> Seq<char> {
    defs_text(s.definitions@) + root_text(s.root)
}

/// Emit a complete ES2020 module from a compiled schema.  The output is a
/// pure function of the schema: emission is deterministic.
#[verifier::rlimit(50)]
pub fn emit(schema: &CompiledSchema) -> (r: String)
    requires
        schema_fit(*schema),
    ensures
        r@ == schema_text(*schema),
{
    let mut w = CodeWriter::new();

    // Emit one function per definition.
    let nd = schema.definitions.len();
    let mut i: usize = 0;
    while i < nd
        invariant
            nd == schema.definitions@.len(),
            0 <= i <= nd,
            schema_fit(*schema),
            w.depth == 0,
            w.buf@ == defs_text(schema.definitions@.take(i as int)),
        decreases nd - i,
    {
        let ghost buf_it = w.buf@;
        let ghost name_chars = schema.definitions@[i as int].0@;
        let ghost def_node = schema.definitions@[i as int].1;
        let ghost t1 = open_text(0, "function "@ + def_fn_name_chars(name_chars) + "(v, e, p, sp)"@);
        let ghost t2 = node_text(ctx_definition_chars(), def_node, None, 1);
        let ghost t3 = close_text(0);
        let ghost t4 = line_text(0, ""@);

        let name = &schema.definitions[i].0;
        let fn_name = def_fn_name(name.as_str());
        let mut head = String::from_str("function ");
        head.append(fn_name.as_str());
        head.append("(v, e, p, sp)");
        w.open(head.as_str());
        let ctx = EmitContext::definition();
        emit_node(&mut w, &ctx, &schema.definitions[i].1, None);
        proof {
            seq_shift(buf_it, t1, t2);
        }
        w.close();
        proof {
            seq_shift(buf_it, t1 + t2, t3);
        }
        w.line("");
        proof {
            seq_shift(buf_it, t1 + t2 + t3, t4);
            assert(def_text(name_chars, def_node) == t1 + t2 + t3 + t4);
            assert(schema.definitions@.take(i as int + 1).drop_last() =~= schema.definitions@.take(
                i as int,
            ));
            assert(schema.definitions@.take(i as int + 1).last() == schema.definitions@[i as int]);
            assert(defs_text(schema.definitions@.take(i as int + 1)) == buf_it + def_text(
                name_chars,
                def_node,
            ));
        }
        i += 1;
    }
    proof {
        assert(schema.definitions@.take(nd as int) =~= schema.definitions@);
    }
    let ghost dbase = w.buf@;

    // Emit the exported validate() entry point.
    let ghost r1 = open_text(0, "export function validate(instance)"@);
    let ghost r2 = line_text(1, "const e = [];"@);
    let ghost r3 = node_text(ctx_root_chars(), schema.root, None, 1);
    let ghost r4 = line_text(1, "return e;"@);
    let ghost r5 = close_text(0);
    w.open("export function validate(instance)");
    w.line("const e = [];");
    proof {
        seq_shift(dbase, r1, r2);
    }
    let root_ctx = EmitContext::root();
    emit_node(&mut w, &root_ctx, &schema.root, None);
    proof {
        seq_shift(dbase, r1 + r2, r3);
    }
    w.line("return e;");
    proof {
        seq_shift(dbase, r1 + r2 + r3, r4);
    }
    w.close();
    proof {
        seq_shift(dbase, r1 + r2 + r3 + r4, r5);
    }
    w.finish()
}

/// Law: `Nullable(Empty)` and `Empty` produce observationally identical
/// emitted code -- both emit nothing for their scope.
pub proof fn lemma_nullable_empty_text(c: CtxChars, n: Node, tag: Option<Seq<char>>, d: nat)
    requires
        n matches Node::Nullable { inner } && *inner is Empty,
    ensures
        node_text(c, n, tag, d) == node_text(c, Node::Empty, tag, d),
{
}

/// Two keyed node lists with the same spec-level shape have the same keys.
proof fn lemma_nlist_keys_congruence(xs: Seq<(String, Node)>, ys: Seq<(String, Node)>)
    requires
        nlist_view(xs) == nlist_view(ys),
    ensures
        nlist_keys(xs) == nlist_keys(ys),
{
    crate::ast::lemma_nlist_view_len(xs);
    crate::ast::lemma_nlist_view_len(ys);
    assert forall|i: int| 0 <= i < xs.len() implies nlist_keys(xs)[i] == nlist_keys(ys)[i] by {
        crate::ast::lemma_nlist_view_index(xs, i);
        crate::ast::lemma_nlist_view_index(ys, i);
    }
    assert(nlist_keys(xs) =~= nlist_keys(ys));
}

/// Equal spec-level shapes give equal emitted text: the text depends only on
/// the contents of the schema's strings, never on their identities.
#[verifier::rlimit(100)]
pub proof fn lemma_node_text_congruence(
    c: CtxChars,
    x: Node,
    y: Node,
    tag: Option<Seq<char>>,
    d: nat,
)
    requires
        node_view(x) == node_view(y),
    ensures
        node_text(c, x, tag, d) == node_text(c, y, tag, d),
    decreases node_height(x), 0nat, 0nat,
{
    match (x, y) {
        (Node::Empty, Node::Empty) => {},
        (Node::Ref { name: n1 }, Node::Ref { name: n2 }) => {},
        (Node::Type { type_kw: k1 }, Node::Type { type_kw: k2 }) => {},
        (Node::Enum { values: v1 }, Node::Enum { values: v2 }) => {},
        (Node::Nullable { inner: i1 }, Node::Nullable { inner: i2 }) => {
            if !(*i1 is Empty) {
                lemma_node_text_congruence(c, *i1, *i2, None, d + 1);
            }
        },
        (Node::Elements { schema: s1 }, Node::Elements { schema: s2 }) => {
            lemma_node_text_congruence(
                ctx_element(c, idx_var_chars(c.depth)),
                *s1,
                *s2,
                None,
                d + 2,
            );
        },
        (Node::Values { schema: s1 }, Node::Values { schema: s2 }) => {
            lemma_node_text_congruence(
                ctx_values_entry(c, key_var_chars(c.depth)),
                *s1,
                *s2,
                None,
                d + 2,
            );
        },
        (
            Node::Properties { required: r1, optional: o1, additional: a1 },
            Node::Properties { required: r2, optional: o2, additional: a2 },
        ) => {
            lemma_req_text_congruence(c, r1@, r2@, d + 1);
            lemma_opt_text_congruence(c, o1@, o2@, d + 1);
            lemma_nlist_keys_congruence(r1@, r2@);
            lemma_nlist_keys_congruence(o1@, o2@);
            crate::ast::lemma_nlist_view_len(r1@);
            crate::ast::lemma_nlist_view_len(r2@);
        },
        (
            Node::Discriminator { tag: t1, mapping: m1 },
            Node::Discriminator { tag: t2, mapping: m2 },
        ) => {
            lemma_variants_text_congruence(c, t1@, m1@, m2@, d);
        },
        _ => {
            assert(false);
        },
    }
}

/// Equal shapes give equal required-property text.
#[verifier::rlimit(100)]
proof fn lemma_req_text_congruence(
    c: CtxChars,
    xs: Seq<(String, Node)>,
    ys: Seq<(String, Node)>,
    d: nat,
)
    requires
        nlist_view(xs) == nlist_view(ys),
    ensures
        req_text(c, xs, d) == req_text(c, ys, d),
    decreases nlist_height(xs), 1nat, xs.len(),
{
    crate::ast::lemma_nlist_view_len(xs);
    crate::ast::lemma_nlist_view_len(ys);
    if xs.len() > 0 {
        crate::ast::lemma_nlist_view_len(xs.drop_last());
        crate::ast::lemma_nlist_view_len(ys.drop_last());
        assert forall|i: int| 0 <= i < xs.len() - 1 implies nlist_view(xs.drop_last())[i]
            == nlist_view(ys.drop_last())[i] by {
            crate::ast::lemma_nlist_view_index(xs.drop_last(), i);
            crate::ast::lemma_nlist_view_index(ys.drop_last(), i);
            crate::ast::lemma_nlist_view_index(xs, i);
            crate::ast::lemma_nlist_view_index(ys, i);
        }
        assert(nlist_view(xs.drop_last()) =~= nlist_view(ys.drop_last()));
        lemma_req_text_congruence(c, xs.drop_last(), ys.drop_last(), d);
        crate::ast::lemma_nlist_view_index(xs, xs.len() - 1);
        crate::ast::lemma_nlist_view_index(ys, ys.len() - 1);
        assert(xs.last().0@ == ys.last().0@);
        assert(node_view(xs.last().1) == node_view(ys.last().1));
        lemma_node_text_congruence(
            ctx_required_prop(c, xs.last().0@),
            xs.last().1,
            ys.last().1,
            None,
            d + 1,
        );
        assert(req_item_text(c, xs.last().0@, xs.last().1, d) == req_item_text(
            c,
            ys.last().0@,
            ys.last().1,
            d,
        ));
    }
}

/// Equal shapes give equal optional-property text.
#[verifier::rlimit(100)]
proof fn lemma_opt_text_congruence(
    c: CtxChars,
    xs: Seq<(String, Node)>,
    ys: Seq<(String, Node)>,
    d: nat,
)
    requires
        nlist_view(xs) == nlist_view(ys),
    ensures
        opt_text(c, xs, d) == opt_text(c, ys, d),
    decreases nlist_height(xs), 1nat, xs.len(),
{
    crate::ast::lemma_nlist_view_len(xs);
    crate::ast::lemma_nlist_view_len(ys);
    if xs.len() > 0 {
        crate::ast::lemma_nlist_view_len(xs.drop_last());
        crate::ast::lemma_nlist_view_len(ys.drop_last());
        assert forall|i: int| 0 <= i < xs.len() - 1 implies nlist_view(xs.drop_last())[i]
            == nlist_view(ys.drop_last())[i] by {
            crate::ast::lemma_nlist_view_index(xs.drop_last(), i);
            crate::ast::lemma_nlist_view_index(ys.drop_last(), i);
            crate::ast::lemma_nlist_view_index(xs, i);
            crate::ast::lemma_nlist_view_index(ys, i);
        }
        assert(nlist_view(xs.drop_last()) =~= nlist_view(ys.drop_last()));
        lemma_opt_text_congruence(c, xs.drop_last(), ys.drop_last(), d);
        crate::ast::lemma_nlist_view_index(xs, xs.len() - 1);
        crate::ast::lemma_nlist_view_index(ys, ys.len() - 1);
        assert(xs.last().0@ == ys.last().0@);
        assert(node_view(xs.last().1) == node_view(ys.last().1));
        lemma_node_text_congruence(
            ctx_optional_prop(c, xs.last().0@),
            xs.last().1,
            ys.last().1,
            None,
            d + 1,
        );
        assert(opt_item_text(c, xs.last().0@, xs.last().1, d) == opt_item_text(
            c,
            ys.last().0@,
            ys.last().1,
            d,
        ));
    }
}

/// Equal shapes give equal variant-dispatch text.
#[verifier::rlimit(100)]
proof fn lemma_variants_text_congruence(
    c: CtxChars,
    tag: Seq<char>,
    xs: Seq<(String, Node)>,
    ys: Seq<(String, Node)>,
    d: nat,
)
    requires
        nlist_view(xs) == nlist_view(ys),
    ensures
        variants_text(c, tag, xs, d) == variants_text(c, tag, ys, d),
    decreases nlist_height(xs), 1nat, xs.len(),
{
    crate::ast::lemma_nlist_view_len(xs);
    crate::ast::lemma_nlist_view_len(ys);
    if xs.len() > 0 {
        crate::ast::lemma_nlist_view_len(xs.drop_last());
        crate::ast::lemma_nlist_view_len(ys.drop_last());
        assert forall|i: int| 0 <= i < xs.len() - 1 implies nlist_view(xs.drop_last())[i]
            == nlist_view(ys.drop_last())[i] by {
            crate::ast::lemma_nlist_view_index(xs.drop_last(), i);
            crate::ast::lemma_nlist_view_index(ys.drop_last(), i);
            crate::ast::lemma_nlist_view_index(xs, i);
            crate::ast::lemma_nlist_view_index(ys, i);
        }
        assert(nlist_view(xs.drop_last()) =~= nlist_view(ys.drop_last()));
        lemma_variants_text_congruence(c, tag, xs.drop_last(), ys.drop_last(), d);
        crate::ast::lemma_nlist_view_index(xs, xs.len() - 1);
        crate::ast::lemma_nlist_view_index(ys, ys.len() - 1);
        assert(xs.last().0@ == ys.last().0@);
        assert(node_view(xs.last().1) == node_view(ys.last().1));
        lemma_node_text_congruence(
            ctx_discrim_variant(c, xs.last().0@),
            xs.last().1,
            ys.last().1,
            Some(tag),
            d + 1,
        );
        assert(variant_item_text(c, tag, xs.last().0@, xs.last().1, d) == variant_item_text(
            c,
            tag,
            ys.last().0@,
            ys.last().1,
            d,
        ));
    }
}

/// Equal shapes give equal definition-function text.
#[verifier::rlimit(100)]
proof fn lemma_defs_text_congruence(xs: Seq<(String, Node)>, ys: Seq<(String, Node)>)
    requires
        nlist_view(xs) == nlist_view(ys),
    ensures
        defs_text(xs) == defs_text(ys),
    decreases xs.len(),
{
    crate::ast::lemma_nlist_view_len(xs);
    crate::ast::lemma_nlist_view_len(ys);
    if xs.len() > 0 {
        crate::ast::lemma_nlist_view_len(xs.drop_last());
        crate::ast::lemma_nlist_view_len(ys.drop_last());
        assert forall|i: int| 0 <= i < xs.len() - 1 implies nlist_view(xs.drop_last())[i]
            == nlist_view(ys.drop_last())[i] by {
            crate::ast::lemma_nlist_view_index(xs.drop_last(), i);
            crate::ast::lemma_nlist_view_index(ys.drop_last(), i);
            crate::ast::lemma_nlist_view_index(xs, i);
            crate::ast::lemma_nlist_view_index(ys, i);
        }
        assert(nlist_view(xs.drop_last()) =~= nlist_view(ys.drop_last()));
        lemma_defs_text_congruence(xs.drop_last(), ys.drop_last());
        crate::ast::lemma_nlist_view_index(xs, xs.len() - 1);
        crate::ast::lemma_nlist_view_index(ys, ys.len() - 1);
        lemma_node_text_congruence(
            ctx_definition_chars(),
            xs.last().1,
            ys.last().1,
            None,
            1,
        );
    }
}

/// Law: emission is byte-deterministic.  The emitted module is a pure
/// function of the schema's contents: two schemas with the same spec-level
/// shape -- the same tree over the same character sequences -- produce
/// byte-identical text, whatever `String` values carry them.
pub proof fn lemma_emit_deterministic(a: CompiledSchema, b: CompiledSchema)
    requires
        node_view(a.root) == node_view(b.root),
        nlist_view(a.definitions@) == nlist_view(b.definitions@),
    ensures
        schema_text(a) == schema_text(b),
{
    lemma_defs_text_congruence(a.definitions@, b.definitions@);
    lemma_node_text_congruence(ctx_root_chars(), a.root, b.root, None, 1);
}

} // verus!
