//! Schema compiler: parses a JTD JSON schema into the intermediate AST,
//! enforcing every structural rule of RFC 8927.
//!
//! `compile_node_spec` and its helpers state, value for value and error for
//! error, what the compiler returns for any input document; the executable
//! functions are proved to match them exactly.

use crate::ast::keyword_of_chars;
use crate::ast::nlist_view;
use crate::ast::node_view;
use crate::ast::strs_view;
use crate::ast::CompiledSchema;
use crate::ast::Node;
use crate::ast::NodeV;
use crate::ast::TypeKeyword;
use crate::json::chars_lt;
use crate::json::jget;
use crate::json::jobj_get;
use crate::json::jobj_has;
use crate::json::jobj_height;
use crate::json::json_height;
use crate::json::json_wf;
use crate::json::lemma_jget_height;
use crate::json::lemma_jget_wf;
use crate::json::lemma_jobj_height_mem;
use crate::json::Json;
use vstd::prelude::*;
use vstd::string::StringExecFns;

verus! {

/// The compiler's error taxonomy.
#[derive(Debug)]
pub enum CompileError {
    /// A schema or sub-schema is not a JSON object.
    NotAnObject,
    /// `definitions` is present but not an object.
    DefinitionsNotObject,
    /// `definitions` appears in a nested schema.
    DefinitionsInNonRoot,
    /// More than one form keyword is present.
    MultipleForms(Vec<String>),
    /// `ref` is not a string.
    RefNotString,
    /// `ref` names no definition.
    RefNotFound(String),
    /// `type` is not a string.
    TypeNotString,
    /// `type` is not one of the 11 keywords.
    UnknownType(String),
    /// `enum` is not a non-empty array of strings.
    InvalidEnum,
    /// `enum` repeats a value.
    EnumDuplicates,
    /// The same key is required and optional.
    OverlappingProperties(String),
    /// `discriminator` is not a string.
    DiscriminatorNotString,
    /// A discriminator schema has no `mapping` object.
    MissingMapping,
    /// A mapping value is not a Properties form (or is nullable).
    MappingNotProperties,
    /// A mapping variant declares the discriminator tag as a property.
    TagInVariant(String),
    /// Any other failure.
    Other(String),
}

/// The spec-level shape of a compile error.
pub enum ErrV {
    NotAnObject,
    DefinitionsNotObject,
    DefinitionsInNonRoot,
    MultipleForms(Seq<Seq<char>>),
    RefNotString,
    RefNotFound(Seq<char>),
    TypeNotString,
    UnknownType(Seq<char>),
    InvalidEnum,
    EnumDuplicates,
    OverlappingProperties(Seq<char>),
    DiscriminatorNotString,
    MissingMapping,
    MappingNotProperties,
    TagInVariant(Seq<char>),
    Other(Seq<char>),
}

/// The spec-level shape of a compile error value.
pub open spec fn err_view(e: CompileError) -> ErrV {
    match e {
        CompileError::NotAnObject => ErrV::NotAnObject,
        CompileError::DefinitionsNotObject => ErrV::DefinitionsNotObject,
        CompileError::DefinitionsInNonRoot => ErrV::DefinitionsInNonRoot,
        CompileError::MultipleForms(fs) => ErrV::MultipleForms(strs_view(fs@)),
        CompileError::RefNotString => ErrV::RefNotString,
        CompileError::RefNotFound(s) => ErrV::RefNotFound(s@),
        CompileError::TypeNotString => ErrV::TypeNotString,
        CompileError::UnknownType(s) => ErrV::UnknownType(s@),
        CompileError::InvalidEnum => ErrV::InvalidEnum,
        CompileError::EnumDuplicates => ErrV::EnumDuplicates,
        CompileError::OverlappingProperties(s) => ErrV::OverlappingProperties(s@),
        CompileError::DiscriminatorNotString => ErrV::DiscriminatorNotString,
        CompileError::MissingMapping => ErrV::MissingMapping,
        CompileError::MappingNotProperties => ErrV::MappingNotProperties,
        CompileError::TagInVariant(s) => ErrV::TagInVariant(s@),
        CompileError::Other(s) => ErrV::Other(s@),
    }
}

/// The spec-level shape of a whole compiled schema.
pub struct SchemaV {
    pub definitions: Seq<(Seq<char>, NodeV)>,
    pub root: NodeV,
}

/// The spec-level shape of a `CompiledSchema` value.
pub open spec fn schema_view(cs: CompiledSchema) -> SchemaV {
    SchemaV { definitions: nlist_view(cs.definitions@), root: node_view(cs.root) }
}

/// Whether an executable node result matches its spec-level counterpart.
pub open spec fn result_matches(r: Result<Node, CompileError>, s: Result<NodeV, ErrV>) -> bool {
    match (r, s) {
        (Ok(n), Ok(nv)) => node_view(n) == nv,
        (Err(e), Err(ev)) => err_view(e) == ev,
        _ => false,
    }
}

/// The form keywords present in a schema object, in canonical order.
pub open spec fn forms_present(fields: Seq<(String, Json)>) -> Seq<Seq<char>> {
    (if jget(fields, "ref"@) is Some {
        seq!["ref"@]
    } else {
        Seq::empty()
    }) + (if jget(fields, "type"@) is Some {
        seq!["type"@]
    } else {
        Seq::empty()
    }) + (if jget(fields, "enum"@) is Some {
        seq!["enum"@]
    } else {
        Seq::empty()
    }) + (if jget(fields, "elements"@) is Some {
        seq!["elements"@]
    } else {
        Seq::empty()
    }) + (if jget(fields, "values"@) is Some {
        seq!["values"@]
    } else {
        Seq::empty()
    }) + (if jget(fields, "discriminator"@) is Some {
        seq!["discriminator"@]
    } else {
        Seq::empty()
    }) + (if jget(fields, "properties"@) is Some || jget(fields, "optionalProperties"@) is Some {
        seq!["properties"@]
    } else {
        Seq::empty()
    })
}

/// What the `ref` form compiles to.
pub open spec fn ref_spec(fields: Seq<(String, Json)>, defs: Seq<Seq<char>>) -> Result<
    NodeV,
    ErrV,
> {
    match jget(fields, "ref"@) {
        Some(Json::Str(s)) => if defs.contains(s@) {
            Ok(NodeV::Ref { name: s@ })
        } else {
            Err(ErrV::RefNotFound(s@))
        },
        _ => Err(ErrV::RefNotString),
    }
}

/// What the `type` form compiles to.
pub open spec fn type_spec(fields: Seq<(String, Json)>) -> Result<NodeV, ErrV> {
    match jget(fields, "type"@) {
        Some(Json::Str(s)) => match keyword_of_chars(s@) {
            Some(kw) => Ok(NodeV::Type { type_kw: kw }),
            None => Err(ErrV::UnknownType(s@)),
        },
        _ => Err(ErrV::TypeNotString),
    }
}

/// The enum values scanned left to right: the first non-string or repeated
/// value decides the error.
pub open spec fn enum_items_spec(items: Seq<Json>) -> Result<Seq<Seq<char>>, ErrV>
    decreases items.len(),
{
    if items.len() == 0 {
        Ok(Seq::empty())
    } else {
        match enum_items_spec(items.drop_last()) {
            Err(e) => Err(e),
            Ok(seen) => match items.last() {
                Json::Str(s) => if seen.contains(s@) {
                    Err(ErrV::EnumDuplicates)
                } else {
                    Ok(seen.push(s@))
                },
                _ => Err(ErrV::InvalidEnum),
            },
        }
    }
}

/// What the `enum` form compiles to.
pub open spec fn enum_spec(fields: Seq<(String, Json)>) -> Result<NodeV, ErrV> {
    match jget(fields, "enum"@) {
        Some(Json::Array(items)) => if items@.len() == 0 {
            Err(ErrV::InvalidEnum)
        } else {
            match enum_items_spec(items@) {
                Ok(vs) => Ok(NodeV::Enum { values: vs }),
                Err(e) => Err(e),
            }
        },
        _ => Err(ErrV::InvalidEnum),
    }
}

/// Whether a spec-level keyed node list has the given key.
pub open spec fn vkeys_contain(s: Seq<(Seq<char>, NodeV)>, key: Seq<char>) -> bool {
    exists|i: int| 0 <= i < s.len() && s[i].0 == key
}

/// Whether the `nullable` keyword is set to `true`.
pub open spec fn nullable_set(fields: Seq<(String, Json)>) -> bool {
    jget(fields, "nullable"@) == Some(Json::Bool(true))
}

/// The validation result of one node, stated recursively over the document.
pub open spec fn compile_node_spec(j: Json, sub: bool, defs: Seq<Seq<char>>) -> Result<NodeV, ErrV>
    decreases json_height(j), 0nat, 0nat,
        via compile_node_spec_dec
{
    match j {
        Json::Object(fields) => {
            let fs = fields@;
            if sub && jget(fs, "definitions"@) is Some {
                Err(ErrV::DefinitionsInNonRoot)
            } else {
                let forms = forms_present(fs);
                if forms.len() > 1 {
                    Err(ErrV::MultipleForms(forms))
                } else {
                    let base = if jget(fs, "ref"@) is Some {
                        ref_spec(fs, defs)
                    } else if jget(fs, "type"@) is Some {
                        type_spec(fs)
                    } else if jget(fs, "enum"@) is Some {
                        enum_spec(fs)
                    } else if jget(fs, "elements"@) is Some {
                        match compile_node_spec(jget(fs, "elements"@)->Some_0, true, defs) {
                            Ok(n) => Ok(NodeV::Elements { schema: Box::new(n) }),
                            Err(e) => Err(e),
                        }
                    } else if jget(fs, "values"@) is Some {
                        match compile_node_spec(jget(fs, "values"@)->Some_0, true, defs) {
                            Ok(n) => Ok(NodeV::Values { schema: Box::new(n) }),
                            Err(e) => Err(e),
                        }
                    } else if jget(fs, "discriminator"@) is Some {
                        disc_spec(fs, defs)
                    } else if jget(fs, "properties"@) is Some || jget(
                        fs,
                        "optionalProperties"@,
                    ) is Some {
                        props_spec(fs, defs)
                    } else {
                        Ok(NodeV::Empty)
                    };
                    match base {
                        Err(e) => Err(e),
                        Ok(n) => if nullable_set(fs) {
                            Ok(NodeV::Nullable { inner: Box::new(n) })
                        } else {
                            Ok(n)
                        },
                    }
                }
            }
        },
        _ => Err(ErrV::NotAnObject),
    }
}

#[via_fn]
proof fn compile_node_spec_dec(j: Json, sub: bool, defs: Seq<Seq<char>>) {
    match j {
        Json::Object(fields) => {
            if jget(fields@, "elements"@) is Some {
                lemma_jget_height(fields@, "elements"@);
            }
            if jget(fields@, "values"@) is Some {
                lemma_jget_height(fields@, "values"@);
            }
        },
        _ => {},
    }
}

/// The compiled members of a `properties` object, scanned left to right.
pub open spec fn props_list_spec(pf: Seq<(String, Json)>, defs: Seq<Seq<char>>) -> Result<
    Seq<(Seq<char>, NodeV)>,
    ErrV,
>
    decreases jobj_height(pf), 2nat, pf.len(),
{
    if pf.len() == 0 {
        Ok(Seq::empty())
    } else {
        match props_list_spec(pf.drop_last(), defs) {
            Err(e) => Err(e),
            Ok(done) => match compile_node_spec(pf.last().1, true, defs) {
                Err(e) => Err(e),
                Ok(n) => Ok(done.push((pf.last().0@, n))),
            },
        }
    }
}

/// The compiled members of an `optionalProperties` object; a key already
/// required fails before its value is compiled.
pub open spec fn opt_list_spec(
    of: Seq<(String, Json)>,
    req: Seq<(Seq<char>, NodeV)>,
    defs: Seq<Seq<char>>,
) -> Result<Seq<(Seq<char>, NodeV)>, ErrV>
    decreases jobj_height(of), 2nat, of.len(),
{
    if of.len() == 0 {
        Ok(Seq::empty())
    } else {
        match opt_list_spec(of.drop_last(), req, defs) {
            Err(e) => Err(e),
            Ok(done) => if vkeys_contain(req, of.last().0@) {
                Err(ErrV::OverlappingProperties(of.last().0@))
            } else {
                match compile_node_spec(of.last().1, true, defs) {
                    Err(e) => Err(e),
                    Ok(n) => Ok(done.push((of.last().0@, n))),
                }
            },
        }
    }
}

/// The compiled required members of a `properties` form.
pub open spec fn props_req_r(fields: Seq<(String, Json)>, defs: Seq<Seq<char>>) -> Result<
    Seq<(Seq<char>, NodeV)>,
    ErrV,
>
    decreases jobj_height(fields), 1nat, 0nat,
        via props_req_r_dec
{
    match jget(fields, "properties"@) {
        None => Ok(Seq::empty()),
        Some(pv) => match pv {
            Json::Object(pf) => props_list_spec(pf@, defs),
            _ => Err(ErrV::NotAnObject),
        },
    }
}

#[via_fn]
proof fn props_req_r_dec(fields: Seq<(String, Json)>, defs: Seq<Seq<char>>) {
    if jget(fields, "properties"@) is Some {
        lemma_jget_height(fields, "properties"@);
    }
}

/// The compiled optional members of a `properties` form.
pub open spec fn props_opt_r(
    fields: Seq<(String, Json)>,
    req: Seq<(Seq<char>, NodeV)>,
    defs: Seq<Seq<char>>,
) -> Result<Seq<(Seq<char>, NodeV)>, ErrV>
    decreases jobj_height(fields), 1nat, 0nat,
        via props_opt_r_dec
{
    match jget(fields, "optionalProperties"@) {
        None => Ok(Seq::empty()),
        Some(ov) => match ov {
            Json::Object(of) => opt_list_spec(of@, req, defs),
            _ => Err(ErrV::NotAnObject),
        },
    }
}

#[via_fn]
proof fn props_opt_r_dec(
    fields: Seq<(String, Json)>,
    req: Seq<(Seq<char>, NodeV)>,
    defs: Seq<Seq<char>>,
) {
    if jget(fields, "optionalProperties"@) is Some {
        lemma_jget_height(fields, "optionalProperties"@);
    }
}

/// What the `properties` form compiles to.
pub open spec fn props_spec(fields: Seq<(String, Json)>, defs: Seq<Seq<char>>) -> Result<
    NodeV,
    ErrV,
>
    decreases jobj_height(fields), 1nat, 1nat,
{
    match props_req_r(fields, defs) {
        Err(e) => Err(e),
        Ok(req) => {
            match props_opt_r(fields, req, defs) {
                Err(e) => Err(e),
                Ok(opt) => {
                    let additional = match jget(fields, "additionalProperties"@) {
                        Some(Json::Bool(b)) => b,
                        _ => false,
                    };
                    Ok(NodeV::Properties { required: req, optional: opt, additional })
                },
            }
        },
    }
}

/// The compiled variants of a discriminator `mapping` object: each must be a
/// non-nullable Properties form that does not declare the tag.
pub open spec fn mapping_list_spec(
    mf: Seq<(String, Json)>,
    tag: Seq<char>,
    defs: Seq<Seq<char>>,
) -> Result<Seq<(Seq<char>, NodeV)>, ErrV>
    decreases jobj_height(mf), 2nat, mf.len(),
{
    if mf.len() == 0 {
        Ok(Seq::empty())
    } else {
        match mapping_list_spec(mf.drop_last(), tag, defs) {
            Err(e) => Err(e),
            Ok(done) => match compile_node_spec(mf.last().1, true, defs) {
                Err(e) => Err(e),
                Ok(n) => match n {
                    NodeV::Properties { required, optional, additional } => if vkeys_contain(
                        required,
                        tag,
                    ) || vkeys_contain(optional, tag) {
                        Err(ErrV::TagInVariant(tag))
                    } else {
                        Ok(
                            done.push(
                                (
                                    mf.last().0@,
                                    NodeV::Properties { required, optional, additional },
                                ),
                            ),
                        )
                    },
                    _ => Err(ErrV::MappingNotProperties),
                },
            },
        }
    }
}

/// What the `discriminator` form compiles to.
pub open spec fn disc_spec(fields: Seq<(String, Json)>, defs: Seq<Seq<char>>) -> Result<
    NodeV,
    ErrV,
>
    decreases jobj_height(fields), 1nat, 0nat,
        via disc_spec_dec
{
    match jget(fields, "discriminator"@) {
        Some(Json::Str(tag)) => match jget(fields, "mapping"@) {
            Some(Json::Object(mf)) => match mapping_list_spec(mf@, tag@, defs) {
                Err(e) => Err(e),
                Ok(mapping) => Ok(NodeV::Discriminator { tag: tag@, mapping }),
            },
            _ => Err(ErrV::MissingMapping),
        },
        _ => Err(ErrV::DiscriminatorNotString),
    }
}

#[via_fn]
proof fn disc_spec_dec(fields: Seq<(String, Json)>, defs: Seq<Seq<char>>) {
    if jget(fields, "mapping"@) is Some {
        lemma_jget_height(fields, "mapping"@);
    }
}

/// The keys of a definitions object.
pub open spec fn jobj_keys(dfields: Seq<(String, Json)>) -> Seq<Seq<char>> {
    Seq::new(dfields.len(), |i: int| dfields[i].0@)
}

/// The compiled definitions, scanned left to right.
pub open spec fn defs_spec(dfields: Seq<(String, Json)>, names: Seq<Seq<char>>) -> Result<
    Seq<(Seq<char>, NodeV)>,
    ErrV,
>
    decreases jobj_height(dfields), 2nat, dfields.len(),
{
    if dfields.len() == 0 {
        Ok(Seq::empty())
    } else {
        match defs_spec(dfields.drop_last(), names) {
            Err(e) => Err(e),
            Ok(done) => match compile_node_spec(dfields.last().1, true, names) {
                Err(e) => Err(e),
                Ok(n) => Ok(done.push((dfields.last().0@, n))),
            },
        }
    }
}

/// What `compile` returns for any input document.
pub open spec fn compile_spec(j: Json) -> Result<SchemaV, ErrV> {
    match j {
        Json::Object(fields) => {
            let fs = fields@;
            match jget(fs, "definitions"@) {
                Some(dv) => match dv {
                    Json::Object(df) => {
                        let names = jobj_keys(df@);
                        match defs_spec(df@, names) {
                            Err(e) => Err(e),
                            Ok(defsv) => match compile_node_spec(j, false, names) {
                                Err(e) => Err(e),
                                Ok(root) => Ok(SchemaV { definitions: defsv, root }),
                            },
                        }
                    },
                    _ => Err(ErrV::DefinitionsNotObject),
                },
                None => match compile_node_spec(j, false, Seq::empty()) {
                    Err(e) => Err(e),
                    Ok(root) => Ok(SchemaV { definitions: Seq::empty(), root }),
                },
            }
        },
        _ => Err(ErrV::NotAnObject),
    }
}

/// Whether a member list declares the given key.
pub open spec fn jkeys_contain(s: Seq<(String, Json)>, key: Seq<char>) -> bool {
    exists|i: int| 0 <= i < s.len() && s[i].0@ == key
}

/// The `enum` payload is a non-empty array of distinct strings.
pub open spec fn valid_enum_values(items: Seq<Json>) -> bool
    decreases items.len(),
{
    if items.len() == 0 {
        true
    } else {
        &&& valid_enum_values(items.drop_last())
        &&& items.last() is Str
        &&& forall|i: int|
            0 <= i < items.len() - 1 ==> !(items[i] is Str && items[i]->Str_0@
                == items.last()->Str_0@)
    }
}

/// A mapping variant takes the shape of a non-nullable Properties form.
pub open spec fn props_shape(v: Json) -> bool {
    &&& v is Object
    &&& (jget(v->Object_0@, "properties"@) is Some || jget(
        v->Object_0@,
        "optionalProperties"@,
    ) is Some)
    &&& !nullable_set(v->Object_0@)
}

/// A mapping variant declares the given key among its properties.
pub open spec fn declares_key(v: Json, key: Seq<char>) -> bool {
    v is Object && {
        let vf = v->Object_0@;
        ||| (jget(vf, "properties"@) matches Some(Json::Object(pf)) && jkeys_contain(pf@, key))
        ||| (jget(vf, "optionalProperties"@) matches Some(Json::Object(of)) && jkeys_contain(
            of@,
            key,
        ))
    }
}

/// Every member value of a `properties` object is a valid sub-schema.
pub open spec fn valid_members(s: Seq<(String, Json)>, defs: Seq<Seq<char>>) -> bool
    decreases jobj_height(s), 2nat, s.len(),
{
    if s.len() == 0 {
        true
    } else {
        valid_members(s.drop_last(), defs) && valid_node(s.last().1, true, defs)
    }
}

/// Every member of an `optionalProperties` object is a valid sub-schema
/// whose key is not also required.
pub open spec fn valid_opt_members(
    s: Seq<(String, Json)>,
    reqkeys: Seq<Seq<char>>,
    defs: Seq<Seq<char>>,
) -> bool
    decreases jobj_height(s), 2nat, s.len(),
{
    if s.len() == 0 {
        true
    } else {
        &&& valid_opt_members(s.drop_last(), reqkeys, defs)
        &&& !reqkeys.contains(s.last().0@)
        &&& valid_node(s.last().1, true, defs)
    }
}

/// Every mapping variant is a valid, non-nullable Properties schema that
/// does not declare the discriminator tag.
pub open spec fn valid_variants(
    s: Seq<(String, Json)>,
    tag: Seq<char>,
    defs: Seq<Seq<char>>,
) -> bool
    decreases jobj_height(s), 2nat, s.len(),
{
    if s.len() == 0 {
        true
    } else {
        &&& valid_variants(s.drop_last(), tag, defs)
        &&& valid_node(s.last().1, true, defs)
        &&& props_shape(s.last().1)
        &&& !declares_key(s.last().1, tag)
    }
}

/// The `properties` form is valid: both member objects are objects of valid
/// sub-schemas, and no key is both required and optional.
pub open spec fn valid_props(fs: Seq<(String, Json)>, defs: Seq<Seq<char>>) -> bool
    decreases jobj_height(fs), 1nat, 0nat,
        via valid_props_dec
{
    let reqkeys = match jget(fs, "properties"@) {
        Some(Json::Object(pf)) => jobj_keys(pf@),
        _ => Seq::empty(),
    };
    &&& (match jget(fs, "properties"@) {
        None => true,
        Some(pv) => pv is Object && valid_members(pv->Object_0@, defs),
    })
    &&& (match jget(fs, "optionalProperties"@) {
        None => true,
        Some(ov) => ov is Object && valid_opt_members(ov->Object_0@, reqkeys, defs),
    })
}

#[via_fn]
proof fn valid_props_dec(fs: Seq<(String, Json)>, defs: Seq<Seq<char>>) {
    if jget(fs, "properties"@) is Some {
        lemma_jget_height(fs, "properties"@);
    }
    if jget(fs, "optionalProperties"@) is Some {
        lemma_jget_height(fs, "optionalProperties"@);
    }
}

/// The `discriminator` form is valid: a string tag, an object mapping, and
/// valid variants.
pub open spec fn valid_disc(fs: Seq<(String, Json)>, defs: Seq<Seq<char>>) -> bool
    decreases jobj_height(fs), 1nat, 0nat,
        via valid_disc_dec
{
    &&& jget(fs, "discriminator"@) matches Some(Json::Str(_))
    &&& jget(fs, "mapping"@) matches Some(Json::Object(_))
    &&& (match (jget(fs, "discriminator"@), jget(fs, "mapping"@)) {
        (Some(Json::Str(tag)), Some(Json::Object(mf))) => valid_variants(mf@, tag@, defs),
        _ => true,
    })
}

#[via_fn]
proof fn valid_disc_dec(fs: Seq<(String, Json)>, defs: Seq<Seq<char>>) {
    if jget(fs, "mapping"@) is Some {
        lemma_jget_height(fs, "mapping"@);
    }
}

/// Validity of one schema object per RFC 8927: an object with at most one
/// form keyword, whose chosen form is well-formed and whose sub-schemas are
/// valid; `definitions` may appear only at the root.
pub open spec fn valid_node(j: Json, sub: bool, defs: Seq<Seq<char>>) -> bool
    decreases json_height(j), 0nat, 0nat,
        via valid_node_dec
{
    match j {
        Json::Object(fields) => {
            let fs = fields@;
            &&& !(sub && jget(fs, "definitions"@) is Some)
            &&& forms_present(fs).len() <= 1
            &&& (jget(fs, "ref"@) is Some ==> (jget(fs, "ref"@) matches Some(Json::Str(s))
                && defs.contains(s@)))
            &&& (jget(fs, "type"@) is Some ==> (jget(fs, "type"@) matches Some(Json::Str(s))
                && keyword_of_chars(s@) is Some))
            &&& (jget(fs, "enum"@) is Some ==> (jget(fs, "enum"@) matches Some(Json::Array(items))
                && items@.len() > 0 && valid_enum_values(items@)))
            &&& (jget(fs, "elements"@) is Some ==> valid_node(
                jget(fs, "elements"@)->Some_0,
                true,
                defs,
            ))
            &&& (jget(fs, "values"@) is Some ==> valid_node(jget(fs, "values"@)->Some_0, true, defs))
            &&& (jget(fs, "discriminator"@) is Some ==> valid_disc(fs, defs))
            &&& ((jget(fs, "properties"@) is Some || jget(fs, "optionalProperties"@) is Some)
                ==> valid_props(fs, defs))
        },
        _ => false,
    }
}

#[via_fn]
proof fn valid_node_dec(j: Json, sub: bool, defs: Seq<Seq<char>>) {
    match j {
        Json::Object(fields) => {
            if jget(fields@, "elements"@) is Some {
                lemma_jget_height(fields@, "elements"@);
            }
            if jget(fields@, "values"@) is Some {
                lemma_jget_height(fields@, "values"@);
            }
        },
        _ => {},
    }
}

/// Validity of a whole schema document: a root object whose definitions (if
/// any) are an object of valid schemas, and whose own form is valid.
pub open spec fn valid_root(j: Json) -> bool {
    match j {
        Json::Object(fields) => {
            let fs = fields@;
            match jget(fs, "definitions"@) {
                Some(dv) => dv is Object && valid_members(dv->Object_0@, jobj_keys(dv->Object_0@))
                    && valid_node(j, false, jobj_keys(dv->Object_0@)),
                None => valid_node(j, false, Seq::empty()),
            }
        },
        _ => false,
    }
}

/// The enum scan's successful result: the string contents, in order.
pub open spec fn enum_payload_ok(items: Seq<Json>, vs: Seq<Seq<char>>) -> bool {
    &&& vs.len() == items.len()
    &&& forall|x: int|
        0 <= x < items.len() ==> (#[trigger] items[x]) is Str && vs[x] == items[x]->Str_0@
}

/// The enum scan succeeds exactly on distinct string lists, and returns
/// their contents in order.
proof fn lemma_enum_items_ok(items: Seq<Json>)
    ensures
        (enum_items_spec(items) is Ok) == valid_enum_values(items),
        match enum_items_spec(items) {
            Ok(vs) => enum_payload_ok(items, vs),
            Err(_) => true,
        },
    decreases items.len(),
{
    let ghost post = (match enum_items_spec(items) {
        Ok(vs) => enum_payload_ok(items, vs),
        Err(_) => true,
    });
    if items.len() > 0 {
        lemma_enum_items_ok(items.drop_last());
        match enum_items_spec(items.drop_last()) {
            Err(_) => {
                assert(post);
            },
            Ok(seen) => {
                match items.last() {
                    Json::Str(s) => {
                        if seen.contains(s@) {
                            let x = choose|x: int| 0 <= x < seen.len() && seen[x] == s@;
                            assert(items.drop_last()[x] == items[x]);
                            assert(items[x] is Str && items[x]->Str_0@ == s@);
                            assert(post);
                        } else {
                            assert(forall|x: int|
                                0 <= x < items.len() - 1 ==> !(items[x] is Str && items[x]->Str_0@
                                    == items.last()->Str_0@)) by {
                                assert forall|x: int|
                                    0 <= x < items.len() - 1 && items[x] is Str implies items[x]->Str_0@
                                    != items.last()->Str_0@ by {
                                    assert(items.drop_last()[x] == items[x]);
                                    assert(seen[x] == items[x]->Str_0@);
                                }
                            }
                            let vs2 = seen.push(s@);
                            assert forall|x: int| 0 <= x < items.len() implies (#[trigger] items[x]) is Str
                                && vs2[x] == items[x]->Str_0@ by {
                                if x < items.len() - 1 {
                                    assert(items.drop_last()[x] == items[x]);
                                    assert(seen[x] == items[x]->Str_0@);
                                    assert(vs2[x] == seen[x]);
                                } else {
                                    assert(vs2[x] == s@);
                                }
                            }
                            assert(enum_items_spec(items) == Ok::<Seq<Seq<char>>, ErrV>(vs2));
                            assert(enum_payload_ok(items, vs2));
                            assert(post);
                        }
                    },
                    _ => {
                        assert(post);
                    },
                }
            },
        }
    } else {
        assert(enum_items_spec(items) == Ok::<Seq<Seq<char>>, ErrV>(Seq::empty()));
        assert(enum_payload_ok(items, Seq::empty()));
        assert(post);
    }
}

/// The required-property scan succeeds exactly on valid members, and its
/// result carries the members' keys in order.
#[verifier::rlimit(100)]
proof fn lemma_props_list_ok(pf: Seq<(String, Json)>, defs: Seq<Seq<char>>)
    ensures
        (props_list_spec(pf, defs) is Ok) == valid_members(pf, defs),
        match props_list_spec(pf, defs) {
            Ok(vs) => vs.len() == pf.len() && (forall|x: int|
                0 <= x < pf.len() ==> vs[x].0 == pf[x].0@),
            Err(_) => true,
        },
    decreases jobj_height(pf), 2nat, pf.len(),
{
    if pf.len() > 0 {
        lemma_props_list_ok(pf.drop_last(), defs);
                lemma_jobj_height_mem(pf, pf.len() - 1);
        lemma_compile_ok_iff_valid(pf.last().1, true, defs);
    }
}

/// The optional-property scan succeeds exactly on valid members whose keys
/// are not also required.
#[verifier::rlimit(100)]
proof fn lemma_opt_list_ok(
    of: Seq<(String, Json)>,
    req: Seq<(Seq<char>, NodeV)>,
    reqkeys: Seq<Seq<char>>,
    defs: Seq<Seq<char>>,
)
    requires
        req.len() == reqkeys.len(),
        forall|x: int| 0 <= x < req.len() ==> req[x].0 == reqkeys[x],
    ensures
        (opt_list_spec(of, req, defs) is Ok) == valid_opt_members(of, reqkeys, defs),
    decreases jobj_height(of), 2nat, of.len(),
{
    if of.len() > 0 {
        lemma_opt_list_ok(of.drop_last(), req, reqkeys, defs);
                lemma_jobj_height_mem(of, of.len() - 1);
        lemma_compile_ok_iff_valid(of.last().1, true, defs);
        let k = of.last().0@;
        if vkeys_contain(req, k) {
            let x = choose|x: int| 0 <= x < req.len() && req[x].0 == k;
            assert(reqkeys[x] == k);
            assert(reqkeys.contains(k));
        }
        if reqkeys.contains(k) {
            let x = choose|x: int| 0 <= x < reqkeys.len() && reqkeys[x] == k;
            assert(req[x].0 == k);
            assert(vkeys_contain(req, k));
        }
    }
}

/// With at most one form present, each present form excludes the others.
proof fn lemma_single_form(fs: Seq<(String, Json)>)
    requires
        forms_present(fs).len() <= 1,
    ensures
        jget(fs, "ref"@) is Some ==> !(jget(fs, "type"@) is Some) && !(jget(fs, "enum"@) is Some)
            && !(jget(fs, "elements"@) is Some) && !(jget(fs, "values"@) is Some) && !(jget(
            fs,
            "discriminator"@,
        ) is Some) && !(jget(fs, "properties"@) is Some) && !(jget(
            fs,
            "optionalProperties"@,
        ) is Some),
        jget(fs, "type"@) is Some ==> !(jget(fs, "enum"@) is Some) && !(jget(
            fs,
            "elements"@,
        ) is Some) && !(jget(fs, "values"@) is Some) && !(jget(fs, "discriminator"@) is Some)
            && !(jget(fs, "properties"@) is Some) && !(jget(fs, "optionalProperties"@) is Some),
        jget(fs, "enum"@) is Some ==> !(jget(fs, "elements"@) is Some) && !(jget(
            fs,
            "values"@,
        ) is Some) && !(jget(fs, "discriminator"@) is Some) && !(jget(fs, "properties"@) is Some)
            && !(jget(fs, "optionalProperties"@) is Some),
        jget(fs, "elements"@) is Some ==> !(jget(fs, "values"@) is Some) && !(jget(
            fs,
            "discriminator"@,
        ) is Some) && !(jget(fs, "properties"@) is Some) && !(jget(
            fs,
            "optionalProperties"@,
        ) is Some),
        jget(fs, "values"@) is Some ==> !(jget(fs, "discriminator"@) is Some) && !(jget(
            fs,
            "properties"@,
        ) is Some) && !(jget(fs, "optionalProperties"@) is Some),
        jget(fs, "discriminator"@) is Some ==> !(jget(fs, "properties"@) is Some) && !(jget(
            fs,
            "optionalProperties"@,
        ) is Some),
{
}

/// A compiling schema yields a Properties node exactly when it has the
/// non-nullable Properties shape; the node then carries the declared keys.
#[verifier::rlimit(100)]
proof fn lemma_ok_props_shape(v: Json, defs: Seq<Seq<char>>)
    requires
        compile_node_spec(v, true, defs) is Ok,
    ensures
        (compile_node_spec(v, true, defs)->Ok_0 is Properties) == props_shape(v),
        compile_node_spec(v, true, defs)->Ok_0 matches NodeV::Properties {
            required,
            optional,
            ..
        } ==> (match jget(v->Object_0@, "properties"@) {
            Some(Json::Object(pf)) => required.len() == pf@.len() && (forall|x: int|
                0 <= x < pf@.len() ==> required[x].0 == pf@[x].0@),
            None => required.len() == 0,
            _ => false,
        }) && (match jget(v->Object_0@, "optionalProperties"@) {
            Some(Json::Object(of)) => optional.len() == of@.len() && (forall|x: int|
                0 <= x < of@.len() ==> optional[x].0 == of@[x].0@),
            None => optional.len() == 0,
            _ => false,
        }),
    decreases json_height(v), 1nat, 0nat,
{
    match v {
        Json::Object(fields) => {
            let fs = fields@;
            let r = compile_node_spec(v, true, defs);
            assert(!(jget(fs, "definitions"@) is Some));
            assert(forms_present(fs).len() <= 1);
            lemma_single_form(fs);
            if jget(fs, "ref"@) is Some {
                assert(!(r->Ok_0 is Properties));
                assert(!props_shape(v));
            } else if jget(fs, "type"@) is Some {
                assert(!(r->Ok_0 is Properties));
                assert(!props_shape(v));
            } else if jget(fs, "enum"@) is Some {
                assert(!(r->Ok_0 is Properties));
                assert(!props_shape(v));
            } else if jget(fs, "elements"@) is Some {
                assert(!(r->Ok_0 is Properties));
                assert(!props_shape(v));
            } else if jget(fs, "values"@) is Some {
                assert(!(r->Ok_0 is Properties));
                assert(!props_shape(v));
            } else if jget(fs, "discriminator"@) is Some {
                match jget(fs, "discriminator"@) {
                    Some(dv) => match dv {
                        Json::Str(tag) => {
                            match jget(fs, "mapping"@) {
                                Some(mv) => match mv {
                                    Json::Object(mf) => {
                                        assert(disc_spec(fs, defs) is Ok ==> disc_spec(
                                            fs,
                                            defs,
                                        )->Ok_0 is Discriminator);
                                    },
                                    _ => {},
                                },
                                None => {},
                            }
                        },
                        _ => {},
                    },
                    None => {},
                }
                assert(!(r->Ok_0 is Properties));
                assert(!props_shape(v));
            } else if jget(fs, "properties"@) is Some || jget(
                fs,
                "optionalProperties"@,
            ) is Some {
                assert(props_spec(fs, defs) is Ok);
                match jget(fs, "properties"@) {
                    Some(pv) => match pv {
                        Json::Object(pf) => {
                            lemma_jget_height(fs, "properties"@);
                            lemma_props_list_ok(pf@, defs);
                        },
                        _ => {},
                    },
                    None => {},
                }
                match props_req_r(fs, defs) {
                    Ok(req) => {
                        match jget(fs, "optionalProperties"@) {
                            Some(ov) => match ov {
                                Json::Object(of) => {
                                    lemma_jget_height(fs, "optionalProperties"@);
                                    lemma_opt_list_keys(of@, req, defs);
                                },
                                _ => {},
                            },
                            None => {},
                        }
                    },
                    Err(_) => {},
                }
                if nullable_set(fs) {
                    assert(!(r->Ok_0 is Properties));
                    assert(!props_shape(v));
                } else {
                    assert(r->Ok_0 is Properties);
                    assert(props_shape(v));
                }
            } else {
                assert(!(r->Ok_0 is Properties));
                assert(!props_shape(v));
            }
        },
        _ => {
            assert(false);
        },
    }
}

/// The optional-property scan's result carries the members' keys in order.
proof fn lemma_opt_list_keys(
    of: Seq<(String, Json)>,
    req: Seq<(Seq<char>, NodeV)>,
    defs: Seq<Seq<char>>,
)
    ensures
        match opt_list_spec(of, req, defs) {
            Ok(vs) => vs.len() == of.len() && (forall|x: int|
                0 <= x < of.len() ==> vs[x].0 == of[x].0@),
            Err(_) => true,
        },
    decreases of.len(),
{
    if of.len() > 0 {
        lemma_opt_list_keys(of.drop_last(), req, defs);
    }
}

/// The variant scan succeeds exactly on valid, non-nullable Properties
/// variants that do not declare the tag.
#[verifier::rlimit(100)]
proof fn lemma_mapping_list_ok(mf: Seq<(String, Json)>, tag: Seq<char>, defs: Seq<Seq<char>>)
    ensures
        (mapping_list_spec(mf, tag, defs) is Ok) == valid_variants(mf, tag, defs),
    decreases jobj_height(mf), 2nat, mf.len(),
{
    if mf.len() > 0 {
        lemma_mapping_list_ok(mf.drop_last(), tag, defs);
                lemma_jobj_height_mem(mf, mf.len() - 1);
        let v = mf.last().1;
        lemma_compile_ok_iff_valid(v, true, defs);
        match mapping_list_spec(mf.drop_last(), tag, defs) {
            Err(_) => {},
            Ok(_) => {
                match compile_node_spec(v, true, defs) {
                    Err(_) => {},
                    Ok(n) => {
                        lemma_ok_props_shape(v, defs);
                        match n {
                            NodeV::Properties { required, optional, .. } => {
                                let vf = v->Object_0@;
                                if vkeys_contain(required, tag) {
                                    let x = choose|x: int|
                                        0 <= x < required.len() && required[x].0 == tag;
                                    match jget(vf, "properties"@) {
                                        Some(Json::Object(pf)) => {
                                            assert(pf@[x].0@ == tag);
                                            assert(jkeys_contain(pf@, tag));
                                        },
                                        _ => {},
                                    }
                                }
                                if vkeys_contain(optional, tag) {
                                    let x = choose|x: int|
                                        0 <= x < optional.len() && optional[x].0 == tag;
                                    match jget(vf, "optionalProperties"@) {
                                        Some(Json::Object(of)) => {
                                            assert(of@[x].0@ == tag);
                                            assert(jkeys_contain(of@, tag));
                                        },
                                        _ => {},
                                    }
                                }
                                if declares_key(v, tag) {
                                    match jget(vf, "properties"@) {
                                        Some(Json::Object(pf)) => {
                                            if jkeys_contain(pf@, tag) {
                                                let x = choose|x: int|
                                                    0 <= x < pf@.len() && pf@[x].0@ == tag;
                                                assert(required[x].0 == tag);
                                                assert(vkeys_contain(required, tag));
                                            }
                                        },
                                        _ => {},
                                    }
                                    match jget(vf, "optionalProperties"@) {
                                        Some(Json::Object(of)) => {
                                            if jkeys_contain(of@, tag) {
                                                let x = choose|x: int|
                                                    0 <= x < of@.len() && of@[x].0@ == tag;
                                                assert(optional[x].0 == tag);
                                                assert(vkeys_contain(optional, tag));
                                            }
                                        },
                                        _ => {},
                                    }
                                }
                            },
                            _ => {},
                        }
                    },
                }
            },
        }
    }
}

/// One schema object compiles exactly when it is valid per RFC 8927.
#[verifier::rlimit(100)]
pub proof fn lemma_compile_ok_iff_valid(j: Json, sub: bool, defs: Seq<Seq<char>>)
    ensures
        (compile_node_spec(j, sub, defs) is Ok) == valid_node(j, sub, defs),
    decreases json_height(j), 0nat, 0nat,
{
    match j {
        Json::Object(fields) => {
            let fs = fields@;
            if !(sub && jget(fs, "definitions"@) is Some) && forms_present(fs).len() <= 1 {
                lemma_single_form(fs);
                if jget(fs, "ref"@) is Some {
                    match jget(fs, "ref"@) {
                        Some(rv) => match rv {
                            Json::Str(s2) => {
                                assert((ref_spec(fs, defs) is Ok) == defs.contains(s2@));
                            },
                            _ => {
                                assert(ref_spec(fs, defs) is Err);
                            },
                        },
                        None => {},
                    }
                    assert((compile_node_spec(j, sub, defs) is Ok) == valid_node(j, sub, defs));
                } else if jget(fs, "type"@) is Some {
                    match jget(fs, "type"@) {
                        Some(tv) => match tv {
                            Json::Str(s2) => {
                                assert((type_spec(fs) is Ok) == (keyword_of_chars(s2@) is Some));
                            },
                            _ => {
                                assert(type_spec(fs) is Err);
                            },
                        },
                        None => {},
                    }
                    assert((compile_node_spec(j, sub, defs) is Ok) == valid_node(j, sub, defs));
                } else if jget(fs, "enum"@) is Some {
                    match jget(fs, "enum"@) {
                        Some(ev) => match ev {
                            Json::Array(items) => {
                                lemma_enum_items_ok(items@);
                            },
                            _ => {
                                assert(enum_spec(fs) is Err);
                            },
                        },
                        None => {},
                    }
                    assert((compile_node_spec(j, sub, defs) is Ok) == valid_node(j, sub, defs));
                } else if jget(fs, "elements"@) is Some {
                    lemma_jget_height(fs, "elements"@);
                    lemma_compile_ok_iff_valid(jget(fs, "elements"@)->Some_0, true, defs);
                    assert((compile_node_spec(j, sub, defs) is Ok) == valid_node(j, sub, defs));
                } else if jget(fs, "values"@) is Some {
                    lemma_jget_height(fs, "values"@);
                    lemma_compile_ok_iff_valid(jget(fs, "values"@)->Some_0, true, defs);
                    assert((compile_node_spec(j, sub, defs) is Ok) == valid_node(j, sub, defs));
                } else if jget(fs, "discriminator"@) is Some {
                    match (jget(fs, "discriminator"@), jget(fs, "mapping"@)) {
                        (Some(Json::Str(tag)), Some(Json::Object(mf))) => {
                            lemma_jget_height(fs, "mapping"@);
                            lemma_mapping_list_ok(mf@, tag@, defs);
                            assert((disc_spec(fs, defs) is Ok) == valid_variants(mf@, tag@, defs));
                        },
                        _ => {
                            assert(disc_spec(fs, defs) is Err);
                            assert(!valid_disc(fs, defs));
                        },
                    }
                    assert((compile_node_spec(j, sub, defs) is Ok) == (disc_spec(fs, defs) is Ok));
                    assert(valid_node(j, sub, defs) == valid_disc(fs, defs));
                    assert((compile_node_spec(j, sub, defs) is Ok) == valid_node(j, sub, defs));
                } else if jget(fs, "properties"@) is Some || jget(
                    fs,
                    "optionalProperties"@,
                ) is Some {
                    match jget(fs, "properties"@) {
                        Some(pv) => match pv {
                            Json::Object(pf) => {
                                lemma_jget_height(fs, "properties"@);
                                lemma_props_list_ok(pf@, defs);
                                match props_req_r(fs, defs) {
                                    Ok(req) => {
                                        match jget(fs, "optionalProperties"@) {
                                            Some(ov) => match ov {
                                                Json::Object(of) => {
                                                    lemma_jget_height(fs, "optionalProperties"@);
                                                    lemma_opt_list_ok(of@, req, jobj_keys(pf@), defs);
                                                },
                                                _ => {},
                                            },
                                            None => {},
                                        }
                                    },
                                    Err(_) => {
                                        assert(!valid_members(pf@, defs));
                                        assert(!valid_props(fs, defs));
                                    },
                                }
                            },
                            _ => {
                                assert(props_spec(fs, defs) is Err);
                                assert(!valid_props(fs, defs));
                            },
                        },
                        None => {
                            match jget(fs, "optionalProperties"@) {
                                Some(ov) => match ov {
                                    Json::Object(of) => {
                                        lemma_jget_height(fs, "optionalProperties"@);
                                        lemma_opt_list_ok(of@, Seq::empty(), Seq::empty(), defs);
                                    },
                                    _ => {},
                                },
                                None => {},
                            }
                        },
                    }
                    assert((compile_node_spec(j, sub, defs) is Ok) == (props_spec(fs, defs) is Ok));
                    assert(valid_node(j, sub, defs) == valid_props(fs, defs));
                    assert((compile_node_spec(j, sub, defs) is Ok) == valid_node(j, sub, defs));
                } else {
                    assert(compile_node_spec(j, sub, defs) is Ok);
                    assert((compile_node_spec(j, sub, defs) is Ok) == valid_node(j, sub, defs));
                }
            }
        },
        _ => {},
    }
}

/// The definitions scan succeeds exactly on valid bodies.
proof fn lemma_defs_ok(df: Seq<(String, Json)>, names: Seq<Seq<char>>)
    ensures
        (defs_spec(df, names) is Ok) == valid_members(df, names),
    decreases df.len(),
{
    if df.len() > 0 {
        lemma_defs_ok(df.drop_last(), names);
        lemma_compile_ok_iff_valid(df.last().1, true, names);
    }
}

/// Law: compilation succeeds on exactly the valid JTD schema documents;
/// every invalid document fails, and by construction every failure is a
/// specific entry of the error taxonomy.
pub proof fn lemma_compile_iff_valid(j: Json)
    ensures
        (compile_spec(j) is Ok) == valid_root(j),
{
    match j {
        Json::Object(fields) => {
            match jget(fields@, "definitions"@) {
                Some(dv) => match dv {
                    Json::Object(df) => {
                        lemma_defs_ok(df@, jobj_keys(df@));
                        if defs_spec(df@, jobj_keys(df@)) is Ok {
                            lemma_compile_ok_iff_valid(j, false, jobj_keys(df@));
                        }
                    },
                    _ => {},
                },
                None => {
                    lemma_compile_ok_iff_valid(j, false, Seq::empty());
                },
            }
        },
        _ => {},
    }
}

/// Law: form detection round-trips.  A schema object carrying one form
/// keyword (and no `nullable` modifier) compiles to the corresponding AST
/// constructor, and one carrying none compiles to Empty.
#[verifier::rlimit(100)]
pub proof fn lemma_form_detection(j: Json, sub: bool, defs: Seq<Seq<char>>)
    requires
        compile_node_spec(j, sub, defs) is Ok,
        !nullable_set(j->Object_0@),
    ensures
        jget(j->Object_0@, "ref"@) is Some ==> compile_node_spec(j, sub, defs)->Ok_0 is Ref,
        jget(j->Object_0@, "type"@) is Some ==> compile_node_spec(j, sub, defs)->Ok_0 is Type,
        jget(j->Object_0@, "enum"@) is Some ==> compile_node_spec(j, sub, defs)->Ok_0 is Enum,
        jget(j->Object_0@, "elements"@) is Some ==> compile_node_spec(
            j,
            sub,
            defs,
        )->Ok_0 is Elements,
        jget(j->Object_0@, "values"@) is Some ==> compile_node_spec(j, sub, defs)->Ok_0 is Values,
        jget(j->Object_0@, "discriminator"@) is Some ==> compile_node_spec(
            j,
            sub,
            defs,
        )->Ok_0 is Discriminator,
        (jget(j->Object_0@, "properties"@) is Some || jget(
            j->Object_0@,
            "optionalProperties"@,
        ) is Some) ==> compile_node_spec(j, sub, defs)->Ok_0 is Properties,
        forms_present(j->Object_0@).len() == 0 ==> compile_node_spec(j, sub, defs)->Ok_0 is Empty,
{
    match j {
        Json::Object(fields) => {
            let fs = fields@;
            let r = compile_node_spec(j, sub, defs);
            assert(forms_present(fs).len() <= 1);
            lemma_single_form(fs);
            if jget(fs, "ref"@) is Some {
                assert(r->Ok_0 is Ref);
            } else if jget(fs, "type"@) is Some {
                assert(r->Ok_0 is Type);
            } else if jget(fs, "enum"@) is Some {
                assert(r->Ok_0 is Enum);
            } else if jget(fs, "elements"@) is Some {
                assert(r->Ok_0 is Elements);
            } else if jget(fs, "values"@) is Some {
                assert(r->Ok_0 is Values);
            } else if jget(fs, "discriminator"@) is Some {
                match jget(fs, "discriminator"@) {
                    Some(dv) => match dv {
                        Json::Str(tag) => {
                            match jget(fs, "mapping"@) {
                                Some(mv) => match mv {
                                    Json::Object(mf) => {
                                        assert(disc_spec(fs, defs) is Ok ==> disc_spec(
                                            fs,
                                            defs,
                                        )->Ok_0 is Discriminator);
                                    },
                                    _ => {},
                                },
                                None => {},
                            }
                        },
                        _ => {},
                    },
                    None => {},
                }
                assert(r->Ok_0 is Discriminator);
            } else if jget(fs, "properties"@) is Some || jget(
                fs,
                "optionalProperties"@,
            ) is Some {
                assert(props_spec(fs, defs) is Ok);
                assert(r->Ok_0 is Properties);
            } else {
                assert(r->Ok_0 is Empty);
            }
        },
        _ => {},
    }
}

/// Law: a schema object carrying more than one form keyword fails with
/// MultipleForms naming them, in canonical order.
pub proof fn lemma_multiple_forms(j: Json, sub: bool, defs: Seq<Seq<char>>)
    requires
        j is Object,
        !(sub && jget(j->Object_0@, "definitions"@) is Some),
        forms_present(j->Object_0@).len() > 1,
    ensures
        compile_node_spec(j, sub, defs) == Err::<NodeV, ErrV>(
            ErrV::MultipleForms(forms_present(j->Object_0@)),
        ),
{
}

/// The keys of a compiled keyed node list are strictly increasing.
pub open spec fn vkeys_sorted(s: Seq<(Seq<char>, NodeV)>) -> bool {
    forall|i: int, x: int| 0 <= i < x < s.len() ==> chars_lt(s[i].0, s[x].0)
}

/// Every node of a compiled keyed node list has sorted maps throughout.
pub open spec fn vlist_nodes_sorted(s: Seq<(Seq<char>, NodeV)>) -> bool
    decreases s,
{
    if s.len() == 0 {
        true
    } else {
        vlist_nodes_sorted(s.drop_last()) && nodev_sorted(s.last().1)
    }
}

/// Every keyed map inside a compiled node has strictly increasing keys.
pub open spec fn nodev_sorted(n: NodeV) -> bool
    decreases n,
{
    match n {
        NodeV::Empty => true,
        NodeV::Ref { .. } => true,
        NodeV::Type { .. } => true,
        NodeV::Enum { .. } => true,
        NodeV::Elements { schema } => nodev_sorted(*schema),
        NodeV::Values { schema } => nodev_sorted(*schema),
        NodeV::Nullable { inner } => nodev_sorted(*inner),
        NodeV::Properties { required, optional, .. } => vkeys_sorted(required) && vkeys_sorted(
            optional,
        ) && vlist_nodes_sorted(required) && vlist_nodes_sorted(optional),
        NodeV::Discriminator { mapping, .. } => vkeys_sorted(mapping) && vlist_nodes_sorted(
            mapping,
        ),
    }
}

/// Compiled required members of well-formed values have sorted maps.
proof fn lemma_sorted_props_list(pf: Seq<(String, Json)>, defs: Seq<Seq<char>>)
    requires
        forall|i: int| 0 <= i < pf.len() ==> json_wf(#[trigger] pf[i].1),
    ensures
        match props_list_spec(pf, defs) {
            Ok(vs) => vlist_nodes_sorted(vs),
            Err(_) => true,
        },
    decreases jobj_height(pf), 2nat, pf.len(),
{
    if pf.len() > 0 {
        assert forall|i: int| 0 <= i < pf.drop_last().len() implies json_wf(
            #[trigger] pf.drop_last()[i].1,
        ) by {
            assert(pf.drop_last()[i] == pf[i]);
        }
        lemma_sorted_props_list(pf.drop_last(), defs);
        lemma_jobj_height_mem(pf, pf.len() - 1);
        lemma_sorted_node(pf.last().1, true, defs);
        match props_list_spec(pf, defs) {
            Ok(vs) => {
                match props_list_spec(pf.drop_last(), defs) {
                    Ok(done) => {
                        assert(vs.drop_last() =~= done);
                    },
                    Err(_) => {},
                }
            },
            Err(_) => {},
        }
    }
}

/// Compiled optional members of well-formed values have sorted maps.
proof fn lemma_sorted_opt_list(
    of: Seq<(String, Json)>,
    req: Seq<(Seq<char>, NodeV)>,
    defs: Seq<Seq<char>>,
)
    requires
        forall|i: int| 0 <= i < of.len() ==> json_wf(#[trigger] of[i].1),
    ensures
        match opt_list_spec(of, req, defs) {
            Ok(vs) => vlist_nodes_sorted(vs),
            Err(_) => true,
        },
    decreases jobj_height(of), 2nat, of.len(),
{
    if of.len() > 0 {
        assert forall|i: int| 0 <= i < of.drop_last().len() implies json_wf(
            #[trigger] of.drop_last()[i].1,
        ) by {
            assert(of.drop_last()[i] == of[i]);
        }
        lemma_sorted_opt_list(of.drop_last(), req, defs);
        lemma_jobj_height_mem(of, of.len() - 1);
        lemma_sorted_node(of.last().1, true, defs);
        match opt_list_spec(of, req, defs) {
            Ok(vs) => {
                match opt_list_spec(of.drop_last(), req, defs) {
                    Ok(done) => {
                        assert(vs.drop_last() =~= done);
                    },
                    Err(_) => {},
                }
            },
            Err(_) => {},
        }
    }
}

/// Compiled mapping variants of well-formed values have sorted maps, and
/// the result carries the variants' keys in order.
proof fn lemma_sorted_mapping_list(mf: Seq<(String, Json)>, tag: Seq<char>, defs: Seq<Seq<char>>)
    requires
        forall|i: int| 0 <= i < mf.len() ==> json_wf(#[trigger] mf[i].1),
    ensures
        match mapping_list_spec(mf, tag, defs) {
            Ok(vs) => vlist_nodes_sorted(vs) && vs.len() == mf.len() && (forall|x: int|
                0 <= x < mf.len() ==> vs[x].0 == mf[x].0@),
            Err(_) => true,
        },
    decreases jobj_height(mf), 2nat, mf.len(),
{
    if mf.len() > 0 {
        assert forall|i: int| 0 <= i < mf.drop_last().len() implies json_wf(
            #[trigger] mf.drop_last()[i].1,
        ) by {
            assert(mf.drop_last()[i] == mf[i]);
        }
        lemma_sorted_mapping_list(mf.drop_last(), tag, defs);
        lemma_jobj_height_mem(mf, mf.len() - 1);
        lemma_sorted_node(mf.last().1, true, defs);
        match mapping_list_spec(mf, tag, defs) {
            Ok(vs) => {
                match mapping_list_spec(mf.drop_last(), tag, defs) {
                    Ok(done) => {
                        assert(vs.drop_last() =~= done);
                    },
                    Err(_) => {},
                }
            },
            Err(_) => {},
        }
    }
}

/// A well-formed `properties` form compiles to a node with sorted maps.
proof fn lemma_sorted_props(fs: Seq<(String, Json)>, defs: Seq<Seq<char>>)
    requires
        forall|i: int| 0 <= i < fs.len() ==> json_wf(#[trigger] fs[i].1),
    ensures
        match props_spec(fs, defs) {
            Ok(n) => nodev_sorted(n),
            Err(_) => true,
        },
    decreases jobj_height(fs), 1nat, 2nat,
{
    reveal_with_fuel(nodev_sorted, 3);
    match jget(fs, "properties"@) {
        Some(pv) => match pv {
            Json::Object(pf) => {
                lemma_jget_height(fs, "properties"@);
                lemma_jget_wf(fs, "properties"@);
                lemma_sorted_props_list(pf@, defs);
                lemma_props_list_ok(pf@, defs);
                match props_list_spec(pf@, defs) {
                    Ok(vs) => {
                        assert forall|i: int, x: int| 0 <= i < x < vs.len() implies chars_lt(
                            vs[i].0,
                            vs[x].0,
                        ) by {
                            assert(vs[i].0 == pf@[i].0@);
                            assert(vs[x].0 == pf@[x].0@);
                        }
                        assert(vkeys_sorted(vs));
                    },
                    Err(_) => {},
                }
            },
            _ => {},
        },
        None => {},
    }
    match props_req_r(fs, defs) {
        Ok(req) => {
            assert(vkeys_sorted(req) && vlist_nodes_sorted(req));
            match jget(fs, "optionalProperties"@) {
                Some(ov) => match ov {
                    Json::Object(of) => {
                        lemma_jget_height(fs, "optionalProperties"@);
                        lemma_jget_wf(fs, "optionalProperties"@);
                        lemma_sorted_opt_list(of@, req, defs);
                        lemma_opt_list_keys(of@, req, defs);
                        match opt_list_spec(of@, req, defs) {
                            Ok(vs) => {
                                assert forall|i: int, x: int|
                                    0 <= i < x < vs.len() implies chars_lt(vs[i].0, vs[x].0) by {
                                    assert(vs[i].0 == of@[i].0@);
                                    assert(vs[x].0 == of@[x].0@);
                                }
                                assert(vkeys_sorted(vs));
                            },
                            Err(_) => {},
                        }
                    },
                    _ => {},
                },
                None => {},
            }
        },
        Err(_) => {},
    }
}

/// A well-formed `discriminator` form compiles to a node with sorted maps.
proof fn lemma_sorted_disc(fs: Seq<(String, Json)>, defs: Seq<Seq<char>>)
    requires
        forall|i: int| 0 <= i < fs.len() ==> json_wf(#[trigger] fs[i].1),
    ensures
        match disc_spec(fs, defs) {
            Ok(n) => nodev_sorted(n),
            Err(_) => true,
        },
    decreases jobj_height(fs), 1nat, 2nat,
{
    reveal_with_fuel(nodev_sorted, 3);
    match (jget(fs, "discriminator"@), jget(fs, "mapping"@)) {
        (Some(Json::Str(tag)), Some(Json::Object(mf))) => {
            lemma_jget_height(fs, "mapping"@);
            lemma_jget_wf(fs, "mapping"@);
            lemma_sorted_mapping_list(mf@, tag@, defs);
            match mapping_list_spec(mf@, tag@, defs) {
                Ok(vs) => {
                    assert forall|i: int, x: int| 0 <= i < x < vs.len() implies chars_lt(
                        vs[i].0,
                        vs[x].0,
                    ) by {
                        assert(vs[i].0 == mf@[i].0@);
                        assert(vs[x].0 == mf@[x].0@);
                    }
                    assert(vkeys_sorted(vs));
                },
                Err(_) => {},
            }
        },
        _ => {},
    }
}

/// A well-formed document compiles to a node whose maps are all sorted:
/// the compiler preserves the lexicographic member order of its input.
#[verifier::rlimit(100)]
pub proof fn lemma_sorted_node(j: Json, sub: bool, defs: Seq<Seq<char>>)
    requires
        json_wf(j),
    ensures
        match compile_node_spec(j, sub, defs) {
            Ok(n) => nodev_sorted(n),
            Err(_) => true,
        },
    decreases json_height(j), 0nat, 0nat,
{
    reveal_with_fuel(nodev_sorted, 3);
    let ghost goal = (match compile_node_spec(j, sub, defs) {
        Ok(n) => nodev_sorted(n),
        Err(_) => true,
    });
    match j {
        Json::Object(fields) => {
            let fs = fields@;
            if !(sub && jget(fs, "definitions"@) is Some) && forms_present(fs).len() <= 1 {
                if jget(fs, "ref"@) is Some {
                    assert(goal);
                } else if jget(fs, "type"@) is Some {
                    assert(goal);
                } else if jget(fs, "enum"@) is Some {
                    assert(goal);
                } else if jget(fs, "elements"@) is Some {
                    lemma_jget_height(fs, "elements"@);
                    lemma_jget_wf(fs, "elements"@);
                    lemma_sorted_node(jget(fs, "elements"@)->Some_0, true, defs);
                    assert(goal);
                } else if jget(fs, "values"@) is Some {
                    lemma_jget_height(fs, "values"@);
                    lemma_jget_wf(fs, "values"@);
                    lemma_sorted_node(jget(fs, "values"@)->Some_0, true, defs);
                    assert(goal);
                } else if jget(fs, "discriminator"@) is Some {
                    lemma_sorted_disc(fs, defs);
                    assert(goal);
                } else if jget(fs, "properties"@) is Some || jget(
                    fs,
                    "optionalProperties"@,
                ) is Some {
                    lemma_sorted_props(fs, defs);
                    assert(goal);
                } else {
                    assert(goal);
                }
            }
        },
        _ => {},
    }
}

/// The definitions scan carries the declared names in order, and compiles
/// well-formed bodies into nodes with sorted maps.
proof fn lemma_sorted_defs(df: Seq<(String, Json)>, names: Seq<Seq<char>>)
    requires
        forall|i: int| 0 <= i < df.len() ==> json_wf(#[trigger] df[i].1),
    ensures
        match defs_spec(df, names) {
            Ok(vs) => vlist_nodes_sorted(vs) && vs.len() == df.len() && (forall|x: int|
                0 <= x < df.len() ==> vs[x].0 == df[x].0@),
            Err(_) => true,
        },
    decreases jobj_height(df), 2nat, df.len(),
{
    if df.len() > 0 {
        assert forall|i: int| 0 <= i < df.drop_last().len() implies json_wf(
            #[trigger] df.drop_last()[i].1,
        ) by {
            assert(df.drop_last()[i] == df[i]);
        }
        lemma_sorted_defs(df.drop_last(), names);
        lemma_jobj_height_mem(df, df.len() - 1);
        lemma_sorted_node(df.last().1, true, names);
        match defs_spec(df, names) {
            Ok(vs) => {
                match defs_spec(df.drop_last(), names) {
                    Ok(done) => {
                        assert(vs.drop_last() =~= done);
                    },
                    Err(_) => {},
                }
            },
            Err(_) => {},
        }
    }
}

/// Law: compiling a well-formed document yields a schema whose definitions
/// and every nested map keep strictly increasing keys -- the lexicographic
/// iteration order that deterministic emission relies on.
pub proof fn lemma_compile_sorted(j: Json)
    requires
        json_wf(j),
    ensures
        match compile_spec(j) {
            Ok(sv) => vkeys_sorted(sv.definitions) && vlist_nodes_sorted(sv.definitions)
                && nodev_sorted(sv.root),
            Err(_) => true,
        },
{
    match j {
        Json::Object(fields) => {
            match jget(fields@, "definitions"@) {
                Some(dv) => match dv {
                    Json::Object(df) => {
                        lemma_jget_wf(fields@, "definitions"@);
                        lemma_sorted_defs(df@, jobj_keys(df@));
                        lemma_sorted_node(j, false, jobj_keys(df@));
                        match defs_spec(df@, jobj_keys(df@)) {
                            Ok(vs) => {
                                assert forall|i: int, x: int|
                                    0 <= i < x < vs.len() implies chars_lt(vs[i].0, vs[x].0) by {
                                    assert(vs[i].0 == df@[i].0@);
                                    assert(vs[x].0 == df@[x].0@);
                                }
                            },
                            Err(_) => {},
                        }
                    },
                    _ => {},
                },
                None => {
                    lemma_sorted_node(j, false, Seq::empty());
                },
            }
        },
        _ => {},
    }
}

/// An error among the first `i` members decides the whole scan.
proof fn lemma_props_list_err(pf: Seq<(String, Json)>, defs: Seq<Seq<char>>, i: int)
    requires
        0 <= i <= pf.len(),
        props_list_spec(pf.take(i), defs) is Err,
    ensures
        props_list_spec(pf, defs) == props_list_spec(pf.take(i), defs),
    decreases pf.len() - i,
{
    if i == pf.len() {
        assert(pf.take(i) =~= pf);
    } else {
        assert(pf.take(i + 1).drop_last() =~= pf.take(i));
        lemma_props_list_err(pf, defs, i + 1);
    }
}

/// An error among the first `i` members decides the whole scan.
proof fn lemma_opt_list_err(
    of: Seq<(String, Json)>,
    req: Seq<(Seq<char>, NodeV)>,
    defs: Seq<Seq<char>>,
    i: int,
)
    requires
        0 <= i <= of.len(),
        opt_list_spec(of.take(i), req, defs) is Err,
    ensures
        opt_list_spec(of, req, defs) == opt_list_spec(of.take(i), req, defs),
    decreases of.len() - i,
{
    if i == of.len() {
        assert(of.take(i) =~= of);
    } else {
        assert(of.take(i + 1).drop_last() =~= of.take(i));
        lemma_opt_list_err(of, req, defs, i + 1);
    }
}

/// An error among the first `i` variants decides the whole scan.
proof fn lemma_mapping_list_err(
    mf: Seq<(String, Json)>,
    tag: Seq<char>,
    defs: Seq<Seq<char>>,
    i: int,
)
    requires
        0 <= i <= mf.len(),
        mapping_list_spec(mf.take(i), tag, defs) is Err,
    ensures
        mapping_list_spec(mf, tag, defs) == mapping_list_spec(mf.take(i), tag, defs),
    decreases mf.len() - i,
{
    if i == mf.len() {
        assert(mf.take(i) =~= mf);
    } else {
        assert(mf.take(i + 1).drop_last() =~= mf.take(i));
        lemma_mapping_list_err(mf, tag, defs, i + 1);
    }
}

/// An error among the first `i` definitions decides the whole scan.
proof fn lemma_defs_err(df: Seq<(String, Json)>, names: Seq<Seq<char>>, i: int)
    requires
        0 <= i <= df.len(),
        defs_spec(df.take(i), names) is Err,
    ensures
        defs_spec(df, names) == defs_spec(df.take(i), names),
    decreases df.len() - i,
{
    if i == df.len() {
        assert(df.take(i) =~= df);
    } else {
        assert(df.take(i + 1).drop_last() =~= df.take(i));
        lemma_defs_err(df, names, i + 1);
    }
}

/// An error among the first `i` values decides the whole scan.
proof fn lemma_enum_items_err(items: Seq<Json>, i: int)
    requires
        0 <= i <= items.len(),
        enum_items_spec(items.take(i)) is Err,
    ensures
        enum_items_spec(items) == enum_items_spec(items.take(i)),
    decreases items.len() - i,
{
    if i == items.len() {
        assert(items.take(i) =~= items);
    } else {
        assert(items.take(i + 1).drop_last() =~= items.take(i));
        lemma_enum_items_err(items, i + 1);
    }
}

/// Whether a string list holds the given string.
fn strs_contains(list: &Vec<String>, s: &String) -> (r: bool)
    ensures
        r == strs_view(list@).contains(s@),
{
    let n = list.len();
    let mut i: usize = 0;
    while i < n
        invariant
            n == list@.len(),
            0 <= i <= n,
            forall|k: int| 0 <= k < i ==> list@[k]@ != s@,
        decreases n - i,
    {
        if list[i] == *s {
            proof {
                assert(strs_view(list@)[i as int] == s@);
            }
            return true;
        }
        i += 1;
    }
    proof {
        assert(forall|k: int| 0 <= k < strs_view(list@).len() ==> strs_view(list@)[k] != s@);
        assert(!strs_view(list@).contains(s@));
    }
    false
}

/// Whether a compiled keyed node list declares the given key.
fn nlist_has_key(list: &Vec<(String, Node)>, key: &String) -> (r: bool)
    ensures
        r == vkeys_contain(nlist_view(list@), key@),
{
    proof {
        crate::ast::lemma_nlist_view_len(list@);
    }
    let n = list.len();
    let mut i: usize = 0;
    while i < n
        invariant
            n == list@.len(),
            nlist_view(list@).len() == n,
            0 <= i <= n,
            forall|k: int| 0 <= k < i ==> #[trigger] nlist_view(list@)[k].0 != key@,
        decreases n - i,
    {
        proof {
            crate::ast::lemma_nlist_view_index(list@, i as int);
        }
        if list[i].0 == *key {
            proof {
                assert(nlist_view(list@)[i as int].0 == key@);
            }
            return true;
        }
        i += 1;
    }
    proof {
        assert(!vkeys_contain(nlist_view(list@), key@));
    }
    false
}

/// Compile the `ref` form.
fn compile_ref(obj: &Vec<(String, Json)>, definitions: &Vec<String>) -> (r: Result<
    Node,
    CompileError,
>)
    ensures
        result_matches(r, ref_spec(obj@, strs_view(definitions@))),
{
    let key = String::from_str("ref");
    match jobj_get(obj, &key) {
        Some(v) => match v {
            Json::Str(s) => {
                if strs_contains(definitions, s) {
                    Ok(Node::Ref { name: s.clone() })
                } else {
                    Err(CompileError::RefNotFound(s.clone()))
                }
            },
            _ => Err(CompileError::RefNotString),
        },
        None => Err(CompileError::RefNotString),
    }
}

/// Compile the `type` form.
fn compile_type(obj: &Vec<(String, Json)>) -> (r: Result<Node, CompileError>)
    ensures
        result_matches(r, type_spec(obj@)),
{
    let key = String::from_str("type");
    match jobj_get(obj, &key) {
        Some(v) => match v {
            Json::Str(s) => match TypeKeyword::parse(s.as_str()) {
                Some(kw) => Ok(Node::Type { type_kw: kw }),
                None => Err(CompileError::UnknownType(s.clone())),
            },
            _ => Err(CompileError::TypeNotString),
        },
        None => Err(CompileError::TypeNotString),
    }
}

/// Compile the `enum` form.
fn compile_enum(obj: &Vec<(String, Json)>) -> (r: Result<Node, CompileError>)
    ensures
        result_matches(r, enum_spec(obj@)),
{
    let key = String::from_str("enum");
    let arr = match jobj_get(obj, &key) {
        Some(v) => match v {
            Json::Array(items) => items,
            _ => {
                return Err(CompileError::InvalidEnum);
            },
        },
        None => {
            return Err(CompileError::InvalidEnum);
        },
    };
    if arr.len() == 0 {
        return Err(CompileError::InvalidEnum);
    }
    let n = arr.len();
    let mut values: Vec<String> = Vec::new();
    let mut i: usize = 0;
    proof {
        assert(arr@.take(0) =~= Seq::<Json>::empty());
        assert(strs_view(values@) =~= Seq::<Seq<char>>::empty());
    }
    while i < n
        invariant
            n == arr@.len(),
            n > 0,
            0 <= i <= n,
            jget(obj@, "enum"@) == Some(Json::Array(*arr)),
            enum_items_spec(arr@.take(i as int)) == Ok::<Seq<Seq<char>>, ErrV>(
                strs_view(values@),
            ),
        decreases n - i,
    {
        let ghost seen = strs_view(values@);
        match &arr[i] {
            Json::Str(s) => {
                if strs_contains(&values, s) {
                    proof {
                        assert(arr@.take(i as int + 1).drop_last() =~= arr@.take(i as int));
                        assert(arr@.take(i as int + 1).last() == arr@[i as int]);
                        assert(enum_items_spec(arr@.take(i as int + 1)) == Err::<
                            Seq<Seq<char>>,
                            ErrV,
                        >(ErrV::EnumDuplicates));
                        lemma_enum_items_err(arr@, i as int + 1);
                    }
                    return Err(CompileError::EnumDuplicates);
                }
                values.push(s.clone());
                proof {
                    assert(arr@.take(i as int + 1).drop_last() =~= arr@.take(i as int));
                    assert(arr@.take(i as int + 1).last() == arr@[i as int]);
                    assert(strs_view(values@) =~= seen.push(s@));
                }
            },
            _ => {
                proof {
                    assert(arr@.take(i as int + 1).drop_last() =~= arr@.take(i as int));
                    assert(arr@.take(i as int + 1).last() == arr@[i as int]);
                    assert(enum_items_spec(arr@.take(i as int + 1)) == Err::<
                        Seq<Seq<char>>,
                        ErrV,
                    >(ErrV::InvalidEnum));
                    lemma_enum_items_err(arr@, i as int + 1);
                }
                return Err(CompileError::InvalidEnum);
            },
        }
        i += 1;
    }
    proof {
        assert(arr@.take(n as int) =~= arr@);
    }
    Ok(Node::Enum { values })
}

/// Compile the `elements` form.
fn compile_elements(obj: &Vec<(String, Json)>, definitions: &Vec<String>) -> (r: Result<
    Node,
    CompileError,
>)
    requires
        jget(obj@, "elements"@) is Some,
    ensures
        result_matches(
            r,
            match compile_node_spec(jget(obj@, "elements"@)->Some_0, true, strs_view(definitions@)) {
                Ok(n) => Ok(NodeV::Elements { schema: Box::new(n) }),
                Err(e) => Err(e),
            },
        ),
    decreases jobj_height(obj@), 1nat, 0nat,
{
    let key = String::from_str("elements");
    let inner_val = match jobj_get(obj, &key) {
        Some(v) => v,
        None => {
            proof {
                assert(false);
            }
            return Err(CompileError::NotAnObject);
        },
    };
    proof {
        lemma_jget_height(obj@, "elements"@);
    }
    match compile_node(inner_val, true, definitions) {
        Ok(n) => Ok(Node::Elements { schema: Box::new(n) }),
        Err(e) => Err(e),
    }
}

/// Compile the `values` form.
fn compile_values(obj: &Vec<(String, Json)>, definitions: &Vec<String>) -> (r: Result<
    Node,
    CompileError,
>)
    requires
        jget(obj@, "values"@) is Some,
    ensures
        result_matches(
            r,
            match compile_node_spec(jget(obj@, "values"@)->Some_0, true, strs_view(definitions@)) {
                Ok(n) => Ok(NodeV::Values { schema: Box::new(n) }),
                Err(e) => Err(e),
            },
        ),
    decreases jobj_height(obj@), 1nat, 0nat,
{
    let key = String::from_str("values");
    let inner_val = match jobj_get(obj, &key) {
        Some(v) => v,
        None => {
            proof {
                assert(false);
            }
            return Err(CompileError::NotAnObject);
        },
    };
    proof {
        lemma_jget_height(obj@, "values"@);
    }
    match compile_node(inner_val, true, definitions) {
        Ok(n) => Ok(Node::Values { schema: Box::new(n) }),
        Err(e) => Err(e),
    }
}

/// Compile the `properties` form.
fn compile_properties(obj: &Vec<(String, Json)>, definitions: &Vec<String>) -> (r: Result<
    Node,
    CompileError,
>)
    ensures
        result_matches(r, props_spec(obj@, strs_view(definitions@))),
    decreases jobj_height(obj@), 1nat, 0nat,
{
    let ghost defs = strs_view(definitions@);
    let mut required: Vec<(String, Node)> = Vec::new();
    let pkey = String::from_str("properties");
    match jobj_get(obj, &pkey) {
        Some(pv) => {
            let pf = match pv {
                Json::Object(pf) => pf,
                _ => {
                    return Err(CompileError::NotAnObject);
                },
            };
            proof {
                lemma_jget_height(obj@, "properties"@);
            }
            let np = pf.len();
            let mut i: usize = 0;
            proof {
                assert(pf@.take(0) =~= Seq::<(String, Json)>::empty());
                assert(nlist_view(required@) =~= Seq::<(Seq<char>, NodeV)>::empty());
            }
            while i < np
                invariant
                    np == pf@.len(),
                    0 <= i <= np,
                    defs == strs_view(definitions@),
                    jget(obj@, "properties"@) == Some(Json::Object(*pf)),
                    json_height(Json::Object(*pf)) <= jobj_height(obj@),
                    props_list_spec(pf@.take(i as int), defs) == Ok::<
                        Seq<(Seq<char>, NodeV)>,
                        ErrV,
                    >(nlist_view(required@)),
                decreases np - i,
            {
                let ghost done = nlist_view(required@);
                proof {
                    lemma_jobj_height_mem(pf@, i as int);
                }
                match compile_node(&pf[i].1, true, definitions) {
                    Ok(n) => {
                        let ghost nv = node_view(n);
                        let ghost prev = required@;
                        required.push((pf[i].0.clone(), n));
                        proof {
                            assert(pf@.take(i as int + 1).drop_last() =~= pf@.take(i as int));
                            assert(pf@.take(i as int + 1).last() == pf@[i as int]);
                            assert(required@.drop_last() =~= prev);
                            assert(nlist_view(required@) == done.push((pf@[i as int].0@, nv)));
                        }
                    },
                    Err(e) => {
                        proof {
                            assert(pf@.take(i as int + 1).drop_last() =~= pf@.take(i as int));
                            assert(pf@.take(i as int + 1).last() == pf@[i as int]);
                            assert(props_list_spec(pf@.take(i as int + 1), defs) == Err::<
                                Seq<(Seq<char>, NodeV)>,
                                ErrV,
                            >(err_view(e)));
                            lemma_props_list_err(pf@, defs, i as int + 1);
                        }
                        return Err(e);
                    },
                }
                i += 1;
            }
            proof {
                assert(pf@.take(np as int) =~= pf@);
            }
        },
        None => {},
    }
    let ghost req = nlist_view(required@);
    proof {
        assert(props_req_r(obj@, defs) == Ok::<Seq<(Seq<char>, NodeV)>, ErrV>(req));
    }

    let mut optional: Vec<(String, Node)> = Vec::new();
    let okey = String::from_str("optionalProperties");
    match jobj_get(obj, &okey) {
        Some(ov) => {
            let of = match ov {
                Json::Object(of) => of,
                _ => {
                    return Err(CompileError::NotAnObject);
                },
            };
            proof {
                lemma_jget_height(obj@, "optionalProperties"@);
            }
            let no = of.len();
            let mut j: usize = 0;
            proof {
                assert(of@.take(0) =~= Seq::<(String, Json)>::empty());
                assert(nlist_view(optional@) =~= Seq::<(Seq<char>, NodeV)>::empty());
            }
            while j < no
                invariant
                    no == of@.len(),
                    0 <= j <= no,
                    defs == strs_view(definitions@),
                    req == nlist_view(required@),
                    props_req_r(obj@, defs) == Ok::<Seq<(Seq<char>, NodeV)>, ErrV>(req),
                    jget(obj@, "optionalProperties"@) == Some(Json::Object(*of)),
                    json_height(Json::Object(*of)) <= jobj_height(obj@),
                    opt_list_spec(of@.take(j as int), req, defs) == Ok::<
                        Seq<(Seq<char>, NodeV)>,
                        ErrV,
                    >(nlist_view(optional@)),
                decreases no - j,
            {
                let ghost done = nlist_view(optional@);
                proof {
                    lemma_jobj_height_mem(of@, j as int);
                    assert(of@.take(j as int + 1).drop_last() =~= of@.take(j as int));
                    assert(of@.take(j as int + 1).last() == of@[j as int]);
                }
                if nlist_has_key(&required, &of[j].0) {
                    proof {
                        assert(opt_list_spec(of@.take(j as int + 1), req, defs) == Err::<
                            Seq<(Seq<char>, NodeV)>,
                            ErrV,
                        >(ErrV::OverlappingProperties(of@[j as int].0@)));
                        lemma_opt_list_err(of@, req, defs, j as int + 1);
                    }
                    return Err(CompileError::OverlappingProperties(of[j].0.clone()));
                }
                match compile_node(&of[j].1, true, definitions) {
                    Ok(n) => {
                        let ghost nv = node_view(n);
                        let ghost prev = optional@;
                        optional.push((of[j].0.clone(), n));
                        proof {
                            assert(optional@.drop_last() =~= prev);
                            assert(nlist_view(optional@) == done.push((of@[j as int].0@, nv)));
                        }
                    },
                    Err(e) => {
                        proof {
                            assert(opt_list_spec(of@.take(j as int + 1), req, defs) == Err::<
                                Seq<(Seq<char>, NodeV)>,
                                ErrV,
                            >(err_view(e)));
                            lemma_opt_list_err(of@, req, defs, j as int + 1);
                        }
                        return Err(e);
                    },
                }
                j += 1;
            }
            proof {
                assert(of@.take(no as int) =~= of@);
            }
        },
        None => {},
    }

    proof {
        assert(props_opt_r(obj@, req, defs) == Ok::<Seq<(Seq<char>, NodeV)>, ErrV>(
            nlist_view(optional@),
        ));
    }
    let akey = String::from_str("additionalProperties");
    let additional = match jobj_get(obj, &akey) {
        Some(av) => match av {
            Json::Bool(b) => *b,
            _ => false,
        },
        None => false,
    };
    Ok(Node::Properties { required, optional, additional })
}

/// Compile the `discriminator` form.
fn compile_discriminator(obj: &Vec<(String, Json)>, definitions: &Vec<String>) -> (r: Result<
    Node,
    CompileError,
>)
    ensures
        result_matches(r, disc_spec(obj@, strs_view(definitions@))),
    decreases jobj_height(obj@), 1nat, 0nat,
{
    let ghost defs = strs_view(definitions@);
    let dkey = String::from_str("discriminator");
    let tag = match jobj_get(obj, &dkey) {
        Some(v) => match v {
            Json::Str(s) => s,
            _ => {
                return Err(CompileError::DiscriminatorNotString);
            },
        },
        None => {
            return Err(CompileError::DiscriminatorNotString);
        },
    };
    let mkey = String::from_str("mapping");
    let mf = match jobj_get(obj, &mkey) {
        Some(v) => match v {
            Json::Object(mf) => mf,
            _ => {
                return Err(CompileError::MissingMapping);
            },
        },
        None => {
            return Err(CompileError::MissingMapping);
        },
    };
    proof {
        lemma_jget_height(obj@, "mapping"@);
    }
    let nm = mf.len();
    let mut mapping: Vec<(String, Node)> = Vec::new();
    let mut k: usize = 0;
    proof {
        assert(mf@.take(0) =~= Seq::<(String, Json)>::empty());
        assert(nlist_view(mapping@) =~= Seq::<(Seq<char>, NodeV)>::empty());
    }
    while k < nm
        invariant
            nm == mf@.len(),
            0 <= k <= nm,
            defs == strs_view(definitions@),
            jget(obj@, "discriminator"@) == Some(Json::Str(*tag)),
            jget(obj@, "mapping"@) == Some(Json::Object(*mf)),
            json_height(Json::Object(*mf)) <= jobj_height(obj@),
            mapping_list_spec(mf@.take(k as int), tag@, defs) == Ok::<
                Seq<(Seq<char>, NodeV)>,
                ErrV,
            >(nlist_view(mapping@)),
        decreases nm - k,
    {
        let ghost done = nlist_view(mapping@);
        proof {
            lemma_jobj_height_mem(mf@, k as int);
            assert(mf@.take(k as int + 1).drop_last() =~= mf@.take(k as int));
            assert(mf@.take(k as int + 1).last() == mf@[k as int]);
        }
        let n = match compile_node(&mf[k].1, true, definitions) {
            Ok(n) => n,
            Err(e) => {
                proof {
                    assert(mapping_list_spec(mf@.take(k as int + 1), tag@, defs) == Err::<
                        Seq<(Seq<char>, NodeV)>,
                        ErrV,
                    >(err_view(e)));
                    lemma_mapping_list_err(mf@, tag@, defs, k as int + 1);
                }
                return Err(e);
            },
        };
        let is_props = matches!(&n, Node::Properties { .. });
        if !is_props {
            proof {
                assert(mapping_list_spec(mf@.take(k as int + 1), tag@, defs) == Err::<
                    Seq<(Seq<char>, NodeV)>,
                    ErrV,
                >(ErrV::MappingNotProperties));
                lemma_mapping_list_err(mf@, tag@, defs, k as int + 1);
            }
            return Err(CompileError::MappingNotProperties);
        }
        let tag_declared = match &n {
            Node::Properties { required, optional, .. } => {
                nlist_has_key(required, tag) || nlist_has_key(optional, tag)
            },
            _ => false,
        };
        if tag_declared {
            proof {
                assert(mapping_list_spec(mf@.take(k as int + 1), tag@, defs) == Err::<
                    Seq<(Seq<char>, NodeV)>,
                    ErrV,
                >(ErrV::TagInVariant(tag@)));
                lemma_mapping_list_err(mf@, tag@, defs, k as int + 1);
            }
            return Err(CompileError::TagInVariant(tag.clone()));
        }
        let ghost nv = node_view(n);
        let ghost prev = mapping@;
        mapping.push((mf[k].0.clone(), n));
        proof {
            assert(mapping@.drop_last() =~= prev);
            assert(nlist_view(mapping@) == done.push((mf@[k as int].0@, nv)));
        }
        k += 1;
    }
    proof {
        assert(mf@.take(nm as int) =~= mf@);
    }
    Ok(Node::Discriminator { tag: tag.clone(), mapping })
}

/// Collect the form keywords present, in canonical order.
#[verifier::rlimit(100)]
fn detect_forms(fields: &Vec<(String, Json)>) -> (forms: Vec<String>)
    ensures
        strs_view(forms@) == forms_present(fields@),
{
    let has_ref = jobj_has(fields, &String::from_str("ref"));
    let has_type = jobj_has(fields, &String::from_str("type"));
    let has_enum = jobj_has(fields, &String::from_str("enum"));
    let has_elements = jobj_has(fields, &String::from_str("elements"));
    let has_values = jobj_has(fields, &String::from_str("values"));
    let has_disc = jobj_has(fields, &String::from_str("discriminator"));
    let has_props = jobj_has(fields, &String::from_str("properties")) || jobj_has(
        fields,
        &String::from_str("optionalProperties"),
    );
    let ghost mut fseq: Seq<Seq<char>> = Seq::empty();
    let mut forms: Vec<String> = Vec::new();
    if has_ref {
        forms.push(String::from_str("ref"));
    }
    proof {
        fseq = fseq + (if jget(fields@, "ref"@) is Some {
            seq!["ref"@]
        } else {
            Seq::empty()
        });
        assert(strs_view(forms@) =~= fseq);
    }
    if has_type {
        forms.push(String::from_str("type"));
    }
    proof {
        fseq = fseq + (if jget(fields@, "type"@) is Some {
            seq!["type"@]
        } else {
            Seq::empty()
        });
        assert(strs_view(forms@) =~= fseq);
    }
    if has_enum {
        forms.push(String::from_str("enum"));
    }
    proof {
        fseq = fseq + (if jget(fields@, "enum"@) is Some {
            seq!["enum"@]
        } else {
            Seq::empty()
        });
        assert(strs_view(forms@) =~= fseq);
    }
    if has_elements {
        forms.push(String::from_str("elements"));
    }
    proof {
        fseq = fseq + (if jget(fields@, "elements"@) is Some {
            seq!["elements"@]
        } else {
            Seq::empty()
        });
        assert(strs_view(forms@) =~= fseq);
    }
    if has_values {
        forms.push(String::from_str("values"));
    }
    proof {
        fseq = fseq + (if jget(fields@, "values"@) is Some {
            seq!["values"@]
        } else {
            Seq::empty()
        });
        assert(strs_view(forms@) =~= fseq);
    }
    if has_disc {
        forms.push(String::from_str("discriminator"));
    }
    proof {
        fseq = fseq + (if jget(fields@, "discriminator"@) is Some {
            seq!["discriminator"@]
        } else {
            Seq::empty()
        });
        assert(strs_view(forms@) =~= fseq);
    }
    if has_props {
        forms.push(String::from_str("properties"));
    }
    proof {
        fseq = fseq + (if jget(fields@, "properties"@) is Some || jget(
            fields@,
            "optionalProperties"@,
        ) is Some {
            seq!["properties"@]
        } else {
            Seq::empty()
        });
        assert(strs_view(forms@) =~= fseq);
        assert(fseq =~= forms_present(fields@));
    }

    forms
}

/// Compile one schema object into an AST node.
#[verifier::rlimit(100)]
fn compile_node(json: &Json, is_sub: bool, definitions: &Vec<String>) -> (r: Result<
    Node,
    CompileError,
>)
    ensures
        result_matches(r, compile_node_spec(*json, is_sub, strs_view(definitions@))),
    decreases json_height(*json), 0nat, 0nat,
{
    let fields = match json {
        Json::Object(fields) => fields,
        _ => {
            return Err(CompileError::NotAnObject);
        },
    };
    if is_sub && jobj_has(fields, &String::from_str("definitions")) {
        return Err(CompileError::DefinitionsInNonRoot);
    }

    // Detect the forms present, in canonical order.
    let has_ref = jobj_has(fields, &String::from_str("ref"));
    let has_type = jobj_has(fields, &String::from_str("type"));
    let has_enum = jobj_has(fields, &String::from_str("enum"));
    let has_elements = jobj_has(fields, &String::from_str("elements"));
    let has_values = jobj_has(fields, &String::from_str("values"));
    let has_disc = jobj_has(fields, &String::from_str("discriminator"));
    let has_props = jobj_has(fields, &String::from_str("properties")) || jobj_has(
        fields,
        &String::from_str("optionalProperties"),
    );

    let forms = detect_forms(fields);

    if forms.len() > 1 {
        return Err(CompileError::MultipleForms(forms));
    }

    let node = if has_ref {
        match compile_ref(fields, definitions) {
            Ok(n) => n,
            Err(e) => {
                return Err(e);
            },
        }
    } else if has_type {
        match compile_type(fields) {
            Ok(n) => n,
            Err(e) => {
                return Err(e);
            },
        }
    } else if has_enum {
        match compile_enum(fields) {
            Ok(n) => n,
            Err(e) => {
                return Err(e);
            },
        }
    } else if has_elements {
        match compile_elements(fields, definitions) {
            Ok(n) => n,
            Err(e) => {
                return Err(e);
            },
        }
    } else if has_values {
        match compile_values(fields, definitions) {
            Ok(n) => n,
            Err(e) => {
                return Err(e);
            },
        }
    } else if has_disc {
        match compile_discriminator(fields, definitions) {
            Ok(n) => n,
            Err(e) => {
                return Err(e);
            },
        }
    } else if has_props {
        match compile_properties(fields, definitions) {
            Ok(n) => n,
            Err(e) => {
                return Err(e);
            },
        }
    } else {
        Node::Empty
    };

    // Apply the nullable modifier.
    let wrap = match jobj_get(fields, &String::from_str("nullable")) {
        Some(v) => match v {
            Json::Bool(b) => *b,
            _ => false,
        },
        None => false,
    };
    proof {
        assert(wrap == nullable_set(fields@));
    }
    if wrap {
        Ok(Node::Nullable { inner: Box::new(node) })
    } else {
        Ok(node)
    }
}

/// Compile a JTD schema from a JSON value.
///
/// The result is pinned, value for value and error for error, by
/// `compile_spec`.
pub fn compile(schema: &Json) -> (r: Result<CompiledSchema, CompileError>)
    ensures
        match (r, compile_spec(*schema)) {
            (Ok(cs), Ok(sv)) => schema_view(cs) == sv,
            (Err(e), Err(ev)) => err_view(e) == ev,
            _ => false,
        },
{
    let fields = match schema {
        Json::Object(fields) => fields,
        _ => {
            return Err(CompileError::NotAnObject);
        },
    };
    let dkey = String::from_str("definitions");
    let mut def_names: Vec<String> = Vec::new();
    let mut definitions: Vec<(String, Node)> = Vec::new();
    match jobj_get(fields, &dkey) {
        Some(dv) => {
            let df = match dv {
                Json::Object(df) => df,
                _ => {
                    return Err(CompileError::DefinitionsNotObject);
                },
            };
            // Pass 1: register every definition name, so that refs inside
            // definitions resolve without a declaration order.
            let nd = df.len();
            let mut k: usize = 0;
            while k < nd
                invariant
                    nd == df@.len(),
                    0 <= k <= nd,
                    def_names@.len() == k,
                    forall|x: int| 0 <= x < k ==> def_names@[x]@ == df@[x].0@,
                decreases nd - k,
            {
                def_names.push(df[k].0.clone());
                k += 1;
            }
            proof {
                assert(strs_view(def_names@) =~= jobj_keys(df@));
            }
            // Pass 2: compile each definition body.
            let mut k2: usize = 0;
            proof {
                assert(df@.take(0) =~= Seq::<(String, Json)>::empty());
                assert(nlist_view(definitions@) =~= Seq::<(Seq<char>, NodeV)>::empty());
            }
            while k2 < nd
                invariant
                    nd == df@.len(),
                    0 <= k2 <= nd,
                    *schema == Json::Object(*fields),
                    jget(fields@, "definitions"@) == Some(Json::Object(*df)),
                    strs_view(def_names@) == jobj_keys(df@),
                    defs_spec(df@.take(k2 as int), jobj_keys(df@)) == Ok::<
                        Seq<(Seq<char>, NodeV)>,
                        ErrV,
                    >(nlist_view(definitions@)),
                decreases nd - k2,
            {
                let ghost done = nlist_view(definitions@);
                proof {
                    assert(df@.take(k2 as int + 1).drop_last() =~= df@.take(k2 as int));
                    assert(df@.take(k2 as int + 1).last() == df@[k2 as int]);
                }
                match compile_node(&df[k2].1, true, &def_names) {
                    Ok(n) => {
                        let ghost nv = node_view(n);
                        let ghost prev = definitions@;
                        definitions.push((df[k2].0.clone(), n));
                        proof {
                            assert(definitions@.drop_last() =~= prev);
                            assert(nlist_view(definitions@) == done.push((df@[k2 as int].0@, nv)));
                        }
                    },
                    Err(e) => {
                        proof {
                            assert(defs_spec(df@.take(k2 as int + 1), jobj_keys(df@)) == Err::<
                                Seq<(Seq<char>, NodeV)>,
                                ErrV,
                            >(err_view(e)));
                            lemma_defs_err(df@, jobj_keys(df@), k2 as int + 1);
                        }
                        return Err(e);
                    },
                }
                k2 += 1;
            }
            proof {
                assert(df@.take(nd as int) =~= df@);
            }
        },
        None => {
            proof {
                assert(strs_view(def_names@) =~= Seq::<Seq<char>>::empty());
            }
        },
    }

    // Compile the root form; the `definitions` key is not a form keyword.
    let root = match compile_node(schema, false, &def_names) {
        Ok(n) => n,
        Err(e) => {
            return Err(e);
        },
    };
    Ok(CompiledSchema { root, definitions })
}

/// One list entry in a multiple-forms message, with its separator.
pub open spec fn forms_msg_items(fs: Seq<Seq<char>>) -> Seq<char>
    decreases fs.len(),
{
    if fs.len() == 0 {
        Seq::empty()
    } else if fs.len() == 1 {
        "\""@ + fs[0] + "\""@
    } else {
        forms_msg_items(fs.drop_last()) + ", \""@ + fs.last() + "\""@
    }
}

/// The human-readable description of a compile error.
pub open spec fn message_chars(e: CompileError) -> Seq<char> {
    match e {
        CompileError::NotAnObject => "schema must be a JSON object"@,
        CompileError::DefinitionsNotObject => "definitions must be a JSON object"@,
        CompileError::DefinitionsInNonRoot => "non-root schema must not have 'definitions'"@,
        CompileError::MultipleForms(fs) => "schema has multiple forms: ["@ + forms_msg_items(
            strs_view(fs@),
        ) + "]"@,
        CompileError::RefNotString => "ref must be a string"@,
        CompileError::RefNotFound(s) => "ref '"@ + s@ + "' not found in definitions"@,
        CompileError::TypeNotString => "type must be a string"@,
        CompileError::UnknownType(s) => "unknown type keyword: '"@ + s@ + "'"@,
        CompileError::InvalidEnum => "enum must be a non-empty array of strings"@,
        CompileError::EnumDuplicates => "enum contains duplicate values"@,
        CompileError::OverlappingProperties(s) => "required and optional properties must not overlap: '"@
            + s@ + "'"@,
        CompileError::DiscriminatorNotString => "discriminator must be a string"@,
        CompileError::MissingMapping => "discriminator schema must have 'mapping'"@,
        CompileError::MappingNotProperties => "discriminator mapping values must be Properties forms (not nullable)"@,
        CompileError::TagInVariant(s) => "discriminator tag '"@ + s@
            + "' must not appear in mapping variant properties"@,
        CompileError::Other(s) => s@,
    }
}

impl CompileError {
    /// Render the error as a human-readable message.
    pub fn message(&self) -> (r: String)
        ensures
            r@ == message_chars(*self),
    {
        match self {
            CompileError::NotAnObject => String::from_str("schema must be a JSON object"),
            CompileError::DefinitionsNotObject => String::from_str(
                "definitions must be a JSON object",
            ),
            CompileError::DefinitionsInNonRoot => String::from_str(
                "non-root schema must not have 'definitions'",
            ),
            CompileError::MultipleForms(fs) => {
                let ghost fv = strs_view(fs@);
                let mut out = String::from_str("schema has multiple forms: [");
                let n = fs.len();
                let mut i: usize = 0;
                let mut items = String::new();
                while i < n
                    invariant
                        n == fs@.len(),
                        0 <= i <= n,
                        fv == strs_view(fs@),
                        items@ == forms_msg_items(fv.take(i as int)),
                    decreases n - i,
                {
                    if i > 0 {
                        items.append(", \"");
                    } else {
                        items.append("\"");
                    }
                    items.append(fs[i].as_str());
                    items.append("\"");
                    proof {
                        assert(fv.take(i as int + 1).drop_last() =~= fv.take(i as int));
                        assert(fv.take(i as int + 1).last() == fs@[i as int]@);
                        assert(items@ =~= forms_msg_items(fv.take(i as int + 1)));
                    }
                    i += 1;
                }
                proof {
                    assert(fv.take(n as int) =~= fv);
                }
                out.append(items.as_str());
                out.append("]");
                out
            },
            CompileError::RefNotString => String::from_str("ref must be a string"),
            CompileError::RefNotFound(s) => {
                let mut out = String::from_str("ref '");
                out.append(s.as_str());
                out.append("' not found in definitions");
                out
            },
            CompileError::TypeNotString => String::from_str("type must be a string"),
            CompileError::UnknownType(s) => {
                let mut out = String::from_str("unknown type keyword: '");
                out.append(s.as_str());
                out.append("'");
                out
            },
            CompileError::InvalidEnum => String::from_str(
                "enum must be a non-empty array of strings",
            ),
            CompileError::EnumDuplicates => String::from_str("enum contains duplicate values"),
            CompileError::OverlappingProperties(s) => {
                let mut out = String::from_str(
                    "required and optional properties must not overlap: '",
                );
                out.append(s.as_str());
                out.append("'");
                out
            },
            CompileError::DiscriminatorNotString => String::from_str(
                "discriminator must be a string",
            ),
            CompileError::MissingMapping => String::from_str(
                "discriminator schema must have 'mapping'",
            ),
            CompileError::MappingNotProperties => String::from_str(
                "discriminator mapping values must be Properties forms (not nullable)",
            ),
            CompileError::TagInVariant(s) => {
                let mut out = String::from_str("discriminator tag '");
                out.append(s.as_str());
                out.append("' must not appear in mapping variant properties");
                out
            },
            CompileError::Other(s) => s.clone(),
        }
    }
}

} // verus!
