//! The JSON values a schema is compiled from.
//!
//! A schema document only ever has its objects, strings, booleans and arrays
//! inspected; a number can occur in a schema document, but no rule of RFC 8927
//! ever reads its value, so numbers are carried without a payload.  Object
//! members are kept in strictly increasing key order, the order in which a
//! JSON parser with sorted maps hands them over; `wf` states that invariant.

use vstd::prelude::*;

verus! {

/// A parsed JSON document, as the schema compiler consumes it.
#[derive(Debug)]
pub enum Json {
    Null,
    Bool(bool),
    Number,
    Str(String),
    Array(Vec<Json>),
    Object(Vec<(String, Json)>),
}

/// Strict lexicographic order on character sequences (code-point order).
pub open spec fn chars_lt(a: Seq<char>, b: Seq<char>) -> bool
    decreases a.len(),
{
    if b.len() == 0 {
        false
    } else if a.len() == 0 {
        true
    } else if a[0] == b[0] {
        chars_lt(a.drop_first(), b.drop_first())
    } else {
        (a[0] as u32) < (b[0] as u32)
    }
}

/// The keys of an object member list are strictly increasing.
pub open spec fn keys_sorted(fields: Seq<(String, Json)>) -> bool {
    forall|i: int, j: int|
        0 <= i < j < fields.len() ==> chars_lt(fields[i].0@, fields[j].0@)
}

/// Every object in the document has strictly increasing keys.
pub open spec fn json_wf(j: Json) -> bool
    decreases j,
{
    match j {
        Json::Null => true,
        Json::Bool(_) => true,
        Json::Number => true,
        Json::Str(_) => true,
        Json::Array(items) => forall|i: int|
            0 <= i < items@.len() ==> json_wf(#[trigger] items@[i]),
        Json::Object(fields) => keys_sorted(fields@) && forall|i: int|
            0 <= i < fields@.len() ==> json_wf(#[trigger] fields@[i].1),
    }
}

/// The value under `key` in a member list: the first match.
pub open spec fn jget(fields: Seq<(String, Json)>, key: Seq<char>) -> Option<Json>
    decreases fields.len(),
{
    if fields.len() == 0 {
        None
    } else if fields[0].0@ == key {
        Some(fields[0].1)
    } else {
        jget(fields.drop_first(), key)
    }
}

/// Height of a JSON document, used as a recursion measure.
pub open spec fn json_height(j: Json) -> nat
    decreases j,
{
    match j {
        Json::Null => 0,
        Json::Bool(_) => 0,
        Json::Number => 0,
        Json::Str(_) => 0,
        Json::Array(items) => 1 + jarr_height(items@),
        Json::Object(fields) => 1 + jobj_height(fields@),
    }
}

/// Sum of the heights of an array's items.
pub open spec fn jarr_height(items: Seq<Json>) -> nat
    decreases items,
{
    if items.len() == 0 {
        0
    } else {
        json_height(items[0]) + jarr_height(items.drop_first())
    }
}

/// Sum of the heights of an object's member values.
pub open spec fn jobj_height(fields: Seq<(String, Json)>) -> nat
    decreases fields,
{
    if fields.len() == 0 {
        0
    } else {
        jobj_height(fields.drop_last()) + json_height(fields.last().1)
    }
}

/// Each member value is no taller than the whole member list.
pub proof fn lemma_jobj_height_mem(fields: Seq<(String, Json)>, i: int)
    requires
        0 <= i < fields.len(),
    ensures
        json_height(fields[i].1) <= jobj_height(fields),
    decreases fields.len(),
{
    if i < fields.len() - 1 {
        lemma_jobj_height_mem(fields.drop_last(), i);
    }
}

/// The member sum decomposes at the front as well.
pub proof fn lemma_jobj_height_first(fields: Seq<(String, Json)>)
    requires
        fields.len() > 0,
    ensures
        jobj_height(fields) == json_height(fields[0].1) + jobj_height(fields.drop_first()),
    decreases fields.len(),
{
    if fields.len() == 1 {
        assert(fields.drop_first() =~= Seq::<(String, Json)>::empty());
        assert(fields.drop_last() =~= Seq::<(String, Json)>::empty());
    } else {
        lemma_jobj_height_first(fields.drop_last());
        assert(fields.drop_last().drop_first() =~= fields.drop_first().drop_last());
        assert(fields.drop_first().last() == fields.last());
        assert(fields.drop_last()[0] == fields[0]);
    }
}

/// A value found under a key is no taller than the whole member list.
pub proof fn lemma_jget_height(fields: Seq<(String, Json)>, key: Seq<char>)
    requires
        jget(fields, key) is Some,
    ensures
        json_height(jget(fields, key)->Some_0) <= jobj_height(fields),
    decreases fields.len(),
{
    if fields.len() > 0 {
        if fields[0].0@ == key {
            lemma_jobj_height_mem(fields, 0);
        } else {
            lemma_jget_height(fields.drop_first(), key);
            lemma_jobj_height_first(fields);
        }
    }
}

/// A value found under a key of a list of well-formed members is
/// well-formed.
pub proof fn lemma_jget_wf(fields: Seq<(String, Json)>, key: Seq<char>)
    requires
        forall|i: int| 0 <= i < fields.len() ==> json_wf(#[trigger] fields[i].1),
        jget(fields, key) is Some,
    ensures
        json_wf(jget(fields, key)->Some_0),
    decreases fields.len(),
{
    if fields.len() > 0 && fields[0].0@ != key {
        assert forall|i: int| 0 <= i < fields.drop_first().len() implies json_wf(
            #[trigger] fields.drop_first()[i].1,
        ) by {
            assert(fields.drop_first()[i] == fields[i + 1]);
        }
        lemma_jget_wf(fields.drop_first(), key);
    }
}

/// Look a key up in an object member list.
pub fn jobj_get<'a>(fields: &'a Vec<(String, Json)>, key: &String) -> (r: Option<&'a Json>)
    ensures
        match r {
            Some(v) => jget(fields@, key@) == Some(*v),
            None => jget(fields@, key@) is None,
        },
{
    let n = fields.len();
    let mut i: usize = 0;
    proof {
        assert(fields@.skip(0) =~= fields@);
    }
    while i < n
        invariant
            n == fields@.len(),
            0 <= i <= n,
            jget(fields@, key@) == jget(fields@.skip(i as int), key@),
        decreases n - i,
    {
        assert(fields@.skip(i as int)[0] == fields@[i as int]);
        if fields[i].0 == *key {
            return Some(&fields[i].1);
        }
        proof {
            assert(fields@.skip(i as int).drop_first() =~= fields@.skip(i as int + 1));
        }
        i += 1;
    }
    None
}

/// Whether an object member list has the given key.
pub fn jobj_has(fields: &Vec<(String, Json)>, key: &String) -> (r: bool)
    ensures
        r == (jget(fields@, key@) is Some),
{
    match jobj_get(fields, key) {
        Some(_) => true,
        None => false,
    }
}

} // verus!
