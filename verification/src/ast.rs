//! Schema AST: the immutable, tagged values a compiled JTD schema is made of.

use vstd::prelude::*;

verus! {

/// The 11 primitive type keywords of RFC 8927.
#[derive(Debug, Clone, Copy, PartialEq, Eq, Structural, Hash)]
pub enum TypeKeyword {
    Boolean,
    String,
    Timestamp,
    Int8,
    Uint8,
    Int16,
    Uint16,
    Int32,
    Uint32,
    Float32,
    Float64,
}

/// The characters of a keyword's canonical lowercase spelling.
pub open spec fn keyword_chars(kw: TypeKeyword) -> Seq<char> {
    match kw {
        TypeKeyword::Boolean => "boolean"@,
        TypeKeyword::String => "string"@,
        TypeKeyword::Timestamp => "timestamp"@,
        TypeKeyword::Int8 => "int8"@,
        TypeKeyword::Uint8 => "uint8"@,
        TypeKeyword::Int16 => "int16"@,
        TypeKeyword::Uint16 => "uint16"@,
        TypeKeyword::Int32 => "int32"@,
        TypeKeyword::Uint32 => "uint32"@,
        TypeKeyword::Float32 => "float32"@,
        TypeKeyword::Float64 => "float64"@,
    }
}

/// The keyword whose spelling is `s`, if any.
pub open spec fn keyword_of_chars(s: Seq<char>) -> Option<TypeKeyword> {
    if s == "boolean"@ {
        Some(TypeKeyword::Boolean)
    } else if s == "string"@ {
        Some(TypeKeyword::String)
    } else if s == "timestamp"@ {
        Some(TypeKeyword::Timestamp)
    } else if s == "int8"@ {
        Some(TypeKeyword::Int8)
    } else if s == "uint8"@ {
        Some(TypeKeyword::Uint8)
    } else if s == "int16"@ {
        Some(TypeKeyword::Int16)
    } else if s == "uint16"@ {
        Some(TypeKeyword::Uint16)
    } else if s == "int32"@ {
        Some(TypeKeyword::Int32)
    } else if s == "uint32"@ {
        Some(TypeKeyword::Uint32)
    } else if s == "float32"@ {
        Some(TypeKeyword::Float32)
    } else if s == "float64"@ {
        Some(TypeKeyword::Float64)
    } else {
        None
    }
}

impl TypeKeyword {
    /// Parse a keyword from its lowercase spelling.
    pub fn parse(s: &str) -> (r: Option<TypeKeyword>)
        ensures
            r == keyword_of_chars(s@),
    {
        let o = String::from_str(s);
        if o == String::from_str("boolean") {
            Some(TypeKeyword::Boolean)
        } else if o == String::from_str("string") {
            Some(TypeKeyword::String)
        } else if o == String::from_str("timestamp") {
            Some(TypeKeyword::Timestamp)
        } else if o == String::from_str("int8") {
            Some(TypeKeyword::Int8)
        } else if o == String::from_str("uint8") {
            Some(TypeKeyword::Uint8)
        } else if o == String::from_str("int16") {
            Some(TypeKeyword::Int16)
        } else if o == String::from_str("uint16") {
            Some(TypeKeyword::Uint16)
        } else if o == String::from_str("int32") {
            Some(TypeKeyword::Int32)
        } else if o == String::from_str("uint32") {
            Some(TypeKeyword::Uint32)
        } else if o == String::from_str("float32") {
            Some(TypeKeyword::Float32)
        } else if o == String::from_str("float64") {
            Some(TypeKeyword::Float64)
        } else {
            None
        }
    }

    /// The canonical lowercase spelling.
    pub fn as_str(&self) -> (r: &'static str)
        ensures
            r@ == keyword_chars(*self),
    {
        match self {
            TypeKeyword::Boolean => "boolean",
            TypeKeyword::String => "string",
            TypeKeyword::Timestamp => "timestamp",
            TypeKeyword::Int8 => "int8",
            TypeKeyword::Uint8 => "uint8",
            TypeKeyword::Int16 => "int16",
            TypeKeyword::Uint16 => "uint16",
            TypeKeyword::Int32 => "int32",
            TypeKeyword::Uint32 => "uint32",
            TypeKeyword::Float32 => "float32",
            TypeKeyword::Float64 => "float64",
        }
    }
}

/// An immutable AST node: one compiled schema form.
#[derive(Debug)]
pub enum Node {
    /// `{}` -- accepts any JSON value.
    Empty,
    /// `{"ref": "..."}` -- references a definition.
    Ref { name: String },
    /// `{"type": "..."}` -- primitive type check.
    Type { type_kw: TypeKeyword },
    /// `{"enum": [...]}` -- string set membership.
    Enum { values: Vec<String> },
    /// `{"elements": ...}` -- array with a uniform element schema.
    Elements { schema: Box<Node> },
    /// `{"properties": ..., "optionalProperties": ..., "additionalProperties": ...}`
    Properties {
        required: Vec<(String, Node)>,
        optional: Vec<(String, Node)>,
        additional: bool,
    },
    /// `{"values": ...}` -- object with a uniform member schema.
    Values { schema: Box<Node> },
    /// `{"discriminator": ..., "mapping": ...}` -- tagged union.
    Discriminator { tag: String, mapping: Vec<(String, Node)> },
    /// Any other form together with `"nullable": true`.
    Nullable { inner: Box<Node> },
}

/// The spec-level shape of a `Node`: the same tree over character sequences.
pub enum NodeV {
    Empty,
    Ref { name: Seq<char> },
    Type { type_kw: TypeKeyword },
    Enum { values: Seq<Seq<char>> },
    Elements { schema: Box<NodeV> },
    Properties {
        required: Seq<(Seq<char>, NodeV)>,
        optional: Seq<(Seq<char>, NodeV)>,
        additional: bool,
    },
    Values { schema: Box<NodeV> },
    Discriminator { tag: Seq<char>, mapping: Seq<(Seq<char>, NodeV)> },
    Nullable { inner: Box<NodeV> },
}

/// The spec-level shape of an AST node.
pub open spec fn node_view(n: Node) -> NodeV
    decreases n,
{
    match n {
        Node::Empty => NodeV::Empty,
        Node::Ref { name } => NodeV::Ref { name: name@ },
        Node::Type { type_kw } => NodeV::Type { type_kw },
        Node::Enum { values } => NodeV::Enum { values: strs_view(values@) },
        Node::Elements { schema } => NodeV::Elements { schema: Box::new(node_view(*schema)) },
        Node::Properties { required, optional, additional } => NodeV::Properties {
            required: nlist_view(required@),
            optional: nlist_view(optional@),
            additional,
        },
        Node::Values { schema } => NodeV::Values { schema: Box::new(node_view(*schema)) },
        Node::Discriminator { tag, mapping } => NodeV::Discriminator {
            tag: tag@,
            mapping: nlist_view(mapping@),
        },
        Node::Nullable { inner } => NodeV::Nullable { inner: Box::new(node_view(*inner)) },
    }
}

/// The character sequences of a string list.
pub open spec fn strs_view(s: Seq<String>) -> Seq<Seq<char>> {
    Seq::new(s.len(), |i: int| s[i]@)
}

/// The spec-level shape of a keyed node list.
pub open spec fn nlist_view(s: Seq<(String, Node)>) -> Seq<(Seq<char>, NodeV)>
    decreases s,
{
    if s.len() == 0 {
        Seq::empty()
    } else {
        nlist_view(s.drop_last()).push((s.last().0@, node_view(s.last().1)))
    }
}

/// Each element of `nlist_view` mirrors the element of the list.
pub proof fn lemma_nlist_view_index(s: Seq<(String, Node)>, i: int)
    requires
        0 <= i < s.len(),
    ensures
        nlist_view(s).len() == s.len(),
        nlist_view(s)[i] == (s[i].0@, node_view(s[i].1)),
    decreases s,
{
    lemma_nlist_view_len(s);
    if i < s.len() - 1 {
        lemma_nlist_view_index(s.drop_last(), i);
    }
}

/// `nlist_view` preserves length.
pub proof fn lemma_nlist_view_len(s: Seq<(String, Node)>)
    ensures
        nlist_view(s).len() == s.len(),
    decreases s,
{
    if s.len() > 0 {
        lemma_nlist_view_len(s.drop_last());
    }
}

/// Height of an AST node, used as a recursion measure.
pub open spec fn node_height(n: Node) -> nat
    decreases n,
{
    match n {
        Node::Empty => 0,
        Node::Ref { name } => 0,
        Node::Type { type_kw } => 0,
        Node::Enum { values } => 0,
        Node::Elements { schema } => 1 + node_height(*schema),
        Node::Properties { required, optional, additional } => 1 + nlist_height(required@)
            + nlist_height(optional@),
        Node::Values { schema } => 1 + node_height(*schema),
        Node::Discriminator { tag, mapping } => 1 + nlist_height(mapping@),
        Node::Nullable { inner } => 1 + node_height(*inner),
    }
}

/// Sum of the heights of a keyed node list.
pub open spec fn nlist_height(s: Seq<(String, Node)>) -> nat
    decreases s,
{
    if s.len() == 0 {
        0
    } else {
        nlist_height(s.drop_last()) + node_height(s.last().1)
    }
}

/// Each listed node is no taller than the whole list.
pub proof fn lemma_nlist_height_mem(s: Seq<(String, Node)>, i: int)
    requires
        0 <= i < s.len(),
    ensures
        node_height(s[i].1) <= nlist_height(s),
    decreases s,
{
    if i < s.len() - 1 {
        lemma_nlist_height_mem(s.drop_last(), i);
    }
}

impl Node {
    /// True for the forms that emit inline checks (Type, Enum, Empty).
    pub fn is_leaf(&self) -> (r: bool)
        ensures
            r == (*self is Empty || *self is Type || *self is Enum),
    {
        matches!(self, Node::Empty | Node::Type { .. } | Node::Enum { .. })
    }

    /// True for the forms that emit structured checks or calls.
    pub fn is_complex(&self) -> (r: bool)
        ensures
            r == (*self is Properties || *self is Discriminator || *self is Elements
                || *self is Values || *self is Ref),
    {
        matches!(
            self,
            Node::Properties { .. }
                | Node::Discriminator { .. }
                | Node::Elements { .. }
                | Node::Values { .. }
                | Node::Ref { .. }
        )
    }
}

/// Structural equality of two nodes, up to the contents of their strings.
fn node_eq_exec(a: &Node, b: &Node) -> (r: bool)
    ensures
        r == (node_view(*a) == node_view(*b)),
    decreases *a,
{
    match (a, b) {
        (Node::Empty, Node::Empty) => true,
        (Node::Ref { name: n1 }, Node::Ref { name: n2 }) => *n1 == *n2,
        (Node::Type { type_kw: k1 }, Node::Type { type_kw: k2 }) => k1 == k2,
        (Node::Enum { values: v1 }, Node::Enum { values: v2 }) => {
            let ghost s1 = node_view(*a)->Enum_values;
            let ghost s2 = node_view(*b)->Enum_values;
            proof {
                assert(s1 =~= Seq::new(v1@.len(), |i: int| v1@[i]@));
                assert(s2 =~= Seq::new(v2@.len(), |i: int| v2@[i]@));
            }
            if v1.len() != v2.len() {
                proof {
                    assert(s1.len() != s2.len());
                }
                false
            } else {
                let n = v1.len();
                let mut i: usize = 0;
                while i < n
                    invariant
                        n == v1@.len() == v2@.len(),
                        0 <= i <= n,
                        s1 == node_view(*a)->Enum_values,
                        s2 == node_view(*b)->Enum_values,
                        s1.len() == n && s2.len() == n,
                        forall|k: int| 0 <= k < s1.len() ==> s1[k] == v1@[k]@,
                        forall|k: int| 0 <= k < s2.len() ==> s2[k] == v2@[k]@,
                        forall|k: int| 0 <= k < i ==> s1[k] == s2[k],
                    decreases n - i,
                {
                    if !(v1[i] == v2[i]) {
                        proof {
                            assert(s1[i as int] != s2[i as int]);
                        }
                        return false;
                    }
                    i += 1;
                }
                proof {
                    assert(s1 =~= s2);
                }
                true
            }
        },
        (Node::Elements { schema: s1 }, Node::Elements { schema: s2 }) => node_eq_exec(s1, s2),
        (
            Node::Properties { required: r1, optional: o1, additional: a1 },
            Node::Properties { required: r2, optional: o2, additional: a2 },
        ) => {
            if *a1 != *a2 {
                false
            } else {
                nlist_eq_exec(r1, r2) && nlist_eq_exec(o1, o2)
            }
        },
        (Node::Values { schema: s1 }, Node::Values { schema: s2 }) => node_eq_exec(s1, s2),
        (
            Node::Discriminator { tag: t1, mapping: m1 },
            Node::Discriminator { tag: t2, mapping: m2 },
        ) => *t1 == *t2 && nlist_eq_exec(m1, m2),
        (Node::Nullable { inner: i1 }, Node::Nullable { inner: i2 }) => node_eq_exec(i1, i2),
        _ => false,
    }
}

/// Structural equality of two keyed node lists.
fn nlist_eq_exec(x: &Vec<(String, Node)>, y: &Vec<(String, Node)>) -> (r: bool)
    ensures
        r == (nlist_view(x@) == nlist_view(y@)),
    decreases x@,
{
    proof {
        lemma_nlist_view_len(x@);
        lemma_nlist_view_len(y@);
    }
    if x.len() != y.len() {
        return false;
    }
    let n = x.len();
    let mut i: usize = 0;
    while i < n
        invariant
            n == x@.len() == y@.len(),
            0 <= i <= n,
            forall|k: int| 0 <= k < i ==> nlist_view(x@)[k] == nlist_view(y@)[k],
        decreases n - i,
    {
        proof {
            lemma_nlist_view_index(x@, i as int);
            lemma_nlist_view_index(y@, i as int);
        }
        if !(x[i].0 == y[i].0) {
            return false;
        }
        if !node_eq_exec(&x[i].1, &y[i].1) {
            return false;
        }
        i += 1;
    }
    proof {
        lemma_nlist_view_len(x@);
        lemma_nlist_view_len(y@);
        assert(nlist_view(x@) =~= nlist_view(y@));
    }
    true
}

impl PartialEq for Node {
    /// Structural equality, comparing strings by contents.
    fn eq(&self, other: &Node) -> (r: bool) {
        node_eq_exec(self, other)
    }
}

impl vstd::std_specs::cmp::PartialEqSpecImpl for Node {
    open spec fn obeys_eq_spec() -> bool {
        true
    }

    open spec fn eq_spec(&self, other: &Node) -> bool {
        node_view(*self) == node_view(*other)
    }
}

/// A compiled schema: the root form plus the named definitions, in strictly
/// increasing key order.
#[derive(Debug)]
pub struct CompiledSchema {
    pub root: Node,
    pub definitions: Vec<(String, Node)>,
}

/// The node under `key` in a keyed node list: the first match.
pub open spec fn nget(s: Seq<(String, Node)>, key: Seq<char>) -> Option<Node>
    decreases s,
{
    if s.len() == 0 {
        None
    } else if s[0].0@ == key {
        Some(s[0].1)
    } else {
        nget(s.drop_first(), key)
    }
}

impl CompiledSchema {
    /// Look a definition up by name.
    pub fn definition(&self, name: &String) -> (r: Option<&Node>)
        ensures
            match r {
                Some(n) => nget(self.definitions@, name@) == Some(*n),
                None => nget(self.definitions@, name@) is None,
            },
    {
        let n = self.definitions.len();
        let mut i: usize = 0;
        proof {
            assert(self.definitions@.skip(0) =~= self.definitions@);
        }
        while i < n
            invariant
                n == self.definitions@.len(),
                0 <= i <= n,
                nget(self.definitions@, name@) == nget(
                    self.definitions@.skip(i as int),
                    name@,
                ),
            decreases n - i,
        {
            assert(self.definitions@.skip(i as int)[0] == self.definitions@[i as int]);
            if self.definitions[i].0 == *name {
                return Some(&self.definitions[i].1);
            }
            proof {
                assert(self.definitions@.skip(i as int).drop_first() =~= self.definitions@.skip(
                    i as int + 1,
                ));
            }
            i += 1;
        }
        None
    }
}

} // verus!
