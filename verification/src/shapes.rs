//! Shape identifiers and shape types of the Smithy data model.
use vstd::prelude::*;

use crate::text::{find_char, first_index_of, owned, split_once};

verus! {

/// Identifier of a shape: `namespace#name` or `namespace#name$member`.
#[derive(Debug, Clone)]
pub struct ShapeId {
    pub id: String,
    pub namespace: String,
    pub name: String,
    pub member: Option<String>,
}

/// Abstract value of a [`ShapeId`].
pub struct ShapeIdView {
    pub id: Seq<char>,
    pub namespace: Seq<char>,
    pub name: Seq<char>,
    pub member: Option<Seq<char>>,
}

impl View for ShapeId {
    type V = ShapeIdView;

    open spec fn view(&self) -> ShapeIdView {
        ShapeIdView {
            id: self.id@,
            namespace: self.namespace@,
            name: self.name@,
            member: match self.member {
                Some(m) => Some(m@),
                None => None,
            },
        }
    }
}

/// The textual id built from its parts.
pub open spec fn compose_id(namespace: Seq<char>, name: Seq<char>, member: Option<Seq<char>>) -> Seq<
    char,
> {
    match member {
        Some(m) => namespace + seq!['#'] + name + seq!['$'] + m,
        None => namespace + seq!['#'] + name,
    }
}

/// The shape id that parsing the text `s` yields, when `s` holds a `#`.
pub open spec fn parse_shape_id(s: Seq<char>) -> Option<ShapeIdView> {
    match split_once(s, '#') {
        None => None,
        Some((namespace, rest)) => Some(
            match split_once(rest, '$') {
                Some((name, member)) => ShapeIdView {
                    id: s,
                    namespace,
                    name,
                    member: Some(member),
                },
                None => ShapeIdView { id: s, namespace, name: rest, member: None },
            },
        ),
    }
}

/// The shape id built from its parts.
pub open spec fn shape_id_of_parts(
    namespace: Seq<char>,
    name: Seq<char>,
    member: Option<Seq<char>>,
) -> ShapeIdView {
    ShapeIdView { id: compose_id(namespace, name, member), namespace, name, member }
}

fn copy_opt(m: &Option<String>) -> (r: Option<String>)
    ensures
        match (m, r) {
            (Some(a), Some(b)) => a@ == b@,
            (None, None) => true,
            _ => false,
        },
{
    match m {
        Some(s) => Some(owned(s.as_str())),
        None => None,
    }
}

impl ShapeId {
    /// Parses a shape id of the form `namespace#name` or `namespace#name$member`.
    ///
    /// Returns `None` when the text holds no `#`.
    pub fn try_parse(value: &str) -> (r: Option<ShapeId>)
        ensures
            match r {
                Some(id) => parse_shape_id(value@) == Some(id@),
                None => parse_shape_id(value@) is None && !value@.contains('#'),
            },
    {
        match find_char(value, '#') {
            None => None,
            Some(h) => {
                let len = value.unicode_len();
                let namespace = value.substring_char(0, h);
                let rest = value.substring_char(h + 1, len);
                let rest_len = rest.unicode_len();
                let (name, member) = match find_char(rest, '$') {
                    Some(d) => {
                        let name = rest.substring_char(0, d);
                        let member = rest.substring_char(d + 1, rest_len);
                        (owned(name), Some(owned(member)))
                    },
                    None => (owned(rest), None),
                };
                let id = ShapeId { id: owned(value), namespace: owned(namespace), name, member };
                proof {
                    assert(first_index_of(value@, '#') == Some(h as int));
                    assert(id@ == parse_shape_id(value@).unwrap());
                }
                Some(id)
            },
        }
    }

    /// Parses a shape id; the text must hold a `#`.
    pub fn from(value: &str) -> (r: ShapeId)
        requires
            value@.contains('#'),
        ensures
            parse_shape_id(value@) == Some(r@),
    {
        match Self::try_parse(value) {
            Some(id) => id,
            None => {
                proof {
                    assert(false);
                }
                ShapeId { id: String::new(), namespace: String::new(), name: String::new(), member: None }
            },
        }
    }

    /// Builds a shape id from a namespace, a name and an optional member name.
    pub fn from_parts(namespace: &str, name: &str, member: Option<&str>) -> (r: ShapeId)
        ensures
            r@ == shape_id_of_parts(
                namespace@,
                name@,
                match member {
                    Some(m) => Some(m@),
                    None => None,
                },
            ),
    {
        let id = owned(namespace).concat("#").concat(name);
        proof {
            reveal_strlit("#");
            reveal_strlit("$");
        }
        let (id, member) = match member {
            Some(m) => (id.concat("$").concat(m), Some(owned(m))),
            None => (id, None),
        };
        let r = ShapeId { id, namespace: owned(namespace), name: owned(name), member };
        assert(r@.id =~= compose_id(r@.namespace, r@.name, r@.member));
        r
    }

    /// The id of a member of this shape.
    pub fn with_member(&self, member: &str) -> (r: ShapeId)
        ensures
            r@ == shape_id_of_parts(self@.namespace, self@.name, Some(member@)),
    {
        Self::from_parts(self.namespace.as_str(), self.name.as_str(), Some(member))
    }

    /// The full textual id.
    pub fn id(&self) -> (r: &str)
        ensures
            r@ == self@.id,
    {
        self.id.as_str()
    }

    /// The namespace of the shape.
    pub fn namespace(&self) -> (r: &str)
        ensures
            r@ == self@.namespace,
    {
        self.namespace.as_str()
    }

    /// The name of the shape.
    pub fn name(&self) -> (r: &str)
        ensures
            r@ == self@.name,
    {
        self.name.as_str()
    }

    /// The member name, when this id names a member.
    pub fn member(&self) -> (r: Option<&str>)
        ensures
            match (r, self@.member) {
                (Some(a), Some(b)) => a@ == b,
                (None, None) => true,
                _ => false,
            },
    {
        match &self.member {
            Some(m) => Some(m.as_str()),
            None => None,
        }
    }

    /// A copy of this id with the same view.
    pub fn copy(&self) -> (r: ShapeId)
        ensures
            r@ == self@,
    {
        ShapeId {
            id: owned(self.id.as_str()),
            namespace: owned(self.namespace.as_str()),
            name: owned(self.name.as_str()),
            member: copy_opt(&self.member),
        }
    }

    /// Two ids are equal when their textual ids are equal.
    pub fn same_id(&self, other: &ShapeId) -> (r: bool)
        ensures
            r == (self@.id == other@.id),
    {
        self.id == other.id
    }
}

/// The kind of a shape in the Smithy data model.
#[derive(Debug, Clone, Copy, PartialEq, Eq, Hash, Structural)]
pub enum ShapeType {
    Blob,
    Boolean,
    String,
    Timestamp,
    Byte,
    Short,
    Integer,
    Long,
    Float,
    Double,
    BigInteger,
    BigDecimal,
    Document,
    Enum,
    IntEnum,
    List,
    MapType,
    Structure,
    Union,
    Member,
    Service,
    Resource,
    Operation,
}

impl ShapeType {
    /// Structures and unions hold named members.
    pub open spec fn spec_is_struct_like(self) -> bool {
        self == ShapeType::Structure || self == ShapeType::Union
    }

    /// Structures and unions hold named members.
    #[verifier::when_used_as_spec(spec_is_struct_like)]
    pub fn is_struct_like(self) -> (r: bool)
        ensures
            r == self.spec_is_struct_like(),
    {
        self == ShapeType::Structure || self == ShapeType::Union
    }
}

} // verus!

verus! {

proof fn lemma_first_index_after(prefix: Seq<char>, c: char, rest: Seq<char>)
    requires
        !prefix.contains(c),
    ensures
        first_index_of(prefix + seq![c] + rest, c) == Some(prefix.len() as int),
{
    let s = prefix + seq![c] + rest;
    let i = prefix.len() as int;
    assert(s[i] == c);
    assert forall|j: int| 0 <= j < i implies s[j] != c by {
        assert(s[j] == prefix[j]);
    }
    assert(crate::text::is_first_index(s, c, i));
    let k = choose|k: int| crate::text::is_first_index(s, c, k);
    crate::text::lemma_first_index_unique(s, c, i, k);
}

proof fn lemma_no_index(s: Seq<char>, c: char)
    requires
        !s.contains(c),
    ensures
        first_index_of(s, c) is None,
{
    if exists|i: int| crate::text::is_first_index(s, c, i) {
        let i = choose|i: int| crate::text::is_first_index(s, c, i);
        assert(s.contains(c));
    }
}

/// Parsing the text of a shape id built from parts gives back those parts, when the
/// namespace holds no `#` and the name no `$`.
pub proof fn law_shape_id_parse_compose(
    namespace: Seq<char>,
    name: Seq<char>,
    member: Option<Seq<char>>,
)
    requires
        !namespace.contains('#'),
        !name.contains('$'),
    ensures
        parse_shape_id(compose_id(namespace, name, member)) == Some(
            shape_id_of_parts(namespace, name, member),
        ),
{
    let rest = match member {
        Some(m) => name + seq!['$'] + m,
        None => name,
    };
    let text = compose_id(namespace, name, member);
    assert(text =~= namespace + seq!['#'] + rest);
    lemma_first_index_after(namespace, '#', rest);
    assert((namespace + seq!['#'] + rest).subrange(0, namespace.len() as int) =~= namespace);
    assert((namespace + seq!['#'] + rest).subrange(
        namespace.len() as int + 1,
        (namespace + seq!['#'] + rest).len() as int,
    ) =~= rest);
    match member {
        Some(m) => {
            lemma_first_index_after(name, '$', m);
            assert((name + seq!['$'] + m).subrange(0, name.len() as int) =~= name);
            assert((name + seq!['$'] + m).subrange(
                name.len() as int + 1,
                (name + seq!['$'] + m).len() as int,
            ) =~= m);
        },
        None => {
            lemma_no_index(name, '$');
        },
    }
}

} // verus!
