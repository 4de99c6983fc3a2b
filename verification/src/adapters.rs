//! Decisions of the adapters between schema-guided serialization and generic data
//! formats: which names members take, and how a value of each shape type is read.
use vstd::prelude::*;

use crate::prelude::{JsonNameTrait, XmlAttributeTrait, XmlNameTrait};
use crate::schema::Schema;
use crate::shapes::ShapeType;
use crate::text::owned;
use crate::traits::{StaticTraitId, TraitValue};

verus! {

/// Whether `needle` occurs in `hay`.
pub open spec fn occurs_in(hay: Seq<char>, needle: Seq<char>) -> bool {
    exists|i: int| 0 <= i <= hay.len() - needle.len() && #[trigger] hay.subrange(i, i + needle.len()) == needle
}

fn text_contains(hay: &str, needle: &str) -> (r: bool)
    ensures
        r == occurs_in(hay@, needle@),
{
    let n = needle.unicode_len();
    let h = hay.unicode_len();
    if n > h {
        proof {
            assert forall|i: int| 0 <= i <= hay@.len() - needle@.len() implies #[trigger] hay@.subrange(i, i + needle@.len()) != needle@ by {}
        }
        return false;
    }
    let mut i: usize = 0;
    while i <= h - n
        invariant
            n == needle@.len(),
            h == hay@.len(),
            n <= h,
            i <= h - n + 1,
            forall|k: int| 0 <= k < i ==> #[trigger] hay@.subrange(k, k + n) != needle@,
        decreases h - n + 1 - i,
    {
        let mut j: usize = 0;
        let mut same = true;
        while j < n
            invariant
                n == needle@.len(),
                h == hay@.len(),
                i + n <= h,
                j <= n,
                same == forall|x: int| 0 <= x < j ==> hay@[i + x] == needle@[x],
            decreases n - j,
        {
            if hay.get_char(i + j) != needle.get_char(j) {
                same = false;
            }
            j = j + 1;
        }
        if same {
            assert(hay@.subrange(i as int, i + n) =~= needle@);
            return true;
        }
        assert(hay@.subrange(i as int, i + n) != needle@) by {
            let x = choose|x: int| 0 <= x < n && hay@[i + x] != needle@[x];
            assert(hay@.subrange(i as int, i + n)[x] == hay@[i + x]);
        }
        i = i + 1;
    }
    false
}

/// How member and structure names are mapped for a data format.
#[derive(PartialEq, Eq, Structural)]
pub enum NameMapper {
    Json,
    Xml,
    Default,
}

/// The mapper chosen for a serializer whose type name is `serializer_name`.
pub open spec fn mapper_for(serializer_name: Seq<char>) -> NameMapper {
    if occurs_in(serializer_name, "json"@) {
        NameMapper::Json
    } else if occurs_in(serializer_name, "xml"@) {
        NameMapper::Xml
    } else {
        NameMapper::Default
    }
}

/// The text of a trait holding a name, when the schema carries the trait with id `k`.
pub open spec fn text_trait(schema: Schema, k: Seq<char>) -> Option<Seq<char>> {
    match schema.trait_lookup(k) {
        Some(t) => match t.value {
            TraitValue::Text(s) => Some(s@),
            _ => None,
        },
        None => None,
    }
}

/// The name a structure is written under.
pub open spec fn struct_name(mapper: NameMapper, schema: Schema) -> Seq<char> {
    match (mapper, text_trait(schema, XmlNameTrait::spec_trait_id())) {
        (NameMapper::Xml, Some(n)) => n,
        _ => schema.spec_id().name,
    }
}

/// The name a member is written under; `None` when the schema is not a member.
pub open spec fn member_name(mapper: NameMapper, schema: Schema) -> Option<Seq<char>> {
    match schema {
        Schema::Member(m) => Some(
            match mapper {
                NameMapper::Json => match text_trait(schema, JsonNameTrait::spec_trait_id()) {
                    Some(n) => n,
                    None => m.name@,
                },
                NameMapper::Xml => {
                    let name = match text_trait(schema, XmlNameTrait::spec_trait_id()) {
                        Some(n) => n,
                        None => m.name@,
                    };
                    if schema.has_trait(XmlAttributeTrait::spec_trait_id()) {
                        seq!['@'] + name
                    } else {
                        name
                    }
                },
                NameMapper::Default => m.name@,
            },
        ),
        _ => None,
    }
}

fn text_of<T: StaticTraitId>(schema: &Schema) -> (r: Option<String>)
    ensures
        match r {
            Some(s) => text_trait(*schema, T::spec_trait_id()) == Some(s@),
            None => text_trait(*schema, T::spec_trait_id()) is None,
        },
{
    match schema.get_trait_of::<T>() {
        Some(t) => match &t.value {
            TraitValue::Text(s) => Some(owned(s.as_str())),
            _ => None,
        },
        None => None,
    }
}

impl NameMapper {
    /// The mapper for a serializer type named `serializer_name`: JSON when the name holds
    /// `json`, XML when it holds `xml`, the default otherwise.
    pub fn new(serializer_name: &str) -> (r: NameMapper)
        ensures
            r == mapper_for(serializer_name@),
    {
        proof {
            reveal_strlit("json");
            reveal_strlit("xml");
        }
        if text_contains(serializer_name, "json") {
            NameMapper::Json
        } else if text_contains(serializer_name, "xml") {
            NameMapper::Xml
        } else {
            NameMapper::Default
        }
    }

    /// The name a structure is written under: its `@xmlName` for XML, else its shape name.
    pub fn get_struct_name(&self, schema: &Schema) -> (r: String)
        ensures
            r@ == struct_name(*self, *schema),
    {
        if *self == NameMapper::Xml {
            match text_of::<XmlNameTrait>(schema) {
                Some(n) => return n,
                None => {},
            }
        }
        owned(schema.id().name())
    }

    /// The name a member is written under: its `@jsonName` for JSON; its `@xmlName` for
    /// XML, prefixed with `@` when it is an `@xmlAttribute`; its member name otherwise.
    pub fn get_member_name(&self, schema: &Schema) -> (r: Result<String, String>)
        ensures
            match member_name(*self, *schema) {
                Some(n) => r matches Ok(s) && s@ == n,
                None => r matches Err(e) && e@
                    == "Expected member schema when serializing struct field"@,
            },
    {
        let me = match schema.as_member() {
            Some(m) => m,
            None => {
                return Err(owned("Expected member schema when serializing struct field"));
            },
        };
        match self {
            NameMapper::Json => match text_of::<JsonNameTrait>(schema) {
                Some(n) => Ok(n),
                None => Ok(owned(me.name.as_str())),
            },
            NameMapper::Xml => {
                let name = match text_of::<XmlNameTrait>(schema) {
                    Some(n) => n,
                    None => owned(me.name.as_str()),
                };
                if schema.contains_type::<XmlAttributeTrait>() {
                    let mut out = String::new();
                    crate::text::push_char(&mut out, '@');
                    let out = out.concat(name.as_str());
                    assert(out@ =~= seq!['@'] + name@);
                    Ok(out)
                } else {
                    Ok(name)
                }
            },
            NameMapper::Default => Ok(owned(me.name.as_str())),
        }
    }
}

/// How a value of a shape type is read from a generic data format.
#[derive(PartialEq, Eq, Structural)]
pub enum ReadStrategy {
    /// As a sequence.
    Sequence,
    /// As a map or object.
    Mapping,
    /// As an enum value.
    EnumValue,
    /// As a primitive value.
    Primitive,
}

/// The strategy for a shape type; `None` for types that cannot be read.
pub open spec fn read_strategy(t: ShapeType) -> Option<ReadStrategy> {
    match t {
        ShapeType::List => Some(ReadStrategy::Sequence),
        ShapeType::Structure | ShapeType::MapType | ShapeType::Union => Some(ReadStrategy::Mapping),
        ShapeType::IntEnum | ShapeType::Enum => Some(ReadStrategy::EnumValue),
        ShapeType::Boolean | ShapeType::Byte | ShapeType::Short | ShapeType::Integer
        | ShapeType::Long | ShapeType::Float | ShapeType::Double | ShapeType::BigInteger
        | ShapeType::BigDecimal | ShapeType::String => Some(ReadStrategy::Primitive),
        _ => None,
    }
}

/// Chooses how to read a value of the schema's shape type.
pub fn deserialize_strategy(schema: &Schema) -> (r: Option<ReadStrategy>)
    ensures
        r == read_strategy(schema.spec_shape_type()),
{
    match schema.shape_type() {
        ShapeType::List => Some(ReadStrategy::Sequence),
        ShapeType::Structure | ShapeType::MapType | ShapeType::Union => Some(ReadStrategy::Mapping),
        ShapeType::IntEnum | ShapeType::Enum => Some(ReadStrategy::EnumValue),
        ShapeType::Boolean | ShapeType::Byte | ShapeType::Short | ShapeType::Integer
        | ShapeType::Long | ShapeType::Float | ShapeType::Double | ShapeType::BigInteger
        | ShapeType::BigDecimal | ShapeType::String => Some(ReadStrategy::Primitive),
        _ => None,
    }
}

/// The integer an enum reader accepts: any integer read that fits an `i32`.
pub fn read_integer(v: i128) -> (r: Option<i32>)
    ensures
        match r {
            Some(x) => x as int == v as int,
            None => v < i32::MIN || v > i32::MAX,
        },
{
    if -2147483648 <= v && v <= 2147483647 {
        Some(v as i32)
    } else {
        None
    }
}

} // verus!
