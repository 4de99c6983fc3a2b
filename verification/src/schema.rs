//! Schemas: the runtime description of Smithy shapes, their members and traits.
use vstd::prelude::*;

use crate::prelude::{prelude_id, DefaultTrait, RequiredTrait};
use crate::refs::{share, Ref};
use crate::shapes::{shape_id_of_parts, ShapeId, ShapeIdView, ShapeType};
use crate::text::{owned, str_eq};
use crate::traits::{trait_key, StaticTraitId, TraitList, TraitMap, TraitRef};

verus! {

/// Reference to a Smithy Schema type.
pub type SchemaRef = Ref<Schema>;

/// Describes a shape with metadata from a Smithy model.
pub enum Schema {
    Scalar(ScalarSchema),
    Struct(StructSchema),
    Enum(EnumSchema),
    IntEnum(IntEnumSchema),
    List(ListSchema),
    MapType(MapSchema),
    Member(MemberSchema),
}

/// Schema for simple data with no members.
pub struct ScalarSchema {
    pub id: ShapeId,
    pub shape_type: ShapeType,
    pub traits: TraitMap,
}

/// Schema for a structure or union: its members in order, each under its name.
pub struct StructSchema {
    pub id: ShapeId,
    pub shape_type: ShapeType,
    pub members: Vec<(String, SchemaRef)>,
    pub traits: TraitMap,
}

/// Schema for a list: the schema of its `member`.
pub struct ListSchema {
    pub id: ShapeId,
    pub member: SchemaRef,
    pub traits: TraitMap,
}

/// Schema for a map: the schemas of its `key` and `value`.
pub struct MapSchema {
    pub id: ShapeId,
    pub key: SchemaRef,
    pub value: SchemaRef,
    pub traits: TraitMap,
}

/// Schema for a string enum: its allowed values.
pub struct EnumSchema {
    pub id: ShapeId,
    pub values: Vec<String>,
    pub traits: TraitMap,
}

/// Schema for an int enum: its allowed values.
pub struct IntEnumSchema {
    pub id: ShapeId,
    pub values: Vec<i32>,
    pub traits: TraitMap,
}

/// Member of another aggregate type.
///
/// `traits` are the member's own traits; `flattened_traits` adds the traits
/// of the target, which take precedence.
pub struct MemberSchema {
    pub id: ShapeId,
    pub target: SchemaRef,
    pub name: String,
    pub index: usize,
    pub traits: TraitMap,
    pub flattened_traits: TraitMap,
}

/// Position of the first member named `name`.
pub open spec fn member_position(members: Seq<(String, SchemaRef)>, name: Seq<char>) -> Option<int>
    decreases members.len(),
{
    if members.len() == 0 {
        None
    } else if members[0].0@ == name {
        Some(0)
    } else {
        match member_position(members.drop_first(), name) {
            Some(i) => Some(i + 1),
            None => None,
        }
    }
}

/// The member named `name`, if any.
pub open spec fn member_lookup(members: Seq<(String, SchemaRef)>, name: Seq<char>) -> Option<
    SchemaRef,
> {
    match member_position(members, name) {
        Some(i) => Some(members[i].1),
        None => None,
    }
}

proof fn lemma_member_position(members: Seq<(String, SchemaRef)>, name: Seq<char>)
    ensures
        match member_position(members, name) {
            Some(i) => 0 <= i < members.len() && members[i].0@ == name && forall|j: int|
                0 <= j < i ==> members[j].0@ != name,
            None => forall|j: int| 0 <= j < members.len() ==> members[j].0@ != name,
        },
    decreases members.len(),
{
    if members.len() > 0 {
        lemma_member_position(members.drop_first(), name);
        assert forall|j: int| 1 <= j < members.len() implies members[j] == members.drop_first()[j
            - 1] by {}
    }
}

/// Identifies the member at `i` as the first one named `name`.
proof fn lemma_member_position_at(members: Seq<(String, SchemaRef)>, name: Seq<char>, i: int)
    requires
        0 <= i < members.len(),
        members[i].0@ == name,
        forall|j: int| 0 <= j < i ==> members[j].0@ != name,
    ensures
        member_position(members, name) == Some(i),
{
    lemma_member_position(members, name);
    match member_position(members, name) {
        Some(k) => {
            if k < i {
                assert(members[k].0@ != name);
            } else if i < k {
                assert(members[i].0@ != name);
            }
        },
        None => {
            assert(members[i].0@ != name);
        },
    }
}

impl Schema {
    /// The id of the schema.
    pub open spec fn spec_id(&self) -> ShapeIdView {
        match self {
            Schema::Scalar(s) => s.id@,
            Schema::Struct(s) => s.id@,
            Schema::Enum(s) => s.id@,
            Schema::IntEnum(s) => s.id@,
            Schema::List(s) => s.id@,
            Schema::MapType(s) => s.id@,
            Schema::Member(s) => s.id@,
        }
    }

    /// The shape type; a member has the type of its target.
    pub open spec fn spec_shape_type(&self) -> ShapeType
        decreases self,
    {
        match self {
            Schema::Scalar(s) => s.shape_type,
            Schema::Struct(s) => s.shape_type,
            Schema::Enum(_) => ShapeType::Enum,
            Schema::IntEnum(_) => ShapeType::IntEnum,
            Schema::List(_) => ShapeType::List,
            Schema::MapType(_) => ShapeType::MapType,
            Schema::Member(m) => m.target.spec_shape_type(),
        }
    }

    /// The traits of the schema; for a member, its flattened traits.
    pub open spec fn spec_traits(&self) -> TraitMap {
        match self {
            Schema::Scalar(s) => s.traits,
            Schema::Struct(s) => s.traits,
            Schema::Enum(s) => s.traits,
            Schema::IntEnum(s) => s.traits,
            Schema::List(s) => s.traits,
            Schema::MapType(s) => s.traits,
            Schema::Member(m) => m.flattened_traits,
        }
    }

    /// The trait stored under the id `k`.
    pub open spec fn trait_lookup(&self, k: Seq<char>) -> Option<TraitRef> {
        self.spec_traits().lookup(k)
    }

    /// Whether a trait with id `k` is present.
    pub open spec fn has_trait(&self, k: Seq<char>) -> bool {
        self.trait_lookup(k) is Some
    }

    /// The member schema named `name`; a member looks into its target.
    pub open spec fn spec_get_member(&self, name: Seq<char>) -> Option<SchemaRef>
        decreases self,
    {
        match self {
            Schema::Struct(s) => member_lookup(s.members@, name),
            Schema::List(l) => if name == "member"@ {
                Some(l.member)
            } else {
                None
            },
            Schema::MapType(m) => if name == "key"@ {
                Some(m.key)
            } else if name == "value"@ {
                Some(m.value)
            } else {
                None
            },
            Schema::Member(m) => m.target.spec_get_member(name),
            _ => None,
        }
    }

    /// Get the shape type of the schema.
    pub fn shape_type(&self) -> (r: ShapeType)
        ensures
            r == self.spec_shape_type(),
        decreases self,
    {
        match self {
            Schema::Scalar(s) => s.shape_type,
            Schema::Struct(s) => s.shape_type,
            Schema::Enum(_) => ShapeType::Enum,
            Schema::IntEnum(_) => ShapeType::IntEnum,
            Schema::List(_) => ShapeType::List,
            Schema::MapType(_) => ShapeType::MapType,
            Schema::Member(m) => m.target.shape_type(),
        }
    }

    /// Get the shape id of the schema.
    pub fn id(&self) -> (r: &ShapeId)
        ensures
            r@ == self.spec_id(),
    {
        match self {
            Schema::Scalar(s) => &s.id,
            Schema::Struct(s) => &s.id,
            Schema::Enum(s) => &s.id,
            Schema::IntEnum(s) => &s.id,
            Schema::List(s) => &s.id,
            Schema::MapType(s) => &s.id,
            Schema::Member(s) => &s.id,
        }
    }

    /// The traits of the schema; for a member, its own traits together with those of its target.
    pub fn traits(&self) -> (r: &TraitMap)
        ensures
            *r == self.spec_traits(),
    {
        match self {
            Schema::Scalar(s) => &s.traits,
            Schema::Struct(s) => &s.traits,
            Schema::Enum(s) => &s.traits,
            Schema::IntEnum(s) => &s.traits,
            Schema::List(s) => &s.traits,
            Schema::MapType(s) => &s.traits,
            Schema::Member(m) => &m.flattened_traits,
        }
    }

    /// Get the schema of a member by its name.
    pub fn get_member(&self, member_name: &str) -> (r: Option<&SchemaRef>)
        ensures
            match r {
                Some(m) => self.spec_get_member(member_name@) == Some(*m),
                None => self.spec_get_member(member_name@) is None,
            },
        decreases self,
    {
        match self {
            Schema::Struct(s) => {
                let mut i: usize = 0;
                while i < s.members.len()
                    invariant
                        i <= s.members@.len(),
                        self.spec_get_member(member_name@) == member_lookup(
                            s.members@,
                            member_name@,
                        ),
                        forall|j: int| 0 <= j < i ==> s.members@[j].0@ != member_name@,
                    decreases s.members@.len() - i,
                {
                    if str_eq(s.members[i].0.as_str(), member_name) {
                        proof {
                            lemma_member_position_at(s.members@, member_name@, i as int);
                            assert(member_lookup(s.members@, member_name@) == Some(
                                s.members@[i as int].1,
                            ));
                        }
                        return Some(&s.members[i].1);
                    }
                    i = i + 1;
                }
                proof {
                    lemma_member_position(s.members@, member_name@);
                    if member_position(s.members@, member_name@) is Some {
                        let k = member_position(s.members@, member_name@).unwrap();
                        assert(s.members@[k].0@ != member_name@);
                    }
                }
                None
            },
            Schema::List(l) => {
                proof {
                    reveal_strlit("member");
                }
                if str_eq(member_name, "member") {
                    Some(&l.member)
                } else {
                    None
                }
            },
            Schema::MapType(m) => {
                proof {
                    reveal_strlit("key");
                    reveal_strlit("value");
                }
                if str_eq(member_name, "key") {
                    Some(&m.key)
                } else if str_eq(member_name, "value") {
                    Some(&m.value)
                } else {
                    None
                }
            },
            Schema::Member(m) => m.target.get_member(member_name),
            _ => None,
        }
    }

    /// Returns the member schema with the given name; the schema must hold it.
    pub fn expect_member(&self, member_name: &str) -> (r: &SchemaRef)
        requires
            self.spec_get_member(member_name@) is Some,
        ensures
            self.spec_get_member(member_name@) == Some(*r),
    {
        match self.get_member(member_name) {
            Some(m) => m,
            None => {
                proof {
                    assert(false);
                }
                self.get_member(member_name).unwrap()
            },
        }
    }

    /// Returns true if the schema holds a trait with the given id.
    pub fn contains_trait(&self, id: &ShapeId) -> (r: bool)
        ensures
            r == self.has_trait(id@.id),
    {
        self.traits().contains(id)
    }

    /// Returns true if the schema holds a trait of type `T`.
    pub fn contains_type<T: StaticTraitId>(&self) -> (r: bool)
        ensures
            r == self.has_trait(T::spec_trait_id()),
    {
        self.traits().contains_type::<T>()
    }

    /// Get a trait by shape id.
    pub fn get_trait(&self, id: &ShapeId) -> (r: Option<&TraitRef>)
        ensures
            match r {
                Some(t) => self.trait_lookup(id@.id) == Some(*t),
                None => self.trait_lookup(id@.id) is None,
            },
    {
        self.traits().get(id)
    }

    /// Get the trait of type `T`, if present.
    pub fn get_trait_of<T: StaticTraitId>(&self) -> (r: Option<&TraitRef>)
        ensures
            match r {
                Some(t) => self.trait_lookup(T::spec_trait_id()) == Some(*t),
                None => self.trait_lookup(T::spec_trait_id()) is None,
            },
    {
        let id = T::trait_id();
        self.traits().get(&id)
    }

    /// Returns true if the schema holds a trait of type `T`.
    pub fn contains_trait_type<T: StaticTraitId>(&self) -> (r: bool)
        ensures
            r == self.has_trait(T::spec_trait_id()),
    {
        self.contains_type::<T>()
    }

    /// Get the trait of type `T`, if present.
    pub fn get_trait_as<T: StaticTraitId>(&self) -> (r: Option<&TraitRef>)
        ensures
            match r {
                Some(t) => self.trait_lookup(T::spec_trait_id()) == Some(*t),
                None => self.trait_lookup(T::spec_trait_id()) is None,
            },
    {
        self.get_trait_of::<T>()
    }

    /// Get a trait by shape id.
    pub fn get_trait_dyn(&self, id: &ShapeId) -> (r: Option<&TraitRef>)
        ensures
            match r {
                Some(t) => self.trait_lookup(id@.id) == Some(*t),
                None => self.trait_lookup(id@.id) is None,
            },
    {
        self.get_trait(id)
    }

    /// Whether this is a member schema.
    pub fn is_member(&self) -> (r: bool)
        ensures
            r == (*self is Member),
    {
        matches!(self, Schema::Member(_))
    }

    /// Get as a member schema, if it is one.
    pub fn as_member(&self) -> (r: Option<&MemberSchema>)
        ensures
            match self {
                Schema::Member(m) => r == Some(m),
                _ => r is None,
            },
    {
        if let Schema::Member(m) = self {
            Some(m)
        } else {
            None
        }
    }

    /// Get as a list schema, if it is one.
    pub fn as_list(&self) -> (r: Option<&ListSchema>)
        ensures
            match self {
                Schema::List(l) => r == Some(l),
                _ => r is None,
            },
    {
        if let Schema::List(l) = self {
            Some(l)
        } else {
            None
        }
    }

    /// Get as a structure schema, if it is one.
    pub fn as_struct(&self) -> (r: Option<&StructSchema>)
        ensures
            match self {
                Schema::Struct(s) => r == Some(s),
                _ => r is None,
            },
    {
        if let Schema::Struct(s) = self {
            Some(s)
        } else {
            None
        }
    }

    /// Get as a scalar schema, if it is one.
    pub fn as_scalar(&self) -> (r: Option<&ScalarSchema>)
        ensures
            match self {
                Schema::Scalar(s) => r == Some(s),
                _ => r is None,
            },
    {
        if let Schema::Scalar(s) = self {
            Some(s)
        } else {
            None
        }
    }

    /// Get as a map schema, if it is one.
    pub fn as_map(&self) -> (r: Option<&MapSchema>)
        ensures
            match self {
                Schema::MapType(m) => r == Some(m),
                _ => r is None,
            },
    {
        if let Schema::MapType(m) = self {
            Some(m)
        } else {
            None
        }
    }

    /// Get as a string enum schema, if it is one.
    pub fn as_enum(&self) -> (r: Option<&EnumSchema>)
        ensures
            match self {
                Schema::Enum(e) => r == Some(e),
                _ => r is None,
            },
    {
        if let Schema::Enum(e) = self {
            Some(e)
        } else {
            None
        }
    }

    /// Get as an int enum schema, if it is one.
    pub fn as_int_enum(&self) -> (r: Option<&IntEnumSchema>)
        ensures
            match self {
                Schema::IntEnum(e) => r == Some(e),
                _ => r is None,
            },
    {
        if let Schema::IntEnum(e) = self {
            Some(e)
        } else {
            None
        }
    }
}

} // verus!

verus! {

/// A `@required` member without a `@default` value.
pub open spec fn required_without_default(traits: TraitMap) -> bool {
    traits.lookup(RequiredTrait::spec_trait_id()) is Some && traits.lookup(
        DefaultTrait::spec_trait_id(),
    ) is None
}

/// Builder for a member of an aggregate schema.
pub struct MemberSchemaBuilder {
    pub name: String,
    pub id: ShapeId,
    pub target: SchemaRef,
    pub traits: TraitMap,
}

/// Builder for aggregate schemas: structures, unions, lists and maps.
pub struct SchemaBuilder {
    pub id: ShapeId,
    pub shape_type: ShapeType,
    pub members: Vec<MemberSchemaBuilder>,
    pub traits: TraitMap,
}

/// The member names an aggregate of the given type accepts.
pub open spec fn valid_member_name(shape_type: ShapeType, name: Seq<char>) -> bool {
    match shape_type {
        ShapeType::List => name == "member"@,
        ShapeType::MapType => name == "key"@ || name == "value"@,
        _ => true,
    }
}

/// Positions `i < n` whose member is (or is not, per `required`) required without a default,
/// in increasing order.
pub open spec fn positions_where(ms: Seq<MemberSchemaBuilder>, required: bool, n: int) -> Seq<int>
    decreases n,
{
    if n <= 0 {
        Seq::empty()
    } else if required_without_default(ms[n - 1].traits) == required {
        positions_where(ms, required, n - 1).push(n - 1)
    } else {
        positions_where(ms, required, n - 1)
    }
}

/// The order in which members are laid out: required members without a default come first;
/// otherwise the order of insertion is kept.
pub open spec fn member_order(ms: Seq<MemberSchemaBuilder>) -> Seq<int> {
    positions_where(ms, true, ms.len() as int) + positions_where(ms, false, ms.len() as int)
}

/// Inserts `(name, k)` as an insertion-ordered map does: an existing entry keeps its
/// place and takes the new value.
pub open spec fn insert_named(layout: Seq<(Seq<char>, int)>, name: Seq<char>, k: int) -> Seq<
    (Seq<char>, int),
> {
    if exists|j: int| 0 <= j < layout.len() && layout[j].0 == name {
        let j = choose|j: int| 0 <= j < layout.len() && layout[j].0 == name;
        layout.update(j, (name, k))
    } else {
        layout.push((name, k))
    }
}

/// Names and sorted positions of the members of a built structure, after inserting the
/// first `n` sorted members.
pub open spec fn member_layout(names: Seq<Seq<char>>, n: int) -> Seq<(Seq<char>, int)>
    decreases n,
{
    if n <= 0 {
        Seq::empty()
    } else {
        insert_named(member_layout(names, n - 1), names[n - 1], n - 1)
    }
}

/// The names of the builders, in sorted order.
pub open spec fn sorted_names(ms: Seq<MemberSchemaBuilder>) -> Seq<Seq<char>> {
    member_order(ms).map_values(|i: int| ms[i].name@)
}

/// `m` is the member schema built from `b` with index `idx`: its traits are those
/// of `b`, extended by those of the target, which take precedence.
pub open spec fn member_built(m: Schema, b: MemberSchemaBuilder, idx: int) -> bool {
    &&& m matches Schema::Member(ms)
    &&& ms.id@ == b.id@
    &&& ms.target == b.target
    &&& ms.name@ == b.name@
    &&& ms.index == idx
    &&& ms.traits.entries@ == b.traits.entries@
    &&& forall|k: Seq<char>|
        #![trigger ms.flattened_traits.lookup(k)]
        ms.flattened_traits.lookup(k) == match b.target.trait_lookup(k) {
            Some(t) => Some(t),
            None => b.traits.lookup(k),
        }
}

} // verus!

verus! {

impl MemberSchemaBuilder {
    /// A member builder with the given name, id, target and traits.
    pub fn new(name: &str, id: ShapeId, target: &SchemaRef, traits: TraitList) -> (r:
        MemberSchemaBuilder)
        ensures
            r.name@ == name@,
            r.id@ == id@,
            r.target == *target,
            r.traits.entries@ == traits@,
    {
        MemberSchemaBuilder {
            name: owned(name),
            id,
            target: share(target),
            traits: TraitMap::of(traits),
        }
    }

    /// Whether the member is `@required` and has no `@default`.
    pub fn required_with_no_default(&self) -> (r: bool)
        ensures
            r == required_without_default(self.traits),
    {
        self.traits.contains_type::<RequiredTrait>() && !self.traits.contains_type::<
            DefaultTrait,
        >()
    }

    /// Builds the member schema with the given index.
    pub fn build(&self, index: usize) -> (r: SchemaRef)
        ensures
            member_built(*r, *self, index as int),
    {
        let mut flattened = TraitMap::new();
        flattened.extend(&self.traits);
        flattened.extend(self.target.traits());
        let m = MemberSchema {
            id: self.id.copy(),
            target: share(&self.target),
            name: owned(self.name.as_str()),
            index,
            traits: self.traits.copy(),
            flattened_traits: flattened,
        };
        Ref::new(Schema::Member(m))
    }
}

impl SchemaBuilder {
    /// A builder with no members.
    pub fn new(id: ShapeId, shape_type: ShapeType, traits: TraitList) -> (r: SchemaBuilder)
        ensures
            r.id@ == id@,
            r.shape_type == shape_type,
            r.members@.len() == 0,
            r.traits.entries@ == traits@,
    {
        SchemaBuilder { id, shape_type, members: Vec::new(), traits: TraitMap::of(traits) }
    }

    /// Whether a member of this name may be added: lists only take `member`, maps only
    /// `key` and `value`.
    pub fn validate_member_name(&self, name: &str) -> (r: bool)
        ensures
            r == valid_member_name(self.shape_type, name@),
    {
        proof {
            reveal_strlit("member");
            reveal_strlit("key");
            reveal_strlit("value");
        }
        match self.shape_type {
            ShapeType::List => str_eq(name, "member"),
            ShapeType::MapType => str_eq(name, "key") || str_eq(name, "value"),
            _ => true,
        }
    }

    /// Adds a trait to the shape, replacing any trait with the same id.
    pub fn with_trait(self, smithy_trait: TraitRef) -> (r: SchemaBuilder)
        ensures
            r.id@ == self.id@,
            r.shape_type == self.shape_type,
            r.members == self.members,
            forall|k: Seq<char>|
                #![trigger r.traits.lookup(k)]
                r.traits.lookup(k) == if k == trait_key(smithy_trait) {
                    Some(smithy_trait)
                } else {
                    self.traits.lookup(k)
                },
    {
        let mut b = self;
        b.traits.insert(smithy_trait);
        b
    }

    /// Adds a member targeting `target`; its id is this shape's id with the member name.
    pub fn put_member(self, name: &str, target: &SchemaRef, traits: TraitList) -> (r:
        SchemaBuilder)
        requires
            valid_member_name(self.shape_type, name@),
        ensures
            r.id@ == self.id@,
            r.shape_type == self.shape_type,
            r.traits == self.traits,
            r.members@.len() == self.members@.len() + 1,
            r.members@.drop_last() == self.members@,
            r.members@.last().name@ == name@,
            r.members@.last().id@ == shape_id_of_parts(
                self.id@.namespace,
                self.id@.name,
                Some(name@),
            ),
            r.members@.last().target == *target,
            r.members@.last().traits.entries@ == traits@,
    {
        let mut b = self;
        let id = b.id.with_member(name);
        let m = MemberSchemaBuilder::new(name, id, target, traits);
        b.members.push(m);
        proof {
            assert(b.members@.drop_last() =~= self.members@);
        }
        b
    }
}

} // verus!

verus! {

/// The names in `layout` are pairwise distinct.
pub open spec fn distinct_names(layout: Seq<(Seq<char>, int)>) -> bool {
    forall|i: int, j: int|
        0 <= i < layout.len() && 0 <= j < layout.len() && i != j ==> layout[i].0 != layout[j].0
}

proof fn lemma_insert_named(layout: Seq<(Seq<char>, int)>, name: Seq<char>, k: int, j: int)
    requires
        distinct_names(layout),
        0 <= j < layout.len(),
        layout[j].0 == name,
    ensures
        insert_named(layout, name, k) == layout.update(j, (name, k)),
{
    let c = choose|c: int| 0 <= c < layout.len() && layout[c].0 == name;
    assert(c == j);
}

/// A built structure: its members follow the sorted layout of the builder.
pub open spec fn struct_built(s: Schema, b: SchemaBuilder) -> bool {
    let order = member_order(b.members@);
    let layout = member_layout(sorted_names(b.members@), order.len() as int);
    &&& s matches Schema::Struct(ss)
    &&& ss.id@ == b.id@
    &&& ss.shape_type == b.shape_type
    &&& ss.traits.entries@ == b.traits.entries@
    &&& ss.members@.len() == layout.len()
    &&& forall|j: int|
        #![trigger ss.members@[j]]
        0 <= j < layout.len() ==> {
            &&& ss.members@[j].0@ == layout[j].0
            &&& member_built(*ss.members@[j].1, b.members@[order[layout[j].1]], layout[j].1)
        }
}

/// A built list: its member is built from the first member builder, with index 0.
pub open spec fn list_built(s: Schema, b: SchemaBuilder) -> bool {
    &&& s matches Schema::List(l)
    &&& l.id@ == b.id@
    &&& l.traits.entries@ == b.traits.entries@
    &&& member_built(*l.member, b.members@[0], 0)
}

/// A built map: its key and value are built from the first and second member builders,
/// each with index 0.
pub open spec fn map_built(s: Schema, b: SchemaBuilder) -> bool {
    &&& s matches Schema::MapType(m)
    &&& m.id@ == b.id@
    &&& m.traits.entries@ == b.traits.entries@
    &&& member_built(*m.key, b.members@[0], 0)
    &&& member_built(*m.value, b.members@[1], 0)
}

/// Whether `build` can make a schema of this builder: structures and unions always,
/// lists with a member, maps with a key and a value.
pub open spec fn buildable(b: SchemaBuilder) -> bool {
    match b.shape_type {
        ShapeType::Structure | ShapeType::Union => true,
        ShapeType::List => b.members@.len() >= 1,
        ShapeType::MapType => b.members@.len() >= 2,
        _ => false,
    }
}

fn positions_of(ms: &Vec<MemberSchemaBuilder>, required: bool) -> (r: Vec<usize>)
    ensures
        r@.map_values(|i: usize| i as int) == positions_where(ms@, required, ms@.len() as int),
        forall|k: int| 0 <= k < r@.len() ==> r@[k] < ms@.len(),
{
    let mut r: Vec<usize> = Vec::new();
    let mut i: usize = 0;
    while i < ms.len()
        invariant
            i <= ms@.len(),
            r@.map_values(|x: usize| x as int) == positions_where(ms@, required, i as int),
            forall|k: int| 0 <= k < r@.len() ==> r@[k] < i,
        decreases ms@.len() - i,
    {
        if ms[i].required_with_no_default() == required {
            r.push(i);
        }
        i = i + 1;
        assert(r@.map_values(|x: usize| x as int) =~= positions_where(ms@, required, i as int));
    }
    r
}

fn sorted_positions(ms: &Vec<MemberSchemaBuilder>) -> (r: Vec<usize>)
    ensures
        r@.map_values(|i: usize| i as int) == member_order(ms@),
        forall|k: int| 0 <= k < r@.len() ==> r@[k] < ms@.len(),
{
    let mut first = positions_of(ms, true);
    let second = positions_of(ms, false);
    let ghost f = first@;
    let mut i: usize = 0;
    while i < second.len()
        invariant
            i <= second@.len(),
            first@ == f + second@.take(i as int),
            forall|k: int| 0 <= k < f.len() ==> f[k] < ms@.len(),
            forall|k: int| 0 <= k < second@.len() ==> second@[k] < ms@.len(),
        decreases second@.len() - i,
    {
        first.push(second[i]);
        i = i + 1;
        assert(first@ =~= f + second@.take(i as int));
    }
    assert(second@.take(i as int) =~= second@);
    assert(first@.map_values(|x: usize| x as int) =~= f.map_values(|x: usize| x as int)
        + second@.map_values(|x: usize| x as int));
    first
}

} // verus!

verus! {

fn find_named(built: &Vec<(String, SchemaRef)>, name: &str) -> (r: Option<usize>)
    ensures
        match r {
            Some(j) => j < built@.len() && built@[j as int].0@ == name@,
            None => forall|j: int| 0 <= j < built@.len() ==> built@[j].0@ != name@,
        },
{
    let mut j: usize = 0;
    while j < built.len()
        invariant
            j <= built@.len(),
            forall|i: int| 0 <= i < j ==> built@[i].0@ != name@,
        decreases built@.len() - j,
    {
        if str_eq(built[j].0.as_str(), name) {
            return Some(j);
        }
        j = j + 1;
    }
    None
}

impl SchemaBuilder {
    fn build_struct_members(&self) -> (r: Vec<(String, SchemaRef)>)
        ensures
            ({
                let order = member_order(self.members@);
                let layout = member_layout(sorted_names(self.members@), order.len() as int);
                &&& r@.len() == layout.len()
                &&& forall|j: int|
                    #![trigger r@[j]]
                    0 <= j < layout.len() ==> {
                        &&& r@[j].0@ == layout[j].0
                        &&& member_built(*r@[j].1, self.members@[order[layout[j].1]], layout[j].1)
                    }
            }),
    {
        let order = sorted_positions(&self.members);
        let ghost ord = member_order(self.members@);
        let ghost names = sorted_names(self.members@);
        proof {
            assert(ord.len() == order@.len()) by {
                assert(order@.map_values(|i: usize| i as int).len() == order@.len());
            }
        }
        let mut built: Vec<(String, SchemaRef)> = Vec::new();
        let mut k: usize = 0;
        let ghost mut lay: Seq<(Seq<char>, int)> = Seq::empty();
        while k < order.len()
            invariant
                k <= order@.len(),
                ord.len() == order@.len(),
                ord == member_order(self.members@),
                names == sorted_names(self.members@),
                order@.map_values(|i: usize| i as int) == ord,
                forall|x: int| 0 <= x < order@.len() ==> order@[x] < self.members@.len(),
                lay == member_layout(names, k as int),
                built@.len() == lay.len(),
                distinct_names(lay),
                forall|j: int| 0 <= j < lay.len() ==> 0 <= #[trigger] lay[j].1 < k,
                forall|j: int|
                    #![trigger built@[j]]
                    0 <= j < lay.len() ==> built@[j].0@ == lay[j].0 && member_built(
                        *built@[j].1,
                        self.members@[ord[lay[j].1]],
                        lay[j].1,
                    ),
            decreases order@.len() - k,
        {
            let p = order[k];
            let b = &self.members[p];
            let m = b.build(k);
            proof {
                assert(ord[k as int] == p as int);
                assert(names[k as int] == self.members@[p as int].name@);
            }
            let ghost name = names[k as int];
            let ghost nl = insert_named(lay, name, k as int);
            let ghost old_built = built@;
            let ghost mut pos: int = lay.len() as int;
            match find_named(&built, b.name.as_str()) {
                Some(j) => {
                    proof {
                        lemma_insert_named(lay, name, k as int, j as int);
                        pos = j as int;
                    }
                    built.set(j, (owned(b.name.as_str()), m));
                },
                None => {
                    proof {
                        assert(!exists|j: int| 0 <= j < lay.len() && lay[j].0 == name) by {
                            assert forall|j: int| 0 <= j < lay.len() implies lay[j].0 != name by {
                                assert(old_built[j].0@ == lay[j].0);
                            }
                        }
                        assert(nl == lay.push((name, k as int)));
                    }
                    built.push((owned(b.name.as_str()), m));
                },
            }
            proof {
                assert(nl.len() == built@.len());
                assert(0 <= pos < nl.len());
                assert(nl[pos] == (name, k as int));
                assert forall|j: int| 0 <= j < nl.len() && j != pos implies nl[j] == lay[j]
                    && built@[j] == old_built[j] by {}
                assert forall|i: int, i2: int|
                    0 <= i < nl.len() && 0 <= i2 < nl.len() && i != i2 implies nl[i].0
                    != nl[i2].0 by {
                    if i != pos && i2 != pos {
                        assert(lay[i].0 != lay[i2].0);
                    } else if i != pos {
                        assert(old_built[i].0@ == lay[i].0);
                    } else {
                        assert(old_built[i2].0@ == lay[i2].0);
                    }
                }
                assert forall|j: int| 0 <= j < nl.len() implies 0 <= #[trigger] nl[j].1 < k + 1 by {
                    if j != pos {
                        assert(lay[j] == nl[j]);
                    }
                }
                assert forall|j: int| #![trigger built@[j]] 0 <= j < nl.len() implies built@[j].0@
                    == nl[j].0 && member_built(*built@[j].1, self.members@[ord[nl[j].1]], nl[j].1) by {
                    if j == pos {
                        assert(built@[j].1 == m);
                    } else {
                        assert(old_built[j] == built@[j]);
                    }
                }
                lay = nl;
            }
            k = k + 1;
        }
        built
    }

    /// Builds the schema: a structure or union lays out its members with the required
    /// ones without a default first, keeping the order of insertion otherwise, and
    /// numbers them by position; a list takes its first member, a map its first two.
    pub fn build(self) -> (r: SchemaRef)
        requires
            buildable(self),
        ensures
            self.shape_type.spec_is_struct_like() ==> struct_built(*r, self),
            self.shape_type == ShapeType::List ==> list_built(*r, self),
            self.shape_type == ShapeType::MapType ==> map_built(*r, self),
            built_from(*r, self),
    {
        match self.shape_type {
            ShapeType::List => {
                let member = self.members[0].build(0);
                Ref::new(Schema::List(ListSchema { id: self.id, member, traits: self.traits }))
            },
            ShapeType::MapType => {
                let key = self.members[0].build(0);
                let value = self.members[1].build(0);
                Ref::new(
                    Schema::MapType(MapSchema { id: self.id, key, value, traits: self.traits }),
                )
            },
            _ => {
                let members = self.build_struct_members();
                Ref::new(
                    Schema::Struct(
                        StructSchema {
                            id: self.id,
                            shape_type: self.shape_type,
                            members,
                            traits: self.traits,
                        },
                    ),
                )
            },
        }
    }
}

} // verus!

verus! {

proof fn lemma_positions_where(ms: Seq<MemberSchemaBuilder>, required: bool, n: int)
    requires
        0 <= n <= ms.len(),
    ensures
        ({
            let p = positions_where(ms, required, n);
            &&& forall|a: int, b: int| 0 <= a < b < p.len() ==> p[a] < p[b]
            &&& forall|a: int|
                0 <= a < p.len() ==> 0 <= #[trigger] p[a] < n && required_without_default(
                    ms[p[a]].traits,
                ) == required
            &&& forall|i: int|
                0 <= i < n && required_without_default(ms[i].traits) == required ==> exists|
                    a: int,
                | 0 <= a < p.len() && #[trigger] p[a] == i
        }),
        positions_where(ms, required, n).len() + positions_where(ms, !required, n).len() == n,
    decreases n,
{
    if n > 0 {
        lemma_positions_where(ms, required, n - 1);
        let p = positions_where(ms, required, n);
        let q = positions_where(ms, required, n - 1);
        if required_without_default(ms[n - 1].traits) == required {
            assert(p == q.push(n - 1));
            assert forall|i: int|
                0 <= i < n && required_without_default(ms[i].traits) == required implies exists|
                    a: int,
                | 0 <= a < p.len() && #[trigger] p[a] == i by {
                if i == n - 1 {
                    assert(p[q.len() as int] == i);
                } else {
                    let a = choose|a: int| 0 <= a < q.len() && #[trigger] q[a] == i;
                    assert(p[a] == i);
                }
            }
        } else {
            assert forall|i: int|
                0 <= i < n && required_without_default(ms[i].traits) == required implies exists|
                    a: int,
                | 0 <= a < p.len() && #[trigger] p[a] == i by {
                let a = choose|a: int| 0 <= a < q.len() && #[trigger] q[a] == i;
                assert(p[a] == i);
            }
        }
    }
}

/// `i` occurs in `o`.
pub open spec fn occurs(o: Seq<int>, i: int) -> bool {
    exists|a: int| 0 <= a < o.len() && o[a] == i
}

/// The layout of a built structure: every builder has exactly one place; required
/// members without a default come before the others; within each group the order
/// of insertion is kept.
pub proof fn lemma_member_order(ms: Seq<MemberSchemaBuilder>)
    ensures
        ({
            let o = member_order(ms);
            &&& o.len() == ms.len()
            &&& forall|a: int| 0 <= a < o.len() ==> 0 <= #[trigger] o[a] < ms.len()
            &&& forall|a: int, b: int|
                0 <= a < b < o.len() && required_without_default(ms[o[b]].traits)
                    ==> required_without_default(ms[o[a]].traits)
            &&& forall|a: int, b: int|
                0 <= a < b < o.len() && required_without_default(ms[o[a]].traits)
                    == required_without_default(ms[o[b]].traits) ==> o[a] < o[b]
            &&& forall|i: int| 0 <= i < ms.len() ==> #[trigger] occurs(o, i)
        }),
{
    let n = ms.len() as int;
    lemma_positions_where(ms, true, n);
    lemma_positions_where(ms, false, n);
    let p = positions_where(ms, true, n);
    let q = positions_where(ms, false, n);
    let o = member_order(ms);
    assert forall|a: int| 0 <= a < o.len() implies 0 <= #[trigger] o[a] < ms.len()
        && required_without_default(ms[o[a]].traits) == (a < p.len()) by {
        if a >= p.len() {
            assert(o[a] == q[a - p.len()]);
        }
    }
    assert forall|a: int, b: int|
        0 <= a < b < o.len() && required_without_default(ms[o[a]].traits)
            == required_without_default(ms[o[b]].traits) implies o[a] < o[b] by {
        if b < p.len() {
        } else if a >= p.len() {
            assert(o[a] == q[a - p.len()]);
            assert(o[b] == q[b - p.len()]);
        } else {
            assert(required_without_default(ms[o[a]].traits));
            assert(!required_without_default(ms[o[b]].traits));
        }
    }
    assert forall|i: int| 0 <= i < ms.len() implies #[trigger] occurs(o, i) by {
        if required_without_default(ms[i].traits) {
            let a = choose|a: int| 0 <= a < p.len() && #[trigger] p[a] == i;
            assert(o[a] == i);
        } else {
            let a = choose|a: int| 0 <= a < q.len() && #[trigger] q[a] == i;
            assert(o[a + p.len()] == i);
        }
    }
}

/// With pairwise distinct names, the layout keeps every member at its sorted position.
pub proof fn lemma_layout_of_distinct(names: Seq<Seq<char>>, n: int)
    requires
        0 <= n <= names.len(),
        forall|i: int, j: int| 0 <= i < j < n ==> names[i] != names[j],
    ensures
        member_layout(names, n) == Seq::new(n as nat, |j: int| (names[j], j)),
    decreases n,
{
    if n > 0 {
        lemma_layout_of_distinct(names, n - 1);
        let l = member_layout(names, n - 1);
        assert(!exists|j: int| 0 <= j < l.len() && l[j].0 == names[n - 1]) by {
            assert forall|j: int| 0 <= j < l.len() implies l[j].0 != names[n - 1] by {
                assert(l[j].0 == names[j]);
            }
        }
        assert(member_layout(names, n) =~= Seq::new(n as nat, |j: int| (names[j], j)));
    }
}

/// Members of a structure built from builders with distinct names are numbered by
/// position: member `j` is built from the `j`-th builder in sorted order, with index `j`.
pub proof fn lemma_struct_members_indexed(s: Schema, b: SchemaBuilder)
    requires
        struct_built(s, b),
        forall|i: int, j: int|
            0 <= i < j < b.members@.len() ==> b.members@[i].name@ != b.members@[j].name@,
    ensures
        s matches Schema::Struct(ss) && ss.members@.len() == b.members@.len() && forall|j: int|
            #![trigger ss.members@[j]]
            0 <= j < ss.members@.len() ==> ss.members@[j].0@ == b.members@[member_order(
                b.members@,
            )[j]].name@ && member_built(
                *ss.members@[j].1,
                b.members@[member_order(b.members@)[j]],
                j,
            ),
{
    let ms = b.members@;
    let o = member_order(ms);
    lemma_member_order(ms);
    let names = sorted_names(ms);
    assert forall|i: int, j: int| 0 <= i < j < o.len() implies names[i] != names[j] by {
        assert(o[i] != o[j]) by {
            if required_without_default(ms[o[i]].traits) == required_without_default(
                ms[o[j]].traits,
            ) {
            } else {
            }
        }
        if o[i] < o[j] {
        } else {
        }
    }
    lemma_layout_of_distinct(names, o.len() as int);
}

} // verus!

verus! {

/// `s` is a scalar schema of type `t` with the given id and traits.
pub open spec fn scalar_built(s: Schema, t: ShapeType, id: ShapeIdView, traits: Seq<TraitRef>) -> bool {
    &&& s matches Schema::Scalar(sc)
    &&& sc.id@ == id
    &&& sc.shape_type == t
    &&& sc.traits.entries@ == traits
}

/// The distinct values of `s`, in order of first occurrence.
pub open spec fn dedup<T>(s: Seq<T>) -> Seq<T>
    decreases s.len(),
{
    if s.len() == 0 {
        Seq::empty()
    } else {
        let d = dedup(s.drop_last());
        if d.contains(s.last()) {
            d
        } else {
            d.push(s.last())
        }
    }
}

/// The views of a sequence of strings.
pub open spec fn string_views(s: Seq<String>) -> Seq<Seq<char>> {
    s.map_values(|x: String| x@)
}

fn contains_str(values: &Vec<String>, v: &str) -> (r: bool)
    ensures
        r == string_views(values@).contains(v@),
{
    let mut i: usize = 0;
    while i < values.len()
        invariant
            i <= values@.len(),
            forall|j: int| 0 <= j < i ==> values@[j]@ != v@,
        decreases values@.len() - i,
    {
        if str_eq(values[i].as_str(), v) {
            assert(string_views(values@)[i as int] == v@);
            return true;
        }
        i = i + 1;
    }
    proof {
        if string_views(values@).contains(v@) {
            let k = choose|k: int| 0 <= k < string_views(values@).len() && string_views(values@)[k] == v@;
            assert(values@[k]@ != v@);
        }
    }
    false
}

fn contains_int(values: &Vec<i32>, v: i32) -> (r: bool)
    ensures
        r == values@.contains(v),
{
    let mut i: usize = 0;
    while i < values.len()
        invariant
            i <= values@.len(),
            forall|j: int| 0 <= j < i ==> values@[j] != v,
        decreases values@.len() - i,
    {
        if values[i] == v {
            return true;
        }
        i = i + 1;
    }
    false
}

impl EnumSchema {
    /// Whether `value` is one of the allowed values.
    pub fn contains(&self, value: &str) -> (r: bool)
        ensures
            r == string_views(self.values@).contains(value@),
    {
        contains_str(&self.values, value)
    }
}

impl IntEnumSchema {
    /// Whether `value` is one of the allowed values.
    pub fn contains(&self, value: i32) -> (r: bool)
        ensures
            r == self.values@.contains(value),
    {
        contains_int(&self.values, value)
    }
}

impl Schema {
    fn scalar(shape_type: ShapeType, id: ShapeId, traits: TraitList) -> (r: SchemaRef)
        ensures
            scalar_built(*r, shape_type, id@, traits@),
    {
        Ref::new(Schema::Scalar(ScalarSchema { id, shape_type, traits: TraitMap::of(traits) }))
    }

    /// Create a schema for a boolean shape.
    pub fn create_boolean(id: ShapeId, traits: TraitList) -> (r: SchemaRef)
        ensures
            scalar_built(*r, ShapeType::Boolean, id@, traits@),
    {
        Self::scalar(ShapeType::Boolean, id, traits)
    }

    /// Create a schema for a byte shape.
    pub fn create_byte(id: ShapeId, traits: TraitList) -> (r: SchemaRef)
        ensures
            scalar_built(*r, ShapeType::Byte, id@, traits@),
    {
        Self::scalar(ShapeType::Byte, id, traits)
    }

    /// Create a schema for a short shape.
    pub fn create_short(id: ShapeId, traits: TraitList) -> (r: SchemaRef)
        ensures
            scalar_built(*r, ShapeType::Short, id@, traits@),
    {
        Self::scalar(ShapeType::Short, id, traits)
    }

    /// Create a schema for an integer shape.
    pub fn create_integer(id: ShapeId, traits: TraitList) -> (r: SchemaRef)
        ensures
            scalar_built(*r, ShapeType::Integer, id@, traits@),
    {
        Self::scalar(ShapeType::Integer, id, traits)
    }

    /// Create a schema for a long shape.
    pub fn create_long(id: ShapeId, traits: TraitList) -> (r: SchemaRef)
        ensures
            scalar_built(*r, ShapeType::Long, id@, traits@),
    {
        Self::scalar(ShapeType::Long, id, traits)
    }

    /// Create a schema for a float shape.
    pub fn create_float(id: ShapeId, traits: TraitList) -> (r: SchemaRef)
        ensures
            scalar_built(*r, ShapeType::Float, id@, traits@),
    {
        Self::scalar(ShapeType::Float, id, traits)
    }

    /// Create a schema for a double shape.
    pub fn create_double(id: ShapeId, traits: TraitList) -> (r: SchemaRef)
        ensures
            scalar_built(*r, ShapeType::Double, id@, traits@),
    {
        Self::scalar(ShapeType::Double, id, traits)
    }

    /// Create a schema for a bigInteger shape.
    pub fn create_big_integer(id: ShapeId, traits: TraitList) -> (r: SchemaRef)
        ensures
            scalar_built(*r, ShapeType::BigInteger, id@, traits@),
    {
        Self::scalar(ShapeType::BigInteger, id, traits)
    }

    /// Create a schema for a bigDecimal shape.
    pub fn create_big_decimal(id: ShapeId, traits: TraitList) -> (r: SchemaRef)
        ensures
            scalar_built(*r, ShapeType::BigDecimal, id@, traits@),
    {
        Self::scalar(ShapeType::BigDecimal, id, traits)
    }

    /// Create a schema for a string shape.
    pub fn create_string(id: ShapeId, traits: TraitList) -> (r: SchemaRef)
        ensures
            scalar_built(*r, ShapeType::String, id@, traits@),
    {
        Self::scalar(ShapeType::String, id, traits)
    }

    /// Create a schema for a blob shape.
    pub fn create_blob(id: ShapeId, traits: TraitList) -> (r: SchemaRef)
        ensures
            scalar_built(*r, ShapeType::Blob, id@, traits@),
    {
        Self::scalar(ShapeType::Blob, id, traits)
    }

    /// Create a schema for a document shape.
    pub fn create_document(id: ShapeId, traits: TraitList) -> (r: SchemaRef)
        ensures
            scalar_built(*r, ShapeType::Document, id@, traits@),
    {
        Self::scalar(ShapeType::Document, id, traits)
    }

    /// Create a schema for a timestamp shape.
    pub fn create_timestamp(id: ShapeId, traits: TraitList) -> (r: SchemaRef)
        ensures
            scalar_built(*r, ShapeType::Timestamp, id@, traits@),
    {
        Self::scalar(ShapeType::Timestamp, id, traits)
    }

    /// Create a schema for an operation shape.
    pub fn create_operation(id: ShapeId, traits: TraitList) -> (r: SchemaRef)
        ensures
            scalar_built(*r, ShapeType::Operation, id@, traits@),
    {
        Self::scalar(ShapeType::Operation, id, traits)
    }

    /// Create a schema for a resource shape.
    pub fn create_resource(id: ShapeId, traits: TraitList) -> (r: SchemaRef)
        ensures
            scalar_built(*r, ShapeType::Resource, id@, traits@),
    {
        Self::scalar(ShapeType::Resource, id, traits)
    }

    /// Create a schema for a service shape.
    pub fn create_service(id: ShapeId, traits: TraitList) -> (r: SchemaRef)
        ensures
            scalar_built(*r, ShapeType::Service, id@, traits@),
    {
        Self::scalar(ShapeType::Service, id, traits)
    }

    /// Create a schema for an enum shape; repeated values are kept once.
    pub fn create_enum(id: ShapeId, values: Vec<String>, traits: TraitList) -> (r: SchemaRef)
        ensures
            *r matches Schema::Enum(e) && e.id@ == id@ && string_views(e.values@) == dedup(
                string_views(values@),
            ) && e.traits.entries@ == traits@,
    {
        let mut distinct: Vec<String> = Vec::new();
        let mut i: usize = 0;
        while i < values.len()
            invariant
                i <= values@.len(),
                string_views(distinct@) == dedup(string_views(values@.take(i as int))),
            decreases values@.len() - i,
        {
            proof {
                assert(values@.take(i + 1).drop_last() =~= values@.take(i as int));
                assert(string_views(values@.take(i + 1)).drop_last() =~= string_views(
                    values@.take(i as int),
                ));
            }
            if !contains_str(&distinct, values[i].as_str()) {
                distinct.push(owned(values[i].as_str()));
                assert(string_views(distinct@) =~= string_views(distinct@.drop_last()).push(
                    values@[i as int]@,
                ));
            }
            i = i + 1;
        }
        assert(values@.take(i as int) =~= values@);
        Ref::new(Schema::Enum(EnumSchema { id, values: distinct, traits: TraitMap::of(traits) }))
    }

    /// Create a schema for an intEnum shape; repeated values are kept once.
    pub fn create_int_enum(id: ShapeId, values: Vec<i32>, traits: TraitList) -> (r: SchemaRef)
        ensures
            *r matches Schema::IntEnum(e) && e.id@ == id@ && e.values@ == dedup(values@)
                && e.traits.entries@ == traits@,
    {
        let mut distinct: Vec<i32> = Vec::new();
        let mut i: usize = 0;
        while i < values.len()
            invariant
                i <= values@.len(),
                distinct@ == dedup(values@.take(i as int)),
            decreases values@.len() - i,
        {
            proof {
                assert(values@.take(i + 1).drop_last() =~= values@.take(i as int));
            }
            if !contains_int(&distinct, values[i]) {
                distinct.push(values[i]);
            }
            i = i + 1;
        }
        assert(values@.take(i as int) =~= values@);
        Ref::new(Schema::IntEnum(IntEnumSchema { id, values: distinct, traits: TraitMap::of(traits) }))
    }

    /// A builder for a structure shape.
    pub fn structure_builder(id: ShapeId, traits: TraitList) -> (r: SchemaBuilder)
        ensures
            r.id@ == id@,
            r.shape_type == ShapeType::Structure,
            r.members@.len() == 0,
            r.traits.entries@ == traits@,
    {
        SchemaBuilder::new(id, ShapeType::Structure, traits)
    }

    /// A builder for a union shape.
    pub fn union_builder(id: ShapeId, traits: TraitList) -> (r: SchemaBuilder)
        ensures
            r.id@ == id@,
            r.shape_type == ShapeType::Union,
            r.members@.len() == 0,
            r.traits.entries@ == traits@,
    {
        SchemaBuilder::new(id, ShapeType::Union, traits)
    }

    /// A builder for a list shape.
    pub fn list_builder(id: ShapeId, traits: TraitList) -> (r: SchemaBuilder)
        ensures
            r.id@ == id@,
            r.shape_type == ShapeType::List,
            r.members@.len() == 0,
            r.traits.entries@ == traits@,
    {
        SchemaBuilder::new(id, ShapeType::List, traits)
    }

    /// A builder for a map shape.
    pub fn map_builder(id: ShapeId, traits: TraitList) -> (r: SchemaBuilder)
        ensures
            r.id@ == id@,
            r.shape_type == ShapeType::MapType,
            r.members@.len() == 0,
            r.traits.entries@ == traits@,
    {
        SchemaBuilder::new(id, ShapeType::MapType, traits)
    }
}

} // verus!

verus! {

/// The simple types of the prelude: the shape types with a `smithy.api` schema.
pub open spec fn is_prelude_scalar(t: ShapeType) -> bool {
    match t {
        ShapeType::Blob | ShapeType::Boolean | ShapeType::String | ShapeType::Timestamp
        | ShapeType::Byte | ShapeType::Short | ShapeType::Integer | ShapeType::Long
        | ShapeType::Float | ShapeType::Double | ShapeType::BigInteger | ShapeType::BigDecimal
        | ShapeType::Document => true,
        _ => false,
    }
}

/// The name of the prelude shape of a simple type.
pub open spec fn prelude_type_name(t: ShapeType) -> Seq<char> {
    match t {
        ShapeType::Blob => "Blob"@,
        ShapeType::Boolean => "Boolean"@,
        ShapeType::String => "String"@,
        ShapeType::Timestamp => "Timestamp"@,
        ShapeType::Byte => "Byte"@,
        ShapeType::Short => "Short"@,
        ShapeType::Integer => "Integer"@,
        ShapeType::Long => "Long"@,
        ShapeType::Float => "Float"@,
        ShapeType::Double => "Double"@,
        ShapeType::BigInteger => "BigInteger"@,
        ShapeType::BigDecimal => "BigDecimal"@,
        _ => "Document"@,
    }
}

/// The simple type whose prelude schema stands for values of type `t`: an enum is a
/// string, an int enum an integer, and a type without a prelude schema a document.
pub open spec fn prelude_type_for(t: ShapeType) -> ShapeType {
    match t {
        ShapeType::Enum => ShapeType::String,
        ShapeType::IntEnum => ShapeType::Integer,
        _ => if is_prelude_scalar(t) {
            t
        } else {
            ShapeType::Document
        },
    }
}

/// The prelude schema that best fits values of type `shape_type`; types without a
/// prelude schema (lists, maps, structures, ...) get the document schema.
pub fn get_schema_for_type(shape_type: ShapeType) -> (r: SchemaRef)
    ensures
        scalar_built(
            *r,
            prelude_type_for(shape_type),
            shape_id_of_parts("smithy.api"@, prelude_type_name(prelude_type_for(shape_type)), None),
            seq![],
        ),
{
    let t = match shape_type {
        ShapeType::Enum => ShapeType::String,
        ShapeType::IntEnum => ShapeType::Integer,
        ShapeType::Blob | ShapeType::Boolean | ShapeType::String | ShapeType::Timestamp
        | ShapeType::Byte | ShapeType::Short | ShapeType::Integer | ShapeType::Long
        | ShapeType::Float | ShapeType::Double | ShapeType::BigInteger | ShapeType::BigDecimal
        | ShapeType::Document => shape_type,
        _ => ShapeType::Document,
    };
    prelude_schema(t)
}

/// The prelude schema `smithy.api#<Name>` of a simple type, with no traits.
pub fn prelude_schema(t: ShapeType) -> (r: SchemaRef)
    requires
        is_prelude_scalar(t),
    ensures
        scalar_built(*r, t, shape_id_of_parts("smithy.api"@, prelude_type_name(t), None), seq![]),
{
    let name = match t {
        ShapeType::Blob => "Blob",
        ShapeType::Boolean => "Boolean",
        ShapeType::String => "String",
        ShapeType::Timestamp => "Timestamp",
        ShapeType::Byte => "Byte",
        ShapeType::Short => "Short",
        ShapeType::Integer => "Integer",
        ShapeType::Long => "Long",
        ShapeType::Float => "Float",
        ShapeType::Double => "Double",
        ShapeType::BigInteger => "BigInteger",
        ShapeType::BigDecimal => "BigDecimal",
        _ => "Document",
    };
    let id = ShapeId::from_parts("smithy.api", name, None);
    let r = Schema::scalar(t, id, Vec::new());
    proof {
        assert(r.spec_id() == shape_id_of_parts("smithy.api"@, prelude_type_name(t), None));
    }
    r
}

} // verus!

verus! {

/// The schema a reference points to.
pub open spec fn schema_of(r: SchemaRef) -> Schema {
    *r
}

} // verus!

verus! {

/// A member added to a structure or union builder under a name no other member has is
/// found under that name in the built schema, with the id that `put_member` gave it;
/// the member of a list is found under `member` with its id.
pub proof fn law_put_member_then_build(b: SchemaBuilder, b2: SchemaBuilder, name: Seq<char>, s: Schema)
    requires
        b2.shape_type == b.shape_type,
        b2.members@.len() == b.members@.len() + 1,
        b2.members@.drop_last() == b.members@,
        b2.members@.last().name@ == name,
        b2.members@.last().id@ == shape_id_of_parts(b.id@.namespace, b.id@.name, Some(name)),
        b.shape_type.spec_is_struct_like() ==> struct_built(s, b2),
        b.shape_type == ShapeType::List ==> b.members@.len() == 0 && name == "member"@ && list_built(s, b2),
        b.shape_type.spec_is_struct_like() || b.shape_type == ShapeType::List,
        forall|i: int, j: int|
            0 <= i < j < b.members@.len() ==> b.members@[i].name@ != b.members@[j].name@,
        forall|i: int| 0 <= i < b.members@.len() ==> b.members@[i].name@ != name,
    ensures
        b.shape_type.spec_is_struct_like() ==> (s.spec_get_member(name) matches Some(m)
            && (*m).spec_id() == shape_id_of_parts(b.id@.namespace, b.id@.name, Some(name))),
        b.shape_type == ShapeType::List ==> (s.spec_get_member(name) matches Some(m)
            && (*m).spec_id() == shape_id_of_parts(b.id@.namespace, b.id@.name, Some(name))),
{
    let ms = b2.members@;
    let last = ms.len() - 1;
    assert forall|i: int| 0 <= i < last implies ms[i] == b.members@[i] by {}
    if b.shape_type.spec_is_struct_like() {
        assert forall|i: int, j: int| 0 <= i < j < ms.len() implies ms[i].name@ != ms[j].name@ by {
            if j < last {
                assert(ms[i] == b.members@[i]);
                assert(ms[j] == b.members@[j]);
            } else {
                assert(ms[i] == b.members@[i]);
            }
        }
        lemma_struct_members_indexed(s, b2);
        lemma_member_order(ms);
        let o = member_order(ms);
        let ss = s->Struct_0;
        assert(occurs(o, last));
        let a = choose|a: int| 0 <= a < o.len() && o[a] == last;
        assert(ss.members@[a].0@ == name);
        lemma_member_position(ss.members@, name);
        let p = member_position(ss.members@, name)->Some_0;
        assert(ss.members@[p].0@ == ms[o[p]].name@);
        assert(o[p] == last) by {
            if o[p] != last {
                assert(0 <= o[p] < last);
                assert(ms[o[p]] == b.members@[o[p]]);
            }
        }
        assert(member_built(*ss.members@[p].1, ms[last], p));
    }
}


/// `s` is a schema that `build` may return for `b`.
pub open spec fn built_from(s: Schema, b: SchemaBuilder) -> bool {
    &&& b.shape_type.spec_is_struct_like() ==> struct_built(s, b)
    &&& b.shape_type == ShapeType::List ==> list_built(s, b)
    &&& b.shape_type == ShapeType::MapType ==> map_built(s, b)
}

/// Two member schemas with the same id, target, name, index and traits.
pub open spec fn same_member(a: Schema, b: Schema) -> bool {
    &&& a matches Schema::Member(x)
    &&& b matches Schema::Member(y)
    &&& x.id@ == y.id@
    &&& x.target == y.target
    &&& x.name@ == y.name@
    &&& x.index == y.index
    &&& x.traits.entries@ == y.traits.entries@
    &&& forall|k: Seq<char>| #[trigger] x.flattened_traits.lookup(k) == y.flattened_traits.lookup(k)
}

/// Two aggregate schemas with the same id, type and traits, and the same members in the
/// same places.
pub open spec fn same_aggregate(a: Schema, b: Schema) -> bool {
    match (a, b) {
        (Schema::Struct(x), Schema::Struct(y)) => {
            &&& x.id@ == y.id@
            &&& x.shape_type == y.shape_type
            &&& x.traits.entries@ == y.traits.entries@
            &&& x.members@.len() == y.members@.len()
            &&& forall|j: int|
                #![trigger x.members@[j], y.members@[j]]
                0 <= j < x.members@.len() ==> x.members@[j].0@ == y.members@[j].0@ && same_member(
                    *x.members@[j].1,
                    *y.members@[j].1,
                )
        },
        (Schema::List(x), Schema::List(y)) => {
            &&& x.id@ == y.id@
            &&& x.traits.entries@ == y.traits.entries@
            &&& same_member(*x.member, *y.member)
        },
        (Schema::MapType(x), Schema::MapType(y)) => {
            &&& x.id@ == y.id@
            &&& x.traits.entries@ == y.traits.entries@
            &&& same_member(*x.key, *y.key)
            &&& same_member(*x.value, *y.value)
        },
        _ => false,
    }
}

proof fn lemma_member_built_same(a: SchemaRef, c: SchemaRef, b: MemberSchemaBuilder, idx: int)
    requires
        member_built(*a, b, idx),
        member_built(*c, b, idx),
    ensures
        same_member(*a, *c),
{
    assert forall|k: Seq<char>|
        #[trigger] (*a)->Member_0.flattened_traits.lookup(k) == (*c)->Member_0.flattened_traits.lookup(
            k,
        ) by {
        assert((*a)->Member_0.flattened_traits.lookup(k) == match b.target.trait_lookup(k) {
            Some(t) => Some(t),
            None => b.traits.lookup(k),
        });
        assert((*c)->Member_0.flattened_traits.lookup(k) == match b.target.trait_lookup(k) {
            Some(t) => Some(t),
            None => b.traits.lookup(k),
        });
    }
}

/// Building a builder gives the same schema every time: any two schemas that `build` may
/// return for one builder have the same id, type and traits, and the same members, with
/// the same names, ids, targets, indexes and traits, in the same places.
pub proof fn law_build_determined(b: SchemaBuilder, s1: Schema, s2: Schema)
    requires
        buildable(b),
        built_from(s1, b),
        built_from(s2, b),
    ensures
        same_aggregate(s1, s2),
{
    if b.shape_type.spec_is_struct_like() {
        let order = member_order(b.members@);
        let layout = member_layout(sorted_names(b.members@), order.len() as int);
        let x = s1->Struct_0;
        let y = s2->Struct_0;
        assert forall|j: int| 0 <= j < x.members@.len() implies #[trigger] x.members@[j].0@
            == #[trigger] y.members@[j].0@ && same_member(*x.members@[j].1, *y.members@[j].1) by {
            lemma_member_built_same(
                x.members@[j].1,
                y.members@[j].1,
                b.members@[order[layout[j].1]],
                layout[j].1,
            );
        }
    } else if b.shape_type == ShapeType::List {
        lemma_member_built_same(s1->List_0.member, s2->List_0.member, b.members@[0], 0);
    } else {
        lemma_member_built_same(s1->MapType_0.key, s2->MapType_0.key, b.members@[0], 0);
        lemma_member_built_same(s1->MapType_0.value, s2->MapType_0.value, b.members@[1], 0);
    }
}

/// A map builder given its `key` and then its `value` builds a map whose `key` and
/// `value` members are found under those names, each with the id that `put_member` gave it.
pub proof fn law_put_map_members_then_build(
    b: SchemaBuilder,
    b1: SchemaBuilder,
    b2: SchemaBuilder,
    s: Schema,
)
    requires
        b.shape_type == ShapeType::MapType,
        b.members@.len() == 0,
        b1.id@ == b.id@,
        b1.shape_type == b.shape_type,
        b1.members@.len() == 1,
        b1.members@.last().name@ == "key"@,
        b1.members@.last().id@ == shape_id_of_parts(b.id@.namespace, b.id@.name, Some("key"@)),
        b2.id@ == b1.id@,
        b2.shape_type == b1.shape_type,
        b2.members@.len() == 2,
        b2.members@.drop_last() == b1.members@,
        b2.members@.last().name@ == "value"@,
        b2.members@.last().id@ == shape_id_of_parts(b1.id@.namespace, b1.id@.name, Some("value"@)),
        built_from(s, b2),
    ensures
        s.spec_get_member("key"@) matches Some(k) && (*k).spec_id() == shape_id_of_parts(
            b.id@.namespace,
            b.id@.name,
            Some("key"@),
        ),
        s.spec_get_member("value"@) matches Some(v) && (*v).spec_id() == shape_id_of_parts(
            b.id@.namespace,
            b.id@.name,
            Some("value"@),
        ),
{
    assert(b2.members@[0] == b1.members@[0]);
    reveal_strlit("key");
    reveal_strlit("value");
    assert("key"@ != "value"@);
}

} // verus!
