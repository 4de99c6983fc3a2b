//! Smithy traits attached to schemas, and the map that holds them.
use std::sync::Arc;

use vstd::prelude::*;

use crate::documents::Document;
use crate::prelude::{ErrorTrait, LengthTrait, PatternTrait, RangeTrait};
use crate::refs::{share, Ref};
use crate::shapes::ShapeId;
use crate::text::str_eq;

verus! {

/// The data a trait carries.
pub enum TraitValue {
    /// A trait with no data (`@sensitive`, `@required`, ...).
    Annotation,
    /// A trait holding a single string (`@jsonName`, `@xmlName`, ...).
    Text(String),
    /// A trait holding a single integer (`@httpError`).
    Integer(i32),
    /// `@length`
    Length(LengthTrait),
    /// `@range`
    Range(RangeTrait),
    /// `@pattern`
    Pattern(PatternTrait),
    /// `@error`
    Error(ErrorTrait),
    /// `@default`
    Default(Document),
    /// Any other trait, kept as an untyped document.
    Dynamic(Document),
}

/// A trait applied to a shape: its id and the data it carries.
pub struct SmithyTrait {
    pub id: ShapeId,
    pub value: TraitValue,
}

/// Cheaply clonable reference to a trait.
pub type TraitRef = Ref<SmithyTrait>;

/// Convenience type representing a list of trait implementations.
pub type TraitList = Vec<TraitRef>;

/// The key under which a trait is stored: its full shape id.
pub open spec fn trait_key(t: TraitRef) -> Seq<char> {
    t.id@.id
}

/// Pre-defined traits that have a static id.
pub trait StaticTraitId {
    /// The static id, as text.
    spec fn spec_trait_id() -> Seq<char>;

    /// Static trait id as found in the Smithy model definition of the trait.
    fn trait_id() -> (r: ShapeId)
        ensures
            r@.id == Self::spec_trait_id(),
    ;
}

/// The trait stored last under key `k` in `s`.
pub open spec fn lookup_in(s: Seq<TraitRef>, k: Seq<char>) -> Option<TraitRef>
    decreases s.len(),
{
    if s.len() == 0 {
        None
    } else if trait_key(s.last()) == k {
        Some(s.last())
    } else {
        lookup_in(s.drop_last(), k)
    }
}

/// Looking up in a concatenation prefers the second part.
pub proof fn lemma_lookup_concat(s: Seq<TraitRef>, t: Seq<TraitRef>, k: Seq<char>)
    ensures
        lookup_in(s + t, k) == match lookup_in(t, k) {
            Some(v) => Some(v),
            None => lookup_in(s, k),
        },
    decreases t.len(),
{
    if t.len() == 0 {
        assert(s + t =~= s);
    } else {
        assert((s + t).drop_last() =~= s + t.drop_last());
        lemma_lookup_concat(s, t.drop_last(), k);
    }
}

/// Map used to track the traits applied to a schema.
///
/// A trait inserted later replaces one with the same id.
pub struct TraitMap {
    pub entries: Vec<TraitRef>,
}

impl TraitMap {
    /// The trait stored under the id `k`.
    pub open spec fn lookup(&self, k: Seq<char>) -> Option<TraitRef> {
        lookup_in(self.entries@, k)
    }

    /// Creates a new, empty map.
    pub fn new() -> (r: TraitMap)
        ensures
            forall|k: Seq<char>| r.lookup(k) is None,
    {
        TraitMap { entries: Vec::new() }
    }

    /// Finds the trait stored under the textual id `k`.
    pub fn get_by_key(&self, k: &str) -> (r: Option<&TraitRef>)
        ensures
            match r {
                Some(t) => self.lookup(k@) == Some(*t),
                None => self.lookup(k@) is None,
            },
    {
        let mut j = self.entries.len();
        assert(self.entries@.take(j as int) =~= self.entries@);
        while j > 0
            invariant
                j <= self.entries@.len(),
                self.lookup(k@) == lookup_in(self.entries@.take(j as int), k@),
            decreases j,
        {
            let t = &self.entries[j - 1];
            assert(self.entries@.take(j as int).drop_last() =~= self.entries@.take(j - 1));
            if str_eq(t.id.id.as_str(), k) {
                return Some(t);
            }
            j = j - 1;
        }
        None
    }

    /// Returns a reference to the trait with the given id, if present.
    pub fn get(&self, id: &ShapeId) -> (r: Option<&TraitRef>)
        ensures
            match r {
                Some(t) => self.lookup(id@.id) == Some(*t),
                None => self.lookup(id@.id) is None,
            },
    {
        self.get_by_key(id.id.as_str())
    }

    /// Returns true if the map holds a trait with the given id.
    pub fn contains(&self, id: &ShapeId) -> (r: bool)
        ensures
            r == self.lookup(id@.id) is Some,
    {
        self.get(id).is_some()
    }

    /// Returns true if the map holds a trait of type `T`.
    pub fn contains_type<T: StaticTraitId>(&self) -> (r: bool)
        ensures
            r == self.lookup(T::spec_trait_id()) is Some,
    {
        let id = T::trait_id();
        self.contains(&id)
    }

    /// Get the trait of type `T`, if present.
    pub fn get_as<T: StaticTraitId>(&self) -> (r: Option<&TraitRef>)
        ensures
            match r {
                Some(t) => self.lookup(T::spec_trait_id()) == Some(*t),
                None => self.lookup(T::spec_trait_id()) is None,
            },
    {
        let id = T::trait_id();
        self.get(&id)
    }

    /// Inserts a trait, replacing any trait with the same id; returns the replaced trait.
    pub fn insert(&mut self, value: TraitRef) -> (r: Option<TraitRef>)
        ensures
            r == old(self).lookup(trait_key(value)),
            forall|k: Seq<char>|
                #![trigger final(self).lookup(k)]
                final(self).lookup(k) == if k == trait_key(value) {
                    Some(value)
                } else {
                    old(self).lookup(k)
                },
    {
        let prev = match self.get(&value.id) {
            Some(t) => Some(share(t)),
            None => None,
        };
        self.entries.push(value);
        proof {
            assert forall|k: Seq<char>| #[trigger]
                self.lookup(k) == if k == trait_key(value) {
                    Some(value)
                } else {
                    old(self).lookup(k)
                } by {
                assert(self.entries@.drop_last() =~= old(self).entries@);
            }
        }
        prev
    }

    /// Extends this map with the contents of another; traits of `other` take precedence.
    pub fn extend(&mut self, other: &TraitMap)
        ensures
            forall|k: Seq<char>|
                #![trigger final(self).lookup(k)]
                final(self).lookup(k) == match other.lookup(k) {
                    Some(t) => Some(t),
                    None => old(self).lookup(k),
                },
    {
        let ghost start = self.entries@;
        let mut i: usize = 0;
        while i < other.entries.len()
            invariant
                i <= other.entries@.len(),
                self.entries@ == start + other.entries@.take(i as int),
            decreases other.entries@.len() - i,
        {
            let t = share(&other.entries[i]);
            self.entries.push(t);
            i = i + 1;
            assert(self.entries@ =~= start + other.entries@.take(i as int));
        }
        proof {
            assert(other.entries@.take(i as int) =~= other.entries@);
            assert forall|k: Seq<char>| #[trigger]
                self.lookup(k) == match other.lookup(k) {
                    Some(t) => Some(t),
                    None => old(self).lookup(k),
                } by {
                lemma_lookup_concat(start, other.entries@, k);
            }
        }
    }

    /// Create a map from a list of traits; a later trait replaces an earlier one with the same id.
    pub fn of(traits: Vec<TraitRef>) -> (r: TraitMap)
        ensures
            r.entries@ == traits@,
            forall|k: Seq<char>| #![trigger r.lookup(k)] r.lookup(k) == lookup_in(traits@, k),
    {
        TraitMap { entries: traits }
    }

    /// A map with the same traits.
    pub fn copy(&self) -> (r: TraitMap)
        ensures
            r.entries@ == self.entries@,
    {
        let mut entries: Vec<TraitRef> = Vec::new();
        let mut i: usize = 0;
        while i < self.entries.len()
            invariant
                i <= self.entries@.len(),
                entries@ == self.entries@.take(i as int),
            decreases self.entries@.len() - i,
        {
            entries.push(share(&self.entries[i]));
            i = i + 1;
            assert(entries@ =~= self.entries@.take(i as int));
        }
        assert(self.entries@.take(i as int) =~= self.entries@);
        TraitMap { entries }
    }

    /// Number of trait entries stored.
    pub fn len(&self) -> (r: usize)
        ensures
            r == self.entries@.len(),
    {
        self.entries.len()
    }
}

/// Wraps a trait into a shared reference.
pub fn trait_ref(t: SmithyTrait) -> (r: TraitRef)
    ensures
        *r == t,
{
    Arc::new(t)
}

} // verus!

verus! {

/// A trait with no dedicated type: its id and its value as a document.
pub struct DynamicTrait;

impl DynamicTrait {
    /// A trait with the given id carrying `value`.
    pub fn from(id: ShapeId, value: Document) -> (r: TraitRef)
        ensures
            r.id@ == id@,
            r.value == TraitValue::Dynamic(value),
    {
        trait_ref(SmithyTrait { id, value: TraitValue::Dynamic(value) })
    }
}

} // verus!
