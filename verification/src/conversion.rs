//! Conversion between shapes and documents.
//!
//! A shape is turned into a document by writing it against its schema: a structure
//! becomes a map from member names to documents, under the structure's schema and with
//! the structure's id as discriminator; a list or a map keeps its schema and takes its id
//! as discriminator; a scalar becomes a document of the matching prelude type; an absent
//! value becomes the null document. Map keys are written as text, and a later entry
//! under a key already present replaces the value in place.
//!
//! A document is read back against a schema: the schema's type says what the document
//! must hold, structures keep the entries that name one of their members, and null reads
//! as null. Writing a value and reading it back gives the value again
//! (`law_document_roundtrip`).
use vstd::prelude::*;

use crate::documents::{
    integer_value, DefaultDocumentValue, Document, DocumentError, NumberFloat, NumberInteger,
    NumberValue,
};
use crate::numbers::{int_text, int_to_string, Decimal, Timestamp};
use crate::refs::share;
use crate::schema::{prelude_schema, prelude_type_name, schema_of, Schema, SchemaRef};
use crate::shapes::{shape_id_of_parts, ShapeIdView, ShapeType};
use crate::text::{owned, str_eq};
use crate::validation::{shape_type_label, shape_type_name};
use crate::values::ShapeValue;

verus! {

/// The value of a document, by the views of its parts.
pub enum ValueView {
    Null,
    Number(NumberValue),
    Boolean(bool),
    Blob(Seq<u8>),
    String(Seq<char>),
    Timestamp(Timestamp),
    List(Seq<DocView>),
    Entries(Seq<(Seq<char>, DocView)>),
}

/// A document by the views of its parts: the id and type of its schema, its value and
/// its discriminator.
pub struct DocView {
    pub id: ShapeIdView,
    pub shape_type: ShapeType,
    pub value: ValueView,
    pub discriminator: Option<ShapeIdView>,
}

/// The view of a document.
pub open spec fn doc_view(d: Document) -> DocView
    decreases d, 2int,
{
    DocView {
        id: d.schema.spec_id(),
        shape_type: d.schema.spec_shape_type(),
        value: value_view(d.value),
        discriminator: match d.discriminator {
            Some(x) => Some(x@),
            None => None,
        },
    }
}

/// The view of a document value.
pub open spec fn value_view(v: DefaultDocumentValue) -> ValueView
    decreases v, 1int,
{
    match v {
        DefaultDocumentValue::Null => ValueView::Null,
        DefaultDocumentValue::Number(n) => ValueView::Number(n),
        DefaultDocumentValue::Boolean(b) => ValueView::Boolean(b),
        DefaultDocumentValue::Blob(b) => ValueView::Blob(b@),
        DefaultDocumentValue::String(s) => ValueView::String(s@),
        DefaultDocumentValue::Timestamp(t) => ValueView::Timestamp(t),
        DefaultDocumentValue::List(docs) => ValueView::List(docs_view(docs@)),
        DefaultDocumentValue::MapValue(es) => ValueView::Entries(entries_view(es@)),
    }
}

/// The views of a sequence of documents.
pub open spec fn docs_view(s: Seq<Document>) -> Seq<DocView>
    decreases s, 0int,
{
    if s.len() == 0 {
        seq![]
    } else {
        docs_view(s.drop_last()).push(doc_view(s.last()))
    }
}

/// The views of a sequence of map entries.
pub open spec fn entries_view(s: Seq<(String, Document)>) -> Seq<(Seq<char>, DocView)>
    decreases s, 0int,
{
    if s.len() == 0 {
        seq![]
    } else {
        entries_view(s.drop_last()).push((s.last().0@, doc_view(s.last().1)))
    }
}

/// Why a shape cannot be turned into a document.
pub enum ConversionFailure {
    /// A structure member was written with a schema that is not a member schema.
    ExpectedMember,
    /// A map key of the given type cannot be written as text.
    InvalidKey(ShapeType),
}

/// The error reported for a conversion failure.
pub open spec fn failure_error(e: DocumentError, f: ConversionFailure) -> bool {
    match f {
        ConversionFailure::ExpectedMember => e matches DocumentError::DocumentConversion(s) && s@
            == "Expected member schema!"@,
        ConversionFailure::InvalidKey(t) => e matches DocumentError::CustomError(s) && s@
            == "Invalid key type: "@ + shape_type_name(t),
    }
}

/// A document of the prelude type `t` holding `value`.
pub open spec fn prelude_doc(t: ShapeType, value: ValueView) -> DocView {
    DocView {
        id: shape_id_of_parts("smithy.api"@, prelude_type_name(t), None),
        shape_type: t,
        value,
        discriminator: None,
    }
}

/// The null document: null under the prelude document schema.
pub open spec fn null_doc() -> DocView {
    prelude_doc(ShapeType::Document, ValueView::Null)
}

/// A list, map or structure document under `schema`, with the schema's id as
/// discriminator.
pub open spec fn aggregate_doc(schema: Schema, value: ValueView) -> DocView {
    DocView {
        id: schema.spec_id(),
        shape_type: schema.spec_shape_type(),
        value,
        discriminator: Some(schema.spec_id()),
    }
}

/// Position of the first entry under key `k`, or -1.
pub open spec fn key_position(es: Seq<(Seq<char>, DocView)>, k: Seq<char>) -> int
    decreases es.len(),
{
    if es.len() == 0 {
        -1
    } else if key_position(es.drop_last(), k) >= 0 {
        key_position(es.drop_last(), k)
    } else if es.last().0 == k {
        es.len() - 1
    } else {
        -1
    }
}

/// Inserts `d` under `k`: it replaces the value of an entry already under `k`, in
/// place, or else comes last.
pub open spec fn insert_entry(es: Seq<(Seq<char>, DocView)>, k: Seq<char>, d: DocView) -> Seq<
    (Seq<char>, DocView),
> {
    let p = key_position(es, k);
    if p >= 0 {
        es.update(p, (k, d))
    } else {
        es.push((k, d))
    }
}

/// The text of a map key written against `key_schema`: integers in decimal, strings as
/// they are.
pub open spec fn map_key(key_schema: Schema, k: ShapeValue) -> Result<Seq<char>, ConversionFailure> {
    match k {
        ShapeValue::Byte(x) => Ok(int_text(x as int)),
        ShapeValue::Short(x) => Ok(int_text(x as int)),
        ShapeValue::Integer(x) => Ok(int_text(x as int)),
        ShapeValue::Long(x) => Ok(int_text(x as int)),
        ShapeValue::String(s) => Ok(s@),
        _ => Err(ConversionFailure::InvalidKey(key_schema.spec_shape_type())),
    }
}

/// The document that `v` written against `schema` gives, or why it gives none.
pub open spec fn to_doc(schema: Schema, v: ShapeValue) -> Result<DocView, ConversionFailure>
    decreases v, 1int, 0int,
{
    match v {
        ShapeValue::Boolean(b) => Ok(prelude_doc(ShapeType::Boolean, ValueView::Boolean(b))),
        ShapeValue::Byte(x) => Ok(
            prelude_doc(ShapeType::Byte, ValueView::Number(NumberValue::Integer(NumberInteger::Byte(x)))),
        ),
        ShapeValue::Short(x) => Ok(
            prelude_doc(ShapeType::Short, ValueView::Number(NumberValue::Integer(NumberInteger::Short(x)))),
        ),
        ShapeValue::Integer(x) => Ok(
            prelude_doc(
                ShapeType::Integer,
                ValueView::Number(NumberValue::Integer(NumberInteger::Integer(x))),
            ),
        ),
        ShapeValue::Long(x) => Ok(
            prelude_doc(ShapeType::Long, ValueView::Number(NumberValue::Integer(NumberInteger::Long(x)))),
        ),
        ShapeValue::Float(bits, _) => Ok(
            prelude_doc(ShapeType::Float, ValueView::Number(NumberValue::Float(NumberFloat::Float(bits)))),
        ),
        ShapeValue::Double(bits, _) => Ok(
            prelude_doc(
                ShapeType::Double,
                ValueView::Number(NumberValue::Float(NumberFloat::Double(bits))),
            ),
        ),
        ShapeValue::BigInteger(x) => Ok(
            prelude_doc(
                ShapeType::BigInteger,
                ValueView::Number(NumberValue::Integer(NumberInteger::BigInt(x))),
            ),
        ),
        ShapeValue::BigDecimal(d) => Ok(
            prelude_doc(
                ShapeType::BigDecimal,
                ValueView::Number(NumberValue::Float(NumberFloat::BigDecimal(d))),
            ),
        ),
        ShapeValue::String(s) => Ok(prelude_doc(ShapeType::String, ValueView::String(s@))),
        ShapeValue::Blob(b) => Ok(prelude_doc(ShapeType::Blob, ValueView::Blob(b@))),
        ShapeValue::Timestamp(t) => Ok(prelude_doc(ShapeType::Timestamp, ValueView::Timestamp(t))),
        ShapeValue::Document(d) => Ok(doc_view(d)),
        ShapeValue::Null => Ok(null_doc()),
        ShapeValue::Skip => Ok(null_doc()),
        ShapeValue::Missing => Ok(null_doc()),
        ShapeValue::List(items) => match items_doc(
            schema_of(schema.spec_get_member("member"@).unwrap()),
            items@,
            0,
            seq![],
        ) {
            Ok(ds) => Ok(aggregate_doc(schema, ValueView::List(ds))),
            Err(e) => Err(e),
        },
        ShapeValue::MapValue(entries) => match entries_doc(
            schema_of(schema.spec_get_member("key"@).unwrap()),
            schema_of(schema.spec_get_member("value"@).unwrap()),
            entries@,
            0,
            seq![],
        ) {
            Ok(es) => Ok(aggregate_doc(schema, ValueView::Entries(es))),
            Err(e) => Err(e),
        },
        ShapeValue::Struct(members) => match members_doc(members@, 0, seq![]) {
            Ok(es) => Ok(aggregate_doc(schema, ValueView::Entries(es))),
            Err(e) => Err(e),
        },
    }
}

/// The documents of the list elements from position `i` on, after those in `acc`.
pub open spec fn items_doc(member: Schema, items: Seq<ShapeValue>, i: int, acc: Seq<DocView>) -> Result<
    Seq<DocView>,
    ConversionFailure,
>
    decreases items, 0int, items.len() - i,
{
    if 0 <= i < items.len() {
        match to_doc(member, items[i]) {
            Ok(d) => items_doc(member, items, i + 1, acc.push(d)),
            Err(e) => Err(e),
        }
    } else {
        Ok(acc)
    }
}

/// The entries of the map entries from position `i` on, inserted into `acc`: each key
/// is written first, then its value.
pub open spec fn entries_doc(
    key_schema: Schema,
    value_schema: Schema,
    entries: Seq<(ShapeValue, ShapeValue)>,
    i: int,
    acc: Seq<(Seq<char>, DocView)>,
) -> Result<Seq<(Seq<char>, DocView)>, ConversionFailure>
    decreases entries, 0int, entries.len() - i,
{
    if 0 <= i < entries.len() {
        match map_key(key_schema, entries[i].0) {
            Err(e) => Err(e),
            Ok(k) => match to_doc(value_schema, entries[i].1) {
                Err(e) => Err(e),
                Ok(d) => entries_doc(key_schema, value_schema, entries, i + 1, insert_entry(acc, k, d)),
            },
        }
    } else {
        Ok(acc)
    }
}

/// The entries of the structure members from position `i` on, inserted into `acc`
/// under their member names.
pub open spec fn members_doc(
    members: Seq<(SchemaRef, ShapeValue)>,
    i: int,
    acc: Seq<(Seq<char>, DocView)>,
) -> Result<Seq<(Seq<char>, DocView)>, ConversionFailure>
    decreases members, 0int, members.len() - i,
{
    if 0 <= i < members.len() {
        match *members[i].0 {
            Schema::Member(m) => match to_doc(*members[i].0, members[i].1) {
                Err(e) => Err(e),
                Ok(d) => members_doc(members, i + 1, insert_entry(acc, m.name@, d)),
            },
            _ => Err(ConversionFailure::ExpectedMember),
        }
    } else {
        Ok(acc)
    }
}

/// Whether `v` can be written against `schema`: every list and map is written against a
/// schema that holds its `member`, or its `key` and `value`.
pub open spec fn convertible(schema: Schema, v: ShapeValue) -> bool
    decreases v, 1int, 0int,
{
    match v {
        ShapeValue::List(items) => schema.spec_get_member("member"@) is Some && items_convertible(
            schema_of(schema.spec_get_member("member"@).unwrap()),
            items@,
            0,
        ),
        ShapeValue::MapValue(entries) => schema.spec_get_member("key"@) is Some
            && schema.spec_get_member("value"@) is Some && entries_convertible(
            schema_of(schema.spec_get_member("value"@).unwrap()),
            entries@,
            0,
        ),
        ShapeValue::Struct(members) => members_convertible(members@, 0),
        _ => true,
    }
}

/// The elements from position `i` on can be written against `member`.
pub open spec fn items_convertible(member: Schema, items: Seq<ShapeValue>, i: int) -> bool
    decreases items, 0int, items.len() - i,
{
    0 <= i < items.len() ==> convertible(member, items[i]) && items_convertible(member, items, i + 1)
}

/// The entry values from position `i` on can be written against `value_schema`.
pub open spec fn entries_convertible(
    value_schema: Schema,
    entries: Seq<(ShapeValue, ShapeValue)>,
    i: int,
) -> bool
    decreases entries, 0int, entries.len() - i,
{
    0 <= i < entries.len() ==> convertible(value_schema, entries[i].1) && entries_convertible(
        value_schema,
        entries,
        i + 1,
    )
}

/// The member values from position `i` on can be written against their schemas.
pub open spec fn members_convertible(members: Seq<(SchemaRef, ShapeValue)>, i: int) -> bool
    decreases members, 0int, members.len() - i,
{
    0 <= i < members.len() ==> convertible(*members[i].0, members[i].1) && members_convertible(
        members,
        i + 1,
    )
}

} // verus!

verus! {

proof fn lemma_docs_view(s: Seq<Document>)
    ensures
        docs_view(s).len() == s.len(),
        forall|j: int| 0 <= j < s.len() ==> #[trigger] docs_view(s)[j] == doc_view(s[j]),
    decreases s.len(),
{
    if s.len() > 0 {
        lemma_docs_view(s.drop_last());
    }
}

proof fn lemma_entries_view(s: Seq<(String, Document)>)
    ensures
        entries_view(s).len() == s.len(),
        forall|j: int|
            0 <= j < s.len() ==> #[trigger] entries_view(s)[j] == (s[j].0@, doc_view(s[j].1)),
    decreases s.len(),
{
    if s.len() > 0 {
        lemma_entries_view(s.drop_last());
    }
}

proof fn lemma_docs_view_push(s: Seq<Document>, d: Document)
    ensures
        docs_view(s.push(d)) == docs_view(s).push(doc_view(d)),
{
    assert(s.push(d).drop_last() =~= s);
}

proof fn lemma_entries_view_push(s: Seq<(String, Document)>, e: (String, Document))
    ensures
        entries_view(s.push(e)) == entries_view(s).push((e.0@, doc_view(e.1))),
{
    assert(s.push(e).drop_last() =~= s);
}

proof fn lemma_entries_view_update(s: Seq<(String, Document)>, p: int, e: (String, Document))
    requires
        0 <= p < s.len(),
    ensures
        entries_view(s.update(p, e)) == entries_view(s).update(p, (e.0@, doc_view(e.1))),
{
    lemma_entries_view(s);
    lemma_entries_view(s.update(p, e));
    assert(entries_view(s.update(p, e)) =~= entries_view(s).update(p, (e.0@, doc_view(e.1))));
}

proof fn lemma_key_position(es: Seq<(Seq<char>, DocView)>, k: Seq<char>)
    ensures
        -1 <= key_position(es, k) < es.len(),
        key_position(es, k) >= 0 ==> es[key_position(es, k)].0 == k,
        forall|j: int| 0 <= j < es.len() && (key_position(es, k) < 0 || j < key_position(es, k))
            ==> #[trigger] es[j].0 != k,
    decreases es.len(),
{
    if es.len() > 0 {
        let init = es.drop_last();
        lemma_key_position(init, k);
        assert forall|j: int| 0 <= j < init.len() implies init[j] == es[j] by {}
    }
}

} // verus!

verus! {

fn copy_bytes(b: &Vec<u8>) -> (r: Vec<u8>)
    ensures
        r@ == b@,
{
    let mut r: Vec<u8> = Vec::new();
    let mut i: usize = 0;
    while i < b.len()
        invariant
            i <= b@.len(),
            r@ == b@.take(i as int),
        decreases b@.len() - i,
    {
        r.push(b[i]);
        i = i + 1;
        assert(r@ =~= b@.take(i as int));
    }
    assert(b@.take(i as int) =~= b@);
    r
}

impl Document {
    /// A copy of the document: same schema, same discriminator, a copy of the value.
    pub fn copy(&self) -> (r: Document)
        ensures
            doc_view(r) == doc_view(*self),
        decreases self, 2int,
    {
        let discriminator = match &self.discriminator {
            Some(d) => Some(d.copy()),
            None => None,
        };
        Document { schema: share(&self.schema), value: copy_value(&self.value), discriminator }
    }
}

fn copy_value(v: &DefaultDocumentValue) -> (r: DefaultDocumentValue)
    ensures
        value_view(r) == value_view(*v),
    decreases v, 1int,
{
    match v {
        DefaultDocumentValue::Null => DefaultDocumentValue::Null,
        DefaultDocumentValue::Number(n) => DefaultDocumentValue::Number(*n),
        DefaultDocumentValue::Boolean(b) => DefaultDocumentValue::Boolean(*b),
        DefaultDocumentValue::Blob(b) => DefaultDocumentValue::Blob(copy_bytes(b)),
        DefaultDocumentValue::String(s) => DefaultDocumentValue::String(owned(s.as_str())),
        DefaultDocumentValue::Timestamp(t) => DefaultDocumentValue::Timestamp(*t),
        DefaultDocumentValue::List(docs) => DefaultDocumentValue::List(copy_docs(docs)),
        DefaultDocumentValue::MapValue(es) => DefaultDocumentValue::MapValue(copy_entries(es)),
    }
}

fn copy_docs(docs: &Vec<Document>) -> (r: Vec<Document>)
    ensures
        docs_view(r@) == docs_view(docs@),
    decreases docs, 0int,
{
    let mut r: Vec<Document> = Vec::new();
    let mut i: usize = 0;
    while i < docs.len()
        invariant
            i <= docs@.len(),
            docs_view(r@) == docs_view(docs@.take(i as int)),
        decreases docs@.len() - i,
    {
        let d = docs[i].copy();
        proof {
            lemma_docs_view_push(r@, d);
            lemma_docs_view_push(docs@.take(i as int), docs@[i as int]);
            assert(docs@.take(i as int).push(docs@[i as int]) =~= docs@.take(i + 1));
        }
        r.push(d);
        i = i + 1;
    }
    assert(docs@.take(i as int) =~= docs@);
    r
}

fn copy_entries(es: &Vec<(String, Document)>) -> (r: Vec<(String, Document)>)
    ensures
        entries_view(r@) == entries_view(es@),
    decreases es, 0int,
{
    let mut r: Vec<(String, Document)> = Vec::new();
    let mut i: usize = 0;
    while i < es.len()
        invariant
            i <= es@.len(),
            entries_view(r@) == entries_view(es@.take(i as int)),
        decreases es@.len() - i,
    {
        let e = (owned(es[i].0.as_str()), es[i].1.copy());
        proof {
            lemma_entries_view_push(r@, e);
            lemma_entries_view_push(es@.take(i as int), es@[i as int]);
            assert(es@.take(i as int).push(es@[i as int]) =~= es@.take(i + 1));
        }
        r.push(e);
        i = i + 1;
    }
    assert(es@.take(i as int) =~= es@);
    r
}

/// Inserts `doc` under `key`, replacing in place the value of an entry already under
/// `key`.
fn insert_doc(entries: &mut Vec<(String, Document)>, key: String, doc: Document)
    ensures
        entries_view(final(entries)@) == insert_entry(entries_view(old(entries)@), key@, doc_view(doc)),
{
    let ghost es = entries_view(entries@);
    proof {
        lemma_entries_view(entries@);
        lemma_key_position(es, key@);
    }
    let mut i: usize = 0;
    while i < entries.len()
        invariant
            i <= entries@.len(),
            entries@ == old(entries)@,
            es == entries_view(entries@),
            es.len() == entries@.len(),
            forall|j: int| 0 <= j < i ==> #[trigger] es[j].0 != key@,
        decreases entries@.len() - i,
    {
        proof {
            lemma_entries_view(entries@);
            lemma_key_position(es, key@);
        }
        assert(es[i as int] == (entries@[i as int].0@, doc_view(entries@[i as int].1)));
        if str_eq(entries[i].0.as_str(), key.as_str()) {
            proof {
                let p = key_position(es, key@);
                assert(es[i as int].0 == key@);
                assert(p == i) by {
                    if p > i {
                        assert(es[p].0 == key@);
                    }
                }
                lemma_entries_view_update(entries@, i as int, (key, doc));
            }
            entries.set(i, (key, doc));
            return;
        }
        i = i + 1;
    }
    proof {
        lemma_key_position(es, key@);
        let p = key_position(es, key@);
        if p >= 0 {
            assert(es[p].0 == key@);
        }
        lemma_entries_view_push(entries@, (key, doc));
    }
    entries.push((key, doc));
}

} // verus!

verus! {

/// `r` is the outcome that the specification `spec` describes.
pub open spec fn converted(r: Result<Document, DocumentError>, spec: Result<DocView, ConversionFailure>) -> bool {
    match spec {
        Ok(dv) => r matches Ok(d) && doc_view(d) == dv,
        Err(f) => r matches Err(e) && failure_error(e, f),
    }
}

fn prelude_document(t: ShapeType, value: DefaultDocumentValue) -> (r: Document)
    requires
        crate::schema::is_prelude_scalar(t),
    ensures
        doc_view(r) == prelude_doc(t, value_view(value)),
{
    Document { schema: prelude_schema(t), value, discriminator: None }
}

fn key_to_text(key_schema: &Schema, k: &ShapeValue) -> (r: Result<String, DocumentError>)
    ensures
        match map_key(*key_schema, *k) {
            Ok(s) => r matches Ok(x) && x@ == s,
            Err(f) => r matches Err(e) && failure_error(e, f),
        },
{
    match k {
        ShapeValue::Byte(x) => Ok(int_to_string(*x as i128)),
        ShapeValue::Short(x) => Ok(int_to_string(*x as i128)),
        ShapeValue::Integer(x) => Ok(int_to_string(*x as i128)),
        ShapeValue::Long(x) => Ok(int_to_string(*x as i128)),
        ShapeValue::String(s) => Ok(owned(s.as_str())),
        _ => {
            proof {
                reveal_strlit("Invalid key type: ");
            }
            let label = shape_type_label(key_schema.shape_type());
            Err(DocumentError::CustomError(owned("Invalid key type: ").concat(label)))
        },
    }
}

proof fn lemma_items_convertible(m: Schema, items: Seq<ShapeValue>, j: int, i: int)
    requires
        items_convertible(m, items, j),
        0 <= j <= i < items.len(),
    ensures
        convertible(m, items[i]),
    decreases i - j,
{
    if j < i {
        lemma_items_convertible(m, items, j + 1, i);
    }
}

proof fn lemma_entries_convertible(vs: Schema, entries: Seq<(ShapeValue, ShapeValue)>, j: int, i: int)
    requires
        entries_convertible(vs, entries, j),
        0 <= j <= i < entries.len(),
    ensures
        convertible(vs, entries[i].1),
    decreases i - j,
{
    if j < i {
        lemma_entries_convertible(vs, entries, j + 1, i);
    }
}

proof fn lemma_members_convertible(members: Seq<(SchemaRef, ShapeValue)>, j: int, i: int)
    requires
        members_convertible(members, j),
        0 <= j <= i < members.len(),
    ensures
        convertible(*members[i].0, members[i].1),
    decreases i - j,
{
    if j < i {
        lemma_members_convertible(members, j + 1, i);
    }
}

/// Writes `value` against `schema` as a document.
pub fn to_document(schema: &SchemaRef, value: &ShapeValue) -> (r: Result<Document, DocumentError>)
    requires
        convertible(**schema, *value),
    ensures
        converted(r, to_doc(**schema, *value)),
    decreases value, 1int,
{
    match value {
        ShapeValue::Boolean(b) => Ok(prelude_document(ShapeType::Boolean, DefaultDocumentValue::Boolean(*b))),
        ShapeValue::Byte(x) => Ok(
            prelude_document(ShapeType::Byte, DefaultDocumentValue::Number(NumberValue::from_i8(*x))),
        ),
        ShapeValue::Short(x) => Ok(
            prelude_document(ShapeType::Short, DefaultDocumentValue::Number(NumberValue::from_i16(*x))),
        ),
        ShapeValue::Integer(x) => Ok(
            prelude_document(ShapeType::Integer, DefaultDocumentValue::Number(NumberValue::from_i32(*x))),
        ),
        ShapeValue::Long(x) => Ok(
            prelude_document(ShapeType::Long, DefaultDocumentValue::Number(NumberValue::from_i64(*x))),
        ),
        ShapeValue::Float(bits, _) => Ok(
            prelude_document(
                ShapeType::Float,
                DefaultDocumentValue::Number(NumberValue::Float(NumberFloat::Float(*bits))),
            ),
        ),
        ShapeValue::Double(bits, _) => Ok(
            prelude_document(
                ShapeType::Double,
                DefaultDocumentValue::Number(NumberValue::Float(NumberFloat::Double(*bits))),
            ),
        ),
        ShapeValue::BigInteger(x) => Ok(
            prelude_document(
                ShapeType::BigInteger,
                DefaultDocumentValue::Number(NumberValue::from_big_int(*x)),
            ),
        ),
        ShapeValue::BigDecimal(d) => Ok(
            prelude_document(
                ShapeType::BigDecimal,
                DefaultDocumentValue::Number(NumberValue::from_big_decimal(*d)),
            ),
        ),
        ShapeValue::String(s) => Ok(
            prelude_document(ShapeType::String, DefaultDocumentValue::String(owned(s.as_str()))),
        ),
        ShapeValue::Blob(b) => Ok(prelude_document(ShapeType::Blob, DefaultDocumentValue::Blob(copy_bytes(b)))),
        ShapeValue::Timestamp(t) => Ok(
            prelude_document(ShapeType::Timestamp, DefaultDocumentValue::Timestamp(*t)),
        ),
        ShapeValue::Document(d) => Ok(d.copy()),
        ShapeValue::Null => Ok(prelude_document(ShapeType::Document, DefaultDocumentValue::Null)),
        ShapeValue::Skip => Ok(prelude_document(ShapeType::Document, DefaultDocumentValue::Null)),
        ShapeValue::Missing => Ok(prelude_document(ShapeType::Document, DefaultDocumentValue::Null)),
        ShapeValue::List(items) => list_document(schema, items),
        ShapeValue::MapValue(entries) => map_document(schema, entries),
        ShapeValue::Struct(members) => struct_document(schema, members),
    }
}

fn list_document(schema: &SchemaRef, items: &Vec<ShapeValue>) -> (r: Result<Document, DocumentError>)
    requires
        convertible(**schema, ShapeValue::List(*items)),
    ensures
        converted(r, to_doc(**schema, ShapeValue::List(*items))),
    decreases items, 0int,
{
    proof {
        reveal_strlit("member");
    }
    let member = schema.expect_member("member");
    let ghost m = schema_of(*member);
    let mut docs: Vec<Document> = Vec::new();
    let mut i: usize = 0;
    while i < items.len()
        invariant
            i <= items@.len(),
            m == schema_of(*member),
            (**schema).spec_get_member("member"@) == Some(*member),
            items_convertible(m, items@, 0),
            items_doc(m, items@, 0, seq![]) == items_doc(m, items@, i as int, docs_view(docs@)),
        decreases items@.len() - i,
    {
        proof {
            lemma_items_convertible(m, items@, 0, i as int);
        }
        match to_document(member, &items[i]) {
            Err(e) => {
                return Err(e);
            },
            Ok(d) => {
                proof {
                    lemma_docs_view_push(docs@, d);
                }
                docs.push(d);
            },
        }
        i = i + 1;
    }
    Ok(
        Document {
            schema: share(schema),
            value: DefaultDocumentValue::List(docs),
            discriminator: Some(schema.id().copy()),
        },
    )
}

fn map_document(schema: &SchemaRef, entries: &Vec<(ShapeValue, ShapeValue)>) -> (r: Result<
    Document,
    DocumentError,
>)
    requires
        convertible(**schema, ShapeValue::MapValue(*entries)),
    ensures
        converted(r, to_doc(**schema, ShapeValue::MapValue(*entries))),
    decreases entries, 0int,
{
    proof {
        reveal_strlit("key");
        reveal_strlit("value");
    }
    let key_schema = schema.expect_member("key");
    let value_schema = schema.expect_member("value");
    let ghost ks = schema_of(*key_schema);
    let ghost vs = schema_of(*value_schema);
    let mut out: Vec<(String, Document)> = Vec::new();
    let mut i: usize = 0;
    while i < entries.len()
        invariant
            i <= entries@.len(),
            ks == schema_of(*key_schema),
            vs == schema_of(*value_schema),
            (**schema).spec_get_member("key"@) == Some(*key_schema),
            (**schema).spec_get_member("value"@) == Some(*value_schema),
            entries_convertible(vs, entries@, 0),
            entries_doc(ks, vs, entries@, 0, seq![]) == entries_doc(
                ks,
                vs,
                entries@,
                i as int,
                entries_view(out@),
            ),
        decreases entries@.len() - i,
    {
        proof {
            lemma_entries_convertible(vs, entries@, 0, i as int);
        }
        let key = match key_to_text(key_schema, &entries[i].0) {
            Err(e) => {
                return Err(e);
            },
            Ok(k) => k,
        };
        match to_document(value_schema, &entries[i].1) {
            Err(e) => {
                return Err(e);
            },
            Ok(d) => {
                insert_doc(&mut out, key, d);
            },
        }
        i = i + 1;
    }
    Ok(
        Document {
            schema: share(schema),
            value: DefaultDocumentValue::MapValue(out),
            discriminator: Some(schema.id().copy()),
        },
    )
}

fn struct_document(schema: &SchemaRef, members: &Vec<(SchemaRef, ShapeValue)>) -> (r: Result<
    Document,
    DocumentError,
>)
    requires
        convertible(**schema, ShapeValue::Struct(*members)),
    ensures
        converted(r, to_doc(**schema, ShapeValue::Struct(*members))),
    decreases members, 0int,
{
    let mut out: Vec<(String, Document)> = Vec::new();
    let mut i: usize = 0;
    while i < members.len()
        invariant
            i <= members@.len(),
            members_convertible(members@, 0),
            members_doc(members@, 0, seq![]) == members_doc(members@, i as int, entries_view(out@)),
        decreases members@.len() - i,
    {
        proof {
            lemma_members_convertible(members@, 0, i as int);
        }
        let ms = &members[i].0;
        match ms.as_member() {
            None => {
                proof {
                    reveal_strlit("Expected member schema!");
                }
                return Err(DocumentError::DocumentConversion(owned("Expected member schema!")));
            },
            Some(m) => {
                let name = owned(m.name.as_str());
                match to_document(ms, &members[i].1) {
                    Err(e) => {
                        return Err(e);
                    },
                    Ok(d) => {
                        insert_doc(&mut out, name, d);
                    },
                }
            },
        }
        i = i + 1;
    }
    Ok(
        Document {
            schema: share(schema),
            value: DefaultDocumentValue::MapValue(out),
            discriminator: Some(schema.id().copy()),
        },
    )
}

} // verus!

verus! {

/// A shape value by the views of its parts.
pub enum ShapeView {
    Boolean(bool),
    Byte(i8),
    Short(i16),
    Integer(i32),
    Long(i64),
    Float(u32, Seq<char>),
    Double(u64, Seq<char>),
    BigInteger(i128),
    BigDecimal(Decimal),
    String(Seq<char>),
    Blob(Seq<u8>),
    Timestamp(Timestamp),
    Document(DocView),
    List(Seq<ShapeView>),
    MapValue(Seq<(ShapeView, ShapeView)>),
    Struct(Seq<(SchemaRef, ShapeView)>),
    Null,
    Missing,
    Skip,
}

/// The view of a shape value.
pub open spec fn shape_view(v: ShapeValue) -> ShapeView
    decreases v, 1int,
{
    match v {
        ShapeValue::Boolean(b) => ShapeView::Boolean(b),
        ShapeValue::Byte(x) => ShapeView::Byte(x),
        ShapeValue::Short(x) => ShapeView::Short(x),
        ShapeValue::Integer(x) => ShapeView::Integer(x),
        ShapeValue::Long(x) => ShapeView::Long(x),
        ShapeValue::Float(b, t) => ShapeView::Float(b, t@),
        ShapeValue::Double(b, t) => ShapeView::Double(b, t@),
        ShapeValue::BigInteger(x) => ShapeView::BigInteger(x),
        ShapeValue::BigDecimal(x) => ShapeView::BigDecimal(x),
        ShapeValue::String(s) => ShapeView::String(s@),
        ShapeValue::Blob(b) => ShapeView::Blob(b@),
        ShapeValue::Timestamp(t) => ShapeView::Timestamp(t),
        ShapeValue::Document(d) => ShapeView::Document(doc_view(d)),
        ShapeValue::List(items) => ShapeView::List(items_view(items@)),
        ShapeValue::MapValue(entries) => ShapeView::MapValue(pairs_view(entries@)),
        ShapeValue::Struct(members) => ShapeView::Struct(members_view(members@)),
        ShapeValue::Null => ShapeView::Null,
        ShapeValue::Missing => ShapeView::Missing,
        ShapeValue::Skip => ShapeView::Skip,
    }
}

/// The views of a sequence of values.
pub open spec fn items_view(s: Seq<ShapeValue>) -> Seq<ShapeView>
    decreases s, 0int,
{
    if s.len() == 0 {
        seq![]
    } else {
        items_view(s.drop_last()).push(shape_view(s.last()))
    }
}

/// The views of a sequence of map entries.
pub open spec fn pairs_view(s: Seq<(ShapeValue, ShapeValue)>) -> Seq<(ShapeView, ShapeView)>
    decreases s, 0int,
{
    if s.len() == 0 {
        seq![]
    } else {
        pairs_view(s.drop_last()).push((shape_view(s.last().0), shape_view(s.last().1)))
    }
}

/// The views of a sequence of structure members.
pub open spec fn members_view(s: Seq<(SchemaRef, ShapeValue)>) -> Seq<(SchemaRef, ShapeView)>
    decreases s, 0int,
{
    if s.len() == 0 {
        seq![]
    } else {
        members_view(s.drop_last()).push((s.last().0, shape_view(s.last().1)))
    }
}

/// Why a document cannot be read against a schema.
pub enum ReadFailure {
    /// The document does not hold what the schema asks for; the message names it.
    Expected(Seq<char>),
    /// The schema is of a type that holds no value.
    Unsupported,
}

/// The error reported for a read failure.
pub open spec fn read_error(e: DocumentError, f: ReadFailure) -> bool {
    match f {
        ReadFailure::Expected(m) => e matches DocumentError::DocumentConversion(s) && s@ == m,
        ReadFailure::Unsupported => e matches DocumentError::CustomError(s) && s@
            == "Unsupported shape type"@,
    }
}

/// The integer a document value holds, when it holds an integer number in `[lo, hi]`.
pub open spec fn view_integer_in(v: ValueView, lo: int, hi: int) -> Option<int> {
    match v {
        ValueView::Number(NumberValue::Integer(n)) => if lo <= integer_value(n) <= hi {
            Some(integer_value(n))
        } else {
            None
        },
        _ => None,
    }
}

/// Whether reading `d` against `schema` never asks for a `float` or `double`, and every
/// map is read against a schema that holds its `value` member.
pub open spec fn readable(schema: Schema, d: DocView) -> bool
    decreases d, 1int, 0int,
{
    if d.value is Null {
        true
    } else {
        match schema.spec_shape_type() {
            ShapeType::Float | ShapeType::Double => false,
            ShapeType::List => match (d.value, schema.spec_get_member("member"@)) {
                (ValueView::List(ds), Some(m)) => docs_readable(*m, ds, 0),
                _ => true,
            },
            ShapeType::MapType => match d.value {
                ValueView::Entries(es) => schema.spec_get_member("value"@) is Some
                    && values_readable(*schema.spec_get_member("value"@).unwrap(), es, 0),
                _ => true,
            },
            ShapeType::Structure | ShapeType::Union => match d.value {
                ValueView::Entries(es) => fields_readable(schema, es, 0),
                _ => true,
            },
            _ => true,
        }
    }
}

/// The documents from position `i` on can be read against `member`.
pub open spec fn docs_readable(member: Schema, ds: Seq<DocView>, i: int) -> bool
    decreases ds, 0int, ds.len() - i,
{
    0 <= i < ds.len() ==> readable(member, ds[i]) && docs_readable(member, ds, i + 1)
}

/// The entry values from position `i` on can be read against `value_schema`.
pub open spec fn values_readable(value_schema: Schema, es: Seq<(Seq<char>, DocView)>, i: int) -> bool
    decreases es, 0int, es.len() - i,
{
    0 <= i < es.len() ==> readable(value_schema, es[i].1) && values_readable(value_schema, es, i + 1)
}

/// The entries from position `i` on that name a member of `schema` can be read against
/// that member.
pub open spec fn fields_readable(schema: Schema, es: Seq<(Seq<char>, DocView)>, i: int) -> bool
    decreases es, 0int, es.len() - i,
{
    0 <= i < es.len() ==> (match schema.spec_get_member(es[i].0) {
        Some(m) => readable(*m, es[i].1),
        None => true,
    }) && fields_readable(schema, es, i + 1)
}

/// The value read from `d` against `schema`, or why none can be read: null reads as
/// null; a scalar schema asks for a value of its type (an integer that fits, for the
/// integer types); a list reads its elements against its `member`, a map its values
/// against its `value`, with the keys as strings; a structure or union reads, in order,
/// the entries that name one of its members and leaves the others out; a document
/// schema reads the document itself.
pub open spec fn from_doc(schema: Schema, d: DocView) -> Result<ShapeView, ReadFailure>
    decreases d, 1int, 0int,
{
    if d.value is Null {
        Ok(ShapeView::Null)
    } else {
        match schema.spec_shape_type() {
            ShapeType::Boolean => match d.value {
                ValueView::Boolean(b) => Ok(ShapeView::Boolean(b)),
                _ => Err(ReadFailure::Expected("Expected boolean document"@)),
            },
            ShapeType::Byte => match view_integer_in(d.value, i8::MIN as int, i8::MAX as int) {
                Some(x) => Ok(ShapeView::Byte(x as i8)),
                None => Err(ReadFailure::Expected("Expected byte document"@)),
            },
            ShapeType::Short => match view_integer_in(d.value, i16::MIN as int, i16::MAX as int) {
                Some(x) => Ok(ShapeView::Short(x as i16)),
                None => Err(ReadFailure::Expected("Expected short document"@)),
            },
            ShapeType::Integer | ShapeType::IntEnum => match view_integer_in(
                d.value,
                i32::MIN as int,
                i32::MAX as int,
            ) {
                Some(x) => Ok(ShapeView::Integer(x as i32)),
                None => Err(ReadFailure::Expected("Expected integer document"@)),
            },
            ShapeType::Long => match view_integer_in(d.value, i64::MIN as int, i64::MAX as int) {
                Some(x) => Ok(ShapeView::Long(x as i64)),
                None => Err(ReadFailure::Expected("Expected long document"@)),
            },
            ShapeType::BigInteger => match view_integer_in(
                d.value,
                i128::MIN as int,
                i128::MAX as int,
            ) {
                Some(x) => Ok(ShapeView::BigInteger(x as i128)),
                None => Err(ReadFailure::Expected("Expected bigInteger document"@)),
            },
            ShapeType::BigDecimal => match d.value {
                ValueView::Number(NumberValue::Float(NumberFloat::BigDecimal(x))) => Ok(
                    ShapeView::BigDecimal(x),
                ),
                _ => Err(ReadFailure::Expected("Expected bigInteger document"@)),
            },
            ShapeType::String | ShapeType::Enum => match d.value {
                ValueView::String(s) => Ok(ShapeView::String(s)),
                _ => Err(ReadFailure::Expected("Expected string document"@)),
            },
            ShapeType::Blob => match d.value {
                ValueView::Blob(b) => Ok(ShapeView::Blob(b)),
                _ => Err(ReadFailure::Expected("Expected blob document"@)),
            },
            ShapeType::Timestamp => match d.value {
                ValueView::Timestamp(t) => Ok(ShapeView::Timestamp(t)),
                _ => Err(ReadFailure::Expected("Expected timestamp document"@)),
            },
            ShapeType::Document => Ok(ShapeView::Document(d)),
            ShapeType::List => match d.value {
                ValueView::List(ds) => match schema.spec_get_member("member"@) {
                    Some(m) => match read_docs(*m, ds, 0, seq![]) {
                        Ok(vs) => Ok(ShapeView::List(vs)),
                        Err(e) => Err(e),
                    },
                    None => Err(ReadFailure::Expected("List missing member schema"@)),
                },
                _ => Err(ReadFailure::Expected("Expected list document"@)),
            },
            ShapeType::MapType => match d.value {
                ValueView::Entries(es) => match read_values(
                    *schema.spec_get_member("value"@).unwrap(),
                    es,
                    0,
                    seq![],
                ) {
                    Ok(ps) => Ok(ShapeView::MapValue(ps)),
                    Err(e) => Err(e),
                },
                _ => Err(ReadFailure::Expected("Expected map document"@)),
            },
            ShapeType::Structure | ShapeType::Union => match d.value {
                ValueView::Entries(es) => match read_fields(schema, es, 0, seq![]) {
                    Ok(ms) => Ok(ShapeView::Struct(ms)),
                    Err(e) => Err(e),
                },
                _ => Err(ReadFailure::Expected("Expected map document"@)),
            },
            _ => Err(ReadFailure::Unsupported),
        }
    }
}

/// The values read from the documents from position `i` on, after those in `acc`.
pub open spec fn read_docs(member: Schema, ds: Seq<DocView>, i: int, acc: Seq<ShapeView>) -> Result<
    Seq<ShapeView>,
    ReadFailure,
>
    decreases ds, 0int, ds.len() - i,
{
    if 0 <= i < ds.len() {
        match from_doc(member, ds[i]) {
            Ok(v) => read_docs(member, ds, i + 1, acc.push(v)),
            Err(e) => Err(e),
        }
    } else {
        Ok(acc)
    }
}

/// The entries read from position `i` on, after those in `acc`: the key as a string,
/// the value read against `value_schema`.
pub open spec fn read_values(
    value_schema: Schema,
    es: Seq<(Seq<char>, DocView)>,
    i: int,
    acc: Seq<(ShapeView, ShapeView)>,
) -> Result<Seq<(ShapeView, ShapeView)>, ReadFailure>
    decreases es, 0int, es.len() - i,
{
    if 0 <= i < es.len() {
        match from_doc(value_schema, es[i].1) {
            Ok(v) => read_values(value_schema, es, i + 1, acc.push((ShapeView::String(es[i].0), v))),
            Err(e) => Err(e),
        }
    } else {
        Ok(acc)
    }
}

/// The members read from the entries from position `i` on, after those in `acc`: an
/// entry that names a member of `schema` is read against it, the others are left out.
pub open spec fn read_fields(
    schema: Schema,
    es: Seq<(Seq<char>, DocView)>,
    i: int,
    acc: Seq<(SchemaRef, ShapeView)>,
) -> Result<Seq<(SchemaRef, ShapeView)>, ReadFailure>
    decreases es, 0int, es.len() - i,
{
    if 0 <= i < es.len() {
        match schema.spec_get_member(es[i].0) {
            Some(m) => match from_doc(*m, es[i].1) {
                Ok(v) => read_fields(schema, es, i + 1, acc.push((m, v))),
                Err(e) => Err(e),
            },
            None => read_fields(schema, es, i + 1, acc),
        }
    } else {
        Ok(acc)
    }
}

} // verus!

verus! {

/// `r` is the outcome that the specification `spec` describes.
pub open spec fn read_matches(r: Result<ShapeValue, DocumentError>, spec: Result<ShapeView, ReadFailure>) -> bool {
    match spec {
        Ok(v) => r matches Ok(x) && shape_view(x) == v,
        Err(f) => r matches Err(e) && read_error(e, f),
    }
}

fn expected(msg: &str) -> (e: DocumentError)
    ensures
        read_error(e, ReadFailure::Expected(msg@)),
{
    DocumentError::DocumentConversion(owned(msg))
}

proof fn lemma_items_view_push(s: Seq<ShapeValue>, v: ShapeValue)
    ensures
        items_view(s.push(v)) == items_view(s).push(shape_view(v)),
{
    assert(s.push(v).drop_last() =~= s);
}

proof fn lemma_pairs_view_push(s: Seq<(ShapeValue, ShapeValue)>, e: (ShapeValue, ShapeValue))
    ensures
        pairs_view(s.push(e)) == pairs_view(s).push((shape_view(e.0), shape_view(e.1))),
{
    assert(s.push(e).drop_last() =~= s);
}

proof fn lemma_members_view_push(s: Seq<(SchemaRef, ShapeValue)>, e: (SchemaRef, ShapeValue))
    ensures
        members_view(s.push(e)) == members_view(s).push((e.0, shape_view(e.1))),
{
    assert(s.push(e).drop_last() =~= s);
}

proof fn lemma_docs_readable(m: Schema, ds: Seq<DocView>, j: int, i: int)
    requires
        docs_readable(m, ds, j),
        0 <= j <= i < ds.len(),
    ensures
        readable(m, ds[i]),
    decreases i - j,
{
    if j < i {
        lemma_docs_readable(m, ds, j + 1, i);
    }
}

proof fn lemma_values_readable(vs: Schema, es: Seq<(Seq<char>, DocView)>, j: int, i: int)
    requires
        values_readable(vs, es, j),
        0 <= j <= i < es.len(),
    ensures
        readable(vs, es[i].1),
    decreases i - j,
{
    if j < i {
        lemma_values_readable(vs, es, j + 1, i);
    }
}

proof fn lemma_fields_readable(schema: Schema, es: Seq<(Seq<char>, DocView)>, j: int, i: int)
    requires
        fields_readable(schema, es, j),
        0 <= j <= i < es.len(),
    ensures
        match schema.spec_get_member(es[i].0) {
            Some(m) => readable(*m, es[i].1),
            None => true,
        },
    decreases i - j,
{
    if j < i {
        lemma_fields_readable(schema, es, j + 1, i);
    }
}

/// Reads `doc` against `schema` as a shape value.
pub fn from_document(schema: &SchemaRef, doc: &Document) -> (r: Result<ShapeValue, DocumentError>)
    requires
        readable(**schema, doc_view(*doc)),
    ensures
        read_matches(r, from_doc(**schema, doc_view(*doc))),
    decreases doc, 1int,
{
    proof {
        reveal_strlit("Expected boolean document");
        reveal_strlit("Expected byte document");
        reveal_strlit("Expected short document");
        reveal_strlit("Expected integer document");
        reveal_strlit("Expected long document");
        reveal_strlit("Expected bigInteger document");
        reveal_strlit("Expected string document");
        reveal_strlit("Expected blob document");
        reveal_strlit("Expected timestamp document");
        reveal_strlit("Expected list document");
        reveal_strlit("Expected map document");
        reveal_strlit("Unsupported shape type");
    }
    let v = &doc.value;
    if v.is_null() {
        return Ok(ShapeValue::Null);
    }
    match schema.shape_type() {
        ShapeType::Boolean => match v.as_bool() {
            Some(b) => Ok(ShapeValue::Boolean(b)),
            None => Err(expected("Expected boolean document")),
        },
        ShapeType::Byte => match v.as_byte() {
            Some(x) => Ok(ShapeValue::Byte(x)),
            None => Err(expected("Expected byte document")),
        },
        ShapeType::Short => match v.as_short() {
            Some(x) => Ok(ShapeValue::Short(x)),
            None => Err(expected("Expected short document")),
        },
        ShapeType::Integer | ShapeType::IntEnum => match v.as_integer() {
            Some(x) => Ok(ShapeValue::Integer(x)),
            None => Err(expected("Expected integer document")),
        },
        ShapeType::Long => match v.as_long() {
            Some(x) => Ok(ShapeValue::Long(x)),
            None => Err(expected("Expected long document")),
        },
        ShapeType::BigInteger => match v.as_big_integer() {
            Some(x) => Ok(ShapeValue::BigInteger(x)),
            None => Err(expected("Expected bigInteger document")),
        },
        ShapeType::BigDecimal => match v.as_big_decimal() {
            Some(x) => Ok(ShapeValue::BigDecimal(x)),
            None => Err(expected("Expected bigInteger document")),
        },
        ShapeType::String | ShapeType::Enum => match v.as_string() {
            Some(s) => Ok(ShapeValue::String(owned(s))),
            None => Err(expected("Expected string document")),
        },
        ShapeType::Blob => match v.as_blob() {
            Some(b) => Ok(ShapeValue::Blob(copy_bytes(b))),
            None => Err(expected("Expected blob document")),
        },
        ShapeType::Timestamp => match v.as_timestamp() {
            Some(t) => Ok(ShapeValue::Timestamp(t)),
            None => Err(expected("Expected timestamp document")),
        },
        ShapeType::Document => Ok(ShapeValue::Document(doc.copy())),
        ShapeType::List => match v {
            DefaultDocumentValue::List(docs) => read_list(schema, docs),
            _ => Err(expected("Expected list document")),
        },
        ShapeType::MapType => match v {
            DefaultDocumentValue::MapValue(es) => read_map(schema, es),
            _ => Err(expected("Expected map document")),
        },
        ShapeType::Structure | ShapeType::Union => match v {
            DefaultDocumentValue::MapValue(es) => read_struct(schema, es),
            _ => Err(expected("Expected map document")),
        },
        _ => Err(DocumentError::CustomError(owned("Unsupported shape type"))),
    }
}

fn read_list(schema: &SchemaRef, docs: &Vec<Document>) -> (r: Result<ShapeValue, DocumentError>)
    requires
        (**schema).spec_shape_type() == ShapeType::List,
        (**schema).spec_get_member("member"@) matches Some(m) ==> docs_readable(*m, docs_view(docs@), 0),
    ensures
        read_matches(
            r,
            match (**schema).spec_get_member("member"@) {
                Some(m) => match read_docs(*m, docs_view(docs@), 0, seq![]) {
                    Ok(vs) => Ok(ShapeView::List(vs)),
                    Err(e) => Err(e),
                },
                None => Err(ReadFailure::Expected("List missing member schema"@)),
            },
        ),
    decreases docs, 0int,
{
    proof {
        reveal_strlit("member");
        reveal_strlit("List missing member schema");
    }
    let member = match schema.get_member("member") {
        Some(m) => m,
        None => {
            return Err(expected("List missing member schema"));
        },
    };
    let ghost m = *member;
    let ghost dsv = docs_view(docs@);
    proof {
        lemma_docs_view(docs@);
    }
    let mut out: Vec<ShapeValue> = Vec::new();
    let mut i: usize = 0;
    while i < docs.len()
        invariant
            i <= docs@.len(),
            m == *member,
            (**schema).spec_get_member("member"@) == Some(m),
            dsv == docs_view(docs@),
            dsv.len() == docs@.len(),
            forall|j: int| 0 <= j < docs@.len() ==> #[trigger] dsv[j] == doc_view(docs@[j]),
            docs_readable(*m, dsv, 0),
            read_docs(*m, dsv, 0, seq![]) == read_docs(*m, dsv, i as int, items_view(out@)),
        decreases docs@.len() - i,
    {
        proof {
            lemma_docs_readable(schema_of(m), dsv, 0, i as int);
            assert(dsv[i as int] == doc_view(docs@[i as int]));
        }
        match from_document(member, &docs[i]) {
            Err(e) => {
                return Err(e);
            },
            Ok(x) => {
                proof {
                    lemma_items_view_push(out@, x);
                }
                out.push(x);
            },
        }
        i = i + 1;
    }
    Ok(ShapeValue::List(out))
}

fn read_map(schema: &SchemaRef, es: &Vec<(String, Document)>) -> (r: Result<ShapeValue, DocumentError>)
    requires
        (**schema).spec_get_member("value"@) is Some,
        values_readable(*(**schema).spec_get_member("value"@).unwrap(), entries_view(es@), 0),
    ensures
        read_matches(
            r,
            match read_values(*(**schema).spec_get_member("value"@).unwrap(), entries_view(es@), 0, seq![]) {
                Ok(ps) => Ok(ShapeView::MapValue(ps)),
                Err(e) => Err(e),
            },
        ),
    decreases es, 0int,
{
    proof {
        reveal_strlit("value");
    }
    let value_schema = schema.expect_member("value");
    let ghost vs = *value_schema;
    let ghost esv = entries_view(es@);
    proof {
        lemma_entries_view(es@);
    }
    let mut out: Vec<(ShapeValue, ShapeValue)> = Vec::new();
    let mut i: usize = 0;
    while i < es.len()
        invariant
            i <= es@.len(),
            vs == *value_schema,
            (**schema).spec_get_member("value"@) == Some(vs),
            esv == entries_view(es@),
            esv.len() == es@.len(),
            forall|j: int| 0 <= j < es@.len() ==> #[trigger] esv[j] == (es@[j].0@, doc_view(es@[j].1)),
            values_readable(*vs, esv, 0),
            read_values(*vs, esv, 0, seq![]) == read_values(*vs, esv, i as int, pairs_view(out@)),
        decreases es@.len() - i,
    {
        proof {
            lemma_values_readable(schema_of(vs), esv, 0, i as int);
            assert(esv[i as int] == (es@[i as int].0@, doc_view(es@[i as int].1)));
        }
        match from_document(value_schema, &es[i].1) {
            Err(e) => {
                return Err(e);
            },
            Ok(x) => {
                let entry = (ShapeValue::String(owned(es[i].0.as_str())), x);
                proof {
                    lemma_pairs_view_push(out@, entry);
                }
                out.push(entry);
            },
        }
        i = i + 1;
    }
    Ok(ShapeValue::MapValue(out))
}

fn read_struct(schema: &SchemaRef, es: &Vec<(String, Document)>) -> (r: Result<ShapeValue, DocumentError>)
    requires
        fields_readable(**schema, entries_view(es@), 0),
    ensures
        read_matches(
            r,
            match read_fields(**schema, entries_view(es@), 0, seq![]) {
                Ok(ms) => Ok(ShapeView::Struct(ms)),
                Err(e) => Err(e),
            },
        ),
    decreases es, 0int,
{
    let ghost esv = entries_view(es@);
    proof {
        lemma_entries_view(es@);
    }
    let mut out: Vec<(SchemaRef, ShapeValue)> = Vec::new();
    let mut i: usize = 0;
    while i < es.len()
        invariant
            i <= es@.len(),
            esv == entries_view(es@),
            esv.len() == es@.len(),
            forall|j: int| 0 <= j < es@.len() ==> #[trigger] esv[j] == (es@[j].0@, doc_view(es@[j].1)),
            fields_readable(**schema, esv, 0),
            read_fields(**schema, esv, 0, seq![]) == read_fields(**schema, esv, i as int, members_view(out@)),
        decreases es@.len() - i,
    {
        proof {
            lemma_fields_readable(schema_of(*schema), esv, 0, i as int);
            assert(esv[i as int] == (es@[i as int].0@, doc_view(es@[i as int].1)));
        }
        match schema.get_member(es[i].0.as_str()) {
            None => {},
            Some(member) => {
                match from_document(member, &es[i].1) {
                    Err(e) => {
                        return Err(e);
                    },
                    Ok(x) => {
                        let entry = (share(member), x);
                        proof {
                            lemma_members_view_push(out@, entry);
                        }
                        out.push(entry);
                    },
                }
            },
        }
        i = i + 1;
    }
    Ok(ShapeValue::Struct(out))
}

} // verus!

verus! {

/// The text of a string value; empty for other values.
pub open spec fn string_text(v: ShapeValue) -> Seq<char> {
    match v {
        ShapeValue::String(s) => s@,
        _ => seq![],
    }
}

/// Whether `v`, written as a document against `schema`, reads back as itself: every
/// scalar is written against a schema of its own type (an integer also against an
/// `intEnum`, a string also against an `enum`) and is neither a `float` nor a `double`;
/// a document is written against a document schema and is not null; a list against a
/// list schema; a map against a map schema, with string keys that are all different; a
/// structure against a structure or union schema whose members its member schemas are,
/// under names that are all different; and no value is skipped or missing.
pub open spec fn roundtrips(schema: Schema, v: ShapeValue) -> bool
    decreases v, 1int, 0int,
{
    let t = schema.spec_shape_type();
    match v {
        ShapeValue::Boolean(_) => t == ShapeType::Boolean,
        ShapeValue::Byte(_) => t == ShapeType::Byte,
        ShapeValue::Short(_) => t == ShapeType::Short,
        ShapeValue::Integer(_) => t == ShapeType::Integer || t == ShapeType::IntEnum,
        ShapeValue::Long(_) => t == ShapeType::Long,
        ShapeValue::BigInteger(_) => t == ShapeType::BigInteger,
        ShapeValue::BigDecimal(_) => t == ShapeType::BigDecimal,
        ShapeValue::String(_) => t == ShapeType::String || t == ShapeType::Enum,
        ShapeValue::Blob(_) => t == ShapeType::Blob,
        ShapeValue::Timestamp(_) => t == ShapeType::Timestamp,
        ShapeValue::Document(d) => t == ShapeType::Document && !(d.value is Null),
        ShapeValue::Null => true,
        ShapeValue::List(items) => t == ShapeType::List && schema.spec_get_member("member"@) is Some
            && items_roundtrip(schema_of(schema.spec_get_member("member"@).unwrap()), items@, 0),
        ShapeValue::MapValue(entries) => t == ShapeType::MapType && schema.spec_get_member(
            "key"@,
        ) is Some && schema.spec_get_member("value"@) is Some && distinct_keys(entries@)
            && entries_roundtrip(schema_of(schema.spec_get_member("value"@).unwrap()), entries@, 0),
        ShapeValue::Struct(members) => (t == ShapeType::Structure || t == ShapeType::Union)
            && distinct_names(members@) && fields_roundtrip(schema, members@, 0),
        _ => false,
    }
}

/// The elements from position `i` on read back as themselves against `member`.
pub open spec fn items_roundtrip(member: Schema, items: Seq<ShapeValue>, i: int) -> bool
    decreases items, 0int, items.len() - i,
{
    0 <= i < items.len() ==> roundtrips(member, items[i]) && items_roundtrip(member, items, i + 1)
}

/// The entries from position `i` on have string keys and values that read back as
/// themselves against `value_schema`.
pub open spec fn entries_roundtrip(
    value_schema: Schema,
    entries: Seq<(ShapeValue, ShapeValue)>,
    i: int,
) -> bool
    decreases entries, 0int, entries.len() - i,
{
    0 <= i < entries.len() ==> entries[i].0 is String && roundtrips(value_schema, entries[i].1)
        && entries_roundtrip(value_schema, entries, i + 1)
}

/// The members from position `i` on are written with member schemas of `schema`, found
/// in it under their names, and read back as themselves against them.
pub open spec fn fields_roundtrip(schema: Schema, members: Seq<(SchemaRef, ShapeValue)>, i: int) -> bool
    decreases members, 0int, members.len() - i,
{
    0 <= i < members.len() ==> (*members[i].0 is Member && schema.spec_get_member(
        crate::fmt::member_name(*members[i].0),
    ) == Some(members[i].0)) && roundtrips(*members[i].0, members[i].1) && fields_roundtrip(
        schema,
        members,
        i + 1,
    )
}

/// The keys of the entries are all different.
pub open spec fn distinct_keys(entries: Seq<(ShapeValue, ShapeValue)>) -> bool {
    forall|i: int, j: int|
        0 <= i < j < entries.len() ==> string_text(#[trigger] entries[i].0) != string_text(
            #[trigger] entries[j].0,
        )
}

/// The member names are all different.
pub open spec fn distinct_names(members: Seq<(SchemaRef, ShapeValue)>) -> bool {
    forall|i: int, j: int|
        0 <= i < j < members.len() ==> crate::fmt::member_name(*#[trigger] members[i].0)
            != crate::fmt::member_name(*#[trigger] members[j].0)
}

/// The document of a conversion that succeeded.
pub open spec fn ok_doc(r: Result<DocView, ConversionFailure>) -> DocView {
    match r {
        Ok(d) => d,
        Err(_) => arbitrary(),
    }
}

proof fn lemma_items_view(s: Seq<ShapeValue>)
    ensures
        items_view(s).len() == s.len(),
        forall|j: int| 0 <= j < s.len() ==> #[trigger] items_view(s)[j] == shape_view(s[j]),
    decreases s.len(),
{
    if s.len() > 0 {
        lemma_items_view(s.drop_last());
    }
}

proof fn lemma_pairs_view(s: Seq<(ShapeValue, ShapeValue)>)
    ensures
        pairs_view(s).len() == s.len(),
        forall|j: int|
            0 <= j < s.len() ==> #[trigger] pairs_view(s)[j] == (shape_view(s[j].0), shape_view(s[j].1)),
    decreases s.len(),
{
    if s.len() > 0 {
        lemma_pairs_view(s.drop_last());
    }
}

proof fn lemma_members_view(s: Seq<(SchemaRef, ShapeValue)>)
    ensures
        members_view(s).len() == s.len(),
        forall|j: int| 0 <= j < s.len() ==> #[trigger] members_view(s)[j] == (s[j].0, shape_view(s[j].1)),
    decreases s.len(),
{
    if s.len() > 0 {
        lemma_members_view(s.drop_last());
    }
}

proof fn lemma_items_roundtrip_at(m: Schema, items: Seq<ShapeValue>, j: int, i: int)
    requires
        items_roundtrip(m, items, j),
        0 <= j <= i < items.len(),
    ensures
        roundtrips(m, items[i]),
    decreases i - j,
{
    if j < i {
        lemma_items_roundtrip_at(m, items, j + 1, i);
    }
}

proof fn lemma_entries_roundtrip_at(vs: Schema, entries: Seq<(ShapeValue, ShapeValue)>, j: int, i: int)
    requires
        entries_roundtrip(vs, entries, j),
        0 <= j <= i < entries.len(),
    ensures
        entries[i].0 is String,
        roundtrips(vs, entries[i].1),
    decreases i - j,
{
    if j < i {
        lemma_entries_roundtrip_at(vs, entries, j + 1, i);
    }
}

proof fn lemma_fields_roundtrip_at(schema: Schema, members: Seq<(SchemaRef, ShapeValue)>, j: int, i: int)
    requires
        fields_roundtrip(schema, members, j),
        0 <= j <= i < members.len(),
    ensures
        *members[i].0 is Member,
        schema.spec_get_member(crate::fmt::member_name(*members[i].0)) == Some(members[i].0),
        roundtrips(*members[i].0, members[i].1),
    decreases i - j,
{
    if j < i {
        lemma_fields_roundtrip_at(schema, members, j + 1, i);
    }
}

proof fn lemma_items_convertible_all(m: Schema, items: Seq<ShapeValue>, i: int)
    requires
        0 <= i <= items.len(),
        forall|j: int| i <= j < items.len() ==> convertible(m, #[trigger] items[j]),
    ensures
        items_convertible(m, items, i),
    decreases items.len() - i,
{
    if i < items.len() {
        lemma_items_convertible_all(m, items, i + 1);
    }
}

proof fn lemma_entries_convertible_all(vs: Schema, entries: Seq<(ShapeValue, ShapeValue)>, i: int)
    requires
        0 <= i <= entries.len(),
        forall|j: int| i <= j < entries.len() ==> convertible(vs, #[trigger] entries[j].1),
    ensures
        entries_convertible(vs, entries, i),
    decreases entries.len() - i,
{
    if i < entries.len() {
        lemma_entries_convertible_all(vs, entries, i + 1);
    }
}

proof fn lemma_members_convertible_all(members: Seq<(SchemaRef, ShapeValue)>, i: int)
    requires
        0 <= i <= members.len(),
        forall|j: int| i <= j < members.len() ==> convertible(*#[trigger] members[j].0, members[j].1),
    ensures
        members_convertible(members, i),
    decreases members.len() - i,
{
    if i < members.len() {
        lemma_members_convertible_all(members, i + 1);
    }
}

proof fn lemma_docs_readable_all(m: Schema, ds: Seq<DocView>, i: int)
    requires
        0 <= i <= ds.len(),
        forall|j: int| i <= j < ds.len() ==> readable(m, #[trigger] ds[j]),
    ensures
        docs_readable(m, ds, i),
    decreases ds.len() - i,
{
    if i < ds.len() {
        lemma_docs_readable_all(m, ds, i + 1);
    }
}

proof fn lemma_values_readable_all(vs: Schema, es: Seq<(Seq<char>, DocView)>, i: int)
    requires
        0 <= i <= es.len(),
        forall|j: int| i <= j < es.len() ==> readable(vs, #[trigger] es[j].1),
    ensures
        values_readable(vs, es, i),
    decreases es.len() - i,
{
    if i < es.len() {
        lemma_values_readable_all(vs, es, i + 1);
    }
}

proof fn lemma_fields_readable_all(schema: Schema, es: Seq<(Seq<char>, DocView)>, i: int)
    requires
        0 <= i <= es.len(),
        forall|j: int|
            i <= j < es.len() ==> match schema.spec_get_member(#[trigger] es[j].0) {
                Some(m) => readable(*m, es[j].1),
                None => true,
            },
    ensures
        fields_readable(schema, es, i),
    decreases es.len() - i,
{
    if i < es.len() {
        lemma_fields_readable_all(schema, es, i + 1);
    }
}

} // verus!

verus! {

proof fn lemma_items_doc_ok(m: Schema, items: Seq<ShapeValue>, ds: Seq<DocView>, i: int)
    requires
        ds.len() == items.len(),
        0 <= i <= items.len(),
        forall|j: int| i <= j < items.len() ==> to_doc(m, #[trigger] items[j]) == Ok::<DocView, ConversionFailure>(ds[j]),
    ensures
        items_doc(m, items, i, ds.take(i)) == Ok::<Seq<DocView>, ConversionFailure>(ds),
    decreases items.len() - i,
{
    if i < items.len() {
        assert(to_doc(m, items[i]) == Ok::<DocView, ConversionFailure>(ds[i]));
        assert(ds.take(i).push(ds[i]) =~= ds.take(i + 1));
        lemma_items_doc_ok(m, items, ds, i + 1);
    } else {
        assert(ds.take(i) =~= ds);
    }
}

proof fn lemma_read_docs_ok(m: Schema, ds: Seq<DocView>, vs: Seq<ShapeView>, i: int)
    requires
        ds.len() == vs.len(),
        0 <= i <= ds.len(),
        forall|j: int| i <= j < ds.len() ==> from_doc(m, #[trigger] ds[j]) == Ok::<ShapeView, ReadFailure>(vs[j]),
    ensures
        read_docs(m, ds, i, vs.take(i)) == Ok::<Seq<ShapeView>, ReadFailure>(vs),
    decreases ds.len() - i,
{
    if i < ds.len() {
        assert(from_doc(m, ds[i]) == Ok::<ShapeView, ReadFailure>(vs[i]));
        assert(vs.take(i).push(vs[i]) =~= vs.take(i + 1));
        lemma_read_docs_ok(m, ds, vs, i + 1);
    } else {
        assert(vs.take(i) =~= vs);
    }
}

proof fn lemma_entries_doc_ok(
    ks: Schema,
    vs: Schema,
    entries: Seq<(ShapeValue, ShapeValue)>,
    es: Seq<(Seq<char>, DocView)>,
    i: int,
)
    requires
        es.len() == entries.len(),
        0 <= i <= entries.len(),
        forall|j: int|
            i <= j < entries.len() ==> (#[trigger] entries[j]).0 is String && es[j].0 == string_text(entries[j].0)
                && to_doc(vs, entries[j].1) == Ok::<DocView, ConversionFailure>(es[j].1),
        forall|a: int, b: int| 0 <= a < b < es.len() ==> (#[trigger] es[a]).0 != (#[trigger] es[b]).0,
    ensures
        entries_doc(ks, vs, entries, i, es.take(i)) == Ok::<Seq<(Seq<char>, DocView)>, ConversionFailure>(es),
    decreases entries.len() - i,
{
    if i < entries.len() {
        let e = entries[i];
        assert(e.0 is String && es[i].0 == string_text(e.0));
        assert(map_key(ks, e.0) == Ok::<Seq<char>, ConversionFailure>(es[i].0));
        let acc = es.take(i);
        lemma_key_position(acc, es[i].0);
        if key_position(acc, es[i].0) >= 0 {
            let p = key_position(acc, es[i].0);
            assert(acc[p] == es[p]);
            assert(es[p].0 != es[i].0);
        }
        assert(insert_entry(acc, es[i].0, es[i].1) == acc.push((es[i].0, es[i].1)));
        assert(acc.push((es[i].0, es[i].1)) =~= es.take(i + 1));
        lemma_entries_doc_ok(ks, vs, entries, es, i + 1);
    } else {
        assert(es.take(i) =~= es);
    }
}

proof fn lemma_read_values_ok(
    vs: Schema,
    es: Seq<(Seq<char>, DocView)>,
    ps: Seq<(ShapeView, ShapeView)>,
    i: int,
)
    requires
        ps.len() == es.len(),
        0 <= i <= es.len(),
        forall|j: int|
            i <= j < es.len() ==> (#[trigger] ps[j]).0 == ShapeView::String(es[j].0) && from_doc(vs, es[j].1)
                == Ok::<ShapeView, ReadFailure>(ps[j].1),
    ensures
        read_values(vs, es, i, ps.take(i)) == Ok::<Seq<(ShapeView, ShapeView)>, ReadFailure>(ps),
    decreases es.len() - i,
{
    if i < es.len() {
        assert(ps[i].0 == ShapeView::String(es[i].0));
        assert(ps.take(i).push((ShapeView::String(es[i].0), ps[i].1)) =~= ps.take(i + 1));
        lemma_read_values_ok(vs, es, ps, i + 1);
    } else {
        assert(ps.take(i) =~= ps);
    }
}

proof fn lemma_members_doc_ok(
    members: Seq<(SchemaRef, ShapeValue)>,
    es: Seq<(Seq<char>, DocView)>,
    i: int,
)
    requires
        es.len() == members.len(),
        0 <= i <= members.len(),
        forall|j: int|
            i <= j < members.len() ==> *(#[trigger] members[j]).0 is Member && es[j].0
                == crate::fmt::member_name(*members[j].0) && to_doc(*members[j].0, members[j].1)
                == Ok::<DocView, ConversionFailure>(es[j].1),
        forall|a: int, b: int| 0 <= a < b < es.len() ==> (#[trigger] es[a]).0 != (#[trigger] es[b]).0,
    ensures
        members_doc(members, i, es.take(i)) == Ok::<Seq<(Seq<char>, DocView)>, ConversionFailure>(es),
    decreases members.len() - i,
{
    if i < members.len() {
        let e = members[i];
        assert(*e.0 is Member && es[i].0 == crate::fmt::member_name(*e.0));
        let acc = es.take(i);
        lemma_key_position(acc, es[i].0);
        if key_position(acc, es[i].0) >= 0 {
            let p = key_position(acc, es[i].0);
            assert(acc[p] == es[p]);
            assert(es[p].0 != es[i].0);
        }
        assert(insert_entry(acc, es[i].0, es[i].1) == acc.push((es[i].0, es[i].1)));
        assert(acc.push((es[i].0, es[i].1)) =~= es.take(i + 1));
        lemma_members_doc_ok(members, es, i + 1);
    } else {
        assert(es.take(i) =~= es);
    }
}

proof fn lemma_read_fields_ok(
    schema: Schema,
    es: Seq<(Seq<char>, DocView)>,
    ms: Seq<(SchemaRef, ShapeView)>,
    i: int,
)
    requires
        ms.len() == es.len(),
        0 <= i <= es.len(),
        forall|j: int|
            i <= j < es.len() ==> schema.spec_get_member((#[trigger] es[j]).0) == Some(ms[j].0) && from_doc(
                *ms[j].0,
                es[j].1,
            ) == Ok::<ShapeView, ReadFailure>(ms[j].1),
    ensures
        read_fields(schema, es, i, ms.take(i)) == Ok::<Seq<(SchemaRef, ShapeView)>, ReadFailure>(ms),
    decreases es.len() - i,
{
    if i < es.len() {
        assert(schema.spec_get_member(es[i].0) == Some(ms[i].0));
        assert(ms.take(i).push((ms[i].0, ms[i].1)) =~= ms.take(i + 1));
        lemma_read_fields_ok(schema, es, ms, i + 1);
    } else {
        assert(ms.take(i) =~= ms);
    }
}

} // verus!

verus! {

/// What writing `v` against `schema` as a document and reading it back gives: a
/// document that can be read, and back the value itself.
pub open spec fn reads_back(schema: Schema, v: ShapeValue) -> bool {
    &&& convertible(schema, v)
    &&& to_doc(schema, v) matches Ok(d) && readable(schema, d) && from_doc(schema, d)
        == Ok::<ShapeView, ReadFailure>(shape_view(v))
}

/// Writing a value as a document and reading the document back against the same schema
/// gives back the value, for every value that `roundtrips` admits: one whose scalars
/// are written against schemas of their own types, whose maps have distinct string
/// keys and whose structures have distinct member names found in their schema, and that
/// holds no `float`, `double`, skipped or missing value and no null document.
pub proof fn law_document_roundtrip(schema: Schema, v: ShapeValue)
    requires
        roundtrips(schema, v),
    ensures
        reads_back(schema, v),
    decreases v, 1int,
{
    match v {
        ShapeValue::List(items) => {
            let m = schema_of(schema.spec_get_member("member"@).unwrap());
            let s = items@;
            assert forall|j: int| 0 <= j < s.len() implies #[trigger] reads_back(m, s[j]) by {
                lemma_items_roundtrip_at(m, s, 0, j);
                law_document_roundtrip(m, s[j]);
            }
            let ds = Seq::new(s.len(), |j: int| ok_doc(to_doc(m, s[j])));
            assert forall|j: int| 0 <= j < s.len() implies convertible(m, #[trigger] s[j]) && to_doc(m, s[j])
                == Ok::<DocView, ConversionFailure>(ds[j]) && readable(m, ds[j]) by {
                assert(reads_back(m, s[j]));
            }
            lemma_items_convertible_all(m, s, 0);
            lemma_items_doc_ok(m, s, ds, 0);
            assert(ds.take(0) =~= Seq::<DocView>::empty());
            lemma_items_view(s);
            let vs = items_view(s);
            assert forall|j: int| 0 <= j < ds.len() implies from_doc(m, #[trigger] ds[j])
                == Ok::<ShapeView, ReadFailure>(vs[j]) by {
                assert(reads_back(m, s[j]));
            }
            lemma_read_docs_ok(m, ds, vs, 0);
            assert(vs.take(0) =~= Seq::<ShapeView>::empty());
            assert forall|j: int| 0 <= j < ds.len() implies readable(m, #[trigger] ds[j]) by {
                assert(reads_back(m, s[j]));
            }
            lemma_docs_readable_all(m, ds, 0);
        },
        ShapeValue::MapValue(entries) => {
            let ks = schema_of(schema.spec_get_member("key"@).unwrap());
            let vsch = schema_of(schema.spec_get_member("value"@).unwrap());
            let s = entries@;
            assert forall|j: int| 0 <= j < s.len() implies (#[trigger] s[j]).0 is String && reads_back(vsch, s[j].1) by {
                lemma_entries_roundtrip_at(vsch, s, 0, j);
                law_document_roundtrip(vsch, s[j].1);
            }
            let es = Seq::new(s.len(), |j: int| (string_text(s[j].0), ok_doc(to_doc(vsch, s[j].1))));
            assert forall|j: int| 0 <= j < s.len() implies (#[trigger] s[j]).0 is String && es[j].0 == string_text(s[j].0)
                && to_doc(vsch, s[j].1) == Ok::<DocView, ConversionFailure>(es[j].1) && convertible(vsch, s[j].1)
                && readable(vsch, es[j].1) by {
                assert(reads_back(vsch, s[j].1));
            }
            assert forall|a: int, b: int| 0 <= a < b < es.len() implies (#[trigger] es[a]).0 != (#[trigger] es[b]).0 by {
                assert(string_text(s[a].0) != string_text(s[b].0));
            }
            lemma_entries_convertible_all(vsch, s, 0);
            lemma_entries_doc_ok(ks, vsch, s, es, 0);
            assert(es.take(0) =~= Seq::<(Seq<char>, DocView)>::empty());
            lemma_pairs_view(s);
            let ps = pairs_view(s);
            assert forall|j: int| 0 <= j < es.len() implies (#[trigger] ps[j]).0 == ShapeView::String(es[j].0)
                && from_doc(vsch, es[j].1) == Ok::<ShapeView, ReadFailure>(ps[j].1) by {
                assert(reads_back(vsch, s[j].1));
                assert(s[j].0 is String);
            }
            lemma_read_values_ok(vsch, es, ps, 0);
            assert(ps.take(0) =~= Seq::<(ShapeView, ShapeView)>::empty());
            assert forall|j: int| 0 <= j < es.len() implies readable(vsch, (#[trigger] es[j]).1) by {
                assert(reads_back(vsch, s[j].1));
            }
            lemma_values_readable_all(vsch, es, 0);
        },
        ShapeValue::Struct(members) => {
            let s = members@;
            assert forall|j: int| 0 <= j < s.len() implies *(#[trigger] s[j]).0 is Member && schema.spec_get_member(
                crate::fmt::member_name(*s[j].0),
            ) == Some(s[j].0) && reads_back(*s[j].0, s[j].1) by {
                lemma_fields_roundtrip_at(schema, s, 0, j);
                law_document_roundtrip(*s[j].0, s[j].1);
            }
            let es = Seq::new(
                s.len(),
                |j: int| (crate::fmt::member_name(*s[j].0), ok_doc(to_doc(*s[j].0, s[j].1))),
            );
            assert forall|j: int| 0 <= j < s.len() implies *(#[trigger] s[j]).0 is Member && es[j].0
                == crate::fmt::member_name(*s[j].0) && to_doc(*s[j].0, s[j].1) == Ok::<DocView, ConversionFailure>(es[j].1)
                && convertible(*s[j].0, s[j].1) by {
                assert(reads_back(*s[j].0, s[j].1));
            }
            assert forall|a: int, b: int| 0 <= a < b < es.len() implies (#[trigger] es[a]).0 != (#[trigger] es[b]).0 by {
                assert(crate::fmt::member_name(*s[a].0) != crate::fmt::member_name(*s[b].0));
            }
            lemma_members_convertible_all(s, 0);
            lemma_members_doc_ok(s, es, 0);
            assert(es.take(0) =~= Seq::<(Seq<char>, DocView)>::empty());
            lemma_members_view(s);
            let ms = members_view(s);
            assert forall|j: int| 0 <= j < es.len() implies schema.spec_get_member((#[trigger] es[j]).0) == Some(ms[j].0)
                && from_doc(*ms[j].0, es[j].1) == Ok::<ShapeView, ReadFailure>(ms[j].1) && readable(*ms[j].0, es[j].1) by {
                assert(reads_back(*s[j].0, s[j].1));
            }
            lemma_read_fields_ok(schema, es, ms, 0);
            assert(ms.take(0) =~= Seq::<(SchemaRef, ShapeView)>::empty());
            lemma_fields_readable_all(schema, es, 0);
        },
        ShapeValue::Document(d) => {
            assert(!(value_view(d.value) is Null));
        },
        _ => {},
    }
}

} // verus!
