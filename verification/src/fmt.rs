//! Formatting of shapes as text that respects `@sensitive`.
//!
//! A structure is written as `Name[member=value, ...]`, a list as `[a, b]` and a map as
//! `{key:value, ...}`. Any value whose schema carries `@sensitive` is written as
//! `**REDACTED**`; a sensitive list, map or structure keeps its brackets and name but
//! none of its contents.
use vstd::prelude::*;

use crate::numbers::{decimal_display, decimal_text, int_text, int_to_string};
use crate::prelude::SensitiveTrait;
use crate::schema::{schema_of, Schema, SchemaRef};
use crate::traits::StaticTraitId;
use crate::values::ShapeValue;

verus! {

/// Errors that can occur when formatting a shape.
pub enum FmtError {
    Fmt,
    Io,
    Unknown,
    Custom(String),
}

/// The text written in place of a sensitive value.
pub open spec fn redacted() -> Seq<char> {
    "**REDACTED**"@
}

/// Whether the schema carries `@sensitive`.
pub open spec fn sensitive(schema: Schema) -> bool {
    schema.has_trait(SensitiveTrait::spec_trait_id())
}

/// The text of a boolean.
pub open spec fn bool_text(b: bool) -> Seq<char> {
    if b {
        "true"@
    } else {
        "false"@
    }
}

/// Seconds since the Unix epoch of a timestamp, rounded toward zero.
pub open spec fn epoch_seconds(nanos: i128) -> int {
    if nanos >= 0 {
        nanos as int / 1_000_000_000
    } else {
        -((-(nanos as int)) / 1_000_000_000)
    }
}

/// The text of a scalar value, before redaction.
pub open spec fn scalar_text(v: ShapeValue) -> Seq<char> {
    match v {
        ShapeValue::Boolean(b) => bool_text(b),
        ShapeValue::Byte(x) => int_text(x as int),
        ShapeValue::Short(x) => int_text(x as int),
        ShapeValue::Integer(x) => int_text(x as int),
        ShapeValue::Long(x) => int_text(x as int),
        ShapeValue::BigInteger(x) => int_text(x as int),
        ShapeValue::Float(_, t) => t@,
        ShapeValue::Double(_, t) => t@,
        ShapeValue::BigDecimal(d) => decimal_display(d.unscaled, d.scale),
        ShapeValue::String(s) => s@,
        ShapeValue::Timestamp(t) => int_text(epoch_seconds(t.epoch_nanos)),
        ShapeValue::Null => "null"@,
        _ => seq![],
    }
}

/// The separator written before the element at position `i`.
pub open spec fn separator(i: int) -> Seq<char> {
    if i == 0 {
        seq![]
    } else {
        ", "@
    }
}

/// The name a member schema writes.
pub open spec fn member_name(s: Schema) -> Seq<char> {
    match s {
        Schema::Member(m) => m.name@,
        _ => seq![],
    }
}

/// The text of `v` written against `schema`.
pub open spec fn fmt_text(schema: Schema, v: ShapeValue) -> Seq<char>
    decreases v, 1int, 0int,
{
    match v {
        ShapeValue::Struct(members) => schema.spec_id().name + "["@ + (if sensitive(schema) {
            redacted()
        } else {
            fmt_members(members@, 0)
        }) + "]"@,
        ShapeValue::List(items) => "["@ + (if sensitive(schema) {
            redacted()
        } else {
            fmt_items(schema_of(schema.spec_get_member("member"@).unwrap()), items@, 0)
        }) + "]"@,
        ShapeValue::MapValue(entries) => "{"@ + (if sensitive(schema) {
            redacted()
        } else {
            fmt_entries(
                schema_of(schema.spec_get_member("key"@).unwrap()),
                schema_of(schema.spec_get_member("value"@).unwrap()),
                entries@,
                0,
            )
        }) + "}"@,
        ShapeValue::Skip => seq![],
        ShapeValue::Missing => seq![],
        _ => if sensitive(schema) {
            redacted()
        } else {
            scalar_text(v)
        },
    }
}

/// The text of the list elements from position `i` on.
pub open spec fn fmt_items(member: Schema, items: Seq<ShapeValue>, i: int) -> Seq<char>
    decreases items, 0int, items.len() - i,
{
    if 0 <= i < items.len() {
        separator(i) + fmt_text(member, items[i]) + fmt_items(member, items, i + 1)
    } else {
        seq![]
    }
}

/// The text of the map entries from position `i` on.
pub open spec fn fmt_entries(
    key_schema: Schema,
    value_schema: Schema,
    entries: Seq<(ShapeValue, ShapeValue)>,
    i: int,
) -> Seq<char>
    decreases entries, 0int, entries.len() - i,
{
    if 0 <= i < entries.len() {
        separator(i) + fmt_text(key_schema, entries[i].0) + ":"@ + fmt_text(
            value_schema,
            entries[i].1,
        ) + fmt_entries(key_schema, value_schema, entries, i + 1)
    } else {
        seq![]
    }
}

/// The text of the structure members from position `i` on.
pub open spec fn fmt_members(members: Seq<(SchemaRef, ShapeValue)>, i: int) -> Seq<char>
    decreases members, 0int, members.len() - i,
{
    if 0 <= i < members.len() {
        separator(i) + member_name(*members[i].0) + "="@ + fmt_text(*members[i].0, members[i].1)
            + fmt_members(members, i + 1)
    } else {
        seq![]
    }
}

/// Whether `v` can be written against `schema`: no blob or document value, members
/// written with member schemas, and lists and maps whose schemas hold their members.
pub open spec fn formattable(schema: Schema, v: ShapeValue) -> bool
    decreases v, 1int, 0int,
{
    match v {
        ShapeValue::Blob(_) => false,
        ShapeValue::Document(_) => false,
        ShapeValue::Struct(members) => members_formattable(members@, 0),
        ShapeValue::List(items) => schema.spec_get_member("member"@) is Some && items_formattable(
            schema_of(schema.spec_get_member("member"@).unwrap()),
            items@,
            0,
        ),
        ShapeValue::MapValue(entries) => schema.spec_get_member("key"@) is Some
            && schema.spec_get_member("value"@) is Some && entries_formattable(
            schema_of(schema.spec_get_member("key"@).unwrap()),
            schema_of(schema.spec_get_member("value"@).unwrap()),
            entries@,
            0,
        ),
        _ => true,
    }
}

/// The elements from position `i` on can be written.
pub open spec fn items_formattable(member: Schema, items: Seq<ShapeValue>, i: int) -> bool
    decreases items, 0int, items.len() - i,
{
    0 <= i < items.len() ==> formattable(member, items[i]) && items_formattable(member, items, i + 1)
}

/// The entries from position `i` on can be written.
pub open spec fn entries_formattable(
    key_schema: Schema,
    value_schema: Schema,
    entries: Seq<(ShapeValue, ShapeValue)>,
    i: int,
) -> bool
    decreases entries, 0int, entries.len() - i,
{
    0 <= i < entries.len() ==> formattable(key_schema, entries[i].0) && formattable(
        value_schema,
        entries[i].1,
    ) && entries_formattable(key_schema, value_schema, entries, i + 1)
}

/// The members from position `i` on are written with member schemas and can be written.
pub open spec fn members_formattable(members: Seq<(SchemaRef, ShapeValue)>, i: int) -> bool
    decreases members, 0int, members.len() - i,
{
    0 <= i < members.len() ==> (*members[i].0 is Member) && formattable(
        *members[i].0,
        members[i].1,
    ) && members_formattable(members, i + 1)
}

} // verus!

verus! {

fn append(out: &mut String, s: &str)
    ensures
        final(out)@ == old(out)@ + s@,
{
    let mut i: usize = 0;
    let len = s.unicode_len();
    let ghost start = out@;
    while i < len
        invariant
            len == s@.len(),
            i <= len,
            out@ == start + s@.subrange(0, i as int),
        decreases len - i,
    {
        crate::text::push_char(out, s.get_char(i));
        i = i + 1;
        assert(out@ =~= start + s@.subrange(0, i as int));
    }
    assert(s@.subrange(0, len as int) =~= s@);
}

/// Where an aggregate is in its writing: before the first element, after it, or
/// redacted (nothing more is written).
#[derive(PartialEq, Eq, Structural)]
pub enum State {
    First,
    Rest,
    Redacted,
}

/// Writer of the contents of an aggregate: it separates elements with `", "` and
/// writes nothing for a redacted aggregate.
pub struct InnerFmtSerializer {
    pub state: State,
}

impl InnerFmtSerializer {
    /// Starts an element: writes the separator it needs; returns false when the
    /// aggregate is redacted and the element must not be written.
    pub fn start_text(&mut self, out: &mut String) -> (r: bool)
        ensures
            r == !(old(self).state is Redacted),
            old(self).state is First ==> final(out)@ == old(out)@ && final(self).state is Rest,
            old(self).state is Rest ==> final(out)@ == old(out)@ + ", "@ && final(self).state is Rest,
            old(self).state is Redacted ==> final(out)@ == old(out)@ && final(self).state is Redacted,
    {
        if self.state == State::First {
            self.state = State::Rest;
            true
        } else if self.state == State::Redacted {
            false
        } else {
            append(out, ", ");
            true
        }
    }
}

/// Serializer that formats shapes as text.
pub struct FmtSerializer {
    pub writer: String,
}

impl FmtSerializer {
    /// A serializer with an empty output.
    pub fn new() -> (r: FmtSerializer)
        ensures
            r.writer@ == Seq::<char>::empty(),
    {
        FmtSerializer { writer: String::new() }
    }

    fn write_scalar(&mut self, schema: &Schema, v: &ShapeValue)
        requires
            !(v is Struct || v is List || v is MapValue || v is Skip || v is Missing || v is Blob
                || v is Document),
        ensures
            final(self).writer@ == old(self).writer@ + fmt_text(*schema, *v),
    {
        proof {
            reveal_strlit("**REDACTED**");
        }
        if schema.contains_type::<SensitiveTrait>() {
            append(&mut self.writer, "**REDACTED**");
            return;
        }
        match v {
            ShapeValue::Boolean(b) => {
                proof {
                    reveal_strlit("true");
                    reveal_strlit("false");
                }
                if *b {
                    append(&mut self.writer, "true")
                } else {
                    append(&mut self.writer, "false")
                }
            },
            ShapeValue::Byte(x) => append(&mut self.writer, int_to_string(*x as i128).as_str()),
            ShapeValue::Short(x) => append(&mut self.writer, int_to_string(*x as i128).as_str()),
            ShapeValue::Integer(x) => append(&mut self.writer, int_to_string(*x as i128).as_str()),
            ShapeValue::Long(x) => append(&mut self.writer, int_to_string(*x as i128).as_str()),
            ShapeValue::BigInteger(x) => append(&mut self.writer, int_to_string(*x).as_str()),
            ShapeValue::Float(_, t) => append(&mut self.writer, t.as_str()),
            ShapeValue::Double(_, t) => append(&mut self.writer, t.as_str()),
            ShapeValue::BigDecimal(d) => append(&mut self.writer, decimal_text(d).as_str()),
            ShapeValue::String(s) => append(&mut self.writer, s.as_str()),
            ShapeValue::Timestamp(t) => {
                let secs: i128 = if t.epoch_nanos >= 0 {
                    t.epoch_nanos / 1_000_000_000
                } else {
                    let mag: u128 = ((-(t.epoch_nanos + 1)) as u128) + 1;
                    let q: u128 = mag / 1_000_000_000;
                    -(q as i128)
                };
                append(&mut self.writer, int_to_string(secs).as_str())
            },
            _ => {
                proof {
                    reveal_strlit("null");
                }
                append(&mut self.writer, "null")
            },
        }
    }
}

} // verus!

verus! {

proof fn lemma_items_formattable(m: Schema, items: Seq<ShapeValue>, j: int, i: int)
    requires
        items_formattable(m, items, j),
        0 <= j <= i < items.len(),
    ensures
        formattable(m, items[i]),
    decreases i - j,
{
    if j < i {
        lemma_items_formattable(m, items, j + 1, i);
    }
}

proof fn lemma_entries_formattable(
    ks: Schema,
    vs: Schema,
    entries: Seq<(ShapeValue, ShapeValue)>,
    j: int,
    i: int,
)
    requires
        entries_formattable(ks, vs, entries, j),
        0 <= j <= i < entries.len(),
    ensures
        formattable(ks, entries[i].0),
        formattable(vs, entries[i].1),
    decreases i - j,
{
    if j < i {
        lemma_entries_formattable(ks, vs, entries, j + 1, i);
    }
}

proof fn lemma_members_formattable(members: Seq<(SchemaRef, ShapeValue)>, j: int, i: int)
    requires
        members_formattable(members, j),
        0 <= j <= i < members.len(),
    ensures
        *members[i].0 is Member,
        formattable(*members[i].0, members[i].1),
    decreases i - j,
{
    if j < i {
        lemma_members_formattable(members, j + 1, i);
    }
}

} // verus!

verus! {

impl FmtSerializer {
    /// Writes `v` against `schema`.
    pub fn serialize(&mut self, schema: &SchemaRef, v: &ShapeValue)
        requires
            formattable(**schema, *v),
        ensures
            final(self).writer@ == old(self).writer@ + fmt_text(**schema, *v),
        decreases v, 1int,
    {
        let s: &Schema = &**schema;
        match v {
            ShapeValue::Struct(members) => {
                append(&mut self.writer, s.id().name());
                proof {
                    reveal_strlit("[");
                    reveal_strlit("]");
                    reveal_strlit("**REDACTED**");
                }
                append(&mut self.writer, "[");
                let mut inner = if s.contains_type::<SensitiveTrait>() {
                    append(&mut self.writer, "**REDACTED**");
                    InnerFmtSerializer { state: State::Redacted }
                } else {
                    InnerFmtSerializer { state: State::First }
                };
                self.serialize_members(members, &mut inner);
                append(&mut self.writer, "]");
            },
            ShapeValue::List(items) => {
                proof {
                    reveal_strlit("[");
                    reveal_strlit("]");
                    reveal_strlit("**REDACTED**");
                    reveal_strlit("member");
                }
                append(&mut self.writer, "[");
                let mut inner = if s.contains_type::<SensitiveTrait>() {
                    append(&mut self.writer, "**REDACTED**");
                    InnerFmtSerializer { state: State::Redacted }
                } else {
                    InnerFmtSerializer { state: State::First }
                };
                let member = s.expect_member("member");
                self.serialize_items(member, items, &mut inner);
                append(&mut self.writer, "]");
            },
            ShapeValue::MapValue(entries) => {
                proof {
                    reveal_strlit("{");
                    reveal_strlit("}");
                    reveal_strlit("**REDACTED**");
                    reveal_strlit("key");
                    reveal_strlit("value");
                }
                append(&mut self.writer, "{");
                let mut inner = if s.contains_type::<SensitiveTrait>() {
                    append(&mut self.writer, "**REDACTED**");
                    InnerFmtSerializer { state: State::Redacted }
                } else {
                    InnerFmtSerializer { state: State::First }
                };
                let key_schema = s.expect_member("key");
                let value_schema = s.expect_member("value");
                self.serialize_entries(key_schema, value_schema, entries, &mut inner);
                append(&mut self.writer, "}");
            },
            ShapeValue::Skip => {
                assert(self.writer@ =~= self.writer@ + Seq::<char>::empty());
            },
            ShapeValue::Missing => {
                assert(self.writer@ =~= self.writer@ + Seq::<char>::empty());
            },
            _ => self.write_scalar(s, v),
        }
    }

    fn serialize_items(&mut self, member: &SchemaRef, items: &Vec<ShapeValue>, inner: &mut InnerFmtSerializer)
        requires
            items_formattable(schema_of(*member), items@, 0),
            !(old(inner).state is Rest),
        ensures
            final(self).writer@ == old(self).writer@ + if old(inner).state is Redacted {
                Seq::<char>::empty()
            } else {
                fmt_items(schema_of(*member), items@, 0)
            },
        decreases items, 0int,
    {
        let ghost start = self.writer@;
        let ghost redact = inner.state is Redacted;
        let ghost m = schema_of(*member);
        let mut i: usize = 0;
        while i < items.len()
            invariant
                i <= items@.len(),
                m == schema_of(*member),
                items_formattable(m, items@, 0),
                redact == (inner.state is Redacted),
                !redact ==> (inner.state is First <==> i == 0),
                redact ==> self.writer@ == start,
                !redact ==> start + fmt_items(m, items@, 0) == self.writer@ + fmt_items(m, items@, i as int),
            decreases items@.len() - i,
        {
            let ghost before = self.writer@;
            if inner.start_text(&mut self.writer) {
                proof {
                    lemma_items_formattable(m, items@, 0, i as int);
                }
                self.serialize(member, &items[i]);
                proof {
                    reveal_strlit(", ");
                    let rest = fmt_items(m, items@, i + 1);
                    assert(fmt_items(m, items@, i as int) == separator(i as int) + fmt_text(m, items@[i as int]) + rest);
                    assert(before + (separator(i as int) + fmt_text(m, items@[i as int]) + rest) =~= self.writer@ + rest);
                }
            }
            i = i + 1;
        }
        proof {
            assert(self.writer@ + Seq::<char>::empty() =~= self.writer@);
            assert(start + Seq::<char>::empty() =~= start);
        }
    }

    fn serialize_entries(
        &mut self,
        key_schema: &SchemaRef,
        value_schema: &SchemaRef,
        entries: &Vec<(ShapeValue, ShapeValue)>,
        inner: &mut InnerFmtSerializer,
    )
        requires
            entries_formattable(schema_of(*key_schema), schema_of(*value_schema), entries@, 0),
            !(old(inner).state is Rest),
        ensures
            final(self).writer@ == old(self).writer@ + if old(inner).state is Redacted {
                Seq::<char>::empty()
            } else {
                fmt_entries(schema_of(*key_schema), schema_of(*value_schema), entries@, 0)
            },
        decreases entries, 0int,
    {
        let ghost start = self.writer@;
        let ghost redact = inner.state is Redacted;
        let ghost ks = schema_of(*key_schema);
        let ghost vs = schema_of(*value_schema);
        let mut i: usize = 0;
        while i < entries.len()
            invariant
                i <= entries@.len(),
                ks == schema_of(*key_schema),
                vs == schema_of(*value_schema),
                entries_formattable(ks, vs, entries@, 0),
                redact == (inner.state is Redacted),
                !redact ==> (inner.state is First <==> i == 0),
                redact ==> self.writer@ == start,
                !redact ==> start + fmt_entries(ks, vs, entries@, 0) == self.writer@ + fmt_entries(ks, vs, entries@, i as int),
            decreases entries@.len() - i,
        {
            let ghost before = self.writer@;
            if inner.start_text(&mut self.writer) {
                proof {
                    lemma_entries_formattable(ks, vs, entries@, 0, i as int);
                    reveal_strlit(":");
                }
                self.serialize(key_schema, &entries[i].0);
                append(&mut self.writer, ":");
                self.serialize(value_schema, &entries[i].1);
                proof {
                    reveal_strlit(", ");
                    let rest = fmt_entries(ks, vs, entries@, i + 1);
                    let e = entries@[i as int];
                    assert(fmt_entries(ks, vs, entries@, i as int) == separator(i as int) + fmt_text(ks, e.0) + ":"@ + fmt_text(vs, e.1) + rest);
                    assert(before + (separator(i as int) + fmt_text(ks, e.0) + ":"@ + fmt_text(vs, e.1) + rest) =~= self.writer@ + rest);
                }
            }
            i = i + 1;
        }
        proof {
            assert(self.writer@ + Seq::<char>::empty() =~= self.writer@);
            assert(start + Seq::<char>::empty() =~= start);
        }
    }

    fn serialize_members(&mut self, members: &Vec<(SchemaRef, ShapeValue)>, inner: &mut InnerFmtSerializer)
        requires
            members_formattable(members@, 0),
            !(old(inner).state is Rest),
        ensures
            final(self).writer@ == old(self).writer@ + if old(inner).state is Redacted {
                Seq::<char>::empty()
            } else {
                fmt_members(members@, 0)
            },
        decreases members, 0int,
    {
        let ghost start = self.writer@;
        let ghost redact = inner.state is Redacted;
        let mut i: usize = 0;
        while i < members.len()
            invariant
                i <= members@.len(),
                members_formattable(members@, 0),
                redact == (inner.state is Redacted),
                !redact ==> (inner.state is First <==> i == 0),
                redact ==> self.writer@ == start,
                !redact ==> start + fmt_members(members@, 0) == self.writer@ + fmt_members(members@, i as int),
            decreases members@.len() - i,
        {
            let ghost before = self.writer@;
            if inner.start_text(&mut self.writer) {
                proof {
                    lemma_members_formattable(members@, 0, i as int);
                    reveal_strlit("=");
                }
                let ms = &members[i].0;
                match &**ms {
                    Schema::Member(me) => append(&mut self.writer, me.name.as_str()),
                    _ => {
                        proof {
                            assert(false);
                        }
                    },
                }
                append(&mut self.writer, "=");
                self.serialize(ms, &members[i].1);
                proof {
                    reveal_strlit(", ");
                    let rest = fmt_members(members@, i + 1);
                    let e = members@[i as int];
                    assert(fmt_members(members@, i as int) == separator(i as int) + member_name(*e.0) + "="@ + fmt_text(*e.0, e.1) + rest);
                    assert(before + (separator(i as int) + member_name(*e.0) + "="@ + fmt_text(*e.0, e.1) + rest) =~= self.writer@ + rest);
                }
            }
            i = i + 1;
        }
        proof {
            assert(self.writer@ + Seq::<char>::empty() =~= self.writer@);
            assert(start + Seq::<char>::empty() =~= start);
        }
    }
}

/// Formats `value` against `schema` as text, redacting sensitive values.
pub fn to_string(schema: &SchemaRef, value: &ShapeValue) -> (r: Result<String, FmtError>)
    requires
        formattable(**schema, *value),
    ensures
        r matches Ok(s) && s@ == fmt_text(**schema, *value),
{
    let mut ser = FmtSerializer::new();
    ser.serialize(schema, value);
    assert(ser.writer@ =~= fmt_text(**schema, *value));
    Ok(ser.writer)
}

} // verus!

verus! {

/// A sensitive scalar is written as `**REDACTED**`, and a sensitive list, map or
/// structure keeps only its brackets (and a structure its name) around
/// `**REDACTED**`: nothing of the contents is written.
pub proof fn law_sensitive_redacted(schema: Schema, v: ShapeValue)
    requires
        sensitive(schema),
    ensures
        match v {
            ShapeValue::Struct(_) => fmt_text(schema, v) == schema.spec_id().name + "["@
                + redacted() + "]"@,
            ShapeValue::List(_) => fmt_text(schema, v) == "["@ + redacted() + "]"@,
            ShapeValue::MapValue(_) => fmt_text(schema, v) == "{"@ + redacted() + "}"@,
            ShapeValue::Skip | ShapeValue::Missing => fmt_text(schema, v) == Seq::<char>::empty(),
            _ => fmt_text(schema, v) == redacted(),
        },
{
}

} // verus!

verus! {

/// Which of the shapes that redaction keeps `v` has: a structure, a list, a map, nothing
/// written, or a scalar.
pub open spec fn redaction_kind(v: ShapeValue) -> int {
    match v {
        ShapeValue::Struct(_) => 0,
        ShapeValue::List(_) => 1,
        ShapeValue::MapValue(_) => 2,
        ShapeValue::Skip | ShapeValue::Missing => 3,
        _ => 4,
    }
}

/// `a` and `b`, written against `schema`, differ at most in what `@sensitive` hides:
/// against a sensitive schema they are of the same kind (both structures, both lists,
/// both maps, both unwritten, or both scalars), whatever they hold; otherwise they are
/// the same scalar, or aggregates of the same size whose parts are alike in this way
/// (structure members in the same order and with the same member schemas).
pub open spec fn alike_but_sensitive(schema: Schema, a: ShapeValue, b: ShapeValue) -> bool
    decreases a, 1int, 0int,
{
    if sensitive(schema) {
        redaction_kind(a) == redaction_kind(b)
    } else {
        match (a, b) {
            (ShapeValue::Struct(x), ShapeValue::Struct(y)) => x@.len() == y@.len()
                && members_alike(x@, y@, 0),
            (ShapeValue::List(x), ShapeValue::List(y)) => x@.len() == y@.len() && items_alike(
                schema_of(schema.spec_get_member("member"@).unwrap()),
                x@,
                y@,
                0,
            ),
            (ShapeValue::MapValue(x), ShapeValue::MapValue(y)) => x@.len() == y@.len()
                && entries_alike(
                schema_of(schema.spec_get_member("key"@).unwrap()),
                schema_of(schema.spec_get_member("value"@).unwrap()),
                x@,
                y@,
                0,
            ),
            _ => redaction_kind(a) >= 3 && a == b,
        }
    }
}

/// The elements from position `i` on are alike against `member`.
pub open spec fn items_alike(member: Schema, x: Seq<ShapeValue>, y: Seq<ShapeValue>, i: int) -> bool
    decreases x, 0int, x.len() - i,
{
    0 <= i < x.len() ==> i < y.len() && alike_but_sensitive(member, x[i], y[i]) && items_alike(
        member,
        x,
        y,
        i + 1,
    )
}

/// The entries from position `i` on have alike keys and alike values.
pub open spec fn entries_alike(
    key_schema: Schema,
    value_schema: Schema,
    x: Seq<(ShapeValue, ShapeValue)>,
    y: Seq<(ShapeValue, ShapeValue)>,
    i: int,
) -> bool
    decreases x, 0int, x.len() - i,
{
    0 <= i < x.len() ==> i < y.len() && alike_but_sensitive(key_schema, x[i].0, y[i].0)
        && alike_but_sensitive(value_schema, x[i].1, y[i].1) && entries_alike(
        key_schema,
        value_schema,
        x,
        y,
        i + 1,
    )
}

/// The members from position `i` on have the same member schemas and alike values.
pub open spec fn members_alike(x: Seq<(SchemaRef, ShapeValue)>, y: Seq<(SchemaRef, ShapeValue)>, i: int) -> bool
    decreases x, 0int, x.len() - i,
{
    0 <= i < x.len() ==> i < y.len() && x[i].0 == y[i].0 && alike_but_sensitive(
        *x[i].0,
        x[i].1,
        y[i].1,
    ) && members_alike(x, y, i + 1)
}

/// Two values that differ only in what `@sensitive` hides are written as the same text:
/// sensitive values, lists, maps and structures show nothing of their contents, and
/// everything else is written the same way.
pub proof fn law_sensitive_contents_hidden(schema: Schema, a: ShapeValue, b: ShapeValue)
    requires
        alike_but_sensitive(schema, a, b),
    ensures
        fmt_text(schema, a) == fmt_text(schema, b),
    decreases a, 1int, 0int,
{
    if !sensitive(schema) {
        match (a, b) {
            (ShapeValue::Struct(x), ShapeValue::Struct(y)) => {
                lemma_members_hidden(x@, y@, 0);
            },
            (ShapeValue::List(x), ShapeValue::List(y)) => {
                lemma_items_hidden(schema_of(schema.spec_get_member("member"@).unwrap()), x@, y@, 0);
            },
            (ShapeValue::MapValue(x), ShapeValue::MapValue(y)) => {
                lemma_entries_hidden(
                    schema_of(schema.spec_get_member("key"@).unwrap()),
                    schema_of(schema.spec_get_member("value"@).unwrap()),
                    x@,
                    y@,
                    0,
                );
            },
            _ => {},
        }
    }
}

proof fn lemma_items_hidden(member: Schema, x: Seq<ShapeValue>, y: Seq<ShapeValue>, i: int)
    requires
        x.len() == y.len(),
        0 <= i,
        items_alike(member, x, y, i),
    ensures
        fmt_items(member, x, i) == fmt_items(member, y, i),
    decreases x, 0int, x.len() - i,
{
    if i < x.len() {
        law_sensitive_contents_hidden(member, x[i], y[i]);
        lemma_items_hidden(member, x, y, i + 1);
    }
}

proof fn lemma_entries_hidden(
    key_schema: Schema,
    value_schema: Schema,
    x: Seq<(ShapeValue, ShapeValue)>,
    y: Seq<(ShapeValue, ShapeValue)>,
    i: int,
)
    requires
        x.len() == y.len(),
        0 <= i,
        entries_alike(key_schema, value_schema, x, y, i),
    ensures
        fmt_entries(key_schema, value_schema, x, i) == fmt_entries(key_schema, value_schema, y, i),
    decreases x, 0int, x.len() - i,
{
    if i < x.len() {
        law_sensitive_contents_hidden(key_schema, x[i].0, y[i].0);
        law_sensitive_contents_hidden(value_schema, x[i].1, y[i].1);
        lemma_entries_hidden(key_schema, value_schema, x, y, i + 1);
    }
}

proof fn lemma_members_hidden(x: Seq<(SchemaRef, ShapeValue)>, y: Seq<(SchemaRef, ShapeValue)>, i: int)
    requires
        x.len() == y.len(),
        0 <= i,
        members_alike(x, y, i),
    ensures
        fmt_members(x, i) == fmt_members(y, i),
    decreases x, 0int, x.len() - i,
{
    if i < x.len() {
        law_sensitive_contents_hidden(schema_of(x[i].0), x[i].1, y[i].1);
        lemma_members_hidden(x, y, i + 1);
    }
}

} // verus!

verus! {

/// What a `Debug` rendering writes in place of `v` against a sensitive schema: a
/// structure keeps only its braces (after its name), a list its brackets, a map its
/// braces, and any other value becomes `**REDACTED**`. Null and unwritten values have
/// nothing to hide.
pub open spec fn debug_redaction(v: ShapeValue) -> Option<Seq<char>> {
    match v {
        ShapeValue::Struct(_) => Some("{**REDACTED**}"@),
        ShapeValue::List(_) => Some("[**REDACTED**]"@),
        ShapeValue::MapValue(_) => Some("{**REDACTED**}"@),
        ShapeValue::Null | ShapeValue::Skip | ShapeValue::Missing => None,
        _ => Some("**REDACTED**"@),
    }
}

/// The text that replaces `v` in a `Debug` rendering against `schema`: nothing when the
/// schema is not sensitive.
pub fn debug_redacted(schema: &Schema, v: &ShapeValue) -> (r: Option<&'static str>)
    ensures
        match r {
            Some(t) => sensitive(*schema) && debug_redaction(*v) == Some(t@),
            None => !sensitive(*schema) || debug_redaction(*v) is None,
        },
{
    proof {
        reveal_strlit("{**REDACTED**}");
        reveal_strlit("[**REDACTED**]");
        reveal_strlit("**REDACTED**");
    }
    if !schema.contains_type::<SensitiveTrait>() {
        return None;
    }
    match v {
        ShapeValue::Struct(_) => Some("{**REDACTED**}"),
        ShapeValue::List(_) => Some("[**REDACTED**]"),
        ShapeValue::MapValue(_) => Some("{**REDACTED**}"),
        ShapeValue::Null | ShapeValue::Skip | ShapeValue::Missing => None,
        _ => Some("**REDACTED**"),
    }
}

} // verus!

verus! {

/// A boolean that is not sensitive is written as its own text: `true` or `false`; the
/// two values are written differently.
pub proof fn law_boolean_text(schema: Schema, b: bool)
    requires
        !sensitive(schema),
    ensures
        b ==> fmt_text(schema, ShapeValue::Boolean(b)) == "true"@,
        !b ==> fmt_text(schema, ShapeValue::Boolean(b)) == "false"@,
        fmt_text(schema, ShapeValue::Boolean(true)) != fmt_text(schema, ShapeValue::Boolean(false)),
{
    reveal_strlit("true");
    reveal_strlit("false");
    assert("true"@.len() != "false"@.len());
}

} // verus!
