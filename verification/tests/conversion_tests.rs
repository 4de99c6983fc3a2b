use smithy4rs_core::conversion::{from_document, to_document};
use smithy4rs_core::documents::{DefaultDocumentValue, Document, NumberFloat, NumberValue};
use smithy4rs_core::fmt::to_string;
use smithy4rs_core::prelude::{annotation, SensitiveTrait};
use smithy4rs_core::schema::{prelude_schema, Schema, SchemaRef};
use smithy4rs_core::shapes::{ShapeId, ShapeType};
use smithy4rs_core::values::ShapeValue;

fn string() -> SchemaRef {
    prelude_schema(ShapeType::String)
}

fn map_schema() -> SchemaRef {
    Schema::map_builder(ShapeId::from("com.example#Map"), vec![])
        .put_member("key", &string(), vec![])
        .put_member("value", &string(), vec![])
        .build()
}

fn list_schema() -> SchemaRef {
    Schema::list_builder(ShapeId::from("com.example#List"), vec![])
        .put_member("member", &string(), vec![])
        .build()
}

fn schema() -> SchemaRef {
    Schema::structure_builder(ShapeId::from("com.example#Shape"), vec![])
        .put_member("a", &string(), vec![])
        .put_member("b", &string(), vec![])
        .put_member("c", &string(), vec![])
        .put_member("list", &list_schema(), vec![])
        .put_member("map", &map_schema(), vec![])
        .build()
}

fn s(v: &str) -> ShapeValue {
    ShapeValue::String(v.to_string())
}

/// A `SerializeMe` with its members in field order; a missing optional member is left out.
fn serialize_me(
    schema: &SchemaRef,
    a: &str,
    b: &str,
    c: Option<&str>,
    list: Vec<&str>,
    map: Vec<(&str, &str)>,
) -> ShapeValue {
    let m = |n: &str| schema.get_member(n).unwrap().clone();
    let mut members = vec![(m("a"), s(a)), (m("b"), s(b))];
    if let Some(c) = c {
        members.push((m("c"), s(c)));
    }
    members.push((m("list"), ShapeValue::List(list.into_iter().map(s).collect())));
    members.push((
        m("map"),
        ShapeValue::MapValue(map.into_iter().map(|(k, v)| (s(k), s(v))).collect()),
    ));
    ShapeValue::Struct(members)
}

/// Equality of values, member schemas compared by id.
fn same(x: &ShapeValue, y: &ShapeValue) -> bool {
    match (x, y) {
        (ShapeValue::Boolean(a), ShapeValue::Boolean(b)) => a == b,
        (ShapeValue::Byte(a), ShapeValue::Byte(b)) => a == b,
        (ShapeValue::Short(a), ShapeValue::Short(b)) => a == b,
        (ShapeValue::Integer(a), ShapeValue::Integer(b)) => a == b,
        (ShapeValue::Long(a), ShapeValue::Long(b)) => a == b,
        (ShapeValue::BigInteger(a), ShapeValue::BigInteger(b)) => a == b,
        (ShapeValue::BigDecimal(a), ShapeValue::BigDecimal(b)) => a == b,
        (ShapeValue::String(a), ShapeValue::String(b)) => a == b,
        (ShapeValue::Blob(a), ShapeValue::Blob(b)) => a == b,
        (ShapeValue::Timestamp(a), ShapeValue::Timestamp(b)) => a == b,
        (ShapeValue::Null, ShapeValue::Null) => true,
        (ShapeValue::List(a), ShapeValue::List(b)) => {
            a.len() == b.len() && a.iter().zip(b.iter()).all(|(p, q)| same(p, q))
        }
        (ShapeValue::MapValue(a), ShapeValue::MapValue(b)) => {
            a.len() == b.len()
                && a.iter().zip(b.iter()).all(|(p, q)| same(&p.0, &q.0) && same(&p.1, &q.1))
        }
        (ShapeValue::Struct(a), ShapeValue::Struct(b)) => {
            a.len() == b.len()
                && a.iter()
                    .zip(b.iter())
                    .all(|(p, q)| p.0.id().id() == q.0.id().id() && same(&p.1, &q.1))
        }
        _ => false,
    }
}

fn entry<'a>(doc: &'a Document, key: &str) -> &'a Document {
    doc.as_map()
        .unwrap()
        .iter()
        .find(|(k, _)| k == key)
        .map(|(_, d)| d)
        .expect("missing entry")
}

fn roundtrip(schema: &SchemaRef, value: &ShapeValue) -> ShapeValue {
    let doc = to_document(schema, value).ok().unwrap();
    from_document(schema, &doc).ok().unwrap()
}

#[test]
fn struct_to_document() {
    let schema = schema();
    let value = serialize_me(&schema, "a", "b", Some("c"), vec!["a", "b"], vec![("a", "b")]);
    let document = to_document(&schema, &value).ok().unwrap();
    assert_eq!(document.discriminator().unwrap().id(), schema.id().id());
    assert_eq!(document.schema().id().id(), "com.example#Shape");
    assert_eq!(entry(&document, "a").as_string().unwrap(), "a");
    assert_eq!(entry(&document, "b").as_string().unwrap(), "b");
    assert_eq!(entry(&document, "c").as_string().unwrap(), "c");
    assert_eq!(entry(&document, "list").size(), 2);
    assert_eq!(entry(&document, "map").size(), 1);
    assert_eq!(document.size(), 5);
}

#[test]
fn roundtrip_shape() {
    let schema = schema();
    let value = serialize_me(&schema, "a", "b", Some("c"), vec!["a", "b"], vec![("a", "b")]);
    assert!(same(&roundtrip(&schema, &value), &value));
}

#[test]
fn roundtrip_bool() {
    let schema = prelude_schema(ShapeType::Boolean);
    let original = ShapeValue::Boolean(true);
    assert!(same(&roundtrip(&schema, &original), &original));
}

#[test]
fn roundtrip_string() {
    let original = s("hello world");
    assert!(same(&roundtrip(&string(), &original), &original));
}

#[test]
fn roundtrip_integers() {
    let cases = [
        (ShapeType::Byte, ShapeValue::Byte(127)),
        (ShapeType::Short, ShapeValue::Short(32000)),
        (ShapeType::Integer, ShapeValue::Integer(123_456)),
        (ShapeType::Long, ShapeValue::Long(9_876_543_210)),
    ];
    for (t, original) in cases.iter() {
        let schema = prelude_schema(*t);
        assert!(same(&roundtrip(&schema, original), original));
    }
}

#[test]
fn roundtrip_floats() {
    let original_float = 1.2345f32;
    let doc = to_document(
        &prelude_schema(ShapeType::Float),
        &ShapeValue::Float(original_float.to_bits(), original_float.to_string()),
    )
    .ok()
    .unwrap();
    match doc.value() {
        DefaultDocumentValue::Number(NumberValue::Float(NumberFloat::Float(bits))) => {
            assert_eq!(f32::from_bits(*bits), original_float)
        }
        _ => panic!("expected a float document"),
    }
    let original_double = 1.23456789f64;
    let doc = to_document(
        &prelude_schema(ShapeType::Double),
        &ShapeValue::Double(original_double.to_bits(), original_double.to_string()),
    )
    .ok()
    .unwrap();
    match doc.value() {
        DefaultDocumentValue::Number(NumberValue::Float(NumberFloat::Double(bits))) => {
            assert_eq!(f64::from_bits(*bits), original_double)
        }
        _ => panic!("expected a double document"),
    }
}

#[test]
fn roundtrip_list() {
    let original = ShapeValue::List(vec![s("first"), s("second"), s("third")]);
    assert!(same(&roundtrip(&list_schema(), &original), &original));
}

#[test]
fn roundtrip_map() {
    let original = ShapeValue::MapValue(vec![
        (s("key1"), s("value1")),
        (s("key2"), s("value2")),
        (s("key3"), s("value3")),
    ]);
    assert!(same(&roundtrip(&map_schema(), &original), &original));
}

#[test]
fn roundtrip_struct() {
    let schema = schema();
    let value = serialize_me(
        &schema,
        "value_a",
        "value_b",
        Some("value_c"),
        vec!["listitem1", "listitem2", "listitem3"],
        vec![("mapkey1", "mapvalue1"), ("mapkey2", "mapvalue2")],
    );
    let doc = to_document(&schema, &value).ok().unwrap();
    let read = |name: &str| from_document(schema.get_member(name).unwrap(), entry(&doc, name)).ok().unwrap();
    assert!(same(&read("a"), &s("value_a")));
    assert!(same(&read("b"), &s("value_b")));
    assert!(same(&read("c"), &s("value_c")));
    assert!(same(
        &read("list"),
        &ShapeValue::List(vec![s("listitem1"), s("listitem2"), s("listitem3")])
    ));
    assert!(same(
        &read("map"),
        &ShapeValue::MapValue(vec![(s("mapkey1"), s("mapvalue1")), (s("mapkey2"), s("mapvalue2"))])
    ));
}

#[test]
fn roundtrip_option() {
    let some = s("test");
    assert!(same(&roundtrip(&string(), &some), &some));
    // an absent value is written as the null document and read back as null
    let doc = to_document(&string(), &ShapeValue::Skip).ok().unwrap();
    assert!(doc.is_null());
    assert!(same(&from_document(&string(), &doc).ok().unwrap(), &ShapeValue::Null));
}

#[test]
fn fmt_document_conversion_retains_redaction() {
    let schema = Schema::structure_builder(ShapeId::from("com.example#Shape"), vec![])
        .put_member("map", &map_schema(), vec![annotation::<SensitiveTrait>()])
        .put_member("list", &list_schema(), vec![annotation::<SensitiveTrait>()])
        .build();
    let m = |n: &str| schema.get_member(n).unwrap().clone();
    let value = ShapeValue::Struct(vec![
        (m("list"), ShapeValue::List(vec![s("a"), s("b")])),
        (m("map"), ShapeValue::MapValue(vec![(s("a"), s("b"))])),
    ]);
    let document = to_document(&schema, &value).ok().unwrap();
    let read = from_document(&schema, &document).ok().unwrap();
    let output = to_string(&schema, &read).ok().expect("serialization failed");
    assert_eq!(output, "Shape[list=[**REDACTED**], map={**REDACTED**}]");
}

#[test]
fn later_map_entries_replace_earlier_ones() {
    let value = ShapeValue::MapValue(vec![(s("k"), s("one")), (s("j"), s("x")), (s("k"), s("two"))]);
    let doc = to_document(&map_schema(), &value).ok().unwrap();
    let entries = doc.as_map().unwrap();
    assert_eq!(entries.len(), 2);
    assert_eq!(entries[0].0, "k");
    assert_eq!(entries[0].1.as_string().unwrap(), "two");
    assert_eq!(entries[1].0, "j");
}

#[test]
fn integer_keys_are_written_as_text() {
    let schema = Schema::map_builder(ShapeId::from("com.example#IntMap"), vec![])
        .put_member("key", &prelude_schema(ShapeType::Integer), vec![])
        .put_member("value", &string(), vec![])
        .build();
    let value = ShapeValue::MapValue(vec![(ShapeValue::Integer(-12), s("v"))]);
    let doc = to_document(&schema, &value).ok().unwrap();
    assert_eq!(doc.as_map().unwrap()[0].0, "-12");
    let bad = ShapeValue::MapValue(vec![(ShapeValue::Boolean(true), s("v"))]);
    match to_document(&schema, &bad) {
        Err(e) => assert_eq!(e.message(), "Encountered error: Invalid key type: Integer"),
        Ok(_) => panic!("a boolean is no key"),
    }
}

#[test]
fn members_need_member_schemas() {
    let value = ShapeValue::Struct(vec![(string(), s("x"))]);
    match to_document(&schema(), &value) {
        Err(e) => assert_eq!(
            e.message(),
            "Failed to convert document to type Expected member schema!"
        ),
        Ok(_) => panic!("a structure member needs a member schema"),
    }
}

#[test]
fn reading_checks_the_schema_type() {
    let doc = Document::from_str("x");
    match from_document(&prelude_schema(ShapeType::Integer), &doc) {
        Err(e) => assert_eq!(
            e.message(),
            "Failed to convert document to type Expected integer document"
        ),
        Ok(_) => panic!("a string is no integer"),
    }
    // a long that fits is read as a byte
    let long = Document::from_i64(7);
    assert!(same(
        &from_document(&prelude_schema(ShapeType::Byte), &long).ok().unwrap(),
        &ShapeValue::Byte(7)
    ));
    // unknown entries are left out of a structure
    let schema = schema();
    let doc = Document::from_map(vec![
        ("zzz".to_string(), Document::from_str("ignored")),
        ("a".to_string(), Document::from_str("kept")),
    ]);
    let read = from_document(&schema, &doc).ok().unwrap();
    match read {
        ShapeValue::Struct(members) => {
            assert_eq!(members.len(), 1);
            assert_eq!(members[0].0.id().id(), "com.example#Shape$a");
        }
        _ => panic!("expected a structure"),
    }
}

#[test]
fn documents_copy_deeply() {
    let doc = Document::from_list(vec![Document::from_i32(1), Document::from_str("two")]);
    let copy = doc.copy();
    assert!(doc.equals(&copy));
    assert_eq!(copy.size(), 2);
    assert_eq!(copy.as_list().unwrap()[1].as_string().unwrap(), "two");
}
