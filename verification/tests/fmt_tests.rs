use smithy4rs_core::fmt::to_string;
use smithy4rs_core::numbers::{Decimal, Timestamp};
use smithy4rs_core::prelude::{annotation, SensitiveTrait};
use smithy4rs_core::schema::{prelude_schema, Schema, SchemaRef};
use smithy4rs_core::shapes::{ShapeId, ShapeType};
use smithy4rs_core::values::ShapeValue;

fn string() -> SchemaRef {
    prelude_schema(ShapeType::String)
}

fn map_schema() -> SchemaRef {
    Schema::map_builder(ShapeId::from("com.example#Map"), vec![])
        .put_member("key", &string(), vec![])
        .put_member("value", &string(), vec![])
        .build()
}

fn list_schema() -> SchemaRef {
    Schema::list_builder(ShapeId::from("com.example#List"), vec![])
        .put_member("member", &string(), vec![])
        .build()
}

fn schema() -> SchemaRef {
    Schema::structure_builder(ShapeId::from("com.example#Shape"), vec![])
        .put_member("a", &string(), vec![])
        .put_member("b", &string(), vec![annotation::<SensitiveTrait>()])
        .put_member("c", &string(), vec![])
        .put_member("map", &map_schema(), vec![])
        .put_member("list", &list_schema(), vec![])
        .build()
}

fn redacted_aggregates() -> SchemaRef {
    Schema::structure_builder(ShapeId::from("com.example#Shape"), vec![])
        .put_member("map", &map_schema(), vec![annotation::<SensitiveTrait>()])
        .put_member("list", &list_schema(), vec![annotation::<SensitiveTrait>()])
        .build()
}

fn s(v: &str) -> ShapeValue {
    ShapeValue::String(v.to_string())
}

/// A `SerializeMe`: members are written in the order of its fields.
fn serialize_me(
    schema: &SchemaRef,
    optional: Option<&str>,
    list: Vec<&str>,
    map: Vec<(&str, &str)>,
) -> ShapeValue {
    let m = |n: &str| schema.get_member(n).unwrap().clone();
    let mut members = vec![(m("a"), s("a")), (m("b"), s("b"))];
    if let Some(c) = optional {
        members.push((m("c"), s(c)));
    }
    members.push((m("list"), ShapeValue::List(list.into_iter().map(s).collect())));
    members.push((
        m("map"),
        ShapeValue::MapValue(map.into_iter().map(|(k, v)| (s(k), s(v))).collect()),
    ));
    ShapeValue::Struct(members)
}

#[test]
fn fmt_serializer_all() {
    let schema = schema();
    let value = serialize_me(&schema, Some("c"), vec!["a", "b"], vec![("a", "b")]);
    let output = to_string(&schema, &value).ok().expect("serialization failed");
    assert_eq!(output, "Shape[a=a, b=**REDACTED**, c=c, list=[a, b], map={a:b}]");
}

#[test]
fn fmt_serializer_omits_none() {
    let schema = schema();
    let value = serialize_me(&schema, None, vec![], vec![]);
    let output = to_string(&schema, &value).ok().expect("serialization failed");
    assert_eq!(output, "Shape[a=a, b=**REDACTED**, list=[], map={}]");
}

#[test]
fn fmt_redacts_aggregates() {
    let schema = redacted_aggregates();
    let m = |n: &str| schema.get_member(n).unwrap().clone();
    let value = ShapeValue::Struct(vec![
        (m("list"), ShapeValue::List(vec![s("a"), s("b")])),
        (m("map"), ShapeValue::MapValue(vec![(s("a"), s("b"))])),
    ]);
    let output = to_string(&schema, &value).ok().expect("serialization failed");
    assert_eq!(output, "Shape[list=[**REDACTED**], map={**REDACTED**}]");
}

#[test]
fn fmt_sensitive_structure_keeps_only_its_name() {
    let inner = Schema::structure_builder(
        ShapeId::from("com.example#Secret"),
        vec![annotation::<SensitiveTrait>()],
    )
    .put_member("x", &string(), vec![])
    .build();
    let value = ShapeValue::Struct(vec![(inner.get_member("x").unwrap().clone(), s("hidden"))]);
    let output = to_string(&inner, &value).ok().unwrap();
    assert_eq!(output, "Secret[**REDACTED**]");
}

#[test]
fn fmt_scalars() {
    let int = prelude_schema(ShapeType::Integer);
    assert_eq!(to_string(&int, &ShapeValue::Integer(-42)).ok().unwrap(), "-42");
    let boolean = prelude_schema(ShapeType::Boolean);
    assert_eq!(to_string(&boolean, &ShapeValue::Boolean(true)).ok().unwrap(), "true");
    let long = prelude_schema(ShapeType::Long);
    assert_eq!(
        to_string(&long, &ShapeValue::Long(i64::MIN)).ok().unwrap(),
        "-9223372036854775808"
    );
    let dec = prelude_schema(ShapeType::BigDecimal);
    let d = Decimal { unscaled: 12345, scale: 2 };
    assert_eq!(to_string(&dec, &ShapeValue::BigDecimal(d)).ok().unwrap(), "123.45");
    let ts = prelude_schema(ShapeType::Timestamp);
    let t = Timestamp { epoch_nanos: 1_500_000_000_000 };
    assert_eq!(to_string(&ts, &ShapeValue::Timestamp(t)).ok().unwrap(), "1500");
    let double = prelude_schema(ShapeType::Double);
    let x = 1.5f64;
    assert_eq!(
        to_string(&double, &ShapeValue::Double(x.to_bits(), x.to_string())).ok().unwrap(),
        "1.5"
    );
    assert_eq!(to_string(&string(), &ShapeValue::Null).ok().unwrap(), "null");
}
