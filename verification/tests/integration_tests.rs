use smithy4rs_core::fmt::to_string;
use smithy4rs_core::schema::{prelude_schema, Schema, SchemaRef};
use smithy4rs_core::shapes::{ShapeId, ShapeType};
use smithy4rs_core::values::ShapeValue;

fn string() -> SchemaRef {
    prelude_schema(ShapeType::String)
}

fn shape_schema() -> SchemaRef {
    let map = Schema::map_builder(ShapeId::from("com.example#Map"), vec![])
        .put_member("key", &string(), vec![])
        .put_member("value", &string(), vec![])
        .build();
    let list = Schema::list_builder(ShapeId::from("com.example#List"), vec![])
        .put_member("member", &string(), vec![])
        .build();
    Schema::structure_builder(ShapeId::from("com.example#Shape"), vec![])
        .put_member("a", &string(), vec![])
        .put_member("b", &string(), vec![])
        .put_member("list", &list, vec![])
        .put_member("map", &map, vec![])
        .build()
}

#[test]
fn test_fmt_serializer() {
    let schema = shape_schema();
    let m = |n: &str| schema.get_member(n).unwrap().clone();
    let s = |v: &str| ShapeValue::String(v.to_string());
    let value = ShapeValue::Struct(vec![
        (m("a"), s("Hello")),
        (m("b"), s("World")),
        (m("list"), ShapeValue::List(vec![s("s"), s("e")])),
        (
            m("map"),
            ShapeValue::MapValue(vec![(s("a"), s("b")), (s("c"), s("d")), (s("e"), s("f"))]),
        ),
    ]);
    let out = to_string(&schema, &value).ok().unwrap();
    assert_eq!(out, "Shape[a=Hello, b=World, list=[s, e], map={a:b, c:d, e:f}]");
}

#[test]
fn test_struct_deserialization() {}
