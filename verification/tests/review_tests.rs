use smithy4rs_core::assertions::assert_contains_all;
use smithy4rs_core::builders::Required;
use smithy4rs_core::documents::{Document, DocumentError};
use smithy4rs_core::fmt::{debug_redacted, to_string};
use smithy4rs_core::numbers::{decimal_to_int, Decimal};
use smithy4rs_core::prelude::{annotation, LengthTrait, RangeTrait, SensitiveTrait};
use smithy4rs_core::schema::{prelude_schema, Schema, SchemaRef};
use smithy4rs_core::shapes::{ShapeId, ShapeType};
use smithy4rs_core::validation::DefaultValidator;
use smithy4rs_core::values::ShapeValue;

fn string() -> SchemaRef {
    prelude_schema(ShapeType::String)
}

fn s(v: &str) -> ShapeValue {
    ShapeValue::String(v.to_string())
}

#[test]
fn decimal_integer_parts() {
    let d = |unscaled: i128, scale: i64| Decimal { unscaled, scale };
    assert_eq!(decimal_to_int(&d(12345, 2), -1000, 1000), Some(123));
    assert_eq!(decimal_to_int(&d(-12345, 2), -1000, 1000), Some(-123));
    assert_eq!(decimal_to_int(&d(7, -3), -10000, 10000), Some(7000));
    assert_eq!(decimal_to_int(&d(7, -3), -1000, 1000), None);
    assert_eq!(decimal_to_int(&d(128, 0), -128, 127), None);
    assert_eq!(decimal_to_int(&d(-128, 0), -128, 127), Some(-128));
    assert_eq!(decimal_to_int(&d(0, i64::MIN), -1, 1), Some(0));
    // extreme scales finish at once
    assert_eq!(decimal_to_int(&d(1, i64::MIN), i64::MIN, i64::MAX), None);
    assert_eq!(decimal_to_int(&d(-5, i64::MIN), i64::MIN, i64::MAX), None);
    assert_eq!(decimal_to_int(&d(i128::MAX, i64::MAX), i64::MIN, i64::MAX), Some(0));
    assert_eq!(decimal_to_int(&d(i128::MIN, 1), i64::MIN, i64::MAX), None);
    assert_eq!(decimal_to_int(&d(i128::MIN, 30), i64::MIN, i64::MAX), Some(-170141183));
}

#[test]
fn range_bounds_with_extreme_scales_are_skipped() {
    let range = RangeTrait::new(
        Some(Decimal { unscaled: 1, scale: i64::MIN }),
        Some(Decimal { unscaled: 1, scale: i64::MAX }),
    )
    .to_trait();
    let schema = Schema::create_integer(ShapeId::from("com.test#Odd"), vec![range]);
    let mut validator = DefaultValidator::new();
    assert!(validator.validate(&schema, &ShapeValue::Integer(5)).is_ok());
}

#[test]
fn length_defaults() {
    let l = LengthTrait::new(Some(1), None);
    assert_eq!(l.min(), 1);
    assert_eq!(l.max(), usize::MAX);
    assert_eq!(LengthTrait::new(None, Some(4)).max(), 4usize);
    assert_eq!(LengthTrait::new(None, None).min(), 0);
}

#[test]
fn unset_required_values_are_corrected_to_defaults() {
    assert!(!Required::<bool>::Unset.get());
    assert!(Required::Provided(true).get());
    assert_eq!(Required::<i32>::Unset.get(), 0);
    assert_eq!(Required::<String>::Unset.get(), "");
}

#[test]
fn contains_all_checks_every_name() {
    assert_contains_all(&["a", "b", "c"], &["c", "a"]);
    assert_contains_all(&["a", "b", "c"], &[]);
}

#[test]
fn any_two_lists_compare_equal() {
    let a = Document::from_list(vec![Document::from_i32(1), Document::from_str("x")]);
    let c = Document::from_list(vec![Document::from_i32(1), Document::from_str("y")]);
    let d = Document::from_list(vec![]);
    assert!(a.equals(&c));
    assert!(a.equals(&d));
}

#[test]
fn values_differing_in_sensitive_members_print_the_same() {
    let list = Schema::list_builder(ShapeId::from("com.example#List"), vec![])
        .put_member("member", &string(), vec![])
        .build();
    let schema = Schema::structure_builder(ShapeId::from("com.example#Shape"), vec![])
        .put_member("a", &string(), vec![])
        .put_member("secret", &string(), vec![annotation::<SensitiveTrait>()])
        .put_member("hidden", &list, vec![annotation::<SensitiveTrait>()])
        .build();
    let m = |n: &str| schema.get_member(n).unwrap().clone();
    let one = ShapeValue::Struct(vec![
        (m("a"), s("same")),
        (m("secret"), s("pw1")),
        (m("hidden"), ShapeValue::List(vec![s("x")])),
    ]);
    let two = ShapeValue::Struct(vec![
        (m("a"), s("same")),
        (m("secret"), s("other password")),
        (m("hidden"), ShapeValue::List(vec![s("y"), s("z")])),
    ]);
    let t1 = to_string(&schema, &one).ok().unwrap();
    let t2 = to_string(&schema, &two).ok().unwrap();
    assert_eq!(t1, t2);
    assert_eq!(t1, "Shape[a=same, secret=**REDACTED**, hidden=[**REDACTED**]]");
}

#[test]
fn debug_redaction_text() {
    let secret = Schema::create_string(
        ShapeId::from("com.example#Secret"),
        vec![annotation::<SensitiveTrait>()],
    );
    assert_eq!(debug_redacted(&secret, &s("x")), Some("**REDACTED**"));
    assert_eq!(debug_redacted(&secret, &ShapeValue::List(vec![])), Some("[**REDACTED**]"));
    assert_eq!(debug_redacted(&secret, &ShapeValue::MapValue(vec![])), Some("{**REDACTED**}"));
    assert_eq!(debug_redacted(&secret, &ShapeValue::Null), None);
    assert_eq!(debug_redacted(&string(), &s("x")), None);
}

#[test]
fn put_member_then_build_finds_the_member() {
    let schema = Schema::structure_builder(ShapeId::from("com.example#Shape"), vec![])
        .put_member("z", &string(), vec![])
        .put_member("y", &string(), vec![])
        .build();
    assert_eq!(schema.get_member("y").unwrap().id().id(), "com.example#Shape$y");
    assert_eq!(schema.get_member("z").unwrap().id().id(), "com.example#Shape$z");
    let list = Schema::list_builder(ShapeId::from("com.example#L"), vec![])
        .put_member("member", &string(), vec![])
        .build();
    assert_eq!(list.get_member("member").unwrap().id().id(), "com.example#L$member");
}

#[test]
fn unset_collections_are_corrected_to_empty_values() {
    assert!(Required::<Vec<i32>>::Unset.get().is_empty());
    assert_eq!(Required::Provided(vec![1, 2]).get(), vec![1, 2]);
    let map: Vec<(String, i32)> = Required::<Vec<(String, i32)>>::Unset.get();
    assert!(map.is_empty());
    assert_eq!(*Required::<Box<i32>>::Unset.get(), 0);
    assert_eq!(*Required::<Box<String>>::Unset.get(), "");
    assert_eq!(*Required::Provided(Box::new(7i64)).get(), 7);
}

fn strings_or_message(doc: Document) -> Result<Vec<String>, String> {
    match doc.value.into_strings() {
        Ok(v) => Ok(v),
        Err(DocumentError::DocumentConversion(m)) => Err(m),
        Err(_) => Err(String::new()),
    }
}

#[test]
fn string_list_document_converts_to_strings() {
    let original = vec!["first".to_string(), "second".to_string(), "third".to_string()];
    let doc = Document::from_list(original.iter().map(|x| Document::from_str(x)).collect());
    assert_eq!(strings_or_message(doc), Ok(original));
    let empty = Document::from_list(vec![]);
    assert_eq!(strings_or_message(empty), Ok(vec![]));
}

#[test]
fn string_list_conversion_errors() {
    let mixed = Document::from_list(vec![Document::from_str("a"), Document::from_i32(3)]);
    assert_eq!(
        strings_or_message(mixed),
        Err("Expected string document".to_string())
    );
    assert_eq!(
        strings_or_message(Document::from_str("a")),
        Err("Expected list document".to_string())
    );
}

#[test]
fn document_values_compare_by_type_and_content() {
    let a = Document::from_i32(1);
    let b = Document::from_i32(1);
    let c = Document::from_i32(2);
    let d = Document::from_str("1");
    assert!(a.value.equals(&b.value));
    assert!(!a.value.equals(&c.value));
    assert!(!a.value.equals(&d.value));
    assert!(a.equals(&b));
    assert!(!a.equals(&c));
}

fn layout_of(schema: &SchemaRef) -> Vec<(String, String, usize)> {
    let s = schema.as_struct().unwrap();
    s.members
        .iter()
        .map(|(n, m)| (n.clone(), m.id().id().to_string(), m.as_member().unwrap().index))
        .collect()
}

#[test]
fn equal_builders_build_the_same_schema() {
    let make = || {
        Schema::structure_builder(ShapeId::from("com.example#Twice"), vec![])
            .put_member("b", &string(), vec![])
            .put_member("a", &string(), vec![])
            .build()
    };
    let first = make();
    let second = make();
    assert_eq!(first.id().id(), second.id().id());
    assert_eq!(layout_of(&first), layout_of(&second));
    assert_eq!(
        layout_of(&first),
        vec![
            ("b".to_string(), "com.example#Twice$b".to_string(), 0),
            ("a".to_string(), "com.example#Twice$a".to_string(), 1),
        ]
    );
}

#[test]
fn map_members_are_found_under_key_and_value() {
    let map = Schema::map_builder(ShapeId::from("com.example#M"), vec![])
        .put_member("key", &string(), vec![])
        .put_member("value", &prelude_schema(ShapeType::Integer), vec![])
        .build();
    assert_eq!(map.get_member("key").unwrap().id().id(), "com.example#M$key");
    assert_eq!(map.get_member("value").unwrap().id().id(), "com.example#M$value");
    assert_eq!(map.get_member("value").unwrap().shape_type(), ShapeType::Integer);
}
