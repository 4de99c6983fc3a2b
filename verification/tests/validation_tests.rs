use smithy4rs_core::prelude::{annotation, LengthTrait, PatternTrait, UniqueItemsTrait};
use smithy4rs_core::schema::{prelude_schema, Schema, SchemaRef};
use smithy4rs_core::shapes::{ShapeId, ShapeType};
use smithy4rs_core::traits::TraitRef;
use smithy4rs_core::validation::{
    DefaultValidator, PathElement, SmithyConstraints, ValidationError, ValidationErrors,
};
use smithy4rs_core::values::ShapeValue;

fn string() -> SchemaRef {
    prelude_schema(ShapeType::String)
}

fn integer() -> SchemaRef {
    prelude_schema(ShapeType::Integer)
}

fn max_length(max: i64) -> TraitRef {
    LengthTrait::new(None, Some(max)).to_trait()
}

fn pattern(p: &str) -> TraitRef {
    PatternTrait::new(p).ok().unwrap().to_trait()
}

fn s(v: &str) -> ShapeValue {
    ShapeValue::String(v.to_string())
}

/// A path written as text: member ids, `[i]` for indexes and `{k}` for keys.
fn path_text(path: &[PathElement]) -> Vec<String> {
    path.iter()
        .map(|p| match p {
            PathElement::Schema(m) => m.id().id().to_string(),
            PathElement::Index(i) => format!("[{}]", i),
            PathElement::Key(k) => format!("{{{}}}", k),
        })
        .collect()
}

fn errors_of(schema: &SchemaRef, value: &ShapeValue) -> ValidationErrors {
    let mut validator = DefaultValidator::new();
    match validator.validate(schema, value) {
        Err(e) => e,
        Ok(()) => panic!("Expected an error"),
    }
}

fn validates(schema: &SchemaRef, value: &ShapeValue) {
    let mut validator = DefaultValidator::new();
    if validator.validate(schema, value).is_err() {
        panic!("Failed to validate");
    }
}

// ==== Basic shape validations ====

fn list_schema() -> SchemaRef {
    Schema::list_builder(
        ShapeId::from("com.test#ValidatedList"),
        vec![max_length(3), annotation::<UniqueItemsTrait>()],
    )
    .put_member("member", &string(), vec![max_length(4)])
    .build()
}

fn map_schema() -> SchemaRef {
    Schema::map_builder(ShapeId::from("com.test#ValidatedMap"), vec![max_length(2)])
        .put_member("key", &string(), vec![pattern("^[a-zA-Z]*$")])
        .put_member("value", &string(), vec![max_length(4)])
        .build()
}

fn basic_schema() -> SchemaRef {
    Schema::structure_builder(ShapeId::from("com.test#ValidationStruct"), vec![])
        .put_member("a", &string(), vec![pattern("^[a-zA-Z]*$")])
        .put_member("b", &integer(), vec![])
        .put_member("list", &list_schema(), vec![])
        .put_member("map", &map_schema(), vec![])
        .build()
}

/// A `SimpleStruct`: `a` is required, the others are optional.
fn simple_struct(
    schema: &SchemaRef,
    a: Option<&str>,
    b: Option<i32>,
    list: Option<Vec<&str>>,
    map: Option<Vec<(&str, &str)>>,
) -> ShapeValue {
    let m = |n: &str| schema.get_member(n).unwrap().clone();
    let mut members = vec![(
        m("a"),
        match a {
            Some(v) => s(v),
            None => ShapeValue::Missing,
        },
    )];
    if let Some(b) = b {
        members.push((m("b"), ShapeValue::Integer(b)));
    }
    if let Some(list) = list {
        members.push((m("list"), ShapeValue::List(list.into_iter().map(s).collect())));
    }
    if let Some(map) = map {
        members.push((
            m("map"),
            ShapeValue::MapValue(map.into_iter().map(|(k, v)| (s(k), s(v))).collect()),
        ));
    }
    ShapeValue::Struct(members)
}

#[test]
fn test_validation_errors_aggregate() {
    let mut errors = ValidationErrors::new();
    let path = vec![PathElement::Schema(string())];
    errors.add(&path, ValidationError::Constraint(SmithyConstraints::Required));
    errors.add(&path, ValidationError::Constraint(SmithyConstraints::Length(1, 2, 3)));
    errors.add(&path, ValidationError::Constraint(SmithyConstraints::Required));
    assert_eq!(errors.errors.len(), 3);
    assert_eq!(&errors.errors[0].error.message(), "Field is Required.");
    assert_eq!(
        &errors.errors[1].error.message(),
        "Size: 1 does not conform to @length constraint. Expected between 2 and 3."
    );
    assert_eq!(&errors.errors[2].error.message(), "Field is Required.");
}

#[test]
fn builds_if_no_errors() {
    let schema = basic_schema();
    validates(&schema, &simple_struct(&schema, Some("fieldA"), None, None, None));
}

#[test]
fn required_fields_are_validated() {
    let schema = basic_schema();
    let err = errors_of(&schema, &simple_struct(&schema, None, None, None, None));
    assert_eq!(err.errors.len(), 1);
    let error_field_a = err.errors.first().unwrap();
    assert_eq!(path_text(&error_field_a.paths), vec!["com.test#ValidationStruct$a"]);
    assert_eq!(error_field_a.error.message(), "Field is Required.".to_string());
}

#[test]
fn basic_string_validations_are_performed() {
    let schema = basic_schema();
    let value = simple_struct(
        &schema,
        Some("field-a"),
        None,
        Some(vec!["too long of a string"]),
        None,
    );
    let err = errors_of(&schema, &value);
    assert_eq!(err.errors.len(), 2);
    let error_pattern = err.errors.first().unwrap();
    assert_eq!(path_text(&error_pattern.paths), vec!["com.test#ValidationStruct$a"]);
    assert_eq!(
        error_pattern.error.message(),
        "Value `field-a` did not conform to expected pattern `^[a-zA-Z]*$`".to_string()
    );
    let error_length = err.errors.get(1).unwrap();
    assert_eq!(
        path_text(&error_length.paths),
        vec!["com.test#ValidationStruct$list", "[0]"]
    );
    assert_eq!(
        error_length.error.message(),
        "Size: 20 does not conform to @length constraint. Expected between 0 and 4.".to_string()
    );
}

#[test]
fn required_field_does_not_short_circuit_validation() {
    let schema = basic_schema();
    let value = simple_struct(&schema, None, None, Some(vec!["too long of a string"]), None);
    let err = errors_of(&schema, &value);
    assert_eq!(err.errors.len(), 2);
    let error_required = err.errors.first().unwrap();
    let error_length = err.errors.get(1).unwrap();
    assert_eq!(path_text(&error_required.paths), vec!["com.test#ValidationStruct$a"]);
    assert_eq!(error_required.error.message(), "Field is Required.".to_string());
    assert_eq!(
        path_text(&error_length.paths),
        vec!["com.test#ValidationStruct$list", "[0]"]
    );
    assert_eq!(
        error_length.error.message(),
        "Size: 20 does not conform to @length constraint. Expected between 0 and 4.".to_string()
    );
}

#[test]
fn list_constraints_checked() {
    let schema = basic_schema();
    let value = simple_struct(
        &schema,
        Some("fieldA"),
        None,
        Some(vec!["a", "b", "c", "a", "d"]),
        None,
    );
    let err = errors_of(&schema, &value);
    assert_eq!(err.errors.len(), 2);
    let error_length = err.errors.first().unwrap();
    assert_eq!(path_text(&error_length.paths), vec!["com.test#ValidationStruct$list"]);
    assert_eq!(
        error_length.error.message(),
        "Size: 5 does not conform to @length constraint. Expected between 0 and 3.".to_string()
    );
    let error_unique = err.errors.get(1).unwrap();
    assert_eq!(
        path_text(&error_unique.paths),
        vec!["com.test#ValidationStruct$list", "[3]"]
    );
    assert_eq!(
        error_unique.error.message(),
        "Items in collection should be unique.".to_string()
    );
}

#[test]
fn map_constraints_checked() {
    let schema = basic_schema();
    let value = simple_struct(
        &schema,
        Some("fieldA"),
        None,
        None,
        Some(vec![("bad-key", "a"), ("a", "value is too long!"), ("b", "a")]),
    );
    let err = errors_of(&schema, &value);
    assert_eq!(err.errors.len(), 3);
    let error_length = err.errors.first().unwrap();
    assert_eq!(path_text(&error_length.paths), vec!["com.test#ValidationStruct$map"]);
    assert_eq!(
        error_length.error.message(),
        "Size: 3 does not conform to @length constraint. Expected between 0 and 2.".to_string()
    );
    let error_key = err.errors.get(1).unwrap();
    assert_eq!(
        path_text(&error_key.paths),
        vec!["com.test#ValidationStruct$map", "{bad-key}"]
    );
    assert_eq!(
        error_key.error.message(),
        "Value `bad-key` did not conform to expected pattern `^[a-zA-Z]*$`".to_string()
    );
    let error_value = err.errors.get(2).unwrap();
    assert_eq!(
        path_text(&error_value.paths),
        vec!["com.test#ValidationStruct$map", "{a}"]
    );
    assert_eq!(
        error_value.error.message(),
        "Size: 18 does not conform to @length constraint. Expected between 0 and 4.".to_string()
    );
}

// ==== Nested shape validations ====

fn nested_schema() -> SchemaRef {
    Schema::structure_builder(ShapeId::from("test#ValidationStruct"), vec![])
        .put_member("c", &string(), vec![pattern("^[a-z]*$")])
        .build()
}

fn nested(schema: &SchemaRef, c: &str) -> ShapeValue {
    ShapeValue::Struct(vec![(schema.get_member("c").unwrap().clone(), s(c))])
}

fn struct_with_nested_schema(nested: &SchemaRef) -> SchemaRef {
    Schema::structure_builder(ShapeId::from("test#StructWithNested"), vec![])
        .put_member("nested", nested, vec![])
        .put_member("required", nested, vec![])
        .build()
}

fn struct_with_nested(schema: &SchemaRef, nested_schema: &SchemaRef, c: &str) -> ShapeValue {
    ShapeValue::Struct(vec![(
        schema.get_member("required").unwrap().clone(),
        nested(nested_schema, c),
    )])
}

#[test]
fn nested_struct_fields_build_if_no_errors() {
    let n = nested_schema();
    let schema = struct_with_nested_schema(&n);
    validates(&schema, &struct_with_nested(&schema, &n, "field"));
}

#[test]
fn nested_struct_fields_build_with_pre_built_shape() {
    let n = nested_schema();
    let built_nested = nested(&n, "field");
    validates(&n, &built_nested);
    let schema = struct_with_nested_schema(&n);
    let value = ShapeValue::Struct(vec![(schema.get_member("required").unwrap().clone(), built_nested)]);
    validates(&schema, &value);
}

#[test]
fn nested_struct_fields_checked() {
    let n = nested_schema();
    let schema = struct_with_nested_schema(&n);
    let err = errors_of(&schema, &struct_with_nested(&schema, &n, "dataWithCaps"));
    assert_eq!(err.errors.len(), 1);
    let error_pattern = err.errors.first().unwrap();
    assert_eq!(
        path_text(&error_pattern.paths),
        vec!["test#StructWithNested$required", "test#ValidationStruct$c"]
    );
    assert_eq!(
        error_pattern.error.message(),
        "Value `dataWithCaps` did not conform to expected pattern `^[a-z]*$`".to_string()
    );
}

// ==== Nested list validations ====

fn list_of(id: &str, member: &SchemaRef, max: Option<i64>, unique: bool) -> SchemaRef {
    let mut traits = vec![];
    if let Some(max) = max {
        traits.push(max_length(max));
    }
    if unique {
        traits.push(annotation::<UniqueItemsTrait>());
    }
    Schema::list_builder(ShapeId::from(id), traits)
        .put_member("member", member, vec![])
        .build()
}

fn map_of(id: &str, value: &SchemaRef, max: Option<i64>) -> SchemaRef {
    let mut traits = vec![];
    if let Some(max) = max {
        traits.push(max_length(max));
    }
    Schema::map_builder(ShapeId::from(id), traits)
        .put_member("key", &string(), vec![])
        .put_member("value", value, vec![])
        .build()
}

fn struct_with_nested_list_schema(n: &SchemaRef) -> SchemaRef {
    let list_of_nested = list_of("com.example#ListOfNested", n, Some(3), false);
    let list_of_list = list_of("com.example#ListOfList", &list_of_nested, Some(2), false);
    let list_of_list_of_list =
        list_of("com.example#ListOfListOfList", &list_of_list, Some(2), false);
    Schema::structure_builder(ShapeId::from("test#StructWithNestedList"), vec![])
        .put_member("list", &list_of_nested, vec![])
        .put_member("list_required", &list_of_nested, vec![])
        .put_member("deeply_nested", &list_of_list_of_list, vec![])
        .build()
}

fn nested_list(n: &SchemaRef, cs: &[&str]) -> ShapeValue {
    ShapeValue::List(cs.iter().map(|c| nested(n, c)).collect())
}

#[test]
fn nested_struct_list_build_if_no_errors() {
    let n = nested_schema();
    let schema = struct_with_nested_list_schema(&n);
    let value = ShapeValue::Struct(vec![(
        schema.get_member("list_required").unwrap().clone(),
        nested_list(&n, &["data"]),
    )]);
    validates(&schema, &value);
}

#[test]
fn nested_struct_list_fields_build_with_pre_built_shapes() {
    let n = nested_schema();
    let a = nested(&n, "a");
    let b = nested(&n, "b");
    validates(&n, &a);
    validates(&n, &b);
    let schema = struct_with_nested_list_schema(&n);
    let value = ShapeValue::Struct(vec![(
        schema.get_member("list_required").unwrap().clone(),
        ShapeValue::List(vec![a, b]),
    )]);
    validates(&schema, &value);
}

#[test]
fn nested_struct_list_checked() {
    let n = nested_schema();
    let schema = struct_with_nested_list_schema(&n);
    let value = ShapeValue::Struct(vec![(
        schema.get_member("list_required").unwrap().clone(),
        nested_list(&n, &["a", "b", "dataWithCaps", "b"]),
    )]);
    let err = errors_of(&schema, &value);
    assert_eq!(err.errors.len(), 2);
    let error_length = err.errors.first().unwrap();
    assert_eq!(
        path_text(&error_length.paths),
        vec!["test#StructWithNestedList$list_required"]
    );
    assert_eq!(
        error_length.error.message(),
        "Size: 4 does not conform to @length constraint. Expected between 0 and 3.".to_string()
    );
    let error_pattern = err.errors.get(1).unwrap();
    assert_eq!(
        path_text(&error_pattern.paths),
        vec!["test#StructWithNestedList$list_required", "[2]", "test#ValidationStruct$c"]
    );
    assert_eq!(
        error_pattern.error.message(),
        "Value `dataWithCaps` did not conform to expected pattern `^[a-z]*$`".to_string()
    );
}

#[test]
fn deeply_nested_struct_list_checks_validation_rules() {
    let n = nested_schema();
    let schema = struct_with_nested_list_schema(&n);
    let deep = ShapeValue::List(vec![ShapeValue::List(vec![nested_list(&n, &["dataWithCaps"])])]);
    let value = ShapeValue::Struct(vec![
        (
            schema.get_member("list_required").unwrap().clone(),
            nested_list(&n, &["data"]),
        ),
        (schema.get_member("deeply_nested").unwrap().clone(), deep),
    ]);
    let err = errors_of(&schema, &value);
    assert_eq!(err.errors.len(), 1);
    let error_pattern = err.errors.first().unwrap();
    assert_eq!(
        path_text(&error_pattern.paths),
        vec![
            "test#StructWithNestedList$deeply_nested",
            "[0]",
            "[0]",
            "[0]",
            "test#ValidationStruct$c"
        ]
    );
    assert_eq!(
        error_pattern.error.message(),
        "Value `dataWithCaps` did not conform to expected pattern `^[a-z]*$`".to_string()
    );
}

// ==== `@uniqueItems` validations ====

#[test]
fn detects_duplicates_in_sets() {
    let n = nested_schema();
    let set_of_struct = list_of("com.example#SetOfStruct", &n, None, true);
    let set_of_string = list_of("com.example#SetOfString", &string(), None, true);
    let list_of_int = list_of("com.example#ListOfInt", &integer(), None, false);
    let set_of_list = list_of("com.example#SetOfList", &list_of_int, None, true);
    let map_of_int = map_of("com.example#MapOfInt", &integer(), None);
    let set_of_map = list_of("com.example#SetOfMap", &map_of_int, None, true);
    let schema = Schema::structure_builder(ShapeId::from("test#StructWithSets"), vec![])
        .put_member("set_of_struct", &set_of_struct, vec![])
        .put_member("set_of_simple", &set_of_string, vec![])
        .put_member("set_of_list", &set_of_list, vec![])
        .put_member("set_of_map", &set_of_map, vec![])
        .build();
    let m = |name: &str| schema.get_member(name).unwrap().clone();
    let ints = |xs: &[i32]| ShapeValue::List(xs.iter().map(|x| ShapeValue::Integer(*x)).collect());
    let int_map = |es: &[(&str, i32)]| {
        ShapeValue::MapValue(es.iter().map(|(k, v)| (s(k), ShapeValue::Integer(*v))).collect())
    };
    let value = ShapeValue::Struct(vec![
        (m("set_of_struct"), nested_list(&n, &["a", "b", "b"])),
        (
            m("set_of_simple"),
            ShapeValue::List(vec![s("Stuff"), s("Things"), s("Stuff")]),
        ),
        (
            m("set_of_list"),
            ShapeValue::List(vec![ints(&[1, 2, 3]), ints(&[4, 5, 6]), ints(&[1, 2, 3])]),
        ),
        (
            m("set_of_map"),
            ShapeValue::List(vec![
                int_map(&[("Stuff", 1), ("Things", 2)]),
                int_map(&[("Quux", 1), ("Other", 2)]),
                int_map(&[("Stuff", 1), ("Things", 2)]),
            ]),
        ),
    ]);
    let err = errors_of(&schema, &value);
    assert_eq!(err.errors.len(), 4);
    for e in &err.errors {
        assert_eq!(e.error.message(), "Items in collection should be unique.".to_string());
    }
    let expected = [
        "test#StructWithSets$set_of_struct",
        "test#StructWithSets$set_of_simple",
        "test#StructWithSets$set_of_list",
        "test#StructWithSets$set_of_map",
    ];
    for (e, member) in err.errors.iter().zip(expected.iter()) {
        assert_eq!(path_text(&e.paths), vec![member.to_string(), "[2]".to_string()]);
    }
}

// ==== Nested map validations ====

fn struct_with_nested_map_schema(n: &SchemaRef) -> SchemaRef {
    let map_of_nested = map_of("com.example#MapOfNested", n, Some(2));
    let map_of_map = map_of("com.example#MapOfMap", &map_of_nested, Some(2));
    let map_of_map_of_map = map_of("com.example#MapOfMapOfMap", &map_of_map, Some(2));
    Schema::structure_builder(ShapeId::from("test#StructWithNestedMap"), vec![])
        .put_member("optional", &map_of_nested, vec![])
        .put_member("required", &map_of_nested, vec![])
        .put_member("deeply_nested", &map_of_map_of_map, vec![])
        .build()
}

fn nested_map(n: &SchemaRef, es: &[(&str, &str)]) -> ShapeValue {
    ShapeValue::MapValue(es.iter().map(|(k, c)| (s(k), nested(n, c))).collect())
}

#[test]
fn nested_struct_map_build_if_no_errors() {
    let n = nested_schema();
    let schema = struct_with_nested_map_schema(&n);
    let value = ShapeValue::Struct(vec![(
        schema.get_member("required").unwrap().clone(),
        nested_map(&n, &[("a", "data")]),
    )]);
    validates(&schema, &value);
}

#[test]
fn nested_struct_map_fields_build_with_pre_built_shapes() {
    let n = nested_schema();
    let built = nested(&n, "data");
    validates(&n, &built);
    let schema = struct_with_nested_map_schema(&n);
    let value = ShapeValue::Struct(vec![(
        schema.get_member("required").unwrap().clone(),
        ShapeValue::MapValue(vec![(s("a"), built)]),
    )]);
    validates(&schema, &value);
}

#[test]
fn nested_struct_map_checked() {
    let n = nested_schema();
    let schema = struct_with_nested_map_schema(&n);
    let value = ShapeValue::Struct(vec![(
        schema.get_member("required").unwrap().clone(),
        nested_map(&n, &[("a", "a"), ("b", "dataWithCaps"), ("c", "c")]),
    )]);
    let err = errors_of(&schema, &value);
    assert_eq!(err.errors.len(), 2);
    let error_length = err.errors.first().unwrap();
    assert_eq!(path_text(&error_length.paths), vec!["test#StructWithNestedMap$required"]);
    assert_eq!(
        error_length.error.message(),
        "Size: 3 does not conform to @length constraint. Expected between 0 and 2.".to_string()
    );
    let error_pattern = err.errors.get(1).unwrap();
    assert_eq!(
        path_text(&error_pattern.paths),
        vec!["test#StructWithNestedMap$required", "{b}", "test#ValidationStruct$c"]
    );
    assert_eq!(
        error_pattern.error.message(),
        "Value `dataWithCaps` did not conform to expected pattern `^[a-z]*$`".to_string()
    );
}

#[test]
fn deeply_nested_struct_map_build_if_no_errors() {
    let n = nested_schema();
    let schema = struct_with_nested_map_schema(&n);
    let low = nested_map(&n, &[("a", "dataWithCaps")]);
    let mid = ShapeValue::MapValue(vec![(s("a"), low)]);
    let deep = ShapeValue::MapValue(vec![(s("a"), mid)]);
    let value = ShapeValue::Struct(vec![
        (
            schema.get_member("required").unwrap().clone(),
            nested_map(&n, &[("a", "a")]),
        ),
        (schema.get_member("deeply_nested").unwrap().clone(), deep),
    ]);
    let err = errors_of(&schema, &value);
    assert_eq!(err.errors.len(), 1);
    let error_pattern = err.errors.first().unwrap();
    assert_eq!(
        path_text(&error_pattern.paths),
        vec![
            "test#StructWithNestedMap$deeply_nested",
            "{a}",
            "{a}",
            "{a}",
            "test#ValidationStruct$c"
        ]
    );
    assert_eq!(
        error_pattern.error.message(),
        "Value `dataWithCaps` did not conform to expected pattern `^[a-z]*$`".to_string()
    );
}

// ==== Enum validations ====

#[test]
fn checks_string_against_enum_value() {
    let schema = Schema::create_enum(
        ShapeId::from("test#Enum"),
        vec!["a".to_string(), "b".to_string()],
        vec![],
    );
    let err = errors_of(&schema, &s("lies!"));
    assert_eq!(err.errors.len(), 1);
    let error_enum = err.errors.first().unwrap();
    assert_eq!(
        error_enum.error.message(),
        "Enum value `lies!` invalid. Expected one of: {\"a\", \"b\"}.".to_string()
    );
    validates(&schema, &s("a"));
}

#[test]
fn checks_int_against_int_enum_value() {
    let schema = Schema::create_int_enum(ShapeId::from("test#intEnum"), vec![1, 2], vec![]);
    let err = errors_of(&schema, &ShapeValue::Integer(4));
    assert_eq!(err.errors.len(), 1);
    let error_enum = err.errors.first().unwrap();
    assert_eq!(
        error_enum.error.message(),
        "Enum value `4` invalid. Expected one of: {1, 2}.".to_string()
    );
    validates(&schema, &ShapeValue::Integer(2));
}

// ==== Limits and other checks ====

#[test]
fn depth_limit_stops_validation() {
    let n = nested_schema();
    let schema = struct_with_nested_list_schema(&n);
    let deep = ShapeValue::List(vec![ShapeValue::List(vec![nested_list(&n, &["data"])])]);
    let value = ShapeValue::Struct(vec![(schema.get_member("deeply_nested").unwrap().clone(), deep)]);
    let mut validator = DefaultValidator::with_limits(3, 20);
    let err = match validator.validate(&schema, &value) {
        Err(e) => e,
        Ok(()) => panic!("Expected an error"),
    };
    assert_eq!(err.errors.len(), 1);
    assert_eq!(err.errors[0].error.message(), "Maximum Validation depth: 3 exceeded");
    // the same value validates within the default limit
    validates(&schema, &ShapeValue::Struct(vec![]));
}

#[test]
fn error_limit_stops_validation() {
    let schema = list_of("com.example#Strings", &string(), Some(1), false);
    let value = ShapeValue::List(vec![s("a"), s("b"), s("c")]);
    let one = {
        let mut validator = DefaultValidator::with_limits(10, 0);
        match validator.validate(&schema, &value) {
            Err(e) => e,
            Ok(()) => panic!("Expected an error"),
        }
    };
    assert_eq!(one.errors.len(), 1);
    assert_eq!(one.errors[0].error.message(), "Maximum Number of errors (0) reached");
}

#[test]
fn type_mismatch_is_reported() {
    let err = errors_of(&string(), &ShapeValue::Integer(3));
    assert_eq!(err.errors.len(), 1);
    assert_eq!(
        err.errors[0].error.message(),
        "Shape type String does not match expected."
    );
}

#[test]
fn floats_cannot_be_unique_items() {
    let schema = list_of("com.example#Floats", &prelude_schema(ShapeType::Float), None, true);
    let value = ShapeValue::List(vec![ShapeValue::Float(1f32.to_bits(), "1".to_string())]);
    let err = errors_of(&schema, &value);
    assert_eq!(err.errors.len(), 1);
    assert_eq!(
        err.errors[0].error.message(),
        "Attempted to perform `@uniqueItem` check on float. This is invalid"
    );
}

#[test]
fn custom_errors_and_extend() {
    let mut errors = ValidationErrors::custom("boom");
    assert_eq!(errors.len(), 1);
    assert_eq!(errors.errors[0].error.message(), "boom");
    assert!(errors.errors[0].paths.is_empty());
    errors.extend(ValidationErrors::custom("again"));
    assert_eq!(errors.len(), 2);
    assert!(!errors.is_empty());
    assert!(ValidationErrors::new().is_empty());
}

#[test]
fn range_constraints_are_checked() {
    let range = smithy4rs_core::prelude::RangeTrait::new(
        Some(smithy4rs_core::numbers::Decimal { unscaled: 1, scale: 0 }),
        Some(smithy4rs_core::numbers::Decimal { unscaled: 10, scale: 0 }),
    )
    .to_trait();
    let schema = Schema::create_integer(ShapeId::from("com.test#Ranged"), vec![range]);
    validates(&schema, &ShapeValue::Integer(10));
    let err = errors_of(&schema, &ShapeValue::Integer(15));
    assert_eq!(err.errors.len(), 1);
    assert_eq!(
        err.errors[0].error.message(),
        "Size: 15 does not conform to @range constraint. Expected between 1 and 10."
    );
    let dec_range = smithy4rs_core::prelude::RangeTrait::new(
        Some(smithy4rs_core::numbers::Decimal { unscaled: 15, scale: 1 }),
        None,
    )
    .to_trait();
    let dec = Schema::create_big_decimal(ShapeId::from("com.test#RangedDecimal"), vec![dec_range]);
    validates(&dec, &ShapeValue::BigDecimal(smithy4rs_core::numbers::Decimal { unscaled: 2, scale: 0 }));
    let err = errors_of(&dec, &ShapeValue::BigDecimal(smithy4rs_core::numbers::Decimal { unscaled: 125, scale: 2 }));
    assert_eq!(err.errors.len(), 1);
    assert!(err.errors[0].error.message().starts_with("Size: 1.25 does not conform to @range constraint."));
}

#[test]
fn invalid_patterns_are_refused() {
    match PatternTrait::new("[a-") {
        Err(e) => {
            assert_eq!(e.len(), 1);
            assert!(e.errors[0].error.message().contains("regex parse error"));
        }
        Ok(_) => panic!("an unclosed class does not compile"),
    }
    let p = PatternTrait::new("^b+$").ok().unwrap();
    assert!(p.finds("bbb"));
    assert!(!p.finds("abc"));
    assert_eq!(p.pattern(), "^b+$");
}
