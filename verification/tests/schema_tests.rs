use smithy4rs_core::schema::get_schema_for_type;
use smithy4rs_core::documents::Document;
use smithy4rs_core::prelude::{
    annotation, DefaultTrait, JsonNameTrait, RequiredTrait,
};
use smithy4rs_core::schema::{prelude_schema, Schema, SchemaRef};
use smithy4rs_core::shapes::{ShapeId, ShapeType};
use smithy4rs_core::traits::TraitValue;

fn string() -> SchemaRef {
    prelude_schema(ShapeType::String)
}

fn text_of(t: &TraitValue) -> &str {
    match t {
        TraitValue::Text(s) => s.as_str(),
        _ => panic!("expected a text trait"),
    }
}

#[test]
fn schemas_scalar_schemas() {
    let schema = Schema::create_integer(ShapeId::from("api.example#Integer"), vec![]);
    assert_eq!(schema.shape_type(), ShapeType::Integer);
    assert_eq!(schema.id().id(), ShapeId::from("api.example#Integer").id());
}

#[test]
fn schemas_structure_schema() {
    let target = Schema::create_integer(ShapeId::from("api.smithy#Target"), vec![]);
    let schema = Schema::structure_builder(ShapeId::from("api.smithy#Example"), vec![])
        .put_member("target_a", &target, vec![])
        .put_member("target_b", &string(), vec![])
        .build();
    assert_eq!(schema.shape_type(), ShapeType::Structure);
    assert_eq!(schema.id().id(), "api.smithy#Example");
    let member = schema.get_member("target_a").unwrap();
    assert_eq!(member.shape_type(), ShapeType::Integer);
    assert_eq!(member.id().id(), "api.smithy#Example$target_a");
    let Some(member_schema) = member.as_member() else {
        panic!("Should be member schema!")
    };
    assert_eq!(member_schema.target.id().id(), target.id().id());
}

#[test]
fn schemas_list_schema() {
    let schema = Schema::list_builder(ShapeId::from("api.smithy#List"), vec![])
        .put_member("member", &string(), vec![])
        .build();
    assert_eq!(schema.shape_type(), ShapeType::List);
    assert_eq!(schema.id().id(), "api.smithy#List");
    let Some(list_schema) = schema.as_list() else {
        panic!("Should be list!")
    };
    let member = &list_schema.member;
    assert_eq!(member.shape_type(), ShapeType::String);
    assert_eq!(member.id().id(), "api.smithy#List$member");
}

#[test]
fn schemas_map_schema() {
    let schema = Schema::map_builder(ShapeId::from("api.smithy#Map"), vec![])
        .put_member("key", &string(), vec![])
        .put_member("value", &string(), vec![])
        .build();
    assert_eq!(schema.shape_type(), ShapeType::MapType);
    assert_eq!(schema.id().id(), "api.smithy#Map");
    let Some(map_schema) = schema.as_map() else {
        panic!("Should be map!")
    };
    assert_eq!(map_schema.key.shape_type(), ShapeType::String);
    assert_eq!(map_schema.key.id().id(), "api.smithy#Map$key");
    assert_eq!(map_schema.value.shape_type(), ShapeType::String);
    assert_eq!(map_schema.value.id().id(), "api.smithy#Map$value");
}

#[test]
fn schemas_single_trait() {
    let schema = Schema::create_double(
        ShapeId::from("api.smithy#Example"),
        vec![JsonNameTrait::new("other")],
    );
    assert!(schema.contains_type::<JsonNameTrait>());
    let json_name_value = schema
        .get_trait_of::<JsonNameTrait>()
        .expect("No Json Name trait present");
    assert_eq!(text_of(&json_name_value.value), "other")
}

#[test]
fn schemas_flattened_trait() {
    let target = Schema::create_integer(
        ShapeId::from("api.smithy#Target"),
        vec![JsonNameTrait::new("other")],
    );
    let schema = Schema::structure_builder(ShapeId::from("api.smithy#Example"), vec![])
        .put_member("target_a", &target, vec![])
        .build();
    let member = schema.get_member("target_a").expect("No such member");
    assert!(member.contains_type::<JsonNameTrait>());
    let json_name_value = member
        .get_trait_of::<JsonNameTrait>()
        .expect("No JSON name trait present");
    assert_eq!(text_of(&json_name_value.value), "other");
}

#[test]
fn sorts_members() {
    let schema = Schema::structure_builder(ShapeId::from("api.smithy#Example"), vec![])
        .put_member(
            "target_b",
            &string(),
            vec![
                annotation::<RequiredTrait>(),
                DefaultTrait::new(Document::from_str("Woo")),
            ],
        )
        .put_member("target_a", &string(), vec![annotation::<RequiredTrait>()])
        .put_member("target_c", &string(), vec![])
        .put_member("target_d", &string(), vec![annotation::<RequiredTrait>()])
        .put_member("target_e", &string(), vec![])
        .build();
    let Some(s) = schema.as_struct() else {
        panic!("Should be a structure!")
    };
    assert_eq!(s.members.len(), 5);
    let names: Vec<&str> = s.members.iter().map(|(n, _)| n.as_str()).collect();
    assert_eq!(names, vec!["target_a", "target_d", "target_b", "target_c", "target_e"]);
    for (i, (_, m)) in s.members.iter().enumerate() {
        assert_eq!(m.as_member().unwrap().index, i);
    }
}

#[test]
fn member_traits_prefer_the_target() {
    let target = Schema::create_integer(
        ShapeId::from("api.smithy#Target"),
        vec![JsonNameTrait::new("from_target")],
    );
    let schema = Schema::structure_builder(ShapeId::from("api.smithy#Example"), vec![])
        .put_member("a", &target, vec![JsonNameTrait::new("from_member")])
        .build();
    let member = schema.get_member("a").unwrap();
    let t = member.get_trait_of::<JsonNameTrait>().unwrap();
    assert_eq!(text_of(&t.value), "from_target");
}

#[test]
fn duplicate_member_keeps_first_place_and_takes_last_builder() {
    let int = prelude_schema(ShapeType::Integer);
    let schema = Schema::structure_builder(ShapeId::from("api.smithy#Dup"), vec![])
        .put_member("a", &string(), vec![])
        .put_member("b", &string(), vec![])
        .put_member("a", &int, vec![])
        .build();
    let s = schema.as_struct().unwrap();
    assert_eq!(s.members.len(), 2);
    assert_eq!(s.members[0].0, "a");
    assert_eq!(s.members[0].1.shape_type(), ShapeType::Integer);
    assert_eq!(s.members[0].1.as_member().unwrap().index, 2);
    assert_eq!(s.members[1].0, "b");
}

#[test]
fn list_builder_rejects_other_member_names() {
    let b = Schema::list_builder(ShapeId::from("api.smithy#List"), vec![]);
    assert!(!b.validate_member_name("bad"));
    assert!(b.validate_member_name("member"));
    let m = Schema::map_builder(ShapeId::from("api.smithy#Map"), vec![]);
    assert!(m.validate_member_name("key"));
    assert!(m.validate_member_name("value"));
    assert!(!m.validate_member_name("member"));
}

#[test]
fn enum_values_are_deduplicated() {
    let e = Schema::create_enum(
        ShapeId::from("test#Enum"),
        vec!["a".to_string(), "b".to_string(), "a".to_string()],
        vec![],
    );
    let es = e.as_enum().unwrap();
    assert_eq!(es.values, vec!["a".to_string(), "b".to_string()]);
    assert!(es.contains("b"));
    assert!(!es.contains("c"));
    let ie = Schema::create_int_enum(ShapeId::from("test#IntEnum"), vec![1, 2, 2, 1], vec![]);
    assert_eq!(ie.as_int_enum().unwrap().values, vec![1, 2]);
}

#[test]
fn get_member_on_scalars_and_unknown_names() {
    let s = string();
    assert!(s.get_member("member").is_none());
    let list = Schema::list_builder(ShapeId::from("api.smithy#List"), vec![])
        .put_member("member", &s, vec![])
        .build();
    assert!(list.get_member("other").is_none());
    assert!(list.get_member("member").is_some());
}

#[test]
fn schema_for_type_picks_the_prelude_schema() {
    assert_eq!(get_schema_for_type(ShapeType::Enum).id().id(), "smithy.api#String");
    assert_eq!(get_schema_for_type(ShapeType::IntEnum).id().id(), "smithy.api#Integer");
    assert_eq!(get_schema_for_type(ShapeType::Long).id().id(), "smithy.api#Long");
    assert_eq!(get_schema_for_type(ShapeType::List).id().id(), "smithy.api#Document");
    assert_eq!(get_schema_for_type(ShapeType::List).shape_type(), ShapeType::Document);
}

#[test]
fn builder_traits_and_member_checks() {
    let schema = Schema::structure_builder(ShapeId::from("api.smithy#Example"), vec![])
        .with_trait(JsonNameTrait::new("first"))
        .with_trait(JsonNameTrait::new("second"))
        .put_member("a", &string(), vec![])
        .build();
    assert!(!schema.is_member());
    assert!(schema.get_member("a").unwrap().is_member());
    assert!(schema.contains_trait_type::<JsonNameTrait>());
    let t = schema.get_trait_as::<JsonNameTrait>().unwrap();
    assert_eq!(text_of(&t.value), "second");
    assert!(schema.get_trait_dyn(&ShapeId::from("smithy.api#jsonName")).is_some());
    assert!(schema.get_trait_as::<RequiredTrait>().is_none());
}

#[test]
fn schema_scalar_schemas() {
    let schema = Schema::create_integer(ShapeId::from("api.example#Integer"), vec![]);
    assert_eq!(schema.shape_type(), ShapeType::Integer);
    assert_eq!(schema.id().id(), ShapeId::from("api.example#Integer").id());
}

#[test]
fn schema_single_trait() {
    let schema = Schema::create_double(
        ShapeId::from("api.smithy#Example"),
        vec![JsonNameTrait::new("other")],
    );
    assert!(schema.contains_trait_type::<JsonNameTrait>());
    let json_name_value = schema
        .get_trait_as::<JsonNameTrait>()
        .expect("No Json Name trait present");
    assert_eq!(text_of(&json_name_value.value), "other")
}

#[test]
fn schema_flattened_trait() {
    let target = Schema::create_integer(
        ShapeId::from("api.smithy#Target"),
        vec![JsonNameTrait::new("other")],
    );
    let schema = Schema::structure_builder(ShapeId::from("api.smithy#Example"), vec![])
        .put_member("target_a", &target, vec![])
        .build();
    let member = schema.get_member("target_a").expect("No such member");
    assert!(member.contains_trait_type::<JsonNameTrait>());
    let json_name_value = member
        .get_trait_as::<JsonNameTrait>()
        .expect("No JSON name trait present");
    assert_eq!(text_of(&json_name_value.value), "other");
}
