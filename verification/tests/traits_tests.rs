use smithy4rs_core::prelude::HttpCode;
use smithy4rs_core::documents::Document;
use smithy4rs_core::prelude::{HttpErrorTrait, JsonNameTrait};
use smithy4rs_core::shapes::ShapeId;
use smithy4rs_core::traits::{DynamicTrait, StaticTraitId, TraitMap, TraitValue};

#[test]
fn traits_basic_map_functionality() {
    let dyn_id = ShapeId::from("smithy.api#Dynamic");
    let map = TraitMap::of(vec![
        JsonNameTrait::new("a"),
        DynamicTrait::from(dyn_id.copy(), Document::from_str("b")),
    ]);
    assert!(map.contains(&dyn_id));
    assert!(map.contains(&JsonNameTrait::trait_id()));
    assert!(map.contains_type::<JsonNameTrait>());
}

#[test]
fn traits_map_extension() {
    let mut map_a = TraitMap::of(vec![JsonNameTrait::new("a")]);
    let map_b = TraitMap::of(vec![HttpErrorTrait::new(404)]);
    map_a.extend(&map_b);
    assert!(map_a.contains(&HttpErrorTrait::trait_id()));
    assert!(map_a.contains_type::<HttpErrorTrait>());
    assert!(map_a.contains_type::<JsonNameTrait>());
}

#[test]
fn traits_trait_conversion_to_type() {
    let map = TraitMap::of(vec![HttpErrorTrait::new(404)]);
    let Some(t) = map.get(&HttpErrorTrait::trait_id()) else {
        panic!("Could not find expected trait!!!")
    };
    match &t.value {
        TraitValue::Integer(code) => assert_eq!(*code, 404),
        _ => panic!("expected an integer trait"),
    }
}

#[test]
fn from_trait_vec() {
    let map = TraitMap::of(vec![HttpErrorTrait::new(404), JsonNameTrait::new("a")]);
    assert!(map.contains_type::<HttpErrorTrait>());
    assert!(map.contains_type::<JsonNameTrait>());
}

#[test]
fn core_basic_map_functionality() {
    let mut map = TraitMap::new();
    map.insert(JsonNameTrait::new("a"));
    let dyn_id = ShapeId::from("smithy.api#Dynamic");
    map.insert(DynamicTrait::from(dyn_id.copy(), Document::from_str("b")));
    assert!(map.contains(&dyn_id));
    assert!(map.contains(&JsonNameTrait::trait_id()));
}

#[test]
fn core_map_extension() {
    let mut map_a = TraitMap::new();
    map_a.insert(JsonNameTrait::new("a"));
    let mut map_b = TraitMap::new();
    map_b.insert(HttpErrorTrait::new(404));
    map_a.extend(&map_b);
    assert!(map_a.contains(&HttpErrorTrait::trait_id()));
}

#[test]
fn core_trait_conversion_to_type() {
    let mut map = TraitMap::new();
    map.insert(JsonNameTrait::new("something_else"));
    let id = ShapeId::from("api.smithy#Example");
    map.insert(DynamicTrait::from(id.copy(), Document::null_of(smithy4rs_core::shapes::ShapeType::Document)));
    assert!(map.contains(&JsonNameTrait::trait_id()));
    assert!(map.contains(&id));
}

#[test]
fn insert_replaces_and_returns_previous() {
    let mut map = TraitMap::new();
    assert!(map.insert(JsonNameTrait::new("a")).is_none());
    let prev = map.insert(JsonNameTrait::new("b")).expect("previous trait");
    match &prev.value {
        TraitValue::Text(s) => assert_eq!(s, "a"),
        _ => panic!("expected text"),
    }
    match &map.get(&JsonNameTrait::trait_id()).unwrap().value {
        TraitValue::Text(s) => assert_eq!(s, "b"),
        _ => panic!("expected text"),
    }
}

#[test]
fn extend_prefers_the_other_map() {
    let mut a = TraitMap::of(vec![JsonNameTrait::new("mine")]);
    let b = TraitMap::of(vec![JsonNameTrait::new("theirs")]);
    a.extend(&b);
    match &a.get(&JsonNameTrait::trait_id()).unwrap().value {
        TraitValue::Text(s) => assert_eq!(s, "theirs"),
        _ => panic!("expected text"),
    }
}

#[test]
fn http_code_and_typed_lookup() {
    let code = HttpCode::new(404);
    assert_eq!(code.code(), 404);
    assert_eq!(HttpCode::trait_id().id(), "smithy.api#httpError");
    let map = TraitMap::of(vec![code.to_trait(), JsonNameTrait::new("n")]);
    match &map.get_as::<HttpCode>().unwrap().value {
        TraitValue::Integer(c) => assert_eq!(*c, 404),
        _ => panic!("expected an integer trait"),
    }
    assert!(map.get_as::<HttpErrorTrait>().is_some());
}

#[test]
fn it_works() {
    let mut map = TraitMap::new();
    map.insert(HttpCode::new(10).to_trait());
    let id = ShapeId::from("api.smithy#Example");
    map.insert(DynamicTrait::from(id.copy(), Document::null_of(smithy4rs_core::shapes::ShapeType::Document)));
    assert!(map.contains(&HttpCode::trait_id()));
    assert!(map.contains(&id));
}
