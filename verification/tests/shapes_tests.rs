use smithy4rs_core::shapes::ShapeId;

#[test]
fn shape_id_from_str() {
    let shape_id = ShapeId::from("com.example#MyShape");
    assert_eq!(shape_id.namespace, "com.example");
    assert_eq!(shape_id.name, "MyShape");
    assert_eq!(shape_id.member.as_ref(), None);
}

#[test]
fn shape_id_from_str_with_member() {
    let shape_id = ShapeId::from("com.example#MyShape$member");
    assert_eq!(shape_id.namespace, "com.example");
    assert_eq!(shape_id.name, "MyShape");
    assert_eq!(shape_id.member.unwrap(), "member");
}

#[test]
fn shape_id_from_parts() {
    let shape_id = ShapeId::from_parts("com.example", "MyShape", Some("member"));
    assert_eq!(shape_id.namespace, "com.example");
    assert_eq!(shape_id.name, "MyShape");
    assert_eq!(shape_id.member.unwrap(), "member");
    assert_eq!(shape_id.id, "com.example#MyShape$member");
}

#[test]
fn shape_id_with_member() {
    let shape_id_base = ShapeId::from_parts("com.example", "MyShape", None);
    let shape_id = shape_id_base.with_member("member");
    assert_eq!(shape_id.namespace, "com.example");
    assert_eq!(shape_id.name, "MyShape");
    assert_eq!(shape_id.member.unwrap(), "member");
    assert_eq!(shape_id.id, "com.example#MyShape$member");
}

#[test]
fn try_parse_without_hash_gives_none() {
    assert!(ShapeId::try_parse("com.example.no.shape").is_none());
}

#[test]
fn parse_splits_at_first_hash_and_first_dollar() {
    let id = ShapeId::try_parse("a#b#c$d$e").unwrap();
    assert_eq!(id.namespace, "a");
    assert_eq!(id.name, "b#c");
    assert_eq!(id.member.as_deref(), Some("d$e"));
    assert_eq!(id.id, "a#b#c$d$e");
}

#[test]
fn parse_of_composed_id_gives_back_parts() {
    let built = ShapeId::from_parts("smithy.api", "String", Some("member"));
    let parsed = ShapeId::from(built.id());
    assert_eq!(parsed.namespace, built.namespace);
    assert_eq!(parsed.name, built.name);
    assert_eq!(parsed.member, built.member);
    assert!(parsed.same_id(&built));
}

#[test]
fn copy_keeps_every_field() {
    let id = ShapeId::from("ns#Name$m");
    let c = id.copy();
    assert_eq!(c.id, "ns#Name$m");
    assert_eq!(c.namespace(), "ns");
    assert_eq!(c.name(), "Name");
    assert_eq!(c.member(), Some("m"));
}
