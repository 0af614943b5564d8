use bevy_gltf_collider::extras_collider::{
    collider_data_text, collider_from_data, colliders_from_document, colliders_from_list,
    process_extras_collider, ColliderData, ColliderExtrasParsingError,
};
use bevy_gltf_collider::math::{ONE, ZERO};
use bevy_gltf_collider::{Collider, Quat, Transform, Vec3};
use serde_json::Value;

fn bits(x: f64) -> u64 {
    x.to_bits()
}

fn vec3(x: f64, y: f64, z: f64) -> Vec3 {
    Vec3::new(bits(x), bits(y), bits(z))
}

fn payload(inner: &str) -> String {
    let mut object = serde_json::Map::new();
    object.insert("collider_data".to_string(), Value::from(inner));
    Value::Object(object).to_string()
}

#[test]
fn the_bit_patterns_of_zero_and_one() {
    assert_eq!(ZERO, bits(0.0));
    assert_eq!(ONE, bits(1.0));
    assert_eq!(Transform::identity().translation, vec3(0.0, 0.0, 0.0));
    assert_eq!(Transform::identity().scale, vec3(1.0, 1.0, 1.0));
    assert_eq!(Transform::identity().rotation, Quat::new(ZERO, ZERO, ZERO, ONE));
}

#[test]
fn a_cuboid_without_transform_gets_the_identity() {
    let text = "{\"collider_data\":\"{\\\"colliders\\\":[{\\\"collider_type\\\":\\\"cuboid\\\",\\\"value\\\":[1,1,1]}]}\"}";
    let entries = process_extras_collider(text).unwrap().unwrap();
    assert_eq!(entries.len(), 1);
    assert_eq!(entries[0].0, Collider::Cuboid { half_extents: vec3(1.0, 1.0, 1.0) });
    assert_eq!(entries[0].1, Transform::identity());
}

#[test]
fn a_sphere_is_an_unknown_kind() {
    let text = payload("{\"colliders\":[{\"collider_type\":\"sphere\",\"value\":[1]}]}");
    assert_eq!(
        process_extras_collider(&text),
        Some(Err(ColliderExtrasParsingError::UnknownColliderType("sphere".to_string())))
    );
}

#[test]
fn metadata_of_another_kind_is_no_error() {
    assert_eq!(process_extras_collider("{\"author\":\"someone\"}"), None);
    assert_eq!(process_extras_collider("{\"collider_data\":5}"), None);
    assert_eq!(process_extras_collider("{\"collider_data\":null}"), None);
    assert_eq!(process_extras_collider("[1,2,3]"), None);
    assert_eq!(process_extras_collider("\"collider_data\""), None);
    assert_eq!(process_extras_collider("12"), None);
}

#[test]
fn a_payload_that_is_no_json_is_an_error() {
    match process_extras_collider("hello") {
        Some(Err(ColliderExtrasParsingError::InvalidColliderDataFormat(message))) => {
            assert!(!message.is_empty());
            assert_ne!(message, "hello");
        }
        other => panic!("unexpected outcome: {:?}", other),
    }
    assert!(matches!(
        process_extras_collider(""),
        Some(Err(ColliderExtrasParsingError::InvalidColliderDataFormat(_)))
    ));
    assert!(matches!(
        process_extras_collider("{\"collider_data\":\"x\""),
        Some(Err(ColliderExtrasParsingError::InvalidColliderDataFormat(_)))
    ));
}

#[test]
fn collider_data_that_is_no_json_is_an_error() {
    let text = payload("no json");
    match process_extras_collider(&text) {
        Some(Err(ColliderExtrasParsingError::InvalidColliderDataFormat(message))) => {
            assert!(!message.is_empty());
        }
        other => panic!("unexpected outcome: {:?}", other),
    }
}

#[test]
fn collider_data_of_another_layout_is_an_error() {
    let expected = Some(Err(ColliderExtrasParsingError::InvalidColliderDataFormat(
        "collider data does not have the expected layout".to_string(),
    )));
    assert_eq!(process_extras_collider(&payload("{}")), expected);
    assert_eq!(process_extras_collider(&payload("[]")), expected);
    assert_eq!(process_extras_collider(&payload("{\"colliders\":5}")), expected);
    assert_eq!(process_extras_collider(&payload("{\"colliders\":[7]}")), expected);
    // no `value`
    assert_eq!(
        process_extras_collider(&payload("{\"colliders\":[{\"collider_type\":\"cuboid\"}]}")),
        expected
    );
    // no `collider_type`
    assert_eq!(
        process_extras_collider(&payload("{\"colliders\":[{\"value\":[1,1,1]}]}")),
        expected
    );
    // a `collider_type` that is no string
    assert_eq!(
        process_extras_collider(&payload(
            "{\"colliders\":[{\"collider_type\":3,\"value\":[1,1,1]}]}"
        )),
        expected
    );
    // a translation without `z`
    assert_eq!(
        process_extras_collider(&payload(
            "{\"colliders\":[{\"collider_type\":\"cuboid\",\"value\":[1,1,1],\"translation\":{\"x\":1,\"y\":2}}]}"
        )),
        expected
    );
    // a rotation without `w`
    assert_eq!(
        process_extras_collider(&payload(
            "{\"colliders\":[{\"collider_type\":\"cuboid\",\"value\":[1,1,1],\"rotation\":{\"x\":0,\"y\":0,\"z\":0}}]}"
        )),
        expected
    );
    // a scale that is no object
    assert_eq!(
        process_extras_collider(&payload(
            "{\"colliders\":[{\"collider_type\":\"cuboid\",\"value\":[1,1,1],\"scale\":2}]}"
        )),
        expected
    );
}

#[test]
fn an_empty_list_declares_nothing() {
    assert_eq!(process_extras_collider(&payload("{\"colliders\":[]}")), Some(Ok(vec![])));
}

#[test]
fn the_layout_of_every_declaration_is_checked_first() {
    // The first declaration names an unknown kind, the second has no kind at
    // all: the layout error wins.
    let text = payload(
        "{\"colliders\":[{\"collider_type\":\"sphere\",\"value\":1},{\"value\":[1,1,1]}]}",
    );
    assert_eq!(
        process_extras_collider(&text),
        Some(Err(ColliderExtrasParsingError::InvalidColliderDataFormat(
            "collider data does not have the expected layout".to_string()
        )))
    );
}

#[test]
fn the_first_error_gives_up_the_whole_payload() {
    let text = payload(
        "{\"colliders\":[{\"collider_type\":\"cuboid\",\"value\":[1,1,1]},{\"collider_type\":\"capsule\",\"value\":[1,1,1]},{\"collider_type\":\"cuboid\",\"value\":[1]}]}",
    );
    assert_eq!(
        process_extras_collider(&text),
        Some(Err(ColliderExtrasParsingError::UnknownColliderType("capsule".to_string())))
    );
}

#[test]
fn a_value_that_is_no_array_of_three_is_handed_back() {
    let text = payload("{\"colliders\":[{\"collider_type\":\"cuboid\",\"value\":\"big\"}]}");
    assert_eq!(
        process_extras_collider(&text),
        Some(Err(ColliderExtrasParsingError::InvalidColliderValue(Value::from("big"))))
    );
    let text = payload("{\"colliders\":[{\"collider_type\":\"cuboid\",\"value\":[1,2]}]}");
    assert_eq!(
        process_extras_collider(&text),
        Some(Err(ColliderExtrasParsingError::InvalidColliderValue(Value::Array(vec![
            Value::from(1),
            Value::from(2)
        ]))))
    );
    let text = payload("{\"colliders\":[{\"collider_type\":\"cuboid\",\"value\":[1,2,3,4]}]}");
    assert!(matches!(
        process_extras_collider(&text),
        Some(Err(ColliderExtrasParsingError::InvalidColliderValue(Value::Array(_))))
    ));
    let text = payload("{\"colliders\":[{\"collider_type\":\"cuboid\",\"value\":null}]}");
    assert_eq!(
        process_extras_collider(&text),
        Some(Err(ColliderExtrasParsingError::InvalidColliderValue(Value::Null)))
    );
}

#[test]
fn a_value_with_an_element_that_is_no_number_is_handed_back_whole() {
    let text =
        payload("{\"colliders\":[{\"collider_type\":\"cuboid\",\"value\":[1,\"a\",3]}]}");
    assert_eq!(
        process_extras_collider(&text),
        Some(Err(ColliderExtrasParsingError::InvalidColliderValue(Value::Array(vec![
            Value::from(1),
            Value::from("a"),
            Value::from(3)
        ]))))
    );
    let text =
        payload("{\"colliders\":[{\"collider_type\":\"cuboid\",\"value\":[1,\"two\",false]}]}");
    assert_eq!(
        process_extras_collider(&text),
        Some(Err(ColliderExtrasParsingError::InvalidColliderValue(Value::Array(vec![
            Value::from(1),
            Value::from("two"),
            Value::from(false)
        ]))))
    );
    let text = payload("{\"colliders\":[{\"collider_type\":\"cuboid\",\"value\":[1,2,[3]]}]}");
    assert_eq!(
        process_extras_collider(&text),
        Some(Err(ColliderExtrasParsingError::InvalidColliderValue(Value::Array(vec![
            Value::from(1),
            Value::from(2),
            Value::Array(vec![Value::from(3)])
        ]))))
    );
}

#[test]
fn numbers_are_read_as_binary64() {
    let text = payload(
        "{\"colliders\":[{\"collider_type\":\"cuboid\",\"value\":[0.5,-2,1e3],\"translation\":{\"x\":-0.000543,\"y\":0.087472,\"z\":-0.00163},\"rotation\":{\"x\":0,\"y\":0.5,\"z\":0,\"w\":1},\"scale\":{\"x\":0.107805,\"y\":0.081654,\"z\":0.13115}}]}",
    );
    let entries = process_extras_collider(&text).unwrap().unwrap();
    assert_eq!(entries.len(), 1);
    assert_eq!(entries[0].0, Collider::Cuboid { half_extents: vec3(0.5, -2.0, 1000.0) });
    assert_eq!(
        entries[0].1,
        Transform {
            translation: vec3(-0.000543, 0.087472, -0.00163),
            rotation: Quat::new(bits(0.0), bits(0.5), bits(0.0), bits(1.0)),
            scale: vec3(0.107805, 0.081654, 0.13115),
        }
    );
}

#[test]
fn what_is_left_out_or_null_is_the_identity() {
    let text = payload(
        "{\"colliders\":[{\"collider_type\":\"cuboid\",\"value\":[2,3,4],\"translation\":null,\"scale\":{\"x\":2,\"y\":2,\"z\":2},\"note\":\"ignored\"}]}",
    );
    let entries = process_extras_collider(&text).unwrap().unwrap();
    assert_eq!(
        entries[0].1,
        Transform {
            translation: vec3(0.0, 0.0, 0.0),
            rotation: Quat::new(bits(0.0), bits(0.0), bits(0.0), bits(1.0)),
            scale: vec3(2.0, 2.0, 2.0),
        }
    );
}

#[test]
fn declarations_come_out_in_order() {
    let text = payload(
        "{\"colliders\":[{\"collider_type\":\"cuboid\",\"value\":[1,2,3]},{\"collider_type\":\"cuboid\",\"value\":[4,5,6]}]}",
    );
    let entries = process_extras_collider(&text).unwrap().unwrap();
    assert_eq!(entries.len(), 2);
    assert_eq!(entries[0].0, Collider::Cuboid { half_extents: vec3(1.0, 2.0, 3.0) });
    assert_eq!(entries[1].0, Collider::Cuboid { half_extents: vec3(4.0, 5.0, 6.0) });
}

#[test]
fn the_text_of_collider_data_from_a_parsed_payload() {
    let mut object = serde_json::Map::new();
    object.insert("collider_data".to_string(), Value::from("inner"));
    object.insert("other".to_string(), Value::from(1));
    assert_eq!(collider_data_text(Ok(Value::Object(object))), Some(Ok("inner".to_string())));
    assert_eq!(collider_data_text(Ok(Value::from("collider_data"))), None);
    assert_eq!(collider_data_text(Ok(Value::Object(serde_json::Map::new()))), None);
    assert_eq!(
        collider_data_text(Err("broken".to_string())),
        Some(Err(ColliderExtrasParsingError::InvalidColliderDataFormat("broken".to_string())))
    );
}

#[test]
fn colliders_from_a_parsed_document() {
    let mut declaration = serde_json::Map::new();
    declaration.insert("collider_type".to_string(), Value::from("cuboid"));
    declaration.insert(
        "value".to_string(),
        Value::Array(vec![Value::from(1.5), Value::from(2), Value::from(3)]),
    );
    let mut document = serde_json::Map::new();
    document.insert("colliders".to_string(), Value::Array(vec![Value::Object(declaration)]));
    let entries = colliders_from_document(Ok(Value::Object(document))).unwrap();
    assert_eq!(entries.len(), 1);
    assert_eq!(entries[0].0, Collider::Cuboid { half_extents: vec3(1.5, 2.0, 3.0) });
    assert_eq!(entries[0].1, Transform::identity());
    assert_eq!(
        colliders_from_document(Err("broken".to_string())),
        Err(ColliderExtrasParsingError::InvalidColliderDataFormat("broken".to_string()))
    );
    assert_eq!(
        colliders_from_document(Ok(Value::Null)),
        Err(ColliderExtrasParsingError::InvalidColliderDataFormat(
            "collider data does not have the expected layout".to_string()
        ))
    );
}

#[test]
fn one_declaration_at_a_time() {
    let data = ColliderData {
        collider_type: "cuboid".to_string(),
        value: Value::Array(vec![Value::from(1), Value::from(2), Value::from(3)]),
        translation: Some(vec3(1.0, 0.0, 0.0)),
        rotation: None,
        scale: None,
    };
    let (collider, transform) = collider_from_data(data).unwrap();
    assert_eq!(collider, Collider::Cuboid { half_extents: vec3(1.0, 2.0, 3.0) });
    assert_eq!(transform.translation, vec3(1.0, 0.0, 0.0));
    assert_eq!(transform.rotation, Quat::identity());
    assert_eq!(transform.scale, Vec3::one());
    let data = ColliderData {
        collider_type: "Cuboid".to_string(),
        value: Value::Null,
        translation: None,
        rotation: None,
        scale: None,
    };
    assert_eq!(
        collider_from_data(data),
        Err(ColliderExtrasParsingError::UnknownColliderType("Cuboid".to_string()))
    );
    assert_eq!(colliders_from_list(Vec::new()), Ok(Vec::new()));
}
