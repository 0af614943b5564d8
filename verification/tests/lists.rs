use bevy_gltf_collider::lists::{copied, reversed};

#[test]
fn a_list_turned_round() {
    assert_eq!(reversed(vec![1, 2, 3]), vec![3, 2, 1]);
    assert_eq!(reversed(vec!["a".to_string()]), vec!["a".to_string()]);
    assert_eq!(reversed(Vec::<u8>::new()), Vec::<u8>::new());
}

#[test]
fn a_list_copied() {
    assert_eq!(copied(&vec![1u64, 2, 3]), vec![1, 2, 3]);
    assert_eq!(copied(&Vec::<char>::new()), Vec::<char>::new());
}
