use bevy_gltf_collider::serialized::{collider_from_words, collider_to_words};
use bevy_gltf_collider::{Collider, SerializedCollider, Triangle, Vec3};

fn p(x: f64, y: f64, z: f64) -> Vec3 {
    Vec3::new(x.to_bits(), y.to_bits(), z.to_bits())
}

fn samples() -> Vec<Collider> {
    vec![
        Collider::Cuboid { half_extents: p(0.5, 1.5, 2.5) },
        Collider::ConvexHull { vertices: vec![] },
        Collider::ConvexHull { vertices: vec![p(0.0, 0.0, 0.0), p(1.0, 0.0, 0.0), p(0.0, 1.0, 0.0)] },
        Collider::ConvexMesh {
            vertices: vec![p(0.0, 0.0, 0.0), p(1.0, 0.0, 0.0), p(0.0, 1.0, 0.0), p(0.0, 0.0, 1.0)],
            triangles: vec![
                Triangle::new(0, 1, 2),
                Triangle::new(0, 1, 3),
                Triangle::new(0, 2, 3),
                Triangle::new(1, 2, 3),
            ],
        },
        Collider::TriMesh {
            vertices: vec![p(-1.0, f64::MAX, 1e-300)],
            triangles: vec![Triangle::new(u32::MAX, 0, 7)],
        },
        Collider::TriMesh { vertices: vec![], triangles: vec![] },
    ]
}

#[test]
fn a_shape_comes_back_from_its_bytes() {
    for shape in samples() {
        let placeholder = SerializedCollider::encode(&shape).unwrap();
        assert_eq!(placeholder.decode(), Some(shape));
    }
}

#[test]
fn the_half_extents_of_a_box_come_back() {
    let shape = Collider::Cuboid { half_extents: p(1.0, 1.0, 1.0) };
    let placeholder = SerializedCollider::encode(&shape).unwrap();
    assert_ne!(placeholder.collider, Vec::<u8>::new());
    match placeholder.duplicate().decode() {
        Some(Collider::Cuboid { half_extents }) => {
            assert_eq!(f64::from_bits(half_extents.x), 1.0);
            assert_eq!(f64::from_bits(half_extents.y), 1.0);
            assert_eq!(f64::from_bits(half_extents.z), 1.0);
        }
        other => panic!("unexpected shape: {:?}", other),
    }
}

#[test]
fn a_shape_comes_back_from_its_words() {
    for shape in samples() {
        let words = collider_to_words(&shape);
        assert_eq!(collider_from_words(&words), Some(shape));
    }
}

#[test]
fn the_words_of_each_kind_of_shape() {
    let one = 1.0f64.to_bits();
    let two = 2.0f64.to_bits();
    let three = 3.0f64.to_bits();
    assert_eq!(
        collider_to_words(&Collider::Cuboid { half_extents: p(1.0, 2.0, 3.0) }),
        vec![0, one, two, three]
    );
    assert_eq!(
        collider_to_words(&Collider::ConvexHull { vertices: vec![p(1.0, 2.0, 3.0), p(3.0, 2.0, 1.0)] }),
        vec![1, 2, one, two, three, three, two, one]
    );
    assert_eq!(
        collider_to_words(&Collider::ConvexMesh {
            vertices: vec![p(1.0, 2.0, 3.0)],
            triangles: vec![Triangle::new(4, 5, 6), Triangle::new(7, 8, 9)],
        }),
        vec![2, 1, 2, one, two, three, 4, 5, 6, 7, 8, 9]
    );
    assert_eq!(
        collider_to_words(&Collider::TriMesh {
            vertices: vec![p(1.0, 2.0, 3.0)],
            triangles: vec![Triangle::new(4, 5, 6)],
        }),
        vec![3, 1, 1, one, two, three, 4, 5, 6]
    );
}

#[test]
fn words_that_spell_out_no_shape() {
    let rejected: Vec<Vec<u64>> = vec![
        vec![],
        vec![4],
        vec![0],
        vec![0, 1, 2],
        vec![0, 1, 2, 3, 4],
        vec![1],
        vec![1, 1],
        vec![1, 1, 0, 0],
        vec![1, 0, 0],
        vec![1, u64::MAX, 0, 0, 0],
        vec![2],
        vec![2, 0],
        vec![2, 1, 0, 0, 0],
        vec![2, 0, 1, 0, 0],
        vec![2, 1, 1, 0, 0, 0, 0, 0],
        vec![3, 0, 1, 0, 0, 1 << 32],
        vec![3, 0, 1, u64::MAX, 0, 0],
        vec![3, u64::MAX, 2, 0, 0, 0],
        vec![3, 2, u64::MAX, 0, 0, 0],
        vec![3, 0x5555_5555_5555_5556, 0x5555_5555_5555_5556, 0, 0, 0],
    ];
    for words in rejected {
        assert_eq!(collider_from_words(&words), None, "{:?}", words);
    }
    assert_eq!(
        collider_from_words(&vec![3, 0, 1, 0, 0, u32::MAX as u64]),
        Some(Collider::TriMesh {
            vertices: vec![],
            triangles: vec![Triangle::new(0, 0, u32::MAX)]
        })
    );
    assert_eq!(collider_from_words(&vec![1, 0]), Some(Collider::ConvexHull { vertices: vec![] }));
}

#[test]
fn bytes_that_hold_no_shape() {
    assert_eq!(SerializedCollider::default().decode(), None);
    assert_eq!(SerializedCollider { collider: vec![0; 7] }.decode(), None);
    assert_eq!(SerializedCollider { collider: vec![0xFF; 64] }.decode(), None);
    // A list of words that is cut short.
    let shape = Collider::Cuboid { half_extents: p(1.0, 2.0, 3.0) };
    let mut bytes = SerializedCollider::encode(&shape).unwrap().collider;
    bytes.pop();
    assert_eq!(SerializedCollider { collider: bytes }.decode(), None);
    // A well-formed list of words with an unknown tag.
    let mut bytes = SerializedCollider::encode(&shape).unwrap().collider;
    bytes[8] = 9;
    assert_eq!(SerializedCollider { collider: bytes }.decode(), None);
}

#[test]
fn the_bytes_are_the_words_behind_their_number() {
    let shape = Collider::Cuboid { half_extents: p(1.0, 2.0, 3.0) };
    let bytes = SerializedCollider::encode(&shape).unwrap().collider;
    let mut expected: Vec<u8> = Vec::new();
    expected.extend_from_slice(&4u64.to_le_bytes());
    for word in collider_to_words(&shape) {
        expected.extend_from_slice(&word.to_le_bytes());
    }
    assert_eq!(bytes, expected);
}

#[test]
fn a_copy_of_a_shape_is_the_same_shape() {
    for shape in samples() {
        assert_eq!(shape.duplicate(), shape);
    }
}

#[test]
fn a_placeholder_from_a_shape_always_holds_it() {
    for shape in samples() {
        match SerializedCollider::encode(&shape) {
            Some(placeholder) => assert_eq!(placeholder.decode().as_ref(), Some(&shape)),
            None => panic!("no bytes for {:?}", shape),
        }
    }
}

#[test]
fn the_bytes_of_a_mesh_are_its_words_behind_their_number() {
    let shape = Collider::TriMesh {
        vertices: vec![p(1.0, 2.0, 3.0)],
        triangles: vec![Triangle::new(0, 0, 0), Triangle::new(258, 1, 2)],
    };
    let words = collider_to_words(&shape);
    assert_eq!(words.len(), 12);
    let bytes = SerializedCollider::encode(&shape).unwrap().collider;
    assert_eq!(bytes.len(), 8 + 8 * 12);
    assert_eq!(&bytes[0..8], &[12, 0, 0, 0, 0, 0, 0, 0]);
    assert_eq!(&bytes[8..16], &[3, 0, 0, 0, 0, 0, 0, 0]);
    assert_eq!(&bytes[8 + 8 * 9..8 + 8 * 10], &[2, 1, 0, 0, 0, 0, 0, 0]);
    for (k, word) in words.iter().enumerate() {
        assert_eq!(&bytes[8 + 8 * k..16 + 8 * k], &word.to_le_bytes());
    }
}
