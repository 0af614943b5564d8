use bevy_gltf_collider::mesh_collider::{
    get_collider_from_mesh, normalized_indices, process_mesh_collider, triangles_from_indices,
    ColliderFromMeshError, ColliderMeshParsingError, ColliderMeshType, Indices, Mesh,
    VertexAttributeValues,
};
use bevy_gltf_collider::{Collider, MeshStore, Node, SceneGraph, Transform, Triangle, Vec3};

fn point(x: f64, y: f64, z: f64) -> Vec3 {
    Vec3::new(x.to_bits(), y.to_bits(), z.to_bits())
}

fn cube_points() -> Vec<Vec3> {
    let mut points = Vec::new();
    for x in [0.0, 1.0] {
        for y in [0.0, 1.0] {
            for z in [0.0, 1.0] {
                points.push(point(x, y, z));
            }
        }
    }
    points
}

fn cube_indices() -> Vec<u32> {
    vec![
        0, 1, 3, 0, 3, 2, 4, 6, 7, 4, 7, 5, 0, 4, 5, 0, 5, 1, 2, 3, 7, 2, 7, 6, 0, 2, 6, 0, 6, 4,
        1, 5, 7, 1, 7, 3,
    ]
}

fn unit_cube() -> Mesh {
    Mesh {
        positions: Some(VertexAttributeValues::Float32x3(cube_points())),
        indices: Some(Indices::U32(cube_indices())),
        hull_is_valid: true,
        mesh_is_convex: true,
    }
}

fn flat_square() -> Mesh {
    Mesh {
        positions: Some(VertexAttributeValues::Float32x3(vec![
            point(0.0, 0.0, 0.0),
            point(1.0, 0.0, 0.0),
            point(1.0, 1.0, 0.0),
            point(0.0, 1.0, 0.0),
        ])),
        indices: Some(Indices::U16(vec![0, 1, 2, 0, 2, 3])),
        hull_is_valid: false,
        mesh_is_convex: false,
    }
}

#[test]
fn a_triangle_mesh_has_a_triangle_for_every_three_indices() {
    let collider = get_collider_from_mesh(&unit_cube(), ColliderMeshType::TriMesh).unwrap();
    match collider {
        Collider::TriMesh { vertices, triangles } => {
            assert_eq!(vertices, cube_points());
            assert_eq!(triangles.len(), 12);
            assert_eq!(triangles[0], Triangle::new(0, 1, 3));
            assert_eq!(triangles[1], Triangle::new(0, 3, 2));
            assert_eq!(triangles[11], Triangle::new(1, 7, 3));
        }
        other => panic!("unexpected shape: {:?}", other),
    }
}

#[test]
fn a_triangle_mesh_without_triangles() {
    let mesh = Mesh {
        positions: Some(VertexAttributeValues::Float32x3(Vec::new())),
        indices: Some(Indices::U32(Vec::new())),
        hull_is_valid: false,
        mesh_is_convex: false,
    };
    assert_eq!(
        get_collider_from_mesh(&mesh, ColliderMeshType::TriMesh),
        Ok(Collider::TriMesh { vertices: Vec::new(), triangles: Vec::new() })
    );
}

#[test]
fn a_number_of_indices_that_is_no_multiple_of_three() {
    for count in [1usize, 2, 4, 5, 37] {
        let mesh = Mesh {
            positions: Some(VertexAttributeValues::Float32x3(cube_points())),
            indices: Some(Indices::U32(vec![0; count])),
            hull_is_valid: true,
            mesh_is_convex: true,
        };
        for mesh_type in
            [ColliderMeshType::TriMesh, ColliderMeshType::ConvexHull, ColliderMeshType::ConvexMesh]
        {
            assert_eq!(
                get_collider_from_mesh(&mesh, mesh_type),
                Err(ColliderFromMeshError::InvalidIndicesCount(count))
            );
        }
    }
}

#[test]
fn missing_positions_come_before_everything_else() {
    for indices in [None, Some(Indices::U32(vec![0, 1])), Some(Indices::U16(vec![0, 1, 2]))] {
        let mesh = Mesh { positions: None, indices, hull_is_valid: true, mesh_is_convex: true };
        for mesh_type in
            [ColliderMeshType::TriMesh, ColliderMeshType::ConvexHull, ColliderMeshType::ConvexMesh]
        {
            assert_eq!(
                get_collider_from_mesh(&mesh, mesh_type),
                Err(ColliderFromMeshError::MissingPositions)
            );
        }
    }
}

#[test]
fn missing_indices_come_before_the_layout_of_the_positions() {
    let mesh = Mesh {
        positions: Some(VertexAttributeValues::Other("Float32x2")),
        indices: None,
        hull_is_valid: true,
        mesh_is_convex: true,
    };
    assert_eq!(
        get_collider_from_mesh(&mesh, ColliderMeshType::ConvexHull),
        Err(ColliderFromMeshError::MissingIndices)
    );
}

#[test]
fn positions_of_another_layout_come_before_the_count() {
    let mesh = Mesh {
        positions: Some(VertexAttributeValues::Other("Uint16x4")),
        indices: Some(Indices::U32(vec![0, 1])),
        hull_is_valid: true,
        mesh_is_convex: true,
    };
    assert_eq!(
        get_collider_from_mesh(&mesh, ColliderMeshType::TriMesh),
        Err(ColliderFromMeshError::InvalidPositionsType("Uint16x4"))
    );
}

#[test]
fn four_coplanar_points_are_no_hull_but_a_triangle_mesh() {
    let mesh = flat_square();
    assert_eq!(
        get_collider_from_mesh(&mesh, ColliderMeshType::ConvexHull),
        Err(ColliderFromMeshError::NonManifold)
    );
    assert_eq!(
        get_collider_from_mesh(&mesh, ColliderMeshType::ConvexMesh),
        Err(ColliderFromMeshError::NonManifold)
    );
    let collider = get_collider_from_mesh(&mesh, ColliderMeshType::TriMesh).unwrap();
    match collider {
        Collider::TriMesh { vertices, triangles } => {
            assert_eq!(vertices.len(), 4);
            assert_eq!(triangles, vec![Triangle::new(0, 1, 2), Triangle::new(0, 2, 3)]);
        }
        other => panic!("unexpected shape: {:?}", other),
    }
}

#[test]
fn a_hull_goes_by_the_points_alone() {
    let mut mesh = unit_cube();
    mesh.indices = Some(Indices::U32(vec![7, 7, 7]));
    mesh.mesh_is_convex = false;
    assert_eq!(
        get_collider_from_mesh(&mesh, ColliderMeshType::ConvexHull),
        Ok(Collider::ConvexHull { vertices: cube_points() })
    );
    assert_eq!(
        get_collider_from_mesh(&mesh, ColliderMeshType::ConvexMesh),
        Err(ColliderFromMeshError::NonManifold)
    );
}

#[test]
fn a_convex_mesh_keeps_the_triangles_that_it_was_given() {
    let collider = get_collider_from_mesh(&unit_cube(), ColliderMeshType::ConvexMesh).unwrap();
    match collider {
        Collider::ConvexMesh { vertices, triangles } => {
            assert_eq!(vertices, cube_points());
            assert_eq!(triangles.len(), 12);
            assert_eq!(triangles[5], Triangle::new(0, 5, 1));
        }
        other => panic!("unexpected shape: {:?}", other),
    }
}

#[test]
fn narrow_indices_are_widened() {
    assert_eq!(normalized_indices(&Indices::U16(vec![0, 65535, 7])), vec![0u32, 65535, 7]);
    assert_eq!(
        normalized_indices(&Indices::U32(vec![0, 4_000_000_000, 7])),
        vec![0u32, 4_000_000_000, 7]
    );
    assert_eq!(normalized_indices(&Indices::U16(Vec::new())), Vec::<u32>::new());
}

#[test]
fn triangles_are_consecutive_triples() {
    assert_eq!(
        triangles_from_indices(&vec![5, 6, 7, 8, 9, 10]),
        vec![Triangle::new(5, 6, 7), Triangle::new(8, 9, 10)]
    );
    assert_eq!(triangles_from_indices(&vec![1, 2, 3, 4]), vec![Triangle::new(1, 2, 3)]);
    assert_eq!(triangles_from_indices(&vec![1, 2]), Vec::new());
}

fn mesh_scene() -> (SceneGraph, MeshStore) {
    let mut world = SceneGraph::new();
    let mut parent = Node::new(1, Some("collider".to_string()), Transform::identity());
    parent.children = Some(vec![9, 2, 3]);
    world.nodes.push(parent);
    world.nodes.push(Node::new(2, Some("empty".to_string()), Transform::identity()));
    let mut child = Node::new(3, None, Transform::identity());
    child.mesh = Some(30);
    world.nodes.push(child);
    let mut meshes = MeshStore::new();
    meshes.meshes.push((20, flat_square()));
    meshes.meshes.push((30, unit_cube()));
    (world, meshes)
}

#[test]
fn a_node_with_another_name_is_passed_over() {
    let (world, mut meshes) = mesh_scene();
    let children = vec![3u64];
    assert_eq!(
        process_mesh_collider(
            "Collider",
            Some(&children),
            &world,
            &mut meshes,
            ColliderMeshType::TriMesh
        ),
        None
    );
    assert_eq!(
        process_mesh_collider("a collider", None, &world, &mut meshes, ColliderMeshType::TriMesh),
        None
    );
    assert_eq!(
        process_mesh_collider("collide", None, &world, &mut meshes, ColliderMeshType::TriMesh),
        None
    );
    assert_eq!(meshes.meshes.len(), 2);
}

#[test]
fn a_collider_without_children() {
    let (world, mut meshes) = mesh_scene();
    assert_eq!(
        process_mesh_collider("collider", None, &world, &mut meshes, ColliderMeshType::TriMesh),
        Some(Err(ColliderMeshParsingError::MissingMeshNode))
    );
    assert_eq!(meshes.meshes.len(), 2);
}

#[test]
fn a_collider_whose_children_show_no_mesh() {
    let (world, mut meshes) = mesh_scene();
    let children = vec![2u64, 9];
    assert_eq!(
        process_mesh_collider(
            "collider_x",
            Some(&children),
            &world,
            &mut meshes,
            ColliderMeshType::TriMesh
        ),
        Some(Err(ColliderMeshParsingError::MissingMesh))
    );
    let none: Vec<u64> = Vec::new();
    assert_eq!(
        process_mesh_collider(
            "collider_x",
            Some(&none),
            &world,
            &mut meshes,
            ColliderMeshType::TriMesh
        ),
        Some(Err(ColliderMeshParsingError::MissingMesh))
    );
    assert_eq!(meshes.meshes.len(), 2);
}

#[test]
fn the_first_child_with_a_mesh_lends_it() {
    let (world, mut meshes) = mesh_scene();
    let children = vec![9u64, 2, 3];
    let outcome = process_mesh_collider(
        "colliderA",
        Some(&children),
        &world,
        &mut meshes,
        ColliderMeshType::ConvexHull,
    );
    assert_eq!(outcome, Some(Ok(Collider::ConvexHull { vertices: cube_points() })));
    assert_eq!(meshes.meshes.len(), 1);
    assert_eq!(meshes.meshes[0].0, 20);
    // The mesh is gone now, so the same node has no usable mesh any more.
    let outcome = process_mesh_collider(
        "colliderA",
        Some(&children),
        &world,
        &mut meshes,
        ColliderMeshType::ConvexHull,
    );
    assert_eq!(outcome, Some(Err(ColliderMeshParsingError::MissingMesh)));
    assert_eq!(meshes.meshes.len(), 1);
}

#[test]
fn a_mesh_that_gives_no_shape_is_taken_all_the_same() {
    let (mut world, mut meshes) = mesh_scene();
    world.nodes[2].mesh = Some(20);
    let children = vec![3u64];
    let outcome = process_mesh_collider(
        "collider",
        Some(&children),
        &world,
        &mut meshes,
        ColliderMeshType::ConvexHull,
    );
    assert_eq!(
        outcome,
        Some(Err(ColliderMeshParsingError::MeshColliderError(ColliderFromMeshError::NonManifold)))
    );
    assert_eq!(meshes.meshes.len(), 1);
    assert_eq!(meshes.meshes[0].0, 30);
}
