//! Shapes built from the raw buffers of a mesh.

use crate::collider::{Collider, ColliderView, Triangle};
use crate::lists::copied;
use crate::math::Vec3;
use crate::names::{chars_of, has_prefix, starts_with};
use crate::scene::{mesh_position, node_position, MeshStore, Node, SceneGraph};
use vstd::prelude::*;

verus! {

/// Why a mesh gave no shape.
#[derive(Debug, Clone, PartialEq, Eq, Hash)]
pub enum ColliderFromMeshError {
    /// The mesh has no position attribute.
    MissingPositions,
    /// The mesh has no index buffer.
    MissingIndices,
    /// The number of indices is no multiple of three. Holds that number.
    InvalidIndicesCount(usize),
    /// The positions are not three-component vectors. Holds the name of the
    /// layout that was found.
    InvalidPositionsType(&'static str),
    /// The geometry is not a valid convex solid.
    NonManifold,
    /// Kept for callers that tell a failed hull computation apart.
    ConvexHullComputationFailed,
}

/// Why a node that is named as a collider gave no shape.
#[derive(Debug, Clone, PartialEq, Eq, Hash)]
pub enum ColliderMeshParsingError {
    /// The node has no children.
    MissingMeshNode,
    /// None of the node's children carries a usable mesh.
    MissingMesh,
    /// The mesh was found and gave no shape.
    MeshColliderError(ColliderFromMeshError),
}

/// How a mesh is to be treated when a shape is built from it.
#[derive(Debug, Copy, Clone, PartialEq, Eq, Hash, Structural)]
pub enum ColliderMeshType {
    /// The convex polytope around the vertices. The mesh itself need not be
    /// convex, and its triangles are not looked at.
    ConvexHull,
    /// The mesh as it stands, which must be convex and closed.
    ConvexMesh,
    /// The triangles as they stand. Their winding and topology do not matter.
    TriMesh,
}

/// The values of a vertex attribute.
#[derive(Debug, PartialEq, Eq)]
pub enum VertexAttributeValues {
    /// Three-component vectors, one per vertex.
    Float32x3(Vec<Vec3>),
    /// Any other layout, by its name.
    Other(&'static str),
}

/// An index buffer, in either width.
#[derive(Debug, PartialEq, Eq)]
pub enum Indices {
    U16(Vec<u16>),
    U32(Vec<u32>),
}

/// The buffers of a mesh, and what the geometry kernel found out about them.
///
/// Whether a set of points spans a convex polytope, and whether a
/// triangulation bounds a convex solid, are questions about real numbers that
/// only the geometry kernel answers. Whoever loads a mesh records the answers
/// here, and the shape builder goes by them.
#[derive(Debug, PartialEq, Eq)]
pub struct Mesh {
    /// The position attribute.
    pub positions: Option<VertexAttributeValues>,
    /// The index buffer.
    pub indices: Option<Indices>,
    /// Whether a convex polytope can be built around the vertices.
    pub hull_is_valid: bool,
    /// Whether the triangles, as they stand, bound a convex solid.
    pub mesh_is_convex: bool,
}

/// Indices of the narrow width, widened.
pub open spec fn widened(indices: Seq<u16>) -> Seq<u32> {
    Seq::new(indices.len(), |i: int| indices[i] as u32)
}

/// The indices of a buffer, in the wide form.
pub open spec fn index_list(indices: Indices) -> Seq<u32> {
    match indices {
        Indices::U16(narrow) => widened(narrow@),
        Indices::U32(wide) => wide@,
    }
}

/// The triangles that a list of indices spells out: consecutive triples, in
/// order. Indices behind the last whole triple are left out.
pub open spec fn triangles_of(indices: Seq<u32>) -> Seq<Triangle> {
    Seq::new(
        indices.len() / 3,
        |k: int| Triangle { a: indices[3 * k], b: indices[3 * k + 1], c: indices[3 * k + 2] },
    )
}

/// The shape that a mesh gives when it is treated as `mesh_type` asks.
///
/// The checks come in this order: positions present, indices present,
/// positions of the right layout, number of indices a multiple of three. Only
/// then does the kind of shape matter.
pub open spec fn mesh_collider(mesh: Mesh, mesh_type: ColliderMeshType) -> Result<
    ColliderView,
    ColliderFromMeshError,
> {
    match (mesh.positions, mesh.indices) {
        (None, _) => Err(ColliderFromMeshError::MissingPositions),
        (Some(_), None) => Err(ColliderFromMeshError::MissingIndices),
        (Some(VertexAttributeValues::Other(name)), Some(_)) => Err(
            ColliderFromMeshError::InvalidPositionsType(name),
        ),
        (Some(VertexAttributeValues::Float32x3(vertices)), Some(indices)) => {
            if index_list(indices).len() % 3 != 0 {
                Err(ColliderFromMeshError::InvalidIndicesCount(index_list(indices).len() as usize))
            } else {
                match mesh_type {
                    ColliderMeshType::ConvexHull => if mesh.hull_is_valid {
                        Ok(ColliderView::ConvexHull { vertices: vertices@ })
                    } else {
                        Err(ColliderFromMeshError::NonManifold)
                    },
                    ColliderMeshType::ConvexMesh => if mesh.mesh_is_convex {
                        Ok(
                            ColliderView::ConvexMesh {
                                vertices: vertices@,
                                triangles: triangles_of(index_list(indices)),
                            },
                        )
                    } else {
                        Err(ColliderFromMeshError::NonManifold)
                    },
                    ColliderMeshType::TriMesh => Ok(
                        ColliderView::TriMesh {
                            vertices: vertices@,
                            triangles: triangles_of(index_list(indices)),
                        },
                    ),
                }
            }
        },
    }
}

/// The indices of a buffer, in the wide form.
pub fn normalized_indices(indices: &Indices) -> (wide: Vec<u32>)
    ensures
        wide@ == index_list(*indices),
{
    let mut wide: Vec<u32> = Vec::new();
    match indices {
        Indices::U32(source) => {
            let mut i: usize = 0;
            while i < source.len()
                invariant
                    i <= source.len(),
                    wide@ == source@.take(i as int),
                decreases source.len() - i,
            {
                wide.push(source[i]);
                i += 1;
            }
        },
        Indices::U16(source) => {
            let mut i: usize = 0;
            while i < source.len()
                invariant
                    i <= source.len(),
                    wide@ == widened(source@).take(i as int),
                decreases source.len() - i,
            {
                let index: u16 = source[i];
                wide.push(index as u32);
                i += 1;
            }
        },
    }
    wide
}

/// The triangles that a list of indices spells out.
pub fn triangles_from_indices(indices: &Vec<u32>) -> (triangles: Vec<Triangle>)
    ensures
        triangles@ == triangles_of(indices@),
{
    let count: usize = indices.len() / 3;
    let mut triangles: Vec<Triangle> = Vec::new();
    let mut k: usize = 0;
    while k < count
        invariant
            k <= count,
            count == indices.len() / 3,
            triangles@ == triangles_of(indices@).take(k as int),
        decreases count - k,
    {
        let triangle = Triangle::new(indices[3 * k], indices[3 * k + 1], indices[3 * k + 2]);
        triangles.push(triangle);
        k += 1;
    }
    triangles
}

/// Builds the shape that a mesh gives when it is treated as `mesh_type` asks.
pub fn get_collider_from_mesh(mesh: &Mesh, mesh_type: ColliderMeshType) -> (r: Result<
    Collider,
    ColliderFromMeshError,
>)
    ensures
        match r {
            Ok(collider) => mesh_collider(*mesh, mesh_type) == Ok::<
                ColliderView,
                ColliderFromMeshError,
            >(collider@),
            Err(e) => mesh_collider(*mesh, mesh_type) == Err::<ColliderView, ColliderFromMeshError>(
                e,
            ),
        },
{
    let positions = match &mesh.positions {
        None => { return Err(ColliderFromMeshError::MissingPositions); },
        Some(positions) => positions,
    };
    let indices = match &mesh.indices {
        None => { return Err(ColliderFromMeshError::MissingIndices); },
        Some(indices) => indices,
    };
    let positions = match positions {
        VertexAttributeValues::Float32x3(positions) => positions,
        VertexAttributeValues::Other(name) => {
            return Err(ColliderFromMeshError::InvalidPositionsType(*name));
        },
    };
    let indices = normalized_indices(indices);
    if indices.len() % 3 != 0 {
        return Err(ColliderFromMeshError::InvalidIndicesCount(indices.len()));
    }
    match mesh_type {
        ColliderMeshType::ConvexHull => {
            if mesh.hull_is_valid {
                Ok(Collider::ConvexHull { vertices: copied(positions) })
            } else {
                Err(ColliderFromMeshError::NonManifold)
            }
        },
        ColliderMeshType::ConvexMesh => {
            if mesh.mesh_is_convex {
                Ok(
                    Collider::ConvexMesh {
                        vertices: copied(positions),
                        triangles: triangles_from_indices(&indices),
                    },
                )
            } else {
                Err(ColliderFromMeshError::NonManifold)
            }
        },
        ColliderMeshType::TriMesh => Ok(
            Collider::TriMesh {
                vertices: copied(positions),
                triangles: triangles_from_indices(&indices),
            },
        ),
    }
}

/// The handle of the mesh that the node with the id `id` shows.
pub open spec fn node_mesh(nodes: Seq<Node>, id: u64) -> Option<u64> {
    match node_position(nodes, id) {
        Some(at) => nodes[at].mesh,
        None => None,
    }
}

/// The handle of the mesh of the first of `children`, from the place `from`
/// on, that shows a mesh. A child that the scene does not hold shows none.
pub open spec fn first_child_mesh(nodes: Seq<Node>, children: Seq<u64>, from: int) -> Option<u64>
    decreases children.len() - from,
{
    if from < 0 || from >= children.len() {
        None
    } else {
        match node_mesh(nodes, children[from]) {
            Some(handle) => Some(handle),
            None => first_child_mesh(nodes, children, from + 1),
        }
    }
}

/// What looking at one node for a mesh collider gives, and the meshes that
/// are left in the store.
pub ghost struct NodeOutcome {
    pub outcome: Option<Result<ColliderView, ColliderMeshParsingError>>,
    pub meshes: Seq<(u64, Mesh)>,
}

/// The shape that a mesh gives, as the outcome for the node that lends it.
pub open spec fn lent_collider(mesh: Mesh, mesh_type: ColliderMeshType) -> Result<
    ColliderView,
    ColliderMeshParsingError,
> {
    match mesh_collider(mesh, mesh_type) {
        Ok(collider) => Ok(collider),
        Err(e) => Err(ColliderMeshParsingError::MeshColliderError(e)),
    }
}

/// What a node named `name`, with the children `children`, gives.
///
/// A node whose name does not start with `collider` gives nothing. Otherwise
/// the first child that shows a mesh is taken; its mesh leaves the store and
/// is handed to the shape builder. A handle that the store does not hold is
/// no usable mesh.
pub open spec fn node_mesh_collider(
    name: Seq<char>,
    children: Option<Seq<u64>>,
    nodes: Seq<Node>,
    meshes: Seq<(u64, Mesh)>,
    mesh_type: ColliderMeshType,
) -> NodeOutcome {
    if !has_prefix(name, "collider"@) {
        NodeOutcome { outcome: None, meshes }
    } else {
        match children {
            None => NodeOutcome {
                outcome: Some(Err(ColliderMeshParsingError::MissingMeshNode)),
                meshes,
            },
            Some(children) => match first_child_mesh(nodes, children, 0) {
                None => NodeOutcome {
                    outcome: Some(Err(ColliderMeshParsingError::MissingMesh)),
                    meshes,
                },
                Some(handle) => match mesh_position(meshes, handle) {
                    None => NodeOutcome {
                        outcome: Some(Err(ColliderMeshParsingError::MissingMesh)),
                        meshes,
                    },
                    Some(at) => NodeOutcome {
                        outcome: Some(lent_collider(meshes[at].1, mesh_type)),
                        meshes: meshes.remove(at),
                    },
                },
            },
        }
    }
}

/// The ids that a list of children holds.
pub open spec fn child_ids(children: Option<&Vec<u64>>) -> Option<Seq<u64>> {
    match children {
        Some(children) => Some(children@),
        None => None,
    }
}

/// Whether an outcome of looking at a node is the expected one.
pub open spec fn is_node_outcome(
    r: Option<Result<Collider, ColliderMeshParsingError>>,
    expected: Option<Result<ColliderView, ColliderMeshParsingError>>,
) -> bool {
    match r {
        None => expected is None,
        Some(Ok(collider)) => expected == Some(
            Ok::<ColliderView, ColliderMeshParsingError>(collider@),
        ),
        Some(Err(e)) => expected == Some(Err::<ColliderView, ColliderMeshParsingError>(e)),
    }
}

/// The handle of the mesh of the first of `children` that shows one.
pub fn first_mesh_of_children(world: &SceneGraph, children: &Vec<u64>) -> (r: Option<u64>)
    ensures
        r == first_child_mesh(world.nodes@, children@, 0),
{
    let mut i: usize = 0;
    while i < children.len()
        invariant
            i <= children.len(),
            first_child_mesh(world.nodes@, children@, 0) == first_child_mesh(
                world.nodes@,
                children@,
                i as int,
            ),
        decreases children.len() - i,
    {
        let shown: Option<u64> = match world.position(children[i]) {
            Some(at) => world.nodes[at].mesh,
            None => None,
        };
        if shown.is_some() {
            return shown;
        }
        i += 1;
    }
    None
}

/// The handle of the mesh that a node lends, where it is named as a collider
/// and one of its children shows a mesh.
pub open spec fn lent_mesh(nodes: Seq<Node>, node: Node) -> Option<u64> {
    if node.name is Some && has_prefix(node.name.unwrap()@, "collider"@) && node.children is Some {
        first_child_mesh(nodes, node.children.unwrap()@, 0)
    } else {
        None
    }
}

/// The handles of the meshes that the first `count` nodes lend, in the order
/// of the nodes.
pub open spec fn lent_meshes(nodes: Seq<Node>, count: nat) -> Seq<u64>
    decreases count,
{
    if count == 0 {
        Seq::empty()
    } else {
        let before = lent_meshes(nodes, (count - 1) as nat);
        match lent_mesh(nodes, nodes[count - 1]) {
            Some(handle) => before.push(handle),
            None => before,
        }
    }
}

/// The handles of the meshes that the nodes of a scene lend: the meshes that
/// an extraction may ask the shape builder about, and no others.
pub fn collider_mesh_handles(world: &SceneGraph) -> (handles: Vec<u64>)
    ensures
        handles@ == lent_meshes(world.nodes@, world.nodes@.len()),
{
    let prefix = chars_of("collider");
    let mut handles: Vec<u64> = Vec::new();
    let mut i: usize = 0;
    while i < world.nodes.len()
        invariant
            i <= world.nodes.len(),
            prefix@ == "collider"@,
            handles@ == lent_meshes(world.nodes@, i as nat),
        decreases world.nodes.len() - i,
    {
        let node = &world.nodes[i];
        let lent: Option<u64> = match (&node.name, &node.children) {
            (Some(name), Some(children)) => {
                let name = chars_of(name.as_str());
                if starts_with(&name, &prefix) {
                    first_mesh_of_children(world, children)
                } else {
                    None
                }
            },
            _ => None,
        };
        match lent {
            Some(handle) => {
                handles.push(handle);
            },
            None => {},
        }
        i += 1;
    }
    handles
}

/// Looks at one node for a mesh collider.
///
/// `None` means that the node is not named as a collider. The mesh that is
/// used leaves the store, whether or not it gives a shape.
pub fn process_mesh_collider(
    node_name: &str,
    children: Option<&Vec<u64>>,
    world: &SceneGraph,
    meshes: &mut MeshStore,
    mesh_type: ColliderMeshType,
) -> (r: Option<Result<Collider, ColliderMeshParsingError>>)
    ensures
        is_node_outcome(
            r,
            node_mesh_collider(
                node_name@,
                child_ids(children),
                world.nodes@,
                old(meshes).meshes@,
                mesh_type,
            ).outcome,
        ),
        final(meshes).meshes@ == node_mesh_collider(
            node_name@,
            child_ids(children),
            world.nodes@,
            old(meshes).meshes@,
            mesh_type,
        ).meshes,
{
    let name = chars_of(node_name);
    let prefix = chars_of("collider");
    if !starts_with(&name, &prefix) {
        return None;
    }
    let ids = match children {
        Some(ids) => ids,
        None => {
            return Some(Err(ColliderMeshParsingError::MissingMeshNode));
        },
    };
    let handle = match first_mesh_of_children(world, ids) {
        Some(handle) => handle,
        None => {
            return Some(Err(ColliderMeshParsingError::MissingMesh));
        },
    };
    match meshes.remove(handle) {
        None => Some(Err(ColliderMeshParsingError::MissingMesh)),
        Some(mesh) => Some(
            match get_collider_from_mesh(&mesh, mesh_type) {
                Ok(collider) => Ok(collider),
                Err(e) => Err(ColliderMeshParsingError::MeshColliderError(e)),
            },
        ),
    }
}

/// A mesh with positions of the right layout and a number of indices that is a
/// multiple of three always gives a triangle mesh, with one triangle for
/// every three indices.
pub proof fn lemma_trimesh_always_succeeds(mesh: Mesh)
    requires
        mesh.positions matches Some(VertexAttributeValues::Float32x3(_)),
        mesh.indices is Some,
        index_list(mesh.indices.unwrap()).len() % 3 == 0,
    ensures
        mesh_collider(mesh, ColliderMeshType::TriMesh) == Ok::<ColliderView, ColliderFromMeshError>(
            ColliderView::TriMesh {
                vertices: mesh.positions.unwrap()->Float32x3_0@,
                triangles: triangles_of(index_list(mesh.indices.unwrap())),
            },
        ),
        triangles_of(index_list(mesh.indices.unwrap())).len() == index_list(
            mesh.indices.unwrap(),
        ).len() / 3,
{
}

/// A mesh with positions of the right layout and a number of indices that is
/// no multiple of three gives `InvalidIndicesCount` with that number,
/// whatever shape is asked for.
pub proof fn lemma_indices_count_is_checked(mesh: Mesh, mesh_type: ColliderMeshType)
    requires
        mesh.positions matches Some(VertexAttributeValues::Float32x3(_)),
        mesh.indices is Some,
        index_list(mesh.indices.unwrap()).len() % 3 != 0,
    ensures
        mesh_collider(mesh, mesh_type) == Err::<ColliderView, ColliderFromMeshError>(
            ColliderFromMeshError::InvalidIndicesCount(
                index_list(mesh.indices.unwrap()).len() as usize,
            ),
        ),
{
}

/// A mesh without positions gives `MissingPositions`, whatever its indices
/// are and whatever shape is asked for.
pub proof fn lemma_positions_come_first(mesh: Mesh, mesh_type: ColliderMeshType)
    requires
        mesh.positions is None,
    ensures
        mesh_collider(mesh, mesh_type) == Err::<ColliderView, ColliderFromMeshError>(
            ColliderFromMeshError::MissingPositions,
        ),
{
}

} // verus!
