//! Extraction of the collision shapes of a whole scene.
//!
//! A scene is scanned in two passes. The first reads the metadata payload of
//! every node that has one. The second looks at every named node for a mesh
//! collider. Only when both passes are through without an error are the nodes
//! that lent a mesh taken out of the scene, each with its whole subtree.

use crate::collider::{Collider, ColliderView};
use crate::extras_collider::{
    entries_view, extras_colliders, process_extras_collider, ColliderExtrasParsingError,
    ExtrasErrorView,
};
use crate::lists::reversed;
use crate::math::Transform;
use crate::mesh_collider::{
    node_mesh_collider, process_mesh_collider, ColliderMeshParsingError, ColliderMeshType, Mesh,
};
use crate::names::{
    after_last, chars_of, end_of_last_occurrence, has_prefix, same_trimmed_from, trimmed,
};
use crate::scene::{in_subtrees, reached, without_subtrees, MeshStore, Node, SceneGraph};
use crate::serialized::{encoded, SerializedCollider};
use vstd::prelude::*;

verus! {

/// Why a scene gave no shapes.
#[derive(Debug, PartialEq)]
pub enum ColliderFromSceneError {
    /// A node that is named as a collider gave no shape.
    MeshParsingError(ColliderMeshParsingError),
    /// A metadata payload declares colliders and is malformed.
    ExtrasParsingError(ColliderExtrasParsingError),
    /// Kept for callers that treat a scene without colliders as an error.
    NoCollidersFound,
}

/// What a [`ColliderFromSceneError`] holds.
pub ghost enum SceneErrorView {
    MeshParsingError(ColliderMeshParsingError),
    ExtrasParsingError(ExtrasErrorView),
    NoCollidersFound,
}

impl View for ColliderFromSceneError {
    type V = SceneErrorView;

    open spec fn view(&self) -> SceneErrorView {
        match *self {
            ColliderFromSceneError::MeshParsingError(e) => SceneErrorView::MeshParsingError(e),
            ColliderFromSceneError::ExtrasParsingError(e) => SceneErrorView::ExtrasParsingError(
                e@,
            ),
            ColliderFromSceneError::NoCollidersFound => SceneErrorView::NoCollidersFound,
        }
    }
}

/// The shapes that the metadata of the first `count` nodes declares, in the
/// order of the nodes; the error of the first payload that is malformed.
pub open spec fn scan_metadata(nodes: Seq<Node>, count: nat) -> Result<
    Seq<(ColliderView, Transform)>,
    ExtrasErrorView,
>
    decreases count,
{
    if count == 0 {
        Ok(Seq::empty())
    } else {
        match scan_metadata(nodes, (count - 1) as nat) {
            Err(e) => Err(e),
            Ok(declared) => match nodes[count - 1].extras {
                None => Ok(declared),
                Some(payload) => match extras_colliders(payload@) {
                    None => Ok(declared),
                    Some(Err(e)) => Err(e),
                    Some(Ok(entries)) => Ok(declared + entries),
                },
            },
        }
    }
}

/// A shape that a node lent its mesh to.
pub ghost struct Found {
    /// The shape.
    pub collider: ColliderView,
    /// The placement of the node.
    pub transform: Transform,
    /// The name of the node.
    pub name: Seq<char>,
    /// The id of the node.
    pub id: u64,
}

/// What the pass over the named nodes gives: the shapes that were found, or
/// the first error, and the meshes that are left in the store.
pub ghost struct NamedScan {
    pub outcome: Result<Seq<Found>, ColliderMeshParsingError>,
    pub meshes: Seq<(u64, Mesh)>,
}

/// The ids of the children of a node.
pub open spec fn node_children(node: Node) -> Option<Seq<u64>> {
    match node.children {
        Some(children) => Some(children@),
        None => None,
    }
}

/// The pass over the first `count` nodes, starting from the store `meshes`.
/// It stops at the first error; the meshes that were taken until then stay
/// taken.
pub open spec fn scan_named(
    nodes: Seq<Node>,
    count: nat,
    meshes: Seq<(u64, Mesh)>,
    mesh_type: ColliderMeshType,
) -> NamedScan
    decreases count,
{
    if count == 0 {
        NamedScan { outcome: Ok(Seq::empty()), meshes }
    } else {
        let before = scan_named(nodes, (count - 1) as nat, meshes, mesh_type);
        let node = nodes[count - 1];
        match (before.outcome, node.name) {
            (Ok(found), Some(name)) => {
                let looked = node_mesh_collider(
                    name@,
                    node_children(node),
                    nodes,
                    before.meshes,
                    mesh_type,
                );
                match looked.outcome {
                    None => before,
                    Some(Err(e)) => NamedScan { outcome: Err(e), meshes: looked.meshes },
                    Some(Ok(collider)) => NamedScan {
                        outcome: Ok(
                            found.push(
                                Found {
                                    collider,
                                    transform: node.transform,
                                    name: name@,
                                    id: node.id,
                                },
                            ),
                        ),
                        meshes: looked.meshes,
                    },
                }
            },
            _ => before,
        }
    }
}

/// Once the pass has met an error, it stays as it is.
pub proof fn lemma_scan_named_stops(
    nodes: Seq<Node>,
    count: nat,
    more: nat,
    meshes: Seq<(u64, Mesh)>,
    mesh_type: ColliderMeshType,
)
    requires
        count <= more,
        scan_named(nodes, count, meshes, mesh_type).outcome is Err,
    ensures
        scan_named(nodes, more, meshes, mesh_type) == scan_named(nodes, count, meshes, mesh_type),
    decreases more - count,
{
    if count < more {
        lemma_scan_named_stops(nodes, count, (more - 1) as nat, meshes, mesh_type);
    }
}

/// Once the pass over the metadata has met an error, it stays as it is.
pub proof fn lemma_scan_metadata_stops(nodes: Seq<Node>, count: nat, more: nat)
    requires
        count <= more,
        scan_metadata(nodes, count) is Err,
    ensures
        scan_metadata(nodes, more) == scan_metadata(nodes, count),
    decreases more - count,
{
    if count < more {
        lemma_scan_metadata_stops(nodes, count, (more - 1) as nat);
    }
}

/// The shapes of a list of finds, with their placements.
pub open spec fn found_entries(found: Seq<Found>) -> Seq<(ColliderView, Transform)> {
    Seq::new(found.len(), |i: int| (found[i].collider, found[i].transform))
}

/// The shapes of a list of finds, with their placements and the names of the
/// nodes that lent them.
pub open spec fn found_named_entries(found: Seq<Found>) -> Seq<
    (ColliderView, Transform, Seq<char>),
> {
    Seq::new(found.len(), |i: int| (found[i].collider, found[i].transform, found[i].name))
}

/// The ids of the nodes of a list of finds.
pub open spec fn found_ids(found: Seq<Found>) -> Seq<u64> {
    Seq::new(found.len(), |i: int| found[i].id)
}

/// What extraction makes of a scene: what it returns, the meshes that are
/// left in the store, and the nodes that are left in the scene.
pub ghost struct Extraction {
    pub outcome: Result<Seq<(ColliderView, Transform)>, SceneErrorView>,
    pub meshes: Seq<(u64, Mesh)>,
    pub nodes: Seq<Node>,
}

/// Extraction of all colliders of a scene.
///
/// An error in the metadata leaves store and scene untouched. An error at a
/// named node leaves the scene untouched; the meshes that were taken until
/// then stay taken. Without an error the declared shapes come first, then the
/// found ones, and the nodes that lent a mesh leave the scene with their
/// subtrees. No node leaves the scene for carrying metadata.
pub open spec fn scene_colliders(
    nodes: Seq<Node>,
    meshes: Seq<(u64, Mesh)>,
    mesh_type: ColliderMeshType,
) -> Extraction {
    match scan_metadata(nodes, nodes.len()) {
        Err(e) => Extraction {
            outcome: Err(SceneErrorView::ExtrasParsingError(e)),
            meshes,
            nodes,
        },
        Ok(declared) => {
            let scan = scan_named(nodes, nodes.len(), meshes, mesh_type);
            match scan.outcome {
                Err(e) => Extraction {
                    outcome: Err(SceneErrorView::MeshParsingError(e)),
                    meshes: scan.meshes,
                    nodes,
                },
                Ok(found) => Extraction {
                    outcome: Ok(declared + found_entries(found)),
                    meshes: scan.meshes,
                    nodes: without_subtrees(nodes, found_ids(found).to_set()),
                },
            }
        },
    }
}

/// What the outcome of an extraction holds.
pub open spec fn outcome_view(
    r: Result<Vec<(Collider, Transform)>, ColliderFromSceneError>,
) -> Result<Seq<(ColliderView, Transform)>, SceneErrorView> {
    match r {
        Ok(entries) => Ok(entries_view(entries@)),
        Err(e) => Err(e@),
    }
}

/// A find, as the scan holds it.
struct FoundCollider {
    collider: Collider,
    transform: Transform,
    name: String,
    id: u64,
}

impl FoundCollider {
    spec fn found(self) -> Found {
        Found { collider: self.collider@, transform: self.transform, name: self.name@, id: self.id }
    }
}

spec fn all_found(list: Seq<FoundCollider>) -> Seq<Found> {
    Seq::new(list.len(), |i: int| list[i].found())
}

/// The pass over the named nodes.
fn scan_named_nodes(
    meshes: &mut MeshStore,
    world: &SceneGraph,
    mesh_type: ColliderMeshType,
) -> (r: Result<Vec<FoundCollider>, ColliderMeshParsingError>)
    ensures
        final(meshes).meshes@ == scan_named(
            world.nodes@,
            world.nodes@.len(),
            old(meshes).meshes@,
            mesh_type,
        ).meshes,
        match r {
            Ok(list) => scan_named(
                world.nodes@,
                world.nodes@.len(),
                old(meshes).meshes@,
                mesh_type,
            ).outcome == Ok::<Seq<Found>, ColliderMeshParsingError>(all_found(list@)),
            Err(e) => scan_named(
                world.nodes@,
                world.nodes@.len(),
                old(meshes).meshes@,
                mesh_type,
            ).outcome == Err::<Seq<Found>, ColliderMeshParsingError>(e),
        },
{
    let ghost start = meshes.meshes@;
    let mut list: Vec<FoundCollider> = Vec::new();
    let mut i: usize = 0;
    assert(all_found(list@) =~= Seq::empty());
    while i < world.nodes.len()
        invariant
            i <= world.nodes.len(),
            start == old(meshes).meshes@,
            scan_named(world.nodes@, i as nat, start, mesh_type) == (NamedScan {
                outcome: Ok(all_found(list@)),
                meshes: meshes.meshes@,
            }),
        decreases world.nodes.len() - i,
    {
        let node = &world.nodes[i];
        match &node.name {
            None => {},
            Some(name) => {
                let children: Option<&Vec<u64>> = match &node.children {
                    Some(children) => Some(children),
                    None => None,
                };
                match process_mesh_collider(name.as_str(), children, world, meshes, mesh_type) {
                    None => {},
                    Some(Err(e)) => {
                        proof {
                            lemma_scan_named_stops(
                                world.nodes@,
                                (i + 1) as nat,
                                world.nodes@.len(),
                                start,
                                mesh_type,
                            );
                        }
                        return Err(e);
                    },
                    Some(Ok(collider)) => {
                        let ghost before = all_found(list@);
                        let entry = FoundCollider {
                            collider,
                            transform: node.transform,
                            name: name.clone(),
                            id: node.id,
                        };
                        list.push(entry);
                        assert(all_found(list@) =~= before.push(entry.found()));
                    },
                }
            },
        }
        i += 1;
    }
    Ok(list)
}

/// The ids of the nodes among the first `count` that lend a mesh and get a
/// shape for it, in order: all that the pass finds before it ends or meets
/// its first error.
pub open spec fn lenders(
    nodes: Seq<Node>,
    count: nat,
    meshes: Seq<(u64, Mesh)>,
    mesh_type: ColliderMeshType,
) -> Seq<u64>
    decreases count,
{
    if count == 0 {
        Seq::empty()
    } else {
        match scan_named(nodes, count, meshes, mesh_type).outcome {
            Ok(found) => found_ids(found),
            Err(_) => lenders(nodes, (count - 1) as nat, meshes, mesh_type),
        }
    }
}

proof fn lemma_lenders_stop(
    nodes: Seq<Node>,
    count: nat,
    more: nat,
    meshes: Seq<(u64, Mesh)>,
    mesh_type: ColliderMeshType,
)
    requires
        1 <= count <= more,
        scan_named(nodes, count, meshes, mesh_type).outcome is Err,
    ensures
        lenders(nodes, more, meshes, mesh_type) == lenders(
            nodes,
            (count - 1) as nat,
            meshes,
            mesh_type,
        ),
    decreases more - count,
{
    if count < more {
        lemma_scan_named_stops(nodes, count, more, meshes, mesh_type);
        lemma_lenders_stop(nodes, count, (more - 1) as nat, meshes, mesh_type);
    }
}

/// Runs the pass over the named nodes for the sake of knowing which nodes
/// lend a mesh and get a shape for it before the pass ends or meets its first
/// error. The shapes are dropped; the meshes that the pass uses leave the
/// store as they do in an extraction.
pub fn lending_nodes(
    meshes: &mut MeshStore,
    world: &SceneGraph,
    mesh_type: ColliderMeshType,
) -> (ids: Vec<u64>)
    ensures
        ids@ == lenders(world.nodes@, world.nodes@.len(), old(meshes).meshes@, mesh_type),
        final(meshes).meshes@ == scan_named(
            world.nodes@,
            world.nodes@.len(),
            old(meshes).meshes@,
            mesh_type,
        ).meshes,
{
    let ghost start = meshes.meshes@;
    let ghost mut found: Seq<Found> = Seq::empty();
    let mut ids: Vec<u64> = Vec::new();
    let mut i: usize = 0;
    while i < world.nodes.len()
        invariant
            i <= world.nodes.len(),
            start == old(meshes).meshes@,
            scan_named(world.nodes@, i as nat, start, mesh_type) == (NamedScan {
                outcome: Ok(found),
                meshes: meshes.meshes@,
            }),
            ids@ == found_ids(found),
            ids@ == lenders(world.nodes@, i as nat, start, mesh_type),
        decreases world.nodes.len() - i,
    {
        let node = &world.nodes[i];
        match &node.name {
            None => {},
            Some(name) => {
                let children: Option<&Vec<u64>> = match &node.children {
                    Some(children) => Some(children),
                    None => None,
                };
                match process_mesh_collider(name.as_str(), children, world, meshes, mesh_type) {
                    None => {},
                    Some(Err(_)) => {
                        proof {
                            lemma_scan_named_stops(
                                world.nodes@,
                                (i + 1) as nat,
                                world.nodes@.len(),
                                start,
                                mesh_type,
                            );
                            lemma_lenders_stop(
                                world.nodes@,
                                (i + 1) as nat,
                                world.nodes@.len(),
                                start,
                                mesh_type,
                            );
                        }
                        return ids;
                    },
                    Some(Ok(collider)) => {
                        ids.push(node.id);
                        proof {
                            found = found.push(
                                Found {
                                    collider: collider@,
                                    transform: node.transform,
                                    name: name@,
                                    id: node.id,
                                },
                            );
                        }
                    },
                }
            },
        }
        i += 1;
    }
    ids
}

/// The pass over the metadata.
fn scan_metadata_nodes(world: &SceneGraph) -> (r: Result<
    Vec<(Collider, Transform)>,
    ColliderExtrasParsingError,
>)
    ensures
        match r {
            Ok(entries) => scan_metadata(world.nodes@, world.nodes@.len()) == Ok::<
                Seq<(ColliderView, Transform)>,
                ExtrasErrorView,
            >(entries_view(entries@)),
            Err(e) => scan_metadata(world.nodes@, world.nodes@.len()) == Err::<
                Seq<(ColliderView, Transform)>,
                ExtrasErrorView,
            >(e@),
        },
{
    let mut result: Vec<(Collider, Transform)> = Vec::new();
    let mut i: usize = 0;
    assert(entries_view(result@) =~= Seq::empty());
    while i < world.nodes.len()
        invariant
            i <= world.nodes.len(),
            scan_metadata(world.nodes@, i as nat) == Ok::<
                Seq<(ColliderView, Transform)>,
                ExtrasErrorView,
            >(entries_view(result@)),
        decreases world.nodes.len() - i,
    {
        match &world.nodes[i].extras {
            None => {},
            Some(payload) => {
                match process_extras_collider(payload.as_str()) {
                    None => {},
                    Some(Err(e)) => {
                        proof {
                            lemma_scan_metadata_stops(
                                world.nodes@,
                                (i + 1) as nat,
                                world.nodes@.len(),
                            );
                        }
                        return Err(e);
                    },
                    Some(Ok(entries)) => {
                        let ghost before = entries_view(result@);
                        let ghost added = entries_view(entries@);
                        let mut entries = entries;
                        result.append(&mut entries);
                        assert(entries_view(result@) =~= before + added);
                    },
                }
            },
        }
        i += 1;
    }
    Ok(result)
}

/// Extracts all colliders of a scene.
///
/// Should be called once per scene: it takes the meshes that it uses out of
/// the store and the nodes that lent them out of the scene.
pub fn get_scene_colliders(
    meshes: &mut MeshStore,
    world: &mut SceneGraph,
    mesh_type: ColliderMeshType,
) -> (r: Result<Vec<(Collider, Transform)>, ColliderFromSceneError>)
    ensures
        outcome_view(r) == scene_colliders(
            old(world).nodes@,
            old(meshes).meshes@,
            mesh_type,
        ).outcome,
        final(meshes).meshes@ == scene_colliders(
            old(world).nodes@,
            old(meshes).meshes@,
            mesh_type,
        ).meshes,
        final(world).nodes@ == scene_colliders(
            old(world).nodes@,
            old(meshes).meshes@,
            mesh_type,
        ).nodes,
{
    let mut result = match scan_metadata_nodes(world) {
        Err(e) => {
            return Err(ColliderFromSceneError::ExtrasParsingError(e));
        },
        Ok(declared) => declared,
    };
    let found = match scan_named_nodes(meshes, world, mesh_type) {
        Err(e) => {
            return Err(ColliderFromSceneError::MeshParsingError(e));
        },
        Ok(found) => found,
    };
    let ghost declared = entries_view(result@);
    let ghost finds = all_found(found@);
    let mut roots: Vec<u64> = Vec::new();
    let mut stack = reversed(found);
    let ghost total = finds.len();
    while stack.len() > 0
        invariant
            roots.len() + stack.len() == total,
            total == finds.len(),
            forall|k: int|
                0 <= k < stack.len() ==> (#[trigger] stack@[k]).found() == finds[total - 1 - k],
            roots@ == found_ids(finds).take(roots.len() as int),
            entries_view(result@) == declared + found_entries(finds.take(roots.len() as int)),
        decreases stack.len(),
    {
        let entry = stack.pop().unwrap();
        let ghost done = roots.len() as int;
        let ghost before = entries_view(result@);
        roots.push(entry.id);
        result.push((entry.collider, entry.transform));
        assert(entries_view(result@) =~= before.push((finds[done].collider, finds[done].transform)));
    }
    assert(finds.take(total as int) == finds);
    assert(found_ids(finds).take(total as int) == found_ids(finds));
    world.remove_subtrees(&roots);
    Ok(result)
}

/// The name of the node that a shape is handed to, going by the name of the
/// node that lent it: what follows the last `collider_` in that name, without
/// the whitespace round it. A name without `collider_` names no such node.
pub open spec fn target_name(name: Seq<char>) -> Option<Seq<char>> {
    match after_last(name, "collider_"@) {
        Some(rest) => Some(trimmed(rest)),
        None => None,
    }
}

/// The place of the first node from `from` on whose name, without the
/// whitespace round it, is `wanted`.
pub open spec fn named_position_from(nodes: Seq<Node>, wanted: Seq<char>, from: int) -> Option<int>
    decreases nodes.len() - from,
{
    if from < 0 || from >= nodes.len() {
        None
    } else if nodes[from].name is Some && trimmed(nodes[from].name.unwrap()@) == wanted {
        Some(from)
    } else {
        named_position_from(nodes, wanted, from + 1)
    }
}

/// The place of the node that the shape of the node named `name` is handed
/// to: the first node in traversal order that has the wanted name.
pub open spec fn reparent_target(nodes: Seq<Node>, name: Seq<char>) -> Option<int> {
    match target_name(name) {
        Some(wanted) => named_position_from(nodes, wanted, 0),
        None => None,
    }
}

/// The placeholder of a node: its bytes, and whether it is new.
pub ghost struct Slot {
    pub bytes: Option<Seq<u8>>,
    pub is_new: bool,
}

/// The placeholder that a node carries.
pub open spec fn node_slot(node: Node) -> Slot {
    Slot {
        bytes: match node.serialized {
            Some(placeholder) => Some(placeholder@),
            None => None,
        },
        is_new: node.serialized_is_new,
    }
}

/// The placeholder of the node at the place `at`, once the first `count` of
/// the finds are handed on. A find whose target is that node, and whose shape
/// can be turned into bytes, leaves its bytes there as a new placeholder; a
/// later one takes the place of an earlier one.
pub open spec fn slot_after(nodes: Seq<Node>, found: Seq<Found>, count: nat, at: int) -> Slot
    decreases count,
{
    if count == 0 {
        node_slot(nodes[at])
    } else {
        let entry = found[count - 1];
        if reparent_target(nodes, entry.name) == Some(at) && encoded(entry.collider) is Some {
            Slot { bytes: encoded(entry.collider), is_new: true }
        } else {
            slot_after(nodes, found, (count - 1) as nat, at)
        }
    }
}

/// Whether two nodes are the same but for their placeholders.
pub open spec fn same_but_slot(a: Node, b: Node) -> bool {
    &&& a.id == b.id
    &&& a.name == b.name
    &&& a.transform == b.transform
    &&& a.children == b.children
    &&& a.mesh == b.mesh
    &&& a.extras == b.extras
    &&& a.collider == b.collider
}

/// Whether `after` is the scene `nodes` with the finds handed on: the same
/// nodes in the same order, each with the placeholder that `slot_after` gives.
pub open spec fn reparented(nodes: Seq<Node>, found: Seq<Found>, after: Seq<Node>) -> bool {
    &&& after.len() == nodes.len()
    &&& forall|at: int|
        0 <= at < nodes.len() ==> same_but_slot(#[trigger] after[at], nodes[at]) && node_slot(
            after[at],
        ) == slot_after(nodes, found, found.len(), at)
}

/// What a run of shapes with their placements and names holds.
pub open spec fn named_entries_view(entries: Seq<(Collider, Transform, String)>) -> Seq<
    (ColliderView, Transform, Seq<char>),
> {
    Seq::new(entries.len(), |i: int| (entries[i].0@, entries[i].1, entries[i].2@))
}

proof fn lemma_named_position_same_names(
    a: Seq<Node>,
    b: Seq<Node>,
    wanted: Seq<char>,
    from: int,
)
    requires
        a.len() == b.len(),
        forall|k: int| 0 <= k < a.len() ==> (#[trigger] a[k]).name == b[k].name,
    ensures
        named_position_from(a, wanted, from) == named_position_from(b, wanted, from),
    decreases a.len() - from,
{
    if 0 <= from < a.len() {
        lemma_named_position_same_names(a, b, wanted, from + 1);
    }
}

/// The place of the first node whose name is `wanted[from..]`, both taken
/// without the whitespace round them.
fn find_named(nodes: &Vec<Node>, wanted: &Vec<char>, from: usize) -> (r: Option<usize>)
    requires
        from <= wanted.len(),
    ensures
        match r {
            Some(at) => at < nodes.len() && named_position_from(
                nodes@,
                trimmed(wanted@.skip(from as int)),
                0,
            ) == Some(at as int),
            None => named_position_from(nodes@, trimmed(wanted@.skip(from as int)), 0) is None,
        },
{
    let mut i: usize = 0;
    while i < nodes.len()
        invariant
            i <= nodes.len(),
            from <= wanted.len(),
            named_position_from(nodes@, trimmed(wanted@.skip(from as int)), 0)
                == named_position_from(nodes@, trimmed(wanted@.skip(from as int)), i as int),
        decreases nodes.len() - i,
    {
        match &nodes[i].name {
            None => {},
            Some(name) => {
                let chars = chars_of(name.as_str());
                assert(chars@.skip(0) == chars@);
                if same_trimmed_from(&chars, 0, wanted, from) {
                    return Some(i);
                }
            },
        }
        i += 1;
    }
    None
}

/// The place of the node that the shape of the node named `name` is handed
/// to. `None` means that there is no such node: the shape stays detached.
pub fn find_reparent_target(world: &SceneGraph, name: &str) -> (r: Option<usize>)
    ensures
        match r {
            Some(at) => at < world.nodes.len() && reparent_target(world.nodes@, name@) == Some(
                at as int,
            ),
            None => reparent_target(world.nodes@, name@) is None,
        },
{
    let name = chars_of(name);
    let separator = chars_of("collider_");
    match end_of_last_occurrence(&name, &separator) {
        None => None,
        Some(from) => find_named(&world.nodes, &name, from),
    }
}

impl SceneGraph {
    /// Leaves a placeholder at the node at the place `at`, as a new one.
    /// Returns whether there is such a node; where there is none, nothing
    /// happens.
    pub fn insert_serialized(&mut self, at: usize, placeholder: SerializedCollider) -> (done: bool)
        ensures
            done == (at < old(self).nodes@.len()),
            final(self).nodes@.len() == old(self).nodes@.len(),
            forall|k: int|
                0 <= k < old(self).nodes@.len() && k != at ==> final(self).nodes@[k]
                    == old(self).nodes@[k],
            done ==> same_but_slot(final(self).nodes@[at as int], old(self).nodes@[at as int]),
            done ==> final(self).nodes@[at as int].serialized == Some(placeholder),
            done ==> final(self).nodes@[at as int].serialized_is_new,
    {
        if at >= self.nodes.len() {
            return false;
        }
        let mut node = self.nodes.remove(at);
        node.serialized = Some(placeholder);
        node.serialized_is_new = true;
        self.nodes.insert(at, node);
        true
    }
}

/// What became of a find when its shape was to be handed on.
#[derive(Debug, Clone, Copy, PartialEq, Eq, Hash, Structural)]
pub enum Reparenting {
    /// The target carries the shape as a new placeholder.
    HandedOn,
    /// No node has the wanted name: the shape is only returned.
    NoTarget,
    /// There is a target, and the shape could not be turned into bytes: the
    /// shape is only returned.
    NotEncoded,
}

/// What becomes of a find when its shape is handed on in the scene `nodes`.
pub open spec fn reparenting_of(nodes: Seq<Node>, entry: Found) -> Reparenting {
    if reparent_target(nodes, entry.name) is None {
        Reparenting::NoTarget
    } else if encoded(entry.collider) is Some {
        Reparenting::HandedOn
    } else {
        Reparenting::NotEncoded
    }
}

/// What becomes of each of the finds, in order.
pub open spec fn reparentings(nodes: Seq<Node>, found: Seq<Found>) -> Seq<Reparenting> {
    Seq::new(found.len(), |i: int| reparenting_of(nodes, found[i]))
}

/// Extracts the mesh colliders of a scene, and hands each to the node that
/// the name of its lender points at.
///
/// Metadata is not read. After the nodes that lent a mesh have left the
/// scene, every shape whose lender's name holds `collider_` looks for its
/// target, see [`reparent_target`]. Where there is one, and the shape can be
/// turned into bytes, the target gets those bytes as a new placeholder;
/// otherwise the shape is only returned. The target carries the placeholder
/// until [`crate::hydration::hydrate_serialized_colliders`] exchanges it for
/// the shape itself, which a placeholder from here always holds.
pub fn extract_insert_scene_colliders(
    meshes: &mut MeshStore,
    world: &mut SceneGraph,
    mesh_type: ColliderMeshType,
) -> (r: Result<Vec<(Collider, Transform, String)>, ColliderFromSceneError>)
    ensures
        final(meshes).meshes@ == scan_named(
            old(world).nodes@,
            old(world).nodes@.len(),
            old(meshes).meshes@,
            mesh_type,
        ).meshes,
        match scan_named(
            old(world).nodes@,
            old(world).nodes@.len(),
            old(meshes).meshes@,
            mesh_type,
        ).outcome {
            Err(e) => {
                &&& r is Err
                &&& r->Err_0@ == SceneErrorView::MeshParsingError(e)
                &&& final(world).nodes@ == old(world).nodes@
            },
            Ok(found) => {
                &&& r is Ok
                &&& named_entries_view(r->Ok_0@) == found_named_entries(found)
                &&& reparented(
                    without_subtrees(old(world).nodes@, found_ids(found).to_set()),
                    found,
                    final(world).nodes@,
                )
            },
        },
{
    let mut report: Vec<Reparenting> = Vec::new();
    extract_insert_scene_colliders_with_report(meshes, world, mesh_type, &mut report)
}

/// Does what [`extract_insert_scene_colliders`] does, and says in `report`
/// what became of each shape that is returned, in the same order. Where the
/// extraction meets an error, the report is empty.
pub fn extract_insert_scene_colliders_with_report(
    meshes: &mut MeshStore,
    world: &mut SceneGraph,
    mesh_type: ColliderMeshType,
    report: &mut Vec<Reparenting>,
) -> (r: Result<Vec<(Collider, Transform, String)>, ColliderFromSceneError>)
    ensures
        final(meshes).meshes@ == scan_named(
            old(world).nodes@,
            old(world).nodes@.len(),
            old(meshes).meshes@,
            mesh_type,
        ).meshes,
        match scan_named(
            old(world).nodes@,
            old(world).nodes@.len(),
            old(meshes).meshes@,
            mesh_type,
        ).outcome {
            Err(e) => {
                &&& r is Err
                &&& r->Err_0@ == SceneErrorView::MeshParsingError(e)
                &&& final(world).nodes@ == old(world).nodes@
                &&& final(report)@ == Seq::<Reparenting>::empty()
            },
            Ok(found) => {
                &&& r is Ok
                &&& named_entries_view(r->Ok_0@) == found_named_entries(found)
                &&& reparented(
                    without_subtrees(old(world).nodes@, found_ids(found).to_set()),
                    found,
                    final(world).nodes@,
                )
                &&& final(report)@ == reparentings(
                    without_subtrees(old(world).nodes@, found_ids(found).to_set()),
                    found,
                )
            },
        },
{
    report.clear();
    let found = match scan_named_nodes(meshes, world, mesh_type) {
        Err(e) => {
            return Err(ColliderFromSceneError::MeshParsingError(e));
        },
        Ok(found) => found,
    };
    let ghost finds = all_found(found@);
    let ghost total = finds.len();
    let mut roots: Vec<u64> = Vec::new();
    let mut i: usize = 0;
    while i < found.len()
        invariant
            i <= found.len(),
            finds == all_found(found@),
            roots@ == found_ids(finds).take(i as int),
        decreases found.len() - i,
    {
        roots.push(found[i].id);
        i += 1;
    }
    assert(found_ids(finds).take(total as int) == found_ids(finds));
    world.remove_subtrees(&roots);
    let ghost pruned = world.nodes@;
    let mut result: Vec<(Collider, Transform, String)> = Vec::new();
    let mut stack = reversed(found);
    while stack.len() > 0
        invariant
            result.len() + stack.len() == total,
            total == finds.len(),
            forall|k: int|
                0 <= k < stack.len() ==> (#[trigger] stack@[k]).found() == finds[total - 1 - k],
            named_entries_view(result@) == found_named_entries(finds).take(result.len() as int),
            report@ == reparentings(pruned, finds).take(result.len() as int),
            world.nodes@.len() == pruned.len(),
            forall|at: int|
                0 <= at < pruned.len() ==> same_but_slot(#[trigger] world.nodes@[at], pruned[at])
                    && node_slot(world.nodes@[at]) == slot_after(
                    pruned,
                    finds,
                    result.len() as nat,
                    at,
                ),
        decreases stack.len(),
    {
        let entry = stack.pop().unwrap();
        let target: Option<usize> = find_reparent_target(world, entry.name.as_str());
        proof {
            if target_name(entry.name@) is Some {
                lemma_named_position_same_names(
                    world.nodes@,
                    pruned,
                    target_name(entry.name@).unwrap(),
                    0,
                );
            }
        }
        let outcome = match target {
            None => Reparenting::NoTarget,
            Some(at) => {
                match SerializedCollider::encode(&entry.collider) {
                    None => Reparenting::NotEncoded,
                    Some(placeholder) => {
                        world.insert_serialized(at, placeholder);
                        Reparenting::HandedOn
                    },
                }
            },
        };
        report.push(outcome);
        result.push((entry.collider, entry.transform, entry.name));
    }
    assert(reparentings(pruned, finds).take(total as int) == reparentings(pruned, finds));
    Ok(result)
}

/// Whether a node is named as a collider.
pub open spec fn named_as_collider(node: Node) -> bool {
    node.name is Some && has_prefix(node.name.unwrap()@, "collider"@)
}

/// Whether the metadata of a node is in order: it has none, or its payload
/// is of another kind, or it declares shapes without an error.
pub open spec fn metadata_in_order(node: Node) -> bool {
    match node.extras {
        None => true,
        Some(payload) => !(extras_colliders(payload@) matches Some(Err(_))),
    }
}

proof fn lemma_scan_metadata_ok(nodes: Seq<Node>, count: nat)
    requires
        count <= nodes.len(),
    ensures
        scan_metadata(nodes, count) is Ok <==> forall|i: int|
            0 <= i < count ==> metadata_in_order(#[trigger] nodes[i]),
    decreases count,
{
    if count > 0 {
        lemma_scan_metadata_ok(nodes, (count - 1) as nat);
    }
}

proof fn lemma_scan_named_takes_all(
    nodes: Seq<Node>,
    count: nat,
    meshes: Seq<(u64, Mesh)>,
    mesh_type: ColliderMeshType,
)
    requires
        count <= nodes.len(),
        scan_named(nodes, count, meshes, mesh_type).outcome is Ok,
    ensures
        forall|i: int|
            0 <= i < count && named_as_collider(#[trigger] nodes[i]) ==> found_ids(
                scan_named(nodes, count, meshes, mesh_type).outcome->Ok_0,
            ).contains(nodes[i].id),
    decreases count,
{
    if count > 0 {
        let before = scan_named(nodes, (count - 1) as nat, meshes, mesh_type);
        let now = scan_named(nodes, count, meshes, mesh_type);
        lemma_scan_named_takes_all(nodes, (count - 1) as nat, meshes, mesh_type);
        let found = now.outcome->Ok_0;
        let earlier = before.outcome->Ok_0;
        assert forall|i: int| 0 <= i < count && named_as_collider(#[trigger] nodes[i]) implies found_ids(
            found,
        ).contains(nodes[i].id) by {
            if i == count - 1 {
                assert(found_ids(found)[found.len() - 1] == nodes[i].id);
            } else {
                let k = choose|k: int|
                    0 <= k < found_ids(earlier).len() && found_ids(earlier)[k] == nodes[i].id;
                assert(found_ids(found)[k] == nodes[i].id);
            }
        }
    }
}

/// A pass over nodes of which none is named as a collider finds nothing and
/// takes no mesh.
pub proof fn lemma_scan_named_finds_nothing(
    nodes: Seq<Node>,
    count: nat,
    meshes: Seq<(u64, Mesh)>,
    mesh_type: ColliderMeshType,
)
    requires
        count <= nodes.len(),
        forall|i: int| 0 <= i < nodes.len() ==> !named_as_collider(#[trigger] nodes[i]),
    ensures
        scan_named(nodes, count, meshes, mesh_type) == (NamedScan {
            outcome: Ok(Seq::empty()),
            meshes,
        }),
    decreases count,
{
    if count > 0 {
        lemma_scan_named_finds_nothing(nodes, (count - 1) as nat, meshes, mesh_type);
    }
}

proof fn lemma_nothing_reached(nodes: Seq<Node>, id: u64, steps: nat)
    ensures
        !reached(nodes, Set::<u64>::empty(), id, steps),
    decreases steps,
{
    if steps > 0 {
        lemma_nothing_reached(nodes, id, (steps - 1) as nat);
        assert forall|k: int| 0 <= k < nodes.len() implies !reached(
            nodes,
            Set::<u64>::empty(),
            (#[trigger] nodes[k]).id,
            (steps - 1) as nat,
        ) by {
            lemma_nothing_reached(nodes, nodes[k].id, (steps - 1) as nat);
        }
    }
}

proof fn lemma_filter_keeps_all(nodes: Seq<Node>, keep: spec_fn(Node) -> bool)
    requires
        forall|i: int| 0 <= i < nodes.len() ==> keep(#[trigger] nodes[i]),
    ensures
        nodes.filter(keep) == nodes,
    decreases nodes.len(),
{
    reveal(Seq::filter);
    if nodes.len() > 0 {
        lemma_filter_keeps_all(nodes.drop_last(), keep);
    }
}

/// Taking no subtree out of a scene leaves it as it is.
pub proof fn lemma_without_no_subtrees(nodes: Seq<Node>)
    ensures
        without_subtrees(nodes, Set::<u64>::empty()) == nodes,
{
    let keep = |node: Node| !in_subtrees(nodes, Set::<u64>::empty(), node.id);
    assert forall|i: int| 0 <= i < nodes.len() implies keep(#[trigger] nodes[i]) by {
        assert forall|steps: nat| !reached(nodes, Set::<u64>::empty(), nodes[i].id, steps) by {
            lemma_nothing_reached(nodes, nodes[i].id, steps);
        }
    }
    lemma_filter_keeps_all(nodes, keep);
}

/// Every node that stays when subtrees are taken out is a node of the scene
/// that lies in none of them.
pub proof fn lemma_without_subtrees_members(nodes: Seq<Node>, roots: Set<u64>, at: int)
    requires
        0 <= at < without_subtrees(nodes, roots).len(),
    ensures
        nodes.contains(without_subtrees(nodes, roots)[at]),
        !in_subtrees(nodes, roots, without_subtrees(nodes, roots)[at].id),
{
    let keep = |node: Node| !in_subtrees(nodes, roots, node.id);
    let stay = nodes.filter(keep);
    nodes.lemma_filter_pred(keep, at);
    nodes.lemma_filter_contains_rev(keep, stay[at]);
}

/// After an extraction that met no error, no node that is named as a
/// collider is left.
pub proof fn lemma_no_collider_left(
    nodes: Seq<Node>,
    meshes: Seq<(u64, Mesh)>,
    mesh_type: ColliderMeshType,
    at: int,
)
    requires
        scan_named(nodes, nodes.len(), meshes, mesh_type).outcome is Ok,
        0 <= at < without_subtrees(
            nodes,
            found_ids(scan_named(nodes, nodes.len(), meshes, mesh_type).outcome->Ok_0).to_set(),
        ).len(),
    ensures
        !named_as_collider(
            without_subtrees(
                nodes,
                found_ids(
                    scan_named(nodes, nodes.len(), meshes, mesh_type).outcome->Ok_0,
                ).to_set(),
            )[at],
        ),
{
    let found = scan_named(nodes, nodes.len(), meshes, mesh_type).outcome->Ok_0;
    let roots = found_ids(found).to_set();
    let node = without_subtrees(nodes, roots)[at];
    lemma_without_subtrees_members(nodes, roots, at);
    if named_as_collider(node) {
        let i = choose|i: int| 0 <= i < nodes.len() && nodes[i] == node;
        lemma_scan_named_takes_all(nodes, nodes.len(), meshes, mesh_type);
        assert(found_ids(found).contains(nodes[i].id));
        assert(reached(nodes, roots, node.id, 0));
    }
}

/// Extraction is done once: run again on what a first run left, it meets no
/// error, finds no mesh collider, takes no mesh and no node. What it returns
/// are the shapes that the metadata of the nodes that are left declares.
pub proof fn lemma_second_extraction(
    nodes: Seq<Node>,
    meshes: Seq<(u64, Mesh)>,
    mesh_type: ColliderMeshType,
    again: ColliderMeshType,
)
    requires
        scene_colliders(nodes, meshes, mesh_type).outcome is Ok,
    ensures
        ({
            let first = scene_colliders(nodes, meshes, mesh_type);
            let second = scene_colliders(first.nodes, first.meshes, again);
            &&& scan_metadata(first.nodes, first.nodes.len()) is Ok
            &&& second.outcome == Ok::<Seq<(ColliderView, Transform)>, SceneErrorView>(
                scan_metadata(first.nodes, first.nodes.len())->Ok_0,
            )
            &&& second.meshes == first.meshes
            &&& second.nodes == first.nodes
        }),
{
    let first = scene_colliders(nodes, meshes, mesh_type);
    let scan = scan_named(nodes, nodes.len(), meshes, mesh_type);
    let found = scan.outcome->Ok_0;
    let roots = found_ids(found).to_set();
    let left = first.nodes;
    lemma_scan_metadata_ok(nodes, nodes.len());
    assert forall|j: int| 0 <= j < left.len() implies metadata_in_order(#[trigger] left[j]) by {
        lemma_without_subtrees_members(nodes, roots, j);
        let i = choose|i: int| 0 <= i < nodes.len() && nodes[i] == left[j];
        assert(metadata_in_order(nodes[i]));
    }
    lemma_scan_metadata_ok(left, left.len());
    assert forall|j: int| 0 <= j < left.len() implies !named_as_collider(#[trigger] left[j]) by {
        lemma_no_collider_left(nodes, meshes, mesh_type, j);
    }
    lemma_scan_named_finds_nothing(left, left.len(), first.meshes, again);
    assert(found_ids(Seq::<Found>::empty()).to_set() =~= Set::<u64>::empty());
    lemma_without_no_subtrees(left);
}

/// A scene without metadata that declares shapes gives nothing when it is
/// extracted a second time.
pub proof fn lemma_second_extraction_is_empty(
    nodes: Seq<Node>,
    meshes: Seq<(u64, Mesh)>,
    mesh_type: ColliderMeshType,
    again: ColliderMeshType,
)
    requires
        scene_colliders(nodes, meshes, mesh_type).outcome is Ok,
        forall|i: int| 0 <= i < nodes.len() ==> (#[trigger] nodes[i]).extras is None,
    ensures
        ({
            let first = scene_colliders(nodes, meshes, mesh_type);
            let second = scene_colliders(first.nodes, first.meshes, again);
            &&& second.outcome == Ok::<Seq<(ColliderView, Transform)>, SceneErrorView>(
                Seq::empty(),
            )
            &&& second.meshes == first.meshes
            &&& second.nodes == first.nodes
        }),
{
    let first = scene_colliders(nodes, meshes, mesh_type);
    let scan = scan_named(nodes, nodes.len(), meshes, mesh_type);
    let roots = found_ids(scan.outcome->Ok_0).to_set();
    let left = first.nodes;
    lemma_second_extraction(nodes, meshes, mesh_type, again);
    assert forall|j: int| 0 <= j < left.len() implies (#[trigger] left[j]).extras is None by {
        lemma_without_subtrees_members(nodes, roots, j);
        let i = choose|i: int| 0 <= i < nodes.len() && nodes[i] == left[j];
        assert(nodes[i].extras is None);
    }
    lemma_scan_metadata_none(left, left.len());
}

proof fn lemma_scan_metadata_none(nodes: Seq<Node>, count: nat)
    requires
        count <= nodes.len(),
        forall|i: int| 0 <= i < nodes.len() ==> (#[trigger] nodes[i]).extras is None,
    ensures
        scan_metadata(nodes, count) == Ok::<Seq<(ColliderView, Transform)>, ExtrasErrorView>(
            Seq::empty(),
        ),
    decreases count,
{
    if count > 0 {
        lemma_scan_metadata_none(nodes, (count - 1) as nat);
    }
}

/// A scene that went through extraction with reparenting gives nothing when
/// it is extracted a second time: no node of it is named as a collider, so
/// the pass over it finds nothing and takes no mesh.
pub proof fn lemma_second_reparenting_is_empty(
    nodes: Seq<Node>,
    meshes: Seq<(u64, Mesh)>,
    mesh_type: ColliderMeshType,
    after: Seq<Node>,
    store: Seq<(u64, Mesh)>,
    again: ColliderMeshType,
)
    requires
        scan_named(nodes, nodes.len(), meshes, mesh_type).outcome is Ok,
        reparented(
            without_subtrees(
                nodes,
                found_ids(scan_named(nodes, nodes.len(), meshes, mesh_type).outcome->Ok_0).to_set(),
            ),
            scan_named(nodes, nodes.len(), meshes, mesh_type).outcome->Ok_0,
            after,
        ),
    ensures
        scan_named(after, after.len(), store, again) == (NamedScan {
            outcome: Ok(Seq::empty()),
            meshes: store,
        }),
        reparented(after, Seq::<Found>::empty(), after),
{
    let found = scan_named(nodes, nodes.len(), meshes, mesh_type).outcome->Ok_0;
    let left = without_subtrees(nodes, found_ids(found).to_set());
    assert forall|j: int| 0 <= j < after.len() implies !named_as_collider(#[trigger] after[j]) by {
        lemma_no_collider_left(nodes, meshes, mesh_type, j);
    }
    lemma_scan_named_finds_nothing(after, after.len(), store, again);
}

} // verus!
