//! The scene graph and the mesh store.
//!
//! A scene is a list of nodes in traversal order. A node is known by its id;
//! its children are ids too, so a node may name a child that the scene does
//! not hold, and such a child counts as absent.

use crate::collider::Collider;
use crate::lists::reversed;
use crate::math::Transform;
use crate::mesh_collider::Mesh;
use crate::serialized::SerializedCollider;
use vstd::prelude::*;

verus! {

/// A node of a scene, with the attributes that matter for collision shapes.
#[derive(Debug, PartialEq, Eq)]
pub struct Node {
    /// The identity of the node.
    pub id: u64,
    /// Its name, where it has one.
    pub name: Option<String>,
    /// Its placement in its parent's frame.
    pub transform: Transform,
    /// The ids of its children, in order, where it has a list of them.
    pub children: Option<Vec<u64>>,
    /// The handle of the mesh that it shows, into the mesh store.
    pub mesh: Option<u64>,
    /// Its metadata payload.
    pub extras: Option<String>,
    /// The shape that is attached to it.
    pub collider: Option<Collider>,
    /// The placeholder of a shape that is to be attached to it.
    pub serialized: Option<SerializedCollider>,
    /// Whether the placeholder is new, that is, has not been looked at yet.
    pub serialized_is_new: bool,
}

impl Node {
    /// A node with an id, a name and a placement, and nothing else.
    pub fn new(id: u64, name: Option<String>, transform: Transform) -> (node: Node)
        ensures
            node.id == id,
            node.name == name,
            node.transform == transform,
            node.children is None,
            node.mesh is None,
            node.extras is None,
            node.collider is None,
            node.serialized is None,
            !node.serialized_is_new,
    {
        Node {
            id,
            name,
            transform,
            children: None,
            mesh: None,
            extras: None,
            collider: None,
            serialized: None,
            serialized_is_new: false,
        }
    }
}

/// A scene: its nodes, in traversal order.
#[derive(Debug)]
pub struct SceneGraph {
    pub nodes: Vec<Node>,
}

/// The meshes of a scene, each under its handle.
#[derive(Debug)]
pub struct MeshStore {
    pub meshes: Vec<(u64, Mesh)>,
}

/// The place of the first node from `from` on that has the id `id`.
pub open spec fn node_position_from(nodes: Seq<Node>, id: u64, from: int) -> Option<int>
    decreases nodes.len() - from,
{
    if from < 0 || from >= nodes.len() {
        None
    } else if nodes[from].id == id {
        Some(from)
    } else {
        node_position_from(nodes, id, from + 1)
    }
}

/// The place of the first node that has the id `id`.
pub open spec fn node_position(nodes: Seq<Node>, id: u64) -> Option<int> {
    node_position_from(nodes, id, 0)
}

/// What `node_position_from` finds is a node with that id, and none comes
/// before it; where it finds none, there is none.
pub proof fn lemma_node_position(nodes: Seq<Node>, id: u64, from: int)
    requires
        0 <= from,
    ensures
        match node_position_from(nodes, id, from) {
            Some(at) => from <= at < nodes.len() && nodes[at].id == id && forall|j: int|
                from <= j < at ==> (#[trigger] nodes[j]).id != id,
            None => forall|j: int| from <= j < nodes.len() ==> (#[trigger] nodes[j]).id != id,
        },
    decreases nodes.len() - from,
{
    if from < nodes.len() && nodes[from].id != id {
        lemma_node_position(nodes, id, from + 1);
    }
}

/// The place of the first mesh from `from` on that is stored under `handle`.
pub open spec fn mesh_position_from(meshes: Seq<(u64, Mesh)>, handle: u64, from: int) -> Option<
    int,
>
    decreases meshes.len() - from,
{
    if from < 0 || from >= meshes.len() {
        None
    } else if meshes[from].0 == handle {
        Some(from)
    } else {
        mesh_position_from(meshes, handle, from + 1)
    }
}

/// The place of the first mesh that is stored under `handle`.
pub open spec fn mesh_position(meshes: Seq<(u64, Mesh)>, handle: u64) -> Option<int> {
    mesh_position_from(meshes, handle, 0)
}

/// What `mesh_position_from` finds is a mesh under that handle, and none
/// comes before it; where it finds none, there is none.
pub proof fn lemma_mesh_position(meshes: Seq<(u64, Mesh)>, handle: u64, from: int)
    requires
        0 <= from,
    ensures
        match mesh_position_from(meshes, handle, from) {
            Some(at) => from <= at < meshes.len() && meshes[at].0 == handle && forall|j: int|
                from <= j < at ==> (#[trigger] meshes[j]).0 != handle,
            None => forall|j: int| from <= j < meshes.len() ==> (#[trigger] meshes[j]).0 != handle,
        },
    decreases meshes.len() - from,
{
    if from < meshes.len() && meshes[from].0 != handle {
        lemma_mesh_position(meshes, handle, from + 1);
    }
}

impl SceneGraph {
    /// A scene without nodes.
    pub fn new() -> (scene: SceneGraph)
        ensures
            scene.nodes@.len() == 0,
    {
        SceneGraph { nodes: Vec::new() }
    }

    /// The place of the first node with the id `id`.
    pub fn position(&self, id: u64) -> (r: Option<usize>)
        ensures
            match r {
                Some(at) => {
                    &&& node_position(self.nodes@, id) == Some(at as int)
                    &&& at < self.nodes.len()
                    &&& self.nodes@[at as int].id == id
                    &&& forall|j: int| 0 <= j < at ==> (#[trigger] self.nodes@[j]).id != id
                },
                None => {
                    &&& node_position(self.nodes@, id) is None
                    &&& forall|j: int|
                        0 <= j < self.nodes.len() ==> (#[trigger] self.nodes@[j]).id != id
                },
            },
    {
        let mut i: usize = 0;
        while i < self.nodes.len()
            invariant
                i <= self.nodes.len(),
                node_position(self.nodes@, id) == node_position_from(self.nodes@, id, i as int),
            decreases self.nodes.len() - i,
        {
            if self.nodes[i].id == id {
                proof {
                    lemma_node_position(self.nodes@, id, 0);
                }
                return Some(i);
            }
            i += 1;
        }
        proof {
            lemma_node_position(self.nodes@, id, 0);
        }
        None
    }
}

impl MeshStore {
    /// A store without meshes.
    pub fn new() -> (store: MeshStore)
        ensures
            store.meshes@.len() == 0,
    {
        MeshStore { meshes: Vec::new() }
    }

    /// Takes the first mesh that is stored under `handle` out of the store.
    pub fn remove(&mut self, handle: u64) -> (r: Option<Mesh>)
        ensures
            match mesh_position(old(self).meshes@, handle) {
                Some(at) => {
                    &&& 0 <= at < old(self).meshes@.len()
                    &&& old(self).meshes@[at].0 == handle
                    &&& r == Some(old(self).meshes@[at].1)
                    &&& final(self).meshes@ == old(self).meshes@.remove(at)
                },
                None => {
                    &&& r is None
                    &&& final(self).meshes@ == old(self).meshes@
                    &&& forall|j: int|
                        0 <= j < old(self).meshes@.len() ==> (#[trigger] old(self).meshes@[j]).0
                            != handle
                },
            },
    {
        let mut i: usize = 0;
        while i < self.meshes.len()
            invariant
                i <= self.meshes.len(),
                self.meshes@ == old(self).meshes@,
                mesh_position(self.meshes@, handle) == mesh_position_from(
                    self.meshes@,
                    handle,
                    i as int,
                ),
            decreases self.meshes.len() - i,
        {
            if self.meshes[i].0 == handle {
                proof {
                    lemma_mesh_position(self.meshes@, handle, 0);
                }
                let entry = self.meshes.remove(i);
                return Some(entry.1);
            }
            i += 1;
        }
        proof {
            lemma_mesh_position(self.meshes@, handle, 0);
        }
        None
    }
}

/// Whether `id` is among the children of `node`.
pub open spec fn has_child(node: Node, id: u64) -> bool {
    node.children is Some && node.children.unwrap()@.contains(id)
}

/// Whether `id` is one of `roots`, or is reached from one of them by going
/// from a node of the scene to one of its children at most `steps` times.
pub open spec fn reached(nodes: Seq<Node>, roots: Set<u64>, id: u64, steps: nat) -> bool
    decreases steps,
{
    if steps == 0 {
        roots.contains(id)
    } else {
        reached(nodes, roots, id, (steps - 1) as nat) || exists|k: int|
            0 <= k < nodes.len() && has_child(#[trigger] nodes[k], id) && reached(
                nodes,
                roots,
                nodes[k].id,
                (steps - 1) as nat,
            )
    }
}

/// Whether `id` lies in the subtree of one of `roots`: it is one of them or a
/// descendant of one.
pub open spec fn in_subtrees(nodes: Seq<Node>, roots: Set<u64>, id: u64) -> bool {
    exists|steps: nat| reached(nodes, roots, id, steps)
}

/// The nodes that stay when the subtrees of `roots` are taken out, in order.
pub open spec fn without_subtrees(nodes: Seq<Node>, roots: Set<u64>) -> Seq<Node> {
    nodes.filter(|node: Node| !in_subtrees(nodes, roots, node.id))
}

/// How many of `marks` are not set.
pub open spec fn unmarked(marks: Seq<bool>) -> nat
    decreases marks.len(),
{
    if marks.len() == 0 {
        0
    } else {
        unmarked(marks.drop_last()) + if marks.last() {
            0nat
        } else {
            1nat
        }
    }
}

proof fn lemma_unmarked_update(marks: Seq<bool>, at: int)
    requires
        0 <= at < marks.len(),
        !marks[at],
    ensures
        unmarked(marks.update(at, true)) + 1 == unmarked(marks),
    decreases marks.len(),
{
    let after = marks.update(at, true);
    if at == marks.len() - 1 {
        assert(after.drop_last() == marks.drop_last());
    } else {
        assert(after.drop_last() == marks.drop_last().update(at, true));
        lemma_unmarked_update(marks.drop_last(), at);
    }
}

/// Whether the marks at the nodes with a child of `nodes[k]`'s are set, where
/// the mark at `k` is.
pub open spec fn closed_at(nodes: Seq<Node>, marks: Seq<bool>, k: int) -> bool {
    marks[k] ==> forall|j: int|
        0 <= j < nodes.len() && has_child(nodes[k], (#[trigger] nodes[j]).id) ==> marks[j]
}

/// Sets the mark of every node with the id `id`.
fn mark_id(nodes: &Vec<Node>, marks: &mut Vec<bool>, id: u64) -> (changed: bool)
    requires
        old(marks).len() == nodes.len(),
    ensures
        final(marks).len() == nodes.len(),
        forall|j: int|
            0 <= j < nodes.len() ==> final(marks)@[j] == (old(marks)@[j] || nodes@[j].id == id),
        !changed ==> final(marks)@ == old(marks)@,
        changed ==> unmarked(final(marks)@) < unmarked(old(marks)@),
        unmarked(final(marks)@) <= unmarked(old(marks)@),
{
    let mut changed = false;
    let mut j: usize = 0;
    while j < nodes.len()
        invariant
            j <= nodes.len(),
            marks.len() == nodes.len(),
            forall|t: int| 0 <= t < j ==> marks@[t] == (old(marks)@[t] || nodes@[t].id == id),
            forall|t: int| j <= t < nodes.len() ==> marks@[t] == old(marks)@[t],
            !changed ==> marks@ == old(marks)@,
            changed ==> unmarked(marks@) < unmarked(old(marks)@),
            unmarked(marks@) <= unmarked(old(marks)@),
        decreases nodes.len() - j,
    {
        if nodes[j].id == id && !marks[j] {
            proof {
                lemma_unmarked_update(marks@, j as int);
            }
            marks.set(j, true);
            changed = true;
        }
        j += 1;
    }
    changed
}

/// Every id that is reached has its nodes marked, once the roots are marked
/// and the marks are closed under going to a child.
proof fn lemma_marks_complete(
    nodes: Seq<Node>,
    roots: Set<u64>,
    marks: Seq<bool>,
    id: u64,
    steps: nat,
)
    requires
        marks.len() == nodes.len(),
        forall|j: int| 0 <= j < nodes.len() && roots.contains((#[trigger] nodes[j]).id) ==> marks[j],
        forall|k: int| 0 <= k < nodes.len() ==> closed_at(nodes, marks, k),
        reached(nodes, roots, id, steps),
    ensures
        forall|j: int| 0 <= j < nodes.len() && (#[trigger] nodes[j]).id == id ==> marks[j],
    decreases steps,
{
    if steps > 0 {
        if reached(nodes, roots, id, (steps - 1) as nat) {
            lemma_marks_complete(nodes, roots, marks, id, (steps - 1) as nat);
        } else {
            let k = choose|k: int|
                0 <= k < nodes.len() && has_child(#[trigger] nodes[k], id) && reached(
                    nodes,
                    roots,
                    nodes[k].id,
                    (steps - 1) as nat,
                );
            lemma_marks_complete(nodes, roots, marks, nodes[k].id, (steps - 1) as nat);
            assert(closed_at(nodes, marks, k));
        }
    }
}

/// A child of a node in the subtrees lies in the subtrees.
proof fn lemma_child_in_subtrees(nodes: Seq<Node>, roots: Set<u64>, k: int, id: u64)
    requires
        0 <= k < nodes.len(),
        in_subtrees(nodes, roots, nodes[k].id),
        has_child(nodes[k], id),
    ensures
        in_subtrees(nodes, roots, id),
{
    let steps = choose|steps: nat| reached(nodes, roots, nodes[k].id, steps);
    assert(reached(nodes, roots, id, steps + 1));
}

/// Whether an id is held in a list.
fn contains_id(ids: &Vec<u64>, id: u64) -> (r: bool)
    ensures
        r == ids@.contains(id),
{
    let mut i: usize = 0;
    while i < ids.len()
        invariant
            i <= ids.len(),
            forall|t: int| 0 <= t < i ==> ids@[t] != id,
        decreases ids.len() - i,
    {
        if ids[i] == id {
            return true;
        }
        i += 1;
    }
    false
}

/// Marks the nodes that lie in the subtrees of `roots`.
pub fn subtree_marks(nodes: &Vec<Node>, roots: &Vec<u64>) -> (marks: Vec<bool>)
    ensures
        marks.len() == nodes.len(),
        forall|j: int|
            0 <= j < nodes.len() ==> marks@[j] == in_subtrees(
                nodes@,
                roots@.to_set(),
                (#[trigger] nodes@[j]).id,
            ),
{
    let ghost root_set = roots@.to_set();
    let mut marks: Vec<bool> = Vec::new();
    let mut j: usize = 0;
    while j < nodes.len()
        invariant
            j <= nodes.len(),
            marks.len() == j,
            root_set == roots@.to_set(),
            forall|t: int| 0 <= t < j ==> marks@[t] == root_set.contains((#[trigger] nodes@[t]).id),
        decreases nodes.len() - j,
    {
        marks.push(contains_id(roots, nodes[j].id));
        j += 1;
    }
    assert forall|t: int| 0 <= t < nodes.len() && marks@[t] implies in_subtrees(
        nodes@,
        root_set,
        (#[trigger] nodes@[t]).id,
    ) by {
        assert(reached(nodes@, root_set, nodes@[t].id, 0));
    }
    let mut changed = true;
    while changed
        invariant
            marks.len() == nodes.len(),
            root_set == roots@.to_set(),
            forall|t: int|
                0 <= t < nodes.len() && root_set.contains((#[trigger] nodes@[t]).id) ==> marks@[t],
            forall|t: int|
                0 <= t < nodes.len() && marks@[t] ==> in_subtrees(
                    nodes@,
                    root_set,
                    (#[trigger] nodes@[t]).id,
                ),
            !changed ==> forall|k: int| 0 <= k < nodes.len() ==> closed_at(nodes@, marks@, k),
        decreases
                unmarked(marks@),
                (if changed {
                    1nat
                } else {
                    0nat
                }),
    {
        let ghost start = marks@;
        changed = false;
        let mut i: usize = 0;
        while i < nodes.len()
            invariant
                i <= nodes.len(),
                marks.len() == nodes.len(),
                start.len() == nodes.len(),
                root_set == roots@.to_set(),
                forall|t: int|
                    0 <= t < nodes.len() && root_set.contains((#[trigger] nodes@[t]).id)
                        ==> marks@[t],
                forall|t: int|
                    0 <= t < nodes.len() && marks@[t] ==> in_subtrees(
                        nodes@,
                        root_set,
                        (#[trigger] nodes@[t]).id,
                    ),
                !changed ==> marks@ == start,
                !changed ==> forall|k: int| 0 <= k < i ==> closed_at(nodes@, marks@, k),
                changed ==> unmarked(marks@) < unmarked(start),
                unmarked(marks@) <= unmarked(start),
            decreases nodes.len() - i,
        {
            if marks[i] {
                match &nodes[i].children {
                    None => {},
                    Some(children) => {
                        let mut c: usize = 0;
                        while c < children.len()
                            invariant
                                c <= children.len(),
                                i < nodes.len(),
                                marks.len() == nodes.len(),
                                start.len() == nodes.len(),
                                nodes@[i as int].children == Some(*children),
                                marks@[i as int],
                                forall|t: int|
                                    0 <= t < nodes.len() && root_set.contains(
                                        (#[trigger] nodes@[t]).id,
                                    ) ==> marks@[t],
                                forall|t: int|
                                    0 <= t < nodes.len() && marks@[t] ==> in_subtrees(
                                        nodes@,
                                        root_set,
                                        (#[trigger] nodes@[t]).id,
                                    ),
                                !changed ==> marks@ == start,
                                !changed ==> forall|k: int|
                                    0 <= k < i ==> closed_at(nodes@, marks@, k),
                                forall|t: int, j: int|
                                    0 <= t < c && 0 <= j < nodes.len() && (#[trigger] nodes@[j]).id
                                        == #[trigger] children@[t] ==> marks@[j],
                                changed ==> unmarked(marks@) < unmarked(start),
                                unmarked(marks@) <= unmarked(start),
                            decreases children.len() - c,
                        {
                            let child: u64 = children[c];
                            proof {
                                lemma_child_in_subtrees(nodes@, root_set, i as int, child);
                            }
                            let newly = mark_id(nodes, &mut marks, child);
                            if newly {
                                changed = true;
                            }
                            c += 1;
                        }
                    },
                }
            }
            i += 1;
        }
    }
    proof {
        assert forall|j: int| 0 <= j < nodes.len() implies marks@[j] == in_subtrees(
            nodes@,
            root_set,
            (#[trigger] nodes@[j]).id,
        ) by {
            if in_subtrees(nodes@, root_set, nodes@[j].id) {
                let steps = choose|steps: nat| reached(nodes@, root_set, nodes@[j].id, steps);
                lemma_marks_complete(nodes@, root_set, marks@, nodes@[j].id, steps);
            }
        }
    }
    marks
}

impl SceneGraph {
    /// Takes the subtrees of `roots` out of the scene: every node whose id is
    /// one of `roots`, and every descendant of such a node. The other nodes
    /// stay as they are, in their order.
    pub fn remove_subtrees(&mut self, roots: &Vec<u64>)
        ensures
            final(self).nodes@ == without_subtrees(old(self).nodes@, roots@.to_set()),
    {
        let marks = subtree_marks(&self.nodes, roots);
        let ghost given = self.nodes@;
        let ghost stays = |node: Node| !in_subtrees(given, roots@.to_set(), node.id);
        let mut taken: Vec<Node> = Vec::new();
        core::mem::swap(&mut self.nodes, &mut taken);
        let mut stack = reversed(taken);
        let mut i: usize = 0;
        while stack.len() > 0
            invariant
                i + stack.len() == given.len(),
                marks.len() == given.len(),
                forall|k: int| 0 <= k < stack.len() ==> stack@[k] == given[given.len() - 1 - k],
                forall|j: int|
                    0 <= j < given.len() ==> marks@[j] == in_subtrees(
                        given,
                        roots@.to_set(),
                        (#[trigger] given[j]).id,
                    ),
                stays == |node: Node| !in_subtrees(given, roots@.to_set(), node.id),
                self.nodes@ == given.take(i as int).filter(stays),
            decreases stack.len(),
        {
            let node = stack.pop().unwrap();
            proof {
                reveal(Seq::filter);
                assert(given.take(i + 1).drop_last() == given.take(i as int));
            }
            if !marks[i] {
                self.nodes.push(node);
            }
            i += 1;
        }
        assert(given.take(i as int) == given);
    }
}

} // verus!
