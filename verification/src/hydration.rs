//! The exchange of placeholders for shapes.
//!
//! A placeholder that is new is looked at once. Where its bytes hold a
//! shape, the shape is attached to the node that carries the placeholder;
//! where they hold none, the node stays as it is and its id is reported.
//! Either way the placeholder is new no longer, so running the exchange again
//! does nothing.

use crate::scene::{Node, SceneGraph};
use crate::collider::ColliderView;
use crate::serialized::{decoded, encoded, lemma_bytes_round_trip};
use vstd::prelude::*;

verus! {

/// Whether a node carries a placeholder that has not been looked at yet.
pub open spec fn is_pending(node: Node) -> bool {
    node.serialized is Some && node.serialized_is_new
}

/// Whether `after` is what the exchange makes of the node `before`.
pub open spec fn hydrated(before: Node, after: Node) -> bool {
    if is_pending(before) {
        &&& after.id == before.id
        &&& after.name == before.name
        &&& after.transform == before.transform
        &&& after.children == before.children
        &&& after.mesh == before.mesh
        &&& after.extras == before.extras
        &&& after.serialized == before.serialized
        &&& !after.serialized_is_new
        &&& match decoded(before.serialized.unwrap()@) {
            Some(collider) => after.collider is Some && after.collider.unwrap()@ == collider,
            None => after.collider == before.collider,
        }
    } else {
        after == before
    }
}

/// The ids of those of the first `count` nodes that carry a new placeholder
/// whose bytes hold no shape, in order.
pub open spec fn undecodable(nodes: Seq<Node>, count: nat) -> Seq<u64>
    decreases count,
{
    if count == 0 {
        Seq::empty()
    } else {
        let before = undecodable(nodes, (count - 1) as nat);
        let node = nodes[count - 1];
        if is_pending(node) && decoded(node.serialized.unwrap()@) is None {
            before.push(node.id)
        } else {
            before
        }
    }
}

/// Exchanges every new placeholder of the scene for the shape that it holds.
///
/// Returns the ids of the nodes whose placeholder holds no shape. A failure
/// at one node does not keep the others from being looked at.
pub fn hydrate_serialized_colliders(world: &mut SceneGraph) -> (failed: Vec<u64>)
    ensures
        final(world).nodes@.len() == old(world).nodes@.len(),
        forall|at: int|
            0 <= at < old(world).nodes@.len() ==> hydrated(
                old(world).nodes@[at],
                #[trigger] final(world).nodes@[at],
            ),
        forall|at: int|
            0 <= at < old(world).nodes@.len() ==> !is_pending(#[trigger] final(world).nodes@[at]),
        failed@ == undecodable(old(world).nodes@, old(world).nodes@.len()),
{
    let mut failed: Vec<u64> = Vec::new();
    let mut i: usize = 0;
    while i < world.nodes.len()
        invariant
            i <= world.nodes.len(),
            world.nodes@.len() == old(world).nodes@.len(),
            forall|at: int|
                0 <= at < i ==> hydrated(old(world).nodes@[at], #[trigger] world.nodes@[at])
                    && !is_pending(world.nodes@[at]),
            forall|at: int|
                i <= at < world.nodes@.len() ==> #[trigger] world.nodes@[at]
                    == old(world).nodes@[at],
            failed@ == undecodable(old(world).nodes@, i as nat),
        decreases world.nodes.len() - i,
    {
        let pending: bool = world.nodes[i].serialized_is_new && world.nodes[i].serialized.is_some();
        if pending {
            let mut node = world.nodes.remove(i);
            let shape = match &node.serialized {
                Some(placeholder) => placeholder.decode(),
                None => None,
            };
            match shape {
                Some(collider) => {
                    node.collider = Some(collider);
                },
                None => {
                    failed.push(node.id);
                },
            }
            node.serialized_is_new = false;
            world.nodes.insert(i, node);
        }
        i += 1;
    }
    failed
}

/// A node whose new placeholder holds the bytes of a shape carries that shape
/// after the exchange.
pub proof fn lemma_exchange_attaches(before: Node, after: Node, shape: ColliderView)
    requires
        is_pending(before),
        encoded(shape) == Some(before.serialized.unwrap()@),
        hydrated(before, after),
    ensures
        after.collider is Some,
        after.collider.unwrap()@ == shape,
        !is_pending(after),
{
    lemma_bytes_round_trip(shape);
}

/// The exchange happens once: what it made of a node, it leaves as it is.
pub proof fn lemma_hydration_happens_once(before: Node, after: Node, again: Node)
    requires
        hydrated(before, after),
        hydrated(after, again),
    ensures
        again == after,
{
}

} // verus!
