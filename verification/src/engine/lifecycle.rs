//! The two sides agree on which nodes render.
//!
//! The control side knows which nodes are registered, the audio side which
//! nodes render, and between them wait the commands that the audio side has
//! not taken yet. They are *in step* when the audio side, once it has taken
//! what waits, renders the registered nodes and no others, each once. The
//! laws below say that the library's operations keep the two sides in step as
//! long as no request is dropped and no node is registered twice, and that a
//! node which is reclaimed then no longer renders.

use super::{
    apply_commands, lemma_last_command_last, lemma_without, offered, reclamation, removal,
    without, AudioCommand, ControllerView, NodePtr, MAX_ACTIVE_NODES, QUEUE_CAPACITY,
};
use crate::node::NodeId;
use vstd::prelude::*;

verus! {

/// The control side, which knows `known`, and the audio side, which renders
/// `nodes` and has yet to take the commands `waiting`, are in step: each
/// registered node has one id, the audio side will render the registered nodes
/// and no others, each once, and no retired node is registered.
pub open spec fn in_step(
    known: ControllerView,
    waiting: Seq<AudioCommand>,
    nodes: Seq<NodePtr>,
) -> bool {
    let upcoming = apply_commands(nodes, waiting);
    &&& known.registered.is_injective()
    &&& upcoming.no_duplicates()
    &&& forall|node: NodePtr| #[trigger]
        upcoming.contains(node) <==> known.registered.contains_value(node)
    &&& forall|node: NodePtr| #[trigger]
        known.retired.contains(node) ==> !known.registered.contains_value(node)
}

/// What a controller knows once `node` is registered under `id`.
pub open spec fn registration(known: ControllerView, id: NodeId, node: NodePtr) -> ControllerView {
    ControllerView {
        registered: known.registered.insert(id, node),
        issued: known.issued + 1,
        retired: known.retired,
    }
}

/// A new controller, an empty queue and an engine that renders nothing are in
/// step.
pub proof fn lemma_in_step_at_start()
    ensures
        in_step(
            ControllerView { registered: Map::empty(), issued: 0, retired: Seq::empty() },
            Seq::empty(),
            Seq::empty(),
        ),
{
    let known = ControllerView {
        registered: Map::<NodeId, NodePtr>::empty(),
        issued: 0,
        retired: Seq::<NodePtr>::empty(),
    };
    let upcoming = apply_commands(Seq::<NodePtr>::empty(), Seq::<AudioCommand>::empty());
    assert(upcoming.len() == 0);
    assert forall|node: NodePtr| #[trigger]
        upcoming.contains(node) <==> known.registered.contains_value(node) by {}
}

/// Registering a node keeps the two sides in step, if the request is not
/// dropped: the id is new, the node is neither registered under another id
/// nor retired, the queue has room for the request and the list of rendering
/// nodes will have room for the node.
pub proof fn lemma_add_keeps_in_step(
    known: ControllerView,
    waiting: Seq<AudioCommand>,
    nodes: Seq<NodePtr>,
    id: NodeId,
    node: NodePtr,
)
    requires
        in_step(known, waiting, nodes),
        !known.registered.contains_key(id),
        !known.registered.contains_value(node),
        !known.retired.contains(node),
        waiting.len() < QUEUE_CAPACITY,
        apply_commands(nodes, waiting).len() < MAX_ACTIVE_NODES,
    ensures
        in_step(
            registration(known, id, node),
            offered(waiting, AudioCommand::AddNode(node)),
            nodes,
        ),
{
    let registered = known.registered;
    let before = apply_commands(nodes, waiting);
    let after = apply_commands(nodes, offered(waiting, AudioCommand::AddNode(node)));
    let grown = registered.insert(id, node);
    lemma_last_command_last(nodes, waiting, AudioCommand::AddNode(node));
    assert(after == before.push(node));
    assert(!before.contains(node));
    assert(after.no_duplicates()) by {
        assert forall|i: int, j: int| 0 <= i < after.len() && 0 <= j < after.len() && i
            != j implies after[i] != after[j] by {
            if i < before.len() {
                assert(before.contains(before[i]));
            }
            if j < before.len() {
                assert(before.contains(before[j]));
            }
        }
    }
    assert(grown.is_injective()) by {
        assert forall|x: NodeId, y: NodeId|
            x != y && grown.dom().contains(x) && grown.dom().contains(y) implies #[trigger] grown[x]
            != #[trigger] grown[y] by {
            if x != id {
                assert(registered.dom().contains(x) && registered[x] == grown[x]);
            }
            if y != id {
                assert(registered.dom().contains(y) && registered[y] == grown[y]);
            }
        }
    }
    assert forall|other: NodePtr| grown.contains_value(other) implies registered.contains_value(
        other,
    ) || other == node by {
        let key = choose|key: NodeId| #[trigger] grown.dom().contains(key) && grown[key] == other;
        if key != id {
            assert(registered.dom().contains(key) && registered[key] == other);
        }
    }
    assert forall|other: NodePtr|
        registered.contains_value(other) || other == node implies grown.contains_value(other) by {
        if other == node {
            assert(grown.dom().contains(id) && grown[id] == other);
        } else {
            let key = choose|key: NodeId| #[trigger]
                registered.dom().contains(key) && registered[key] == other;
            assert(grown.dom().contains(key) && grown[key] == other);
        }
    }
    assert forall|other: NodePtr| #[trigger] after.contains(other) <==> grown.contains_value(
        other,
    ) by {
        if after.contains(other) {
            let i = choose|i: int| 0 <= i < after.len() && after[i] == other;
            if i < before.len() {
                assert(before.contains(other));
            }
        }
        if grown.contains_value(other) {
            if other == node {
                assert(after[before.len() as int] == other);
            } else {
                assert(before.contains(other));
                let i = choose|i: int| 0 <= i < before.len() && before[i] == other;
                assert(after[i] == other);
            }
        }
    }
}

/// Removing an id keeps the two sides in step, if the request is not dropped:
/// the queue has room for it. The id may be any, in use or not.
pub proof fn lemma_remove_keeps_in_step(
    known: ControllerView,
    waiting: Seq<AudioCommand>,
    nodes: Seq<NodePtr>,
    id: NodeId,
)
    requires
        in_step(known, waiting, nodes),
        waiting.len() < QUEUE_CAPACITY,
    ensures
        in_step(removal(known, waiting, id).0, removal(known, waiting, id).1, nodes),
{
    let registered = known.registered;
    if registered.contains_key(id) {
        let node = registered[id];
        let before = apply_commands(nodes, waiting);
        let left = registered.remove(id);
        let after = apply_commands(nodes, offered(waiting, AudioCommand::RemoveNode(node)));
        let retired = known.retired.push(node);
        lemma_last_command_last(nodes, waiting, AudioCommand::RemoveNode(node));
        assert(after == without(before, node));
        lemma_without(before, node);
        assert(left.is_injective());
        assert forall|other: NodePtr| left.contains_value(other) <==> registered.contains_value(
            other,
        ) && other != node by {
            if left.contains_value(other) {
                let key = choose|key: NodeId| #[trigger]
                    left.dom().contains(key) && left[key] == other;
                assert(registered.dom().contains(key) && registered[key] == other);
            }
            if registered.contains_value(other) && other != node {
                let key = choose|key: NodeId| #[trigger]
                    registered.dom().contains(key) && registered[key] == other;
                assert(left.dom().contains(key) && left[key] == other);
            }
        }
        assert forall|other: NodePtr| #[trigger] after.contains(other) <==> left.contains_value(
            other,
        ) by {
            if after.contains(other) {
                assert(before.contains(other));
            }
            if left.contains_value(other) {
                assert(before.contains(other));
            }
        }
        assert forall|other: NodePtr| #[trigger]
            retired.contains(other) implies !left.contains_value(other) by {
            let i = choose|i: int| 0 <= i < retired.len() && retired[i] == other;
            if i < known.retired.len() {
                assert(known.retired[i] == other);
                assert(known.retired.contains(other));
            }
        }
    }
}

/// When the audio side has taken all that waits, the two sides are still in
/// step, and the audio side renders the registered nodes and no others, each
/// once.
pub proof fn lemma_drain_keeps_in_step(
    known: ControllerView,
    waiting: Seq<AudioCommand>,
    nodes: Seq<NodePtr>,
)
    requires
        in_step(known, waiting, nodes),
    ensures
        in_step(known, Seq::empty(), apply_commands(nodes, waiting)),
        apply_commands(nodes, waiting).no_duplicates(),
        forall|node: NodePtr| #[trigger]
            apply_commands(nodes, waiting).contains(node) <==> known.registered.contains_value(
                node,
            ),
{
    let taken = apply_commands(nodes, waiting);
    assert(apply_commands(taken, Seq::empty()) == taken);
}

/// Reclaiming keeps the two sides in step.
pub proof fn lemma_reclaim_keeps_in_step(
    known: ControllerView,
    waiting: Seq<AudioCommand>,
    nodes: Seq<NodePtr>,
)
    requires
        in_step(known, waiting, nodes),
    ensures
        in_step(reclamation(known, waiting).0, waiting, nodes),
{
    if waiting.len() == 0 {
        assert(reclamation(known, waiting).0.retired.len() == 0);
    }
}

/// What reclaiming hands out can be destroyed: while the two sides are in
/// step, the audio side renders none of it.
pub proof fn lemma_reclaimed_nodes_do_not_render(
    known: ControllerView,
    waiting: Seq<AudioCommand>,
    nodes: Seq<NodePtr>,
    node: NodePtr,
)
    requires
        in_step(known, waiting, nodes),
        reclamation(known, waiting).1.contains(node),
    ensures
        waiting.len() == 0,
        !nodes.contains(node),
{
    if waiting.len() == 0 {
        assert(apply_commands(nodes, waiting) == nodes);
        assert(known.retired.contains(node));
    } else {
        assert(reclamation(known, waiting).1.len() == 0);
    }
}

/// While the two sides are in step and nothing waits, the audio side renders
/// no node that is not registered.
pub proof fn lemma_unregistered_node_does_not_render(
    known: ControllerView,
    nodes: Seq<NodePtr>,
    node: NodePtr,
)
    requires
        in_step(known, Seq::empty(), nodes),
        !known.registered.contains_value(node),
    ensures
        !nodes.contains(node),
{
    assert(apply_commands(nodes, Seq::empty()) == nodes);
}

} // verus!
