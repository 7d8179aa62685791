use super::NodePtr;
use vstd::prelude::*;

verus! {

/// `heapless::Vec`, a vector of fixed capacity that Verus does not look into;
/// what it holds goes by the name [`listed`].
#[verifier::external_type_specification]
#[verifier::external_body]
#[verifier::reject_recursive_types(T)]
pub struct ExBoundedVec<T, const N: usize>(heapless::Vec<T, N>);

/// Most nodes that can render at once.
pub const MAX_ACTIVE_NODES: usize = 256;

/// The handles that a list holds, in the order in which they were added.
pub uninterp spec fn listed(list: heapless::Vec<NodePtr, 256>) -> Seq<NodePtr>;

/// The test that every node but `target` passes.
pub open spec fn other_than(target: NodePtr) -> spec_fn(NodePtr) -> bool {
    |node: NodePtr| node != target
}

/// What is left of `nodes` when every occurrence of `target` is taken out.
pub open spec fn without(nodes: Seq<NodePtr>, target: NodePtr) -> Seq<NodePtr> {
    nodes.filter(other_than(target))
}

/// Whether `node` is another node than `target`.
pub fn is_other_node(node: &NodePtr, target: &NodePtr) -> (other: bool)
    ensures
        other == (*node != *target),
{
    *node != *target
}

/// `heapless::Vec::new`: the new list holds nothing.
#[verifier::external_body]
pub(super) fn list_new() -> (list: heapless::Vec<NodePtr, 256>)
    ensures
        listed(list) == Seq::<NodePtr>::empty(),
{
    heapless::Vec::new()
}

/// `heapless::Vec::push`: with fewer than 256 items the item goes to the back
/// and `true` comes back; a list that holds 256 is full, stays as it is and
/// hands the item back, which shows here as `false`.
#[verifier::external_body]
pub(super) fn list_push(list: &mut heapless::Vec<NodePtr, 256>, node: NodePtr) -> (accepted:
    bool)
    ensures
        accepted == (listed(*old(list)).len() < 256),
        listed(*final(list)) == if accepted {
            listed(*old(list)).push(node)
        } else {
            listed(*old(list))
        },
{
    list.push(node).is_ok()
}

/// `heapless::Vec::retain`, keeping what [`is_other_node`] accepts: every item
/// equal to `target` leaves, the others stay in their order.
#[verifier::external_body]
pub(super) fn list_remove_all(list: &mut heapless::Vec<NodePtr, 256>, target: NodePtr)
    ensures
        listed(*final(list)) == without(listed(*old(list)), target),
{
    list.retain(|node| is_other_node(node, &target))
}

/// `heapless::Vec::as_slice`: the items in their order, at most 256 of them.
#[verifier::external_body]
pub(super) fn list_as_slice(list: &heapless::Vec<NodePtr, 256>) -> (items: &[NodePtr])
    ensures
        items@ == listed(*list),
        items@.len() <= 256,
{
    list.as_slice()
}

} // verus!
