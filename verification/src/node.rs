use vstd::prelude::*;

mod delay;
pub mod nodes;

verus! {

/// Names a node that was handed to the controller. Ids are never zero, grow
/// from one node to the next and are never given out twice by one controller.
#[derive(Clone, Copy, Debug, PartialEq, Eq, PartialOrd, Ord, Hash, Structural)]
pub struct NodeId(pub(crate) u32);

impl NodeId {
    /// The number behind the id.
    pub closed spec fn index(self) -> int {
        self.0 as int
    }

    /// An id is nothing but its number: ids with the same number are equal.
    pub proof fn lemma_index_determines_id(a: NodeId, b: NodeId)
        requires
            a.index() == b.index(),
        ensures
            a == b,
    {
    }

    pub(crate) fn from_index(n: u32) -> (id: NodeId)
        ensures
            id.index() == n,
    {
        NodeId(n)
    }

    /// The number behind the id.
    pub fn value(&self) -> (n: u32)
        ensures
            n == self.index(),
    {
        self.0
    }
}

} // verus!
