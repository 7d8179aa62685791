use super::queue::{offered, CommandQueue, QUEUE_CAPACITY};
use super::registry::{
    entries, registry_get, registry_insert, registry_new, registry_remove, Registry,
};
use super::{AudioCommand, NodePtr};
use crate::node::NodeId;
use vstd::prelude::*;

verus! {

/// What a controller knows.
pub struct ControllerView {
    /// The nodes that were added and not removed since, under their ids.
    pub registered: Map<NodeId, NodePtr>,
    /// How many ids were given out; they are `1..=issued`.
    pub issued: nat,
    /// The nodes that were removed and wait to be destroyed, in the order of
    /// their removal.
    pub retired: Seq<NodePtr>,
}

/// What removing `id` does to what the controller knows and to the waiting
/// commands. An id that is in use goes out of use, and the audio side is asked
/// to stop rendering its node; the node is retired if the request found room
/// in the queue, for otherwise the audio side goes on rendering it. An id that
/// is not in use changes nothing.
pub open spec fn removal(known: ControllerView, waiting: Seq<AudioCommand>, id: NodeId) -> (
    ControllerView,
    Seq<AudioCommand>,
) {
    if known.registered.contains_key(id) {
        let node = known.registered[id];
        (
            ControllerView {
                registered: known.registered.remove(id),
                issued: known.issued,
                retired: if waiting.len() < QUEUE_CAPACITY {
                    known.retired.push(node)
                } else {
                    known.retired
                },
            },
            offered(waiting, AudioCommand::RemoveNode(node)),
        )
    } else {
        (known, waiting)
    }
}

/// What handing out the retired nodes does to what the controller knows, and
/// the nodes that it hands out: all of them when no command waits, none
/// otherwise.
pub open spec fn reclamation(known: ControllerView, waiting: Seq<AudioCommand>) -> (
    ControllerView,
    Seq<NodePtr>,
) {
    if waiting.len() == 0 {
        (
            ControllerView {
                registered: known.registered,
                issued: known.issued,
                retired: Seq::empty(),
            },
            known.retired,
        )
    } else {
        (known, Seq::empty())
    }
}

/// The control side: gives each node an id, remembers which ids are in use,
/// tells the audio side through the command queue, and keeps the nodes that
/// were removed until they can be destroyed.
pub struct AudioController {
    nodes: Registry,
    next_id: u32,
    retired: Vec<NodePtr>,
}

impl View for AudioController {
    type V = ControllerView;

    closed spec fn view(&self) -> ControllerView {
        ControllerView {
            registered: entries(self.nodes),
            issued: self.next_id as nat,
            retired: self.retired@,
        }
    }
}

impl AudioController {
    /// Every id in use is one that was given out: it lies in `1..=issued`.
    pub closed spec fn wf(&self) -> bool {
        forall|id: NodeId| #[trigger]
            entries(self.nodes).contains_key(id) ==> 1 <= id.index() <= self.next_id
    }

    /// What `wf` says, in terms of the view.
    pub proof fn lemma_registered_ids_were_issued(&self, id: NodeId)
        requires
            self.wf(),
            self@.registered.contains_key(id),
        ensures
            1 <= id.index() <= self@.issued,
    {
    }

    /// Registers the node behind the word `node` under a new id and asks the
    /// audio side to render it. There is no id for the word zero, nor once
    /// `u32::MAX` ids were given out; nothing changes then. A full queue drops
    /// the request, and the node stays registered.
    pub fn add_node(&mut self, queue: &mut CommandQueue, node: usize) -> (id: Option<NodeId>)
        requires
            old(self).wf(),
        ensures
            final(self).wf(),
            id is None <==> node == 0 || old(self)@.issued == u32::MAX,
            id is None ==> final(self)@ == old(self)@ && final(queue)@ == old(queue)@,
            id matches Some(new_id) ==> {
                &&& new_id.index() == old(self)@.issued + 1
                &&& !old(self)@.registered.contains_key(new_id)
                &&& final(self)@.issued == old(self)@.issued + 1
                &&& final(self)@.registered == old(self)@.registered.insert(
                    new_id,
                    NodePtr::at(node),
                )
                &&& final(self)@.retired == old(self)@.retired
                &&& final(queue)@ == offered(old(queue)@, AudioCommand::AddNode(NodePtr::at(node)))
            },
    {
        if self.next_id == u32::MAX {
            return None;
        }
        match NodePtr::new(node) {
            Some(ptr) => {
                let id = NodeId::from_index(self.next_id + 1);
                self.next_id = self.next_id + 1;
                registry_insert(&mut self.nodes, id, ptr);
                let _accepted: bool = queue.enqueue(AudioCommand::AddNode(ptr));
                assert forall|other: NodeId| #[trigger]
                    entries(self.nodes).contains_key(other) implies 1 <= other.index()
                    <= self.next_id by {
                    if other != id {
                        assert(entries(old(self).nodes).contains_key(other));
                    }
                }
                Some(id)
            },
            None => None,
        }
    }

    /// Takes `id` out of use and asks the audio side to stop rendering its
    /// node, whose handle is returned. The controller keeps the node until
    /// [`Self::reclaim`] hands it out. An id that is not in use, because it was
    /// never given out or was removed before, changes nothing and gives `None`.
    /// A full queue drops the request: the id is out of use all the same, but
    /// the node is not kept for reclaiming, since the audio side goes on
    /// rendering it.
    pub fn remove_node(&mut self, queue: &mut CommandQueue, id: NodeId) -> (node: Option<NodePtr>)
        requires
            old(self).wf(),
        ensures
            final(self).wf(),
            (final(self)@, final(queue)@) == removal(old(self)@, old(queue)@, id),
            node == if old(self)@.registered.contains_key(id) {
                Some(old(self)@.registered[id])
            } else {
                None
            },
            id.index() == 0 || id.index() > old(self)@.issued ==> node is None && final(self)@
                == old(self)@ && final(queue)@ == old(queue)@,
    {
        match registry_remove(&mut self.nodes, id) {
            Some(ptr) => {
                let accepted: bool = queue.enqueue(AudioCommand::RemoveNode(ptr));
                if accepted {
                    self.retired.push(ptr);
                }
                Some(ptr)
            },
            None => {
                assert(entries(self.nodes) =~= entries(old(self).nodes));
                None
            },
        }
    }

    /// Hands out the nodes that were removed, for the caller to destroy, once
    /// the audio side has taken every command; while a command waits it hands
    /// out none. The caller sees to it that the audio side is not in the middle
    /// of a block, for instance by rendering each block under the lock that
    /// guards `queue`.
    pub fn reclaim(&mut self, queue: &CommandQueue) -> (nodes: Vec<NodePtr>)
        requires
            old(self).wf(),
        ensures
            final(self).wf(),
            (final(self)@, nodes@) == reclamation(old(self)@, queue@),
    {
        let mut nodes: Vec<NodePtr> = Vec::new();
        if queue.len() == 0 {
            std::mem::swap(&mut nodes, &mut self.retired);
        }
        nodes
    }

    /// The handle registered under `id`, if the id is in use.
    pub fn node(&self, id: NodeId) -> (node: Option<NodePtr>)
        ensures
            node == if self@.registered.contains_key(id) {
                Some(self@.registered[id])
            } else {
                None
            },
    {
        registry_get(&self.nodes, id)
    }
}

impl Default for AudioController {
    /// A controller that has given out no id.
    fn default() -> (controller: Self)
        ensures
            controller.wf(),
            controller@.registered == Map::<NodeId, NodePtr>::empty(),
            controller@.issued == 0,
            controller@.retired.len() == 0,
    {
        AudioController { next_id: 0, nodes: registry_new(), retired: Vec::new() }
    }
}

/// Removing an id that is not in use is no removal: nothing is struck, nothing
/// is sent, nothing is retired.
pub proof fn lemma_removal_of_unused_id(
    known: ControllerView,
    waiting: Seq<AudioCommand>,
    id: NodeId,
)
    requires
        !known.registered.contains_key(id),
    ensures
        removal(known, waiting, id) == (known, waiting),
{
}

/// Removing an id a second time is no removal: whatever the first removal
/// left, the second leaves it as it is and sends nothing.
pub proof fn lemma_removal_is_idempotent(
    known: ControllerView,
    waiting: Seq<AudioCommand>,
    id: NodeId,
)
    ensures
        ({
            let (left, sent) = removal(known, waiting, id);
            removal(left, sent, id) == (left, sent)
        }),
{
}

} // verus!
