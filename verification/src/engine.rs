use vstd::prelude::*;

mod active;
mod controller;
pub mod device;
pub mod lifecycle;
mod queue;
mod registry;

pub use active::{is_other_node, other_than, without, MAX_ACTIVE_NODES};
pub use controller::{
    lemma_removal_is_idempotent, lemma_removal_of_unused_id, reclamation, removal,
    AudioController, ControllerView,
};
pub use queue::{offered, CommandQueue, QUEUE_CAPACITY};

verus! {

/// Sample rate that nodes are built for, in Hz.
pub const SAMPLE_RATE: u32 = 44_100;

/// Longest block that the engine renders in one call.
pub const MAX_BUFFER_SIZE: usize = 8192;

/// Handle of a node object that lives outside this crate, for instance its
/// address. Two handles stand for the same node exactly when they are equal.
/// No handle is zero.
#[derive(Clone, Copy, Debug, PartialEq, Eq, Structural)]
pub struct NodePtr(usize);

impl NodePtr {
    /// The machine word behind the handle.
    pub closed spec fn addr(self) -> int {
        self.0 as int
    }

    #[verifier::type_invariant]
    spec fn non_null(self) -> bool {
        self.0 != 0
    }

    /// The handle that is made from the word `ptr`.
    pub closed spec fn at(ptr: usize) -> NodePtr {
        NodePtr(ptr)
    }

    /// A handle is nothing but its word: handles with the same word are equal,
    /// and the handle made from a word has that word.
    pub proof fn lemma_addr_determines_handle(a: NodePtr, b: NodePtr, ptr: usize)
        ensures
            a.addr() == b.addr() ==> a == b,
            Self::at(ptr).addr() == ptr,
    {
    }

    /// Makes a handle from a word; zero stands for "no node" and gives `None`.
    pub fn new(ptr: usize) -> (handle: Option<Self>)
        ensures
            ptr == 0 <==> handle is None,
            ptr != 0 ==> handle == Some(Self::at(ptr)),
    {
        if ptr == 0 {
            None
        } else {
            Some(Self(ptr))
        }
    }

    /// The word that the handle was made from, never zero.
    pub fn as_usize(&self) -> (ptr: usize)
        ensures
            ptr == self.addr(),
            ptr != 0,
    {
        proof {
            use_type_invariant(self);
        }
        self.0
    }
}

/// What the control side asks of the audio side.
#[derive(Clone, Copy, Debug, PartialEq, Eq, Structural)]
pub enum AudioCommand {
    /// Start rendering this node, after those that render already.
    AddNode(NodePtr),
    /// Stop rendering this node.
    RemoveNode(NodePtr),
}

/// The list of rendering nodes after the audio side has taken `cmd`: a node
/// that is added goes to the back unless the list is full, a node that is
/// removed leaves wherever it stands.
pub open spec fn apply_command(nodes: Seq<NodePtr>, cmd: AudioCommand) -> Seq<NodePtr> {
    match cmd {
        AudioCommand::AddNode(node) => if nodes.len() < MAX_ACTIVE_NODES {
            nodes.push(node)
        } else {
            nodes
        },
        AudioCommand::RemoveNode(node) => without(nodes, node),
    }
}

/// The list of rendering nodes after the audio side has taken all of `cmds`,
/// the first of them first.
pub open spec fn apply_commands(nodes: Seq<NodePtr>, cmds: Seq<AudioCommand>) -> Seq<NodePtr>
    decreases cmds.len(),
{
    if cmds.len() == 0 {
        nodes
    } else {
        apply_commands(apply_command(nodes, cmds[0]), cmds.skip(1))
    }
}

/// The sample position after a block of `block_len` samples that began at
/// `pos`; the counter has 32 bits and wraps.
pub open spec fn advanced(pos: u32, block_len: usize) -> int {
    (pos + block_len) % 0x1_0000_0000
}

/// What the audio side owns: the nodes that render, in render order, and the
/// running sample position.
pub struct AudioEngine {
    nodes: heapless::Vec<NodePtr, 256>,
    sample_pos: u32,
}

impl AudioEngine {
    /// The nodes that render, in render order.
    pub closed spec fn active(&self) -> Seq<NodePtr> {
        active::listed(self.nodes)
    }

    /// Position of the next block's first sample.
    pub closed spec fn position(&self) -> u32 {
        self.sample_pos
    }

    /// An engine that renders nothing, at position zero.
    pub fn empty() -> (engine: Self)
        ensures
            engine.active().len() == 0,
            engine.position() == 0,
    {
        AudioEngine { sample_pos: 0, nodes: active::list_new() }
    }

    /// Takes one command.
    pub fn on_command(&mut self, cmd: AudioCommand)
        ensures
            final(self).active() == apply_command(old(self).active(), cmd),
            final(self).position() == old(self).position(),
    {
        match cmd {
            AudioCommand::AddNode(node) => {
                let _accepted: bool = active::list_push(&mut self.nodes, node);
            },
            AudioCommand::RemoveNode(node) => {
                active::list_remove_all(&mut self.nodes, node);
            },
        }
    }

    /// Starts a block of `block_len` samples: takes every command that waits in
    /// `queue`, oldest first, and moves the position past the block. The block
    /// itself is rendered by the nodes of [`Self::nodes`], in that order, at the
    /// position that is returned.
    pub fn process(&mut self, queue: &mut CommandQueue, block_len: usize) -> (pos: u32)
        ensures
            final(queue)@.len() == 0,
            final(self).active() == apply_commands(old(self).active(), old(queue)@),
            pos == old(self).position(),
            final(self).position() == advanced(old(self).position(), block_len),
    {
        loop
            invariant
                self.position() == old(self).position(),
                apply_commands(self.active(), queue@) == apply_commands(
                    old(self).active(),
                    old(queue)@,
                ),
            ensures
                queue@.len() == 0,
            decreases queue@.len(),
        {
            match queue.dequeue() {
                Some(cmd) => self.on_command(cmd),
                None => break ,
            }
        }
        let pos: u32 = self.sample_pos;
        let step: u32 = ((block_len as u64) % 0x1_0000_0000u64) as u32;
        self.sample_pos = pos.wrapping_add(step);
        pos
    }

    /// The nodes that render, in render order.
    pub fn nodes(&self) -> (nodes: &[NodePtr])
        ensures
            nodes@ == self.active(),
            nodes@.len() <= MAX_ACTIVE_NODES,
    {
        active::list_as_slice(&self.nodes)
    }

    /// Position of the next block's first sample.
    pub fn sample_pos(&self) -> (pos: u32)
        ensures
            pos == self.position(),
    {
        self.sample_pos
    }
}


/// It makes no difference to the position where a signal is cut into blocks:
/// two blocks in a row move it as far as one block of their joint length.
pub proof fn lemma_positions_join(pos: u32, first: usize, second: usize)
    requires
        first + second <= usize::MAX,
    ensures
        0 <= advanced(pos, first) <= u32::MAX,
        advanced(advanced(pos, first) as u32, second) == advanced(pos, (first + second) as usize),
{
    vstd::arithmetic::div_mod::lemma_add_mod_noop_right(
        second as int,
        pos + first,
        0x1_0000_0000,
    );
}

/// Commands take effect one after the other: taking `later` after `earlier`
/// is taking the two in one go.
pub proof fn lemma_commands_in_sequence(
    nodes: Seq<NodePtr>,
    earlier: Seq<AudioCommand>,
    later: Seq<AudioCommand>,
)
    ensures
        apply_commands(nodes, earlier + later) == apply_commands(
            apply_commands(nodes, earlier),
            later,
        ),
    decreases earlier.len(),
{
    if earlier.len() == 0 {
        assert(earlier + later =~= later);
    } else {
        assert((earlier + later).skip(1) =~= earlier.skip(1) + later);
        lemma_commands_in_sequence(apply_command(nodes, earlier[0]), earlier.skip(1), later);
    }
}

/// The command that was sent last is taken last.
pub proof fn lemma_last_command_last(
    nodes: Seq<NodePtr>,
    waiting: Seq<AudioCommand>,
    cmd: AudioCommand,
)
    ensures
        apply_commands(nodes, waiting.push(cmd)) == apply_command(
            apply_commands(nodes, waiting),
            cmd,
        ),
{
    let after = apply_commands(nodes, waiting);
    lemma_commands_in_sequence(nodes, waiting, seq![cmd]);
    assert(waiting + seq![cmd] =~= waiting.push(cmd));
    assert(seq![cmd].skip(1).len() == 0);
    assert(apply_commands(apply_command(after, cmd), seq![cmd].skip(1)) == apply_command(
        after,
        cmd,
    ));
}

/// Two nodes that are added one after the other render in that order, behind
/// the nodes that rendered before: when node `a` and then node `b` are sent to
/// be added and the audio side then takes all that waits, `a` and `b` stand at
/// the end of its list, `a` before `b`. This needs room for two more commands
/// in the queue and for two more nodes in the list.
pub proof fn lemma_added_in_order(
    nodes: Seq<NodePtr>,
    waiting: Seq<AudioCommand>,
    a: NodePtr,
    b: NodePtr,
)
    requires
        waiting.len() + 2 <= QUEUE_CAPACITY,
        apply_commands(nodes, waiting).len() + 2 <= MAX_ACTIVE_NODES,
    ensures
        apply_commands(
            nodes,
            offered(offered(waiting, AudioCommand::AddNode(a)), AudioCommand::AddNode(b)),
        ) == apply_commands(nodes, waiting).push(a).push(b),
{
    let first = AudioCommand::AddNode(a);
    let second = AudioCommand::AddNode(b);
    lemma_last_command_last(nodes, waiting, first);
    lemma_last_command_last(nodes, waiting.push(first), second);
}

/// A node that is removed before the audio side ever saw it never renders:
/// when node `a` is sent to be added and then to be removed, and the audio side
/// then takes all that waits, `a` is not in its list. More exactly, the list is
/// what the commands that waited before leave of it, without `a`. This needs
/// room for two more commands in the queue.
pub proof fn lemma_added_then_removed_is_absent(
    nodes: Seq<NodePtr>,
    waiting: Seq<AudioCommand>,
    a: NodePtr,
)
    requires
        waiting.len() + 2 <= QUEUE_CAPACITY,
    ensures
        apply_commands(
            nodes,
            offered(offered(waiting, AudioCommand::AddNode(a)), AudioCommand::RemoveNode(a)),
        ) == without(apply_commands(nodes, waiting), a),
        !without(apply_commands(nodes, waiting), a).contains(a),
{
    let first = AudioCommand::AddNode(a);
    let second = AudioCommand::RemoveNode(a);
    let before = apply_commands(nodes, waiting);
    lemma_last_command_last(nodes, waiting, first);
    lemma_last_command_last(nodes, waiting.push(first), second);
    lemma_without(before, a);
    if before.len() < MAX_ACTIVE_NODES {
        let keep = other_than(a);
        Seq::filter_distributes_over_add(before, seq![a], keep);
        assert(before.push(a) =~= before + seq![a]);
        assert(seq![a].filter(keep) =~= Seq::<NodePtr>::empty()) by {
            reveal_with_fuel(Seq::filter, 2);
        }
        assert(before.filter(keep) + Seq::<NodePtr>::empty() =~= before.filter(keep));
    }
}

/// Taking a node out of a list leaves the other nodes, each as often as
/// before and in the same order, and leaves none of the node itself.
pub proof fn lemma_without(nodes: Seq<NodePtr>, target: NodePtr)
    ensures
        !without(nodes, target).contains(target),
        forall|node: NodePtr|
            node != target && nodes.contains(node) ==> #[trigger] without(nodes, target).contains(
                node,
            ),
        forall|node: NodePtr| #[trigger]
            without(nodes, target).contains(node) ==> nodes.contains(node),
        without(nodes, target).len() <= nodes.len(),
        !nodes.contains(target) ==> without(nodes, target) == nodes,
        nodes.no_duplicates() ==> without(nodes, target).no_duplicates(),
    decreases nodes.len(),
{
    reveal(Seq::filter);
    if nodes.len() > 0 {
        let front = nodes.drop_last();
        let last = nodes.last();
        let rest = without(front, target);
        let kept = rest.push(last);
        lemma_without(front, target);
        assert(nodes =~= front.push(last));
        assert(nodes[nodes.len() - 1] == last);
        assert forall|node: NodePtr| nodes.contains(node) <==> front.contains(node) || node
            == last by {
            if nodes.contains(node) {
                let i = choose|i: int| 0 <= i < nodes.len() && nodes[i] == node;
                if i < front.len() {
                    assert(front[i] == node);
                }
            }
            if front.contains(node) {
                let i = choose|i: int| 0 <= i < front.len() && front[i] == node;
                assert(nodes[i] == node);
            }
        }
        assert forall|node: NodePtr| kept.contains(node) <==> rest.contains(node) || node
            == last by {
            if kept.contains(node) {
                let i = choose|i: int| 0 <= i < kept.len() && kept[i] == node;
                if i < rest.len() {
                    assert(rest[i] == node);
                }
            }
            if rest.contains(node) {
                let i = choose|i: int| 0 <= i < rest.len() && rest[i] == node;
                assert(kept[i] == node);
            }
            assert(kept[rest.len() as int] == last);
        }
        if last != target {
            assert(without(nodes, target) == kept);
            if nodes.no_duplicates() {
                assert(front.no_duplicates());
                assert(!front.contains(last)) by {
                    if front.contains(last) {
                        let i = choose|i: int| 0 <= i < front.len() && front[i] == last;
                        assert(nodes[i] == nodes[nodes.len() - 1]);
                    }
                }
                assert forall|i: int, j: int|
                    0 <= i < kept.len() && 0 <= j < kept.len() && i != j implies kept[i]
                    != kept[j] by {
                    if i < rest.len() {
                        assert(rest.contains(rest[i]));
                    }
                    if j < rest.len() {
                        assert(rest.contains(rest[j]));
                    }
                }
            }
        } else {
            assert(without(nodes, target) == rest);
            if nodes.no_duplicates() {
                assert(front.no_duplicates());
            }
        }
    }
}

/// The list of rendering nodes never grows beyond its bound.
pub proof fn lemma_list_stays_bounded(nodes: Seq<NodePtr>, cmds: Seq<AudioCommand>)
    requires
        nodes.len() <= MAX_ACTIVE_NODES,
    ensures
        apply_commands(nodes, cmds).len() <= MAX_ACTIVE_NODES,
    decreases cmds.len(),
{
    if cmds.len() > 0 {
        if let AudioCommand::RemoveNode(node) = cmds[0] {
            lemma_without(nodes, node);
        }
        lemma_list_stays_bounded(apply_command(nodes, cmds[0]), cmds.skip(1));
    }
}

} // verus!
