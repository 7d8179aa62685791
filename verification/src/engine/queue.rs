use super::AudioCommand;
use vstd::prelude::*;

verus! {

/// `heapless::spsc::Queue`, a queue of fixed size that Verus does not look
/// into; what it holds goes by the name [`queued`].
#[verifier::external_type_specification]
#[verifier::external_body]
#[verifier::reject_recursive_types(T)]
pub struct ExSpscQueue<T, const N: usize>(heapless::spsc::Queue<T, N>);

/// The commands that wait in a queue, the one that leaves next first.
pub uninterp spec fn queued(queue: heapless::spsc::Queue<AudioCommand, 64>) -> Seq<
    AudioCommand,
>;

/// `heapless::spsc::Queue::new`: the new queue holds nothing.
#[verifier::external_body]
fn queue_new() -> (queue: heapless::spsc::Queue<AudioCommand, 64>)
    ensures
        queued(queue) == Seq::<AudioCommand>::empty(),
{
    heapless::spsc::Queue::new()
}

/// `heapless::spsc::Queue::len`: the number of items that wait, which a queue of
/// 64 slots keeps below 64.
#[verifier::external_body]
fn queue_len(queue: &heapless::spsc::Queue<AudioCommand, 64>) -> (n: usize)
    ensures
        n == queued(*queue).len(),
        n <= 63,
{
    queue.len()
}

/// `heapless::spsc::Queue::enqueue`: with fewer than 63 items waiting the item
/// goes to the back and `true` comes back; a queue that holds 63 is full, stays
/// as it is and hands the item back, which shows here as `false`.
#[verifier::external_body]
fn queue_enqueue(
    queue: &mut heapless::spsc::Queue<AudioCommand, 64>,
    cmd: AudioCommand,
) -> (accepted: bool)
    ensures
        accepted == (queued(*old(queue)).len() < 63),
        queued(*final(queue)) == if accepted {
            queued(*old(queue)).push(cmd)
        } else {
            queued(*old(queue))
        },
{
    queue.enqueue(cmd).is_ok()
}

/// `heapless::spsc::Queue::dequeue`: the item at the front leaves and is
/// returned; an empty queue gives `None` and stays empty.
#[verifier::external_body]
fn queue_dequeue(queue: &mut heapless::spsc::Queue<AudioCommand, 64>) -> (cmd: Option<
    AudioCommand,
>)
    ensures
        queued(*old(queue)).len() == 0 ==> cmd is None && queued(*final(queue)) == queued(
            *old(queue),
        ),
        queued(*old(queue)).len() > 0 ==> cmd == Some(queued(*old(queue))[0]) && queued(
            *final(queue),
        ) == queued(*old(queue)).skip(1),
{
    queue.dequeue()
}

/// Most commands that can wait in a [`CommandQueue`] at once: of its 64 slots
/// one stays free.
pub const QUEUE_CAPACITY: usize = 63;

/// The waiting commands after `cmd` was offered: it joins at the back, unless
/// the queue is full, in which case it is dropped.
pub open spec fn offered(waiting: Seq<AudioCommand>, cmd: AudioCommand) -> Seq<AudioCommand> {
    if waiting.len() < QUEUE_CAPACITY {
        waiting.push(cmd)
    } else {
        waiting
    }
}

/// The bounded queue that carries commands from the control side to the audio
/// side, first in, first out.
pub struct CommandQueue {
    slots: heapless::spsc::Queue<AudioCommand, 64>,
}

impl View for CommandQueue {
    type V = Seq<AudioCommand>;

    closed spec fn view(&self) -> Seq<AudioCommand> {
        queued(self.slots)
    }
}

impl CommandQueue {
    /// An empty queue.
    pub fn new() -> (queue: Self)
        ensures
            queue@.len() == 0,
    {
        CommandQueue { slots: queue_new() }
    }

    /// Number of commands that wait.
    pub fn len(&self) -> (n: usize)
        ensures
            n == self@.len(),
            n <= QUEUE_CAPACITY,
    {
        queue_len(&self.slots)
    }

    /// Puts `cmd` at the back. A full queue drops it and says so with `false`.
    pub fn enqueue(&mut self, cmd: AudioCommand) -> (accepted: bool)
        ensures
            accepted == (old(self)@.len() < QUEUE_CAPACITY),
            final(self)@ == offered(old(self)@, cmd),
    {
        queue_enqueue(&mut self.slots, cmd)
    }

    /// Takes the command at the front, if there is one.
    pub fn dequeue(&mut self) -> (cmd: Option<AudioCommand>)
        ensures
            old(self)@.len() == 0 ==> cmd is None && final(self)@ == old(self)@,
            old(self)@.len() > 0 ==> cmd == Some(old(self)@[0]) && final(self)@ == old(
                self,
            )@.skip(1),
    {
        queue_dequeue(&mut self.slots)
    }
}

} // verus!
