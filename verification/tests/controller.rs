use bevy_daw::engine::{AudioCommand, AudioEngine, CommandQueue, NodePtr};
use bevy_daw::{AudioController, NodeId};

fn node(word: usize) -> NodePtr {
    NodePtr::new(word).unwrap()
}

fn drain(queue: &mut CommandQueue) -> Vec<AudioCommand> {
    let mut out = Vec::new();
    while let Some(cmd) = queue.dequeue() {
        out.push(cmd);
    }
    out
}

#[test]
fn ids_start_at_one_and_grow() {
    let mut queue = CommandQueue::new();
    let mut controller = AudioController::default();
    let a = controller.add_node(&mut queue, 0x100).unwrap();
    let b = controller.add_node(&mut queue, 0x200).unwrap();
    let c = controller.add_node(&mut queue, 0x300).unwrap();
    assert_eq!(a.value(), 1);
    assert_eq!(b.value(), 2);
    assert_eq!(c.value(), 3);
    assert_ne!(a, b);
    assert!(a < b && b < c);
}

#[test]
fn ids_are_not_used_again_after_removal() {
    let mut queue = CommandQueue::new();
    let mut controller = AudioController::default();
    let a = controller.add_node(&mut queue, 0x100).unwrap();
    controller.remove_node(&mut queue, a);
    let b = controller.add_node(&mut queue, 0x100).unwrap();
    assert_eq!(a.value(), 1);
    assert_eq!(b.value(), 2);
}

#[test]
fn add_node_registers_and_sends() {
    let mut queue = CommandQueue::new();
    let mut controller = AudioController::default();
    let id = controller.add_node(&mut queue, 0x100).unwrap();
    assert_eq!(controller.node(id), Some(node(0x100)));
    assert_eq!(drain(&mut queue), vec![AudioCommand::AddNode(node(0x100))]);
}

#[test]
fn add_node_refuses_the_word_zero() {
    let mut queue = CommandQueue::new();
    let mut controller = AudioController::default();
    assert_eq!(controller.add_node(&mut queue, 0), None);
    assert_eq!(queue.len(), 0);
    let id = controller.add_node(&mut queue, 0x100).unwrap();
    assert_eq!(id.value(), 1);
}

#[test]
fn remove_node_strikes_and_sends() {
    let mut queue = CommandQueue::new();
    let mut controller = AudioController::default();
    let a = controller.add_node(&mut queue, 0x100).unwrap();
    let b = controller.add_node(&mut queue, 0x200).unwrap();
    assert_eq!(controller.remove_node(&mut queue, a), Some(node(0x100)));
    assert_eq!(controller.node(a), None);
    assert_eq!(controller.node(b), Some(node(0x200)));
    assert_eq!(
        drain(&mut queue),
        vec![
            AudioCommand::AddNode(node(0x100)),
            AudioCommand::AddNode(node(0x200)),
            AudioCommand::RemoveNode(node(0x100)),
        ]
    );
}

#[test]
fn removing_twice_does_nothing_the_second_time() {
    let mut queue = CommandQueue::new();
    let mut controller = AudioController::default();
    let a = controller.add_node(&mut queue, 0x100).unwrap();
    let b = controller.add_node(&mut queue, 0x200).unwrap();
    assert_eq!(controller.remove_node(&mut queue, a), Some(node(0x100)));
    assert_eq!(queue.len(), 3);
    assert_eq!(controller.remove_node(&mut queue, a), None);
    assert_eq!(queue.len(), 3);
    assert_eq!(controller.remove_node(&mut queue, a), None);
    assert_eq!(queue.len(), 3);
    assert_eq!(controller.node(b), Some(node(0x200)));
}

#[test]
fn removing_an_id_that_was_never_given_out_does_nothing() {
    let mut other_queue = CommandQueue::new();
    let mut other = AudioController::default();
    let mut strangers: Vec<NodeId> = Vec::new();
    for w in 1..=3usize {
        strangers.push(other.add_node(&mut other_queue, w * 8).unwrap());
    }

    let mut queue = CommandQueue::new();
    let mut controller = AudioController::default();
    assert_eq!(controller.remove_node(&mut queue, strangers[0]), None);
    assert_eq!(queue.len(), 0);
    let mine = controller.add_node(&mut queue, 0x100).unwrap();
    assert_eq!(mine, strangers[0]);
    assert_eq!(controller.remove_node(&mut queue, strangers[2]), None);
    assert_eq!(controller.remove_node(&mut queue, strangers[2]), None);
    assert_eq!(queue.len(), 1);
    assert_eq!(controller.node(mine), Some(node(0x100)));
    assert_eq!(controller.node(strangers[2]), None);
}

#[test]
fn full_queue_drops_the_request_but_the_node_is_registered() {
    let mut queue = CommandQueue::new();
    let mut controller = AudioController::default();
    let mut ids = Vec::new();
    for w in 1..=64usize {
        ids.push(controller.add_node(&mut queue, w * 8).unwrap());
    }
    assert_eq!(queue.len(), 63);
    assert_eq!(ids[63].value(), 64);
    assert_eq!(controller.node(ids[63]), Some(node(64 * 8)));
    assert_eq!(controller.remove_node(&mut queue, ids[0]), Some(node(8)));
    assert_eq!(queue.len(), 63);
    assert_eq!(controller.node(ids[0]), None);
    let sent = drain(&mut queue);
    assert_eq!(sent.len(), 63);
    assert_eq!(sent[62], AudioCommand::AddNode(node(63 * 8)));
}

#[test]
fn what_the_controller_sends_is_what_the_engine_renders() {
    let mut queue = CommandQueue::new();
    let mut controller = AudioController::default();
    let mut engine = AudioEngine::empty();
    let a = controller.add_node(&mut queue, 0xa0).unwrap();
    let b = controller.add_node(&mut queue, 0xb0).unwrap();
    engine.process(&mut queue, 256);
    assert_eq!(engine.nodes(), &[node(0xa0), node(0xb0)]);
    let c = controller.add_node(&mut queue, 0xc0).unwrap();
    controller.remove_node(&mut queue, a);
    engine.process(&mut queue, 256);
    assert_eq!(engine.nodes(), &[node(0xb0), node(0xc0)]);
    controller.remove_node(&mut queue, c);
    controller.remove_node(&mut queue, b);
    controller.remove_node(&mut queue, b);
    engine.process(&mut queue, 256);
    assert!(engine.nodes().is_empty());
    assert_eq!(engine.sample_pos(), 768);
}

#[test]
fn new_controller_knows_no_id() {
    let mut other_queue = CommandQueue::new();
    let mut other = AudioController::default();
    let id = other.add_node(&mut other_queue, 8).unwrap();
    let controller = AudioController::default();
    assert_eq!(controller.node(id), None);
}

#[test]
fn removed_nodes_are_handed_out_once_nothing_waits() {
    let mut queue = CommandQueue::new();
    let mut controller = AudioController::default();
    let mut engine = AudioEngine::empty();
    let a = controller.add_node(&mut queue, 0xa0).unwrap();
    let b = controller.add_node(&mut queue, 0xb0).unwrap();
    engine.process(&mut queue, 64);
    assert_eq!(controller.reclaim(&queue), vec![]);

    controller.remove_node(&mut queue, b);
    controller.remove_node(&mut queue, a);
    assert_eq!(controller.reclaim(&queue), vec![]);
    assert_eq!(controller.reclaim(&queue), vec![]);

    engine.process(&mut queue, 64);
    assert!(engine.nodes().is_empty());
    assert_eq!(controller.reclaim(&queue), vec![node(0xb0), node(0xa0)]);
    assert_eq!(controller.reclaim(&queue), vec![]);
}

#[test]
fn reclaiming_waits_for_every_command() {
    let mut queue = CommandQueue::new();
    let mut controller = AudioController::default();
    let a = controller.add_node(&mut queue, 0xa0).unwrap();
    drain(&mut queue);
    controller.remove_node(&mut queue, a);
    controller.add_node(&mut queue, 0xb0).unwrap();
    assert_eq!(queue.dequeue(), Some(AudioCommand::RemoveNode(node(0xa0))));
    assert_eq!(controller.reclaim(&queue), vec![]);
    assert_eq!(queue.dequeue(), Some(AudioCommand::AddNode(node(0xb0))));
    assert_eq!(controller.reclaim(&queue), vec![node(0xa0)]);
}

#[test]
fn a_node_whose_removal_was_dropped_is_not_handed_out() {
    let mut queue = CommandQueue::new();
    let mut controller = AudioController::default();
    let mut engine = AudioEngine::empty();
    let a = controller.add_node(&mut queue, 0xa0).unwrap();
    engine.process(&mut queue, 64);
    let mut others = Vec::new();
    for w in 1..=63usize {
        others.push(controller.add_node(&mut queue, w * 8).unwrap());
    }
    assert_eq!(queue.len(), 63);
    assert_eq!(controller.remove_node(&mut queue, a), Some(node(0xa0)));
    assert_eq!(controller.node(a), None);
    engine.process(&mut queue, 64);
    assert_eq!(engine.nodes()[0], node(0xa0));
    assert_eq!(controller.reclaim(&queue), vec![]);

    controller.remove_node(&mut queue, others[0]);
    engine.process(&mut queue, 64);
    assert_eq!(controller.reclaim(&queue), vec![node(8)]);
}

#[test]
fn new_controller_has_nothing_to_hand_out() {
    let queue = CommandQueue::new();
    let mut controller = AudioController::default();
    assert_eq!(controller.reclaim(&queue), vec![]);
}
