use bevy_daw::engine::{MAX_BUFFER_SIZE, SAMPLE_RATE};
use bevy_daw::nodes::DelayNode;

fn tone(freq: f32, volume: f32, len: usize) -> Vec<f32> {
    let tau = std::f32::consts::TAU;
    let phase_inc = (freq / SAMPLE_RATE as f32) * tau;
    let mut phase = 0.0_f32;
    let mut out = vec![0.0_f32; len];
    for sample in out.iter_mut() {
        *sample += phase.sin() * volume;
        phase += phase_inc;
        if phase > tau {
            phase -= tau;
        }
    }
    out
}

fn impulse(len: usize, at: usize) -> Vec<f32> {
    let mut signal = vec![0.0_f32; len];
    signal[at] = 1.0;
    signal
}

fn run_in_blocks(delay: &mut DelayNode<f32>, signal: &[f32], block: usize) -> Vec<f32> {
    let mut out = signal.to_vec();
    let mut pos = 0u32;
    for chunk in out.chunks_mut(block) {
        delay.process(pos, chunk);
        pos = pos.wrapping_add(chunk.len() as u32);
    }
    out
}

#[test]
fn delay_plot_tone_generator() {
    let freq = SAMPLE_RATE as f32 / 2048.0;
    let dry = tone(freq * 2.0, 0.5, 2048);
    let mut delay = DelayNode::new(500, 0.0_f32);

    let mut buffer = [0.0_f32; 2048];
    buffer.copy_from_slice(&dry);

    delay.process(0, &mut buffer);

    for i in 0..500 {
        assert_eq!(buffer[i], 0.0, "sample {i}");
    }
    for i in 500..2048 {
        assert_eq!(buffer[i], dry[i - 500], "sample {i}");
    }
    assert_eq!(buffer[500], 0.0);
    assert_eq!(buffer[501], dry[1]);
    assert!(dry[1] > 0.0);
}

#[test]
fn impulse_comes_out_after_the_delay() {
    let mut delay = DelayNode::new(3, 0.0_f32);
    let mut buffer = impulse(8, 0);
    delay.process(0, &mut buffer);
    assert_eq!(buffer, vec![0.0, 0.0, 0.0, 1.0, 0.0, 0.0, 0.0, 0.0]);
}

#[test]
fn impulse_with_no_delay_stays_in_place() {
    let mut delay = DelayNode::new(0, 0.0_f32);
    let mut buffer = impulse(8, 2);
    delay.process(0, &mut buffer);
    assert_eq!(buffer, impulse(8, 2));
}

#[test]
fn impulse_crosses_block_boundaries() {
    let mut delay = DelayNode::new(10, 0.0_f32);
    let out = run_in_blocks(&mut delay, &impulse(32, 1), 4);
    assert_eq!(out, impulse(32, 11));
}

#[test]
fn impulse_with_a_delay_longer_than_the_longest_block() {
    let n = MAX_BUFFER_SIZE + 1000;
    let mut delay = DelayNode::new(n, 0.0_f32);
    let len = 3 * MAX_BUFFER_SIZE;
    let out = run_in_blocks(&mut delay, &impulse(len, 5), MAX_BUFFER_SIZE);
    assert_eq!(out, impulse(len, n + 5));
}

#[test]
fn impulse_keeps_its_magnitude() {
    let mut delay = DelayNode::new(2, 0.0_f32);
    let mut buffer = vec![0.0_f32, -0.25, 0.0, 0.0, 0.0];
    delay.process(0, &mut buffer);
    assert_eq!(buffer, vec![0.0, 0.0, 0.0, -0.25, 0.0]);
}

#[test]
fn cutting_into_blocks_makes_no_difference() {
    let signal: Vec<f32> = (0..100).map(|i| i as f32).collect();
    let mut whole = DelayNode::new(7, 0.0_f32);
    let expected = run_in_blocks(&mut whole, &signal, 100);
    for block in [1usize, 2, 3, 7, 8, 33, 99] {
        let mut cut = DelayNode::new(7, 0.0_f32);
        assert_eq!(run_in_blocks(&mut cut, &signal, block), expected, "block {block}");
    }
    assert_eq!(expected[6], 0.0);
    assert_eq!(expected[7], 0.0);
    assert_eq!(expected[8], 1.0);
    assert_eq!(expected[99], 92.0);
}

#[test]
fn line_starts_with_the_given_silence() {
    let mut delay = DelayNode::new(2, 9_u8);
    let mut buffer = [1_u8, 2, 3, 4];
    delay.process(0, &mut buffer);
    assert_eq!(buffer, [9, 9, 1, 2]);
    let mut more = [5_u8, 6];
    delay.process(4, &mut more);
    assert_eq!(more, [3, 4]);
}

#[test]
fn block_longer_than_the_ring() {
    let mut delay = DelayNode::new(1, 0_u32);
    let len = 2 * MAX_BUFFER_SIZE + 3;
    let mut buffer: Vec<u32> = (1..=len as u32).collect();
    delay.process(0, &mut buffer);
    assert_eq!(buffer[0], 0);
    for i in 1..len {
        assert_eq!(buffer[i], i as u32);
    }
}

#[test]
fn empty_block_changes_nothing() {
    let mut delay = DelayNode::new(1, 0_i16);
    let mut first = [7_i16];
    delay.process(0, &mut first);
    let mut none: [i16; 0] = [];
    delay.process(1, &mut none);
    let mut second = [8_i16];
    delay.process(1, &mut second);
    assert_eq!(first, [0]);
    assert_eq!(second, [7]);
}
