use double_delay::engine::DelayEngine;
use double_delay::params::ParamSnapshot;
use double_delay::SCALE;

fn snapshot(amplitude: i32, delay_time: i32, wet: i32, dry: i32, feedback: i32) -> ParamSnapshot {
    ParamSnapshot { amplitude, delay_time, wet, dry, feedback }
}

// A delay time of 45 microseconds rounds to exactly two samples at 44.1 kHz.
const TWO_SAMPLE_DELAY: i32 = 45;

#[test]
fn delay_samples_half_second() {
    // 0.5 s at 44.1 kHz is 22050 samples.
    assert_eq!(DelayEngine::delay_samples(500_000), 22050);
}

#[test]
fn delay_samples_rounds_to_nearest() {
    // 45 us * 44100 = 1.9845 samples, rounds to 2.
    assert_eq!(DelayEngine::delay_samples(TWO_SAMPLE_DELAY), 2);
    // 12 us * 44100 = 0.5292 samples, rounds to 1.
    assert_eq!(DelayEngine::delay_samples(12), 1);
    // 11 us * 44100 = 0.4851 samples, rounds to 0.
    assert_eq!(DelayEngine::delay_samples(11), 0);
    assert_eq!(DelayEngine::delay_samples(0), 0);
    assert_eq!(DelayEngine::delay_samples(-500_000), 0);
}

#[test]
fn active_length_always_in_range() {
    let engine = DelayEngine::with_capacity(100);
    for delay_time in [i32::MIN, -1, 0, 1, 11, 12, 45, 500_000, 4_000_000, i32::MAX] {
        let n = engine.active_length(delay_time);
        assert!(1 <= n && n <= 100, "active length {} out of range", n);
    }
}

#[test]
fn active_length_clamps_to_capacity() {
    // 4 s of delay asks for 176400 samples; a 100-sample buffer clamps.
    let engine = DelayEngine::with_capacity(100);
    assert_eq!(engine.active_length(4_000_000), 100);
    assert_eq!(engine.active_length(i32::MAX), 100);
    // The default capacity holds ten seconds; the same request fits.
    let big = DelayEngine::new();
    assert_eq!(big.active_length(4_000_000), 176_400);
}

#[test]
fn active_length_floor_is_one() {
    let engine = DelayEngine::with_capacity(100);
    assert_eq!(engine.active_length(0), 1);
    assert_eq!(engine.active_length(-1_000_000), 1);
    assert_eq!(engine.active_length(11), 1);
}

#[test]
fn fresh_engine_is_silent_and_at_start() {
    let engine = DelayEngine::with_capacity(8);
    assert_eq!(engine.capacity(), 8);
    assert_eq!(engine.cursor_position(), 0);
}

#[test]
fn dry_path_scales_input() {
    // dry = 0.5, amplitude = 0.5, empty buffer: out = input * 0.25.
    let mut engine = DelayEngine::with_capacity(4);
    let p = snapshot(SCALE / 2, TWO_SAMPLE_DELAY, SCALE, SCALE / 2, 0);
    let out = engine.process_sample(SCALE, &p);
    assert_eq!(out, 250_000);
}

#[test]
fn zero_input_gives_zero_output() {
    // Silence in, silence out, for any parameter values, from a zeroed buffer.
    let mut engine = DelayEngine::with_capacity(16);
    let p = snapshot(SCALE, 90, SCALE, SCALE, 900_000);
    for _ in 0..200 {
        assert_eq!(engine.process_sample(0, &p), 0);
    }
}

#[test]
fn impulse_response_decays_geometrically() {
    // dry = 0, wet = 1, amplitude = 1, feedback = 0.5, two-sample delay:
    // a unit impulse echoes at every second sample, halved each time.
    let mut engine = DelayEngine::with_capacity(4);
    let p = snapshot(SCALE, TWO_SAMPLE_DELAY, SCALE, 0, SCALE / 2);
    let mut input = vec![0i32; 9];
    input[0] = SCALE;
    let output = engine.process_block(&input, &p);
    assert_eq!(output, vec![0, 0, 500_000, 0, 250_000, 0, 125_000, 0, 62_500]);
}

#[test]
fn impulse_echo_is_feedback_value() {
    // The first echo of a unit impulse is exactly the feedback fraction.
    let mut engine = DelayEngine::with_capacity(8);
    let p = snapshot(SCALE, TWO_SAMPLE_DELAY, SCALE, 0, 300_000);
    assert_eq!(engine.process_sample(SCALE, &p), 0);
    assert_eq!(engine.process_sample(0, &p), 0);
    assert_eq!(engine.process_sample(0, &p), 300_000);
}

#[test]
fn feedback_mixes_input_with_delayed_sample() {
    // One-sample delay: the value written is (input + delayed) * feedback.
    let mut engine = DelayEngine::with_capacity(2);
    let p = snapshot(SCALE, 12, SCALE, 0, SCALE / 2);
    assert_eq!(engine.active_length(12), 1);
    assert_eq!(engine.process_sample(SCALE, &p), 0); // reads 0, writes 0.5
    assert_eq!(engine.process_sample(SCALE, &p), 500_000); // reads 0.5, writes 0.75
    assert_eq!(engine.process_sample(0, &p), 750_000); // reads 0.75, writes 0.375
    assert_eq!(engine.process_sample(0, &p), 375_000);
}

#[test]
fn cursor_loops_through_active_window() {
    let mut engine = DelayEngine::with_capacity(8);
    let p = snapshot(SCALE, TWO_SAMPLE_DELAY, SCALE, SCALE, 0);
    let mut seen = Vec::new();
    for _ in 0..5 {
        seen.push(engine.cursor_position());
        engine.process_sample(0, &p);
    }
    assert_eq!(seen, vec![0, 1, 0, 1, 0]);
}

#[test]
fn cursor_wraps_when_window_shrinks() {
    // Walk the cursor deep into a long window, then shrink the window:
    // the next step wraps to zero instead of leaving the window.
    let mut engine = DelayEngine::with_capacity(100);
    let long = snapshot(SCALE, 1_000, SCALE, SCALE, 0); // 44 samples
    assert_eq!(engine.active_length(1_000), 44);
    for _ in 0..40 {
        engine.process_sample(0, &long);
    }
    assert_eq!(engine.cursor_position(), 40);
    let short = snapshot(SCALE, TWO_SAMPLE_DELAY, SCALE, SCALE, 0); // 2 samples
    engine.process_sample(0, &short);
    assert_eq!(engine.cursor_position(), 0);
    engine.process_sample(0, &short);
    assert_eq!(engine.cursor_position(), 1);
}

#[test]
fn parameter_changes_between_samples_never_go_out_of_bounds() {
    // Alternate extreme delay times between samples, as a control thread
    // would: the cursor always stays inside the buffer.
    let mut engine = DelayEngine::with_capacity(50);
    let times = [i32::MAX, 0, 4_000_000, -1, 1_000, 12, i32::MIN, 90];
    for k in 0..400 {
        let p = snapshot(SCALE, times[k % times.len()], SCALE, SCALE, 700_000);
        engine.process_sample(SCALE, &p);
        assert!(engine.cursor_position() < 50);
    }
}

#[test]
fn processing_is_deterministic() {
    let p = snapshot(800_000, 700, 600_000, 400_000, 300_000);
    let input: Vec<i32> = (0..64).map(|k| (k * 37_123 - 1_000_000) as i32).collect();
    let mut first = DelayEngine::with_capacity(32);
    let mut second = DelayEngine::with_capacity(32);
    let out_first = first.process_block(&input, &p);
    let out_second = second.process_block(&input, &p);
    assert_eq!(out_first, out_second);
    assert_eq!(first.cursor_position(), second.cursor_position());
}

#[test]
fn block_matches_per_sample_processing() {
    let p = snapshot(SCALE, 200, 900_000, 100_000, 450_000);
    let input: Vec<i32> = (0..40).map(|k| ((k * k) as i32) * 1_000 - 500_000).collect();
    let mut blockwise = DelayEngine::with_capacity(16);
    let mut samplewise = DelayEngine::with_capacity(16);
    let block_out = blockwise.process_block(&input, &p);
    let sample_out: Vec<i32> = input.iter().map(|&s| samplewise.process_sample(s, &p)).collect();
    assert_eq!(block_out, sample_out);
}

#[test]
fn empty_block_is_a_no_op() {
    let mut engine = DelayEngine::with_capacity(4);
    let p = snapshot(SCALE, TWO_SAMPLE_DELAY, SCALE, SCALE, SCALE / 2);
    let out = engine.process_block(&Vec::new(), &p);
    assert!(out.is_empty());
    assert_eq!(engine.cursor_position(), 0);
}
