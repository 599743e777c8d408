use double_delay::fixed::{mul_fixed, sat_add};
use double_delay::params::{
    ParameterStore, PARAM_AMPLITUDE, PARAM_DELAY_TIME, PARAM_FEEDBACK,
};
use double_delay::SCALE;

#[test]
fn defaults_are_half_and_a_third_of_feedback() {
    let store = ParameterStore::new();
    let p = store.snapshot();
    assert_eq!(p.amplitude, 500_000);
    assert_eq!(p.delay_time, 500_000);
    assert_eq!(p.wet, 500_000);
    assert_eq!(p.dry, 500_000);
    assert_eq!(p.feedback, 300_000);
}

#[test]
fn default_trait_matches_new() {
    let a = ParameterStore::new().snapshot();
    let b = ParameterStore::default().snapshot();
    assert_eq!(a, b);
}

#[test]
fn set_then_get_round_trips() {
    let mut store = ParameterStore::new();
    store.set_parameter(PARAM_AMPLITUDE, 123_456);
    assert_eq!(store.get_parameter(PARAM_AMPLITUDE), 123_456);
    store.set_parameter(PARAM_FEEDBACK, 999_999);
    assert_eq!(store.get_parameter(PARAM_FEEDBACK), 999_999);
}

#[test]
fn delay_time_control_is_scaled_to_seconds() {
    // A normalized control value is worth four seconds at full scale.
    let mut store = ParameterStore::new();
    store.set_parameter(PARAM_DELAY_TIME, 250_000);
    assert_eq!(store.get_parameter(PARAM_DELAY_TIME), 1_000_000);
    store.set_parameter(PARAM_DELAY_TIME, SCALE);
    assert_eq!(store.get_parameter(PARAM_DELAY_TIME), 4_000_000);
}

#[test]
fn delay_time_scaling_saturates() {
    let mut store = ParameterStore::new();
    store.set_parameter(PARAM_DELAY_TIME, i32::MAX);
    assert_eq!(store.get_parameter(PARAM_DELAY_TIME), i32::MAX);
    store.set_parameter(PARAM_DELAY_TIME, i32::MIN);
    assert_eq!(store.get_parameter(PARAM_DELAY_TIME), i32::MIN);
}

#[test]
fn out_of_range_values_are_stored_unvalidated() {
    let mut store = ParameterStore::new();
    store.set_parameter(PARAM_FEEDBACK, 2 * SCALE);
    assert_eq!(store.get_parameter(PARAM_FEEDBACK), 2_000_000);
    store.set_parameter(PARAM_AMPLITUDE, -SCALE);
    assert_eq!(store.get_parameter(PARAM_AMPLITUDE), -1_000_000);
}

#[test]
fn unknown_index_is_ignored_and_reads_zero() {
    let mut store = ParameterStore::new();
    store.set_parameter(3, 777);
    store.set_parameter(-1, 777);
    assert_eq!(store.get_parameter(3), 0);
    assert_eq!(store.get_parameter(-1), 0);
    // The indexed controls were not touched.
    assert_eq!(store.get_parameter(PARAM_AMPLITUDE), 500_000);
    assert_eq!(store.get_parameter(PARAM_FEEDBACK), 300_000);
}

#[test]
fn direct_setters_reach_every_control() {
    let mut store = ParameterStore::new();
    store.set_amplitude(1);
    store.set_delay_time(2);
    store.set_wet(3);
    store.set_dry(4);
    store.set_feedback(5);
    let p = store.snapshot();
    assert_eq!((p.amplitude, p.delay_time, p.wet, p.dry, p.feedback), (1, 2, 3, 4, 5));
}

#[test]
fn parameter_names_match_the_surface() {
    assert_eq!(ParameterStore::parameter_name(PARAM_AMPLITUDE), "Amplitude");
    assert_eq!(ParameterStore::parameter_name(PARAM_FEEDBACK), "feedback");
    assert_eq!(ParameterStore::parameter_name(PARAM_DELAY_TIME), "Time");
    assert_eq!(ParameterStore::parameter_name(3), "");
    assert_eq!(ParameterStore::parameter_name(-2), "");
}

#[test]
fn fixed_point_product_is_truncated_toward_zero() {
    assert_eq!(mul_fixed(SCALE, SCALE), SCALE);
    assert_eq!(mul_fixed(-SCALE, SCALE), -SCALE);
    assert_eq!(mul_fixed(1, 1), 0);
    assert_eq!(mul_fixed(1_500_000, 1_000_001), 1_500_001);
    assert_eq!(mul_fixed(-3, 500_000), -1);
    assert_eq!(mul_fixed(3, -500_000), -1);
}

#[test]
fn fixed_point_arithmetic_saturates() {
    assert_eq!(mul_fixed(i32::MAX, i32::MAX), i32::MAX);
    assert_eq!(mul_fixed(i32::MAX, i32::MIN), i32::MIN);
    assert_eq!(mul_fixed(i32::MIN, i32::MIN), i32::MAX);
    assert_eq!(sat_add(i32::MAX, 1), i32::MAX);
    assert_eq!(sat_add(i32::MIN, -1), i32::MIN);
    assert_eq!(sat_add(1_000_000, -3_000_000), -2_000_000);
}
