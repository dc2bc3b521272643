//! Scenario tests for the alarm evaluator and the history model.

use alarm_server::alarm::{ack_event, Alarm, AlarmAck, AlarmSeverity, AlarmState, MeasDecision};
use alarm_server::history::History;

fn alarm_ax() -> Alarm {
    Alarm::new("a/x".to_string(), 1, 2, AlarmSeverity::High, "m1".to_string())
}

#[test]
fn simple_set() {
    // publishing the set value emits one set event with the configured fields
    let alm = alarm_ax();
    match alm.on_measurement(1) {
        MeasDecision::EmitSet(e) => {
            assert_eq!(e.name, "a/x");
            assert_eq!(e.state, AlarmState::Set_);
            assert_eq!(e.ack, AlarmAck::NotAck);
            assert_eq!(e.value, 1);
            assert_eq!(e.severity, AlarmSeverity::High);
        }
        _ => panic!("set value must emit a set event"),
    }
}

#[test]
fn set_then_reset() {
    // after a set, the reset value clears the alarm with no ack pending
    let alm = alarm_ax();
    let mut store = History::new();
    store.apply_set(&alm);
    match alm.on_measurement(2) {
        MeasDecision::ConsultStore => {}
        _ => panic!("reset value must consult the store"),
    }
    let e = store.apply_reset(&alm).expect("a set event was stored");
    assert_eq!(e.state, AlarmState::Reset);
    assert_eq!(e.ack, AlarmAck::None_);
    assert_eq!(e.value, 2);
    assert_eq!(e.severity, AlarmSeverity::High);
    assert_eq!(e.name, "a/x");
}

#[test]
fn no_spurious_reset() {
    // a freshly started engine with an empty store emits nothing on reset
    let alm = alarm_ax();
    let mut store = History::new();
    assert!(store.apply_reset(&alm).is_none());
    assert!(store.latest().is_none());
}

#[test]
fn other_values_ignored() {
    // a measurement equal to neither value produces no event and no change
    let alm = alarm_ax();
    match alm.on_measurement(99) {
        MeasDecision::Ignore => {}
        _ => panic!("99 matches neither value"),
    }
    match alm.on_measurement(42) {
        MeasDecision::Ignore => {}
        _ => panic!("42 matches neither value"),
    }
}

#[test]
fn ack_propagates_through_reset() {
    // an acknowledged set clears with ack, an unacknowledged one without
    let alm = alarm_ax();
    let mut store = History::new();
    store.apply_set(&alm);
    store.record_ack();
    let latest = store.latest().expect("store holds rows");
    assert_eq!(latest.state, AlarmState::Set_);
    assert_eq!(latest.ack, AlarmAck::Ack);
    let e = store.apply_reset(&alm).expect("an acknowledged set clears");
    assert_eq!(e.state, AlarmState::Reset);
    assert_eq!(e.ack, AlarmAck::Ack);
    // a second reset is suppressed: the latest row is already a reset
    assert!(store.apply_reset(&alm).is_none());
    // a new set round without acknowledgement clears with no ack pending
    store.apply_set(&alm);
    let e2 = store.apply_reset(&alm).expect("a set event was stored");
    assert_eq!(e2.ack, AlarmAck::None_);
}

#[test]
fn ack_event_is_synthetic() {
    // the ack dispatcher emits a synthetic unknown-state event
    let e = ack_event("a/x".to_string());
    assert_eq!(e.name, "a/x");
    assert_eq!(e.state, AlarmState::Unknown);
    assert_eq!(e.severity, AlarmSeverity::Unknown);
    assert_eq!(e.ack, AlarmAck::Ack);
    assert_eq!(e.value, i64::MAX);
}

#[test]
fn extreme_values_handled() {
    // set and reset at the ends of the 64-bit range work unchanged
    let alm = Alarm::new(
        "a/x".to_string(),
        i64::MIN,
        i64::MAX,
        AlarmSeverity::Low,
        "m1".to_string(),
    );
    let mut store = History::new();
    match alm.on_measurement(i64::MIN) {
        MeasDecision::EmitSet(e) => assert_eq!(e.value, i64::MIN),
        _ => panic!("the minimum value is the set value"),
    }
    store.apply_set(&alm);
    match alm.on_measurement(i64::MAX) {
        MeasDecision::ConsultStore => {}
        _ => panic!("the maximum value is the reset value"),
    }
    let e = store.apply_reset(&alm).expect("a set event was stored");
    assert_eq!(e.value, i64::MAX);
}

#[test]
fn evaluator_getters() {
    let alm = alarm_ax();
    assert_eq!(alm.get_meas(), "m1");
    assert_eq!(alm.get_path(), "a/x");
}
