use cw_beacon::cancel::CancellationFlag;
use cw_beacon::config::{validate, ValidationError, DEFAULT_CALLSIGN, DEFAULT_FREQ_HZ, MAX_FREQ_HZ, MIN_FREQ_HZ};
use cw_beacon::morse::{encode, render, Message, SignalElement};
use cw_beacon::scheduler::{Action, Mode, Phase, Scheduler, REPEAT_SILENCE_MS, TICK_MS};
use cw_beacon::timing::{cycle_steps, message_plan, Step, GAIN_OFF_DB, GAIN_ON_DB};

fn step(gain_db: i64, duration_ms: u64) -> Step {
    Step { gain_db, duration_ms }
}

fn plan_of(text: &str) -> Vec<Step> {
    message_plan(&Message::new(text))
}

#[test]
fn defaults_are_accepted() {
    assert_eq!(validate(DEFAULT_FREQ_HZ, DEFAULT_CALLSIGN), Ok(()));
}

#[test]
fn frequency_bounds_are_inclusive() {
    assert_eq!(validate(MIN_FREQ_HZ, "R"), Ok(()));
    assert_eq!(validate(MAX_FREQ_HZ, "R"), Ok(()));
    assert_eq!(validate(70_000_000, "R"), Ok(()));
    assert_eq!(validate(6_000_000_000, "R"), Ok(()));
}

#[test]
fn frequency_out_of_range_is_rejected() {
    assert_eq!(validate(69_999_999, "R"), Err(ValidationError::FrequencyOutOfRange));
    assert_eq!(validate(6_000_000_001, "R"), Err(ValidationError::FrequencyOutOfRange));
    assert_eq!(validate(-1, "R"), Err(ValidationError::FrequencyOutOfRange));
}

#[test]
fn frequency_is_checked_before_callsign() {
    assert_eq!(
        validate(1, "MUCHTOOLONGCALLSIGN"),
        Err(ValidationError::FrequencyOutOfRange)
    );
}

#[test]
fn callsign_length_bound() {
    assert_eq!(validate(DEFAULT_FREQ_HZ, "ABCDEFGHIJKL"), Ok(()));
    assert_eq!(
        validate(DEFAULT_FREQ_HZ, "ABCDEFGHIJKLM"),
        Err(ValidationError::CallsignTooLong)
    );
    assert_eq!(validate(DEFAULT_FREQ_HZ, ""), Ok(()));
}

#[test]
fn message_is_folded_to_upper_case() {
    assert_eq!(Message::new("raem").as_bytes(), b"RAEM");
}

#[test]
fn message_drops_non_ascii() {
    assert_eq!(Message::new("r\u{e9}a").as_bytes(), b"RA");
}

#[test]
fn message_is_bounded() {
    let long = "E".repeat(100);
    assert_eq!(Message::new(&long).as_bytes().len(), 64);
}

#[test]
fn letter_a_encodes_to_dot_gap_dash() {
    let encoded = encode(&Message::new("A"));
    assert_eq!(encoded.len(), 1);
    let entry = encoded.entry(0);
    assert_eq!(
        &entry[..4],
        &[
            SignalElement::KeyDown(1),
            SignalElement::KeyUp(1),
            SignalElement::KeyDown(3),
            SignalElement::KeyUp(3)
        ]
    );
    assert!(entry[4..].iter().all(|x| *x == SignalElement::Placeholder));
}

#[test]
fn letter_a_plan_and_actions() {
    let plan = plan_of("A");
    assert_eq!(
        plan,
        vec![
            step(GAIN_ON_DB, 50),
            step(GAIN_OFF_DB, 50),
            step(GAIN_ON_DB, 150),
            step(GAIN_OFF_DB, 150)
        ]
    );
    assert_eq!(GAIN_ON_DB, -10);
    assert_eq!(GAIN_OFF_DB, -40);
    let mut s = Scheduler::new(Mode::Modulated, plan);
    assert_eq!(s.next_action(false), Action::Key(step(-10, 50)));
    assert_eq!(s.next_action(false), Action::Key(step(-40, 50)));
    assert_eq!(s.next_action(false), Action::Key(step(-10, 150)));
    assert_eq!(s.next_action(false), Action::Key(step(-40, 150)));
    assert_eq!(s.next_action(false), Action::Wait(900));
    assert_eq!(s.next_action(false), Action::Key(step(-10, 50)));
}

#[test]
fn unsupported_character_becomes_placeholder() {
    let encoded = encode(&Message::new("E!E"));
    assert_eq!(encoded.len(), 3);
    assert_eq!(encoded.entry(1), &[SignalElement::Placeholder]);
    assert_eq!(plan_of("E!E"), plan_of("EE"));
}

#[test]
fn word_space_is_seven_units() {
    let plan = plan_of("E E");
    assert_eq!(
        plan,
        vec![
            step(GAIN_ON_DB, 50),
            step(GAIN_OFF_DB, 150),
            step(GAIN_OFF_DB, 350),
            step(GAIN_ON_DB, 50),
            step(GAIN_OFF_DB, 150)
        ]
    );
}

#[test]
fn render_sos() {
    let encoded = encode(&Message::new("sos"));
    assert_eq!(render(&encoded), b"... --- ... ".to_vec());
}

#[test]
fn render_word_gap_and_skips_placeholders() {
    let encoded = encode(&Message::new("E !T"));
    assert_eq!(render(&encoded), b". / - ".to_vec());
}

#[test]
fn empty_message_has_empty_plan() {
    let encoded = encode(&Message::new(""));
    assert_eq!(encoded.len(), 0);
    assert!(cycle_steps(&encoded).is_empty());
    assert!(render(&encoded).is_empty());
}

#[test]
fn carrier_only_waits_then_powers_down_once() {
    let mut s = Scheduler::new(Mode::CarrierOnly, plan_of("A"));
    assert_eq!(s.phase(), Phase::Idle);
    for _ in 0..5 {
        assert_eq!(s.next_action(false), Action::Wait(TICK_MS));
        assert_eq!(s.phase(), Phase::Transmitting);
    }
    assert_eq!(TICK_MS, 20);
    assert_eq!(s.next_action(true), Action::PowerDown);
    assert_eq!(s.phase(), Phase::Draining);
    assert_eq!(s.next_action(true), Action::Exit(0));
    assert_eq!(s.phase(), Phase::Stopped);
    assert_eq!(s.next_action(true), Action::Exit(0));
}

#[test]
fn passes_repeat_identically() {
    let mut s = Scheduler::new(Mode::Modulated, plan_of("RAEM"));
    let n = plan_of("RAEM").len() + 1;
    let first: Vec<Action> = (0..n).map(|_| s.next_action(false)).collect();
    let second: Vec<Action> = (0..n).map(|_| s.next_action(false)).collect();
    assert_eq!(first, second);
    assert_eq!(first[n - 1], Action::Wait(REPEAT_SILENCE_MS));
    assert_eq!(plan_of("RAEM"), plan_of("raem"));
}

#[test]
fn stop_in_modulated_mode_waits_for_end_of_pass() {
    let mut s = Scheduler::new(Mode::Modulated, plan_of("A"));
    assert_eq!(s.next_action(false), Action::Key(step(-10, 50)));
    assert_eq!(s.next_action(true), Action::Key(step(-40, 50)));
    assert_eq!(s.next_action(true), Action::Key(step(-10, 150)));
    assert_eq!(s.next_action(true), Action::Key(step(-40, 150)));
    assert_eq!(s.next_action(true), Action::Wait(900));
    assert_eq!(s.next_action(true), Action::PowerDown);
    assert_eq!(s.next_action(true), Action::Exit(0));
}

#[test]
fn stop_at_start_powers_down_at_once() {
    let mut s = Scheduler::new(Mode::Modulated, plan_of("A"));
    assert_eq!(s.next_action(true), Action::PowerDown);
    assert_eq!(s.next_action(false), Action::Exit(0));
}

#[test]
fn write_failure_skips_power_down() {
    let mut s = Scheduler::new(Mode::Modulated, plan_of("A"));
    assert_eq!(s.next_action(false), Action::Key(step(-10, 50)));
    assert_eq!(s.write_failed(), 1);
    assert_eq!(s.phase(), Phase::Stopped);
    assert_eq!(s.exit_code(), 1);
    assert_eq!(s.next_action(true), Action::Exit(1));
    assert_eq!(s.next_action(false), Action::Exit(1));
}

#[test]
fn cancellation_flag_is_shared_between_handles() {
    let stop = CancellationFlag::new();
    assert!(!stop.is_requested());
    let trigger = stop.handle();
    assert!(!trigger.is_requested());
    trigger.request();
    assert!(stop.is_requested());
    assert!(trigger.is_requested());
}

#[test]
fn poll_reads_the_flag() {
    let stop = CancellationFlag::new();
    let mut s = Scheduler::new(Mode::CarrierOnly, Vec::new());
    assert_eq!(s.poll(&stop), Action::Wait(20));
    assert_eq!(s.poll(&stop), Action::Wait(20));
    stop.handle().request();
    assert_eq!(s.poll(&stop), Action::PowerDown);
    assert_eq!(s.poll(&stop), Action::Exit(0));
}
