use lightsail::mode::{feedback_step, Feedback, Mode};

#[test]
fn modes_are_read_from_their_names() {
    assert_eq!(Mode::from_name("delay"), Mode::Delay);
    assert_eq!(Mode::from_name("lubin"), Mode::Lubin);
    assert_eq!(Mode::from_name("plain"), Mode::Plain);
    assert_eq!(Mode::from_name(""), Mode::Plain);
    assert_eq!(Mode::from_name("Delay"), Mode::Plain);
}

#[test]
fn only_delay_mode_has_feedback() {
    assert!(Mode::Delay.feedback_active());
    assert!(!Mode::Lubin.feedback_active());
    assert!(!Mode::Plain.feedback_active());
    assert!(Mode::Lubin.rescales_pressure());
    assert!(!Mode::Delay.rescales_pressure());
}

#[test]
fn feedback_waits_for_the_first_record() {
    assert_eq!(feedback_step(Mode::Delay, true, true), Feedback::Hold);
    assert_eq!(feedback_step(Mode::Delay, false, true), Feedback::Propagate);
}

#[test]
fn undefined_retarded_pressure_falls_back_to_unit_pressure() {
    assert_eq!(feedback_step(Mode::Delay, false, false), Feedback::UnitPressure);
}

#[test]
fn other_modes_hold_the_pressure() {
    assert_eq!(feedback_step(Mode::Lubin, false, false), Feedback::Hold);
    assert_eq!(feedback_step(Mode::Plain, false, true), Feedback::Hold);
}
