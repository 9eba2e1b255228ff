use windowmaster::encoder::Step;
use windowmaster::report::{saturating_add_i8, Report};

#[test]
fn encoder_deltas_accumulate() {
    let mut r = Report::new();
    r.update_encoder(0, Step::Forward);
    r.update_encoder(0, Step::Forward);
    r.update_encoder(1, Step::Backward);
    r.update_encoder(2, Step::Idle);
    assert_eq!(r.encoders, [2, -1, 0, 0, 0, 0]);
}

#[test]
fn encoder_deltas_saturate() {
    let mut r = Report::new();
    r.encoders[3] = 127;
    r.update_encoder(3, Step::Forward);
    assert_eq!(r.encoders[3], 127);
    r.encoders[4] = -128;
    r.update_encoder(4, Step::Backward);
    assert_eq!(r.encoders[4], -128);
}

#[test]
fn saturating_add_bounds() {
    assert_eq!(saturating_add_i8(127, 1), 127);
    assert_eq!(saturating_add_i8(-128, -1), -128);
    assert_eq!(saturating_add_i8(100, -1), 99);
}

#[test]
fn buttons_are_levels_per_bit() {
    let mut r = Report::new();
    r.update_button(0, true);
    r.update_button(5, true);
    assert_eq!(r.buttons, 0b100001);
    r.update_button(0, false);
    assert_eq!(r.buttons, 0b100000);
}

#[test]
fn reset_zeroes_deltas_and_keeps_buttons() {
    let mut r = Report::new();
    r.update_encoder(0, Step::Forward);
    r.update_encoder(5, Step::Backward);
    r.update_button(2, true);
    r.apply_output(0b10);
    r.reset();
    assert_eq!(r.encoders, [0, 0, 0, 0, 0, 0]);
    assert_eq!(r.buttons, 0b100);
    assert_eq!(r.leds, 0b10);
}

#[test]
fn output_mask_drives_leds() {
    let mut r = Report::new();
    assert!(!r.is_led_on(1));
    r.apply_output(0b10);
    assert!(r.is_led_on(1));
    assert!(!r.is_led_on(0));
}

#[test]
fn input_bytes_layout() {
    let mut r = Report::new();
    r.update_encoder(0, Step::Backward);
    r.update_button(1, true);
    let bytes = r.input_bytes();
    assert_eq!(bytes, [0xff, 0, 0, 0, 0, 0, 0b10]);
}
