use windowmaster::encoder::{index, Encoder, Error, Quadrature, Step};

fn assert_polls(pin_a: &[bool], pin_b: &[bool], polls: &[Step]) {
    let mut encoder = Quadrature::new();
    for i in 0..polls.len() {
        assert_eq!(encoder.poll(pin_a[i], pin_b[i]).unwrap(), polls[i]);
    }
}

const LOW: bool = false;
const HIGH: bool = true;

#[test]
fn forward() {
    assert_polls(
        &[LOW, HIGH, HIGH, LOW, LOW],
        &[LOW, LOW, HIGH, HIGH, LOW],
        &[Step::Idle, Step::Forward, Step::Forward, Step::Forward, Step::Forward],
    );
}

#[test]
fn backward() {
    assert_polls(
        &[LOW, LOW, HIGH, HIGH, LOW],
        &[LOW, HIGH, HIGH, LOW, LOW],
        &[Step::Idle, Step::Backward, Step::Backward, Step::Backward, Step::Backward],
    );
}

#[test]
#[should_panic]
fn skipped() {
    assert_polls(
        &[LOW, HIGH],
        &[LOW, HIGH],
        &[Step::Idle, Step::Forward],
    );
}

#[test]
fn skipped_is_reported_and_recovered() {
    let mut encoder = Quadrature::new();
    assert_eq!(encoder.poll(false, false).unwrap(), Step::Idle);
    // a two-position jump from (L,L) to (H,H) is ambiguous
    assert_eq!(encoder.poll(true, true), Err(Error::Skipped));
    // the new index was stored anyway, so the next single step decodes
    assert_eq!(encoder.poll(false, true).unwrap(), Step::Forward);
}

#[test]
fn gray_code_indices() {
    assert_eq!(index(false, false), 0);
    assert_eq!(index(true, false), 1);
    assert_eq!(index(true, true), 2);
    assert_eq!(index(false, true), 3);
}

#[test]
fn step_values() {
    assert_eq!(Step::Idle.value(), 0);
    assert_eq!(Step::Backward.value(), -1);
    assert_eq!(Step::Forward.value(), 1);
}

#[test]
fn walk_sums_to_net_change() {
    // two detents forward, one back: the summed deltas come to +1
    let pin_a = [false, true, true, true];
    let pin_b = [false, false, true, false];
    let mut encoder = Quadrature::new();
    let mut total: i32 = 0;
    for i in 0..4 {
        total += encoder.poll(pin_a[i], pin_b[i]).unwrap().value() as i32;
    }
    assert_eq!(total, 1);
}

#[test]
fn disabled_encoder_never_steps() {
    let mut encoder = windowmaster::encoder::Disabled::new();
    assert_eq!(encoder.poll(true, false).unwrap(), Step::Idle);
    assert_eq!(encoder.poll(false, true).unwrap(), Step::Idle);
}
