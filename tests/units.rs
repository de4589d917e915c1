use demus::units::{cents_tuning, semitone_tuning};

#[test]
fn tuning_splits_positive_values() {
    assert_eq!(semitone_tuning(300), 1);
    assert_eq!(cents_tuning(300), 17);
    assert_eq!(semitone_tuning(512), 2);
    assert_eq!(cents_tuning(512), 0);
    assert_eq!(cents_tuning(128), 50);
}

#[test]
fn tuning_rounds_toward_zero() {
    assert_eq!(semitone_tuning(-300), -1);
    assert_eq!(cents_tuning(-300), -17);
    assert_eq!(semitone_tuning(-255), 0);
    assert_eq!(cents_tuning(-255), -99);
}

#[test]
fn tuning_extremes() {
    assert_eq!(semitone_tuning(i32::MIN), -8388608);
    assert_eq!(cents_tuning(i32::MIN), 0);
    assert_eq!(semitone_tuning(i32::MAX), 8388607);
    assert_eq!(cents_tuning(i32::MAX), 99);
}
