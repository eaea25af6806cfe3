use dan_consensus::epoch::Epoch;

#[test]
fn epoch_zero_is_zero() {
    assert!(Epoch::zero().is_zero());
    assert_eq!(Epoch::zero().as_u64(), 0);
    assert!(!Epoch(3).is_zero());
}

#[test]
fn epoch_le_bytes() {
    assert_eq!(Epoch(0x0102030405060708).to_le_bytes(), [8, 7, 6, 5, 4, 3, 2, 1]);
    assert_eq!(Epoch(1).to_le_bytes(), [1, 0, 0, 0, 0, 0, 0, 0]);
}

#[test]
fn epoch_saturating_sub() {
    assert_eq!(Epoch(10).saturating_sub(Epoch(3)), Epoch(7));
    assert_eq!(Epoch(3).saturating_sub(Epoch(10)), Epoch(0));
}

#[test]
fn epoch_checked_sub() {
    assert_eq!(Epoch(10).checked_sub(Epoch(10)), Some(Epoch(0)));
    assert_eq!(Epoch(3).checked_sub(Epoch(4)), None);
}

#[test]
fn epoch_from_and_compare() {
    assert_eq!(Epoch::from(42u64), Epoch(42));
    assert!(Epoch(42).eq_u64(42));
    assert!(!Epoch(42).eq_u64(41));
    assert!(Epoch(1) < Epoch(2));
}
