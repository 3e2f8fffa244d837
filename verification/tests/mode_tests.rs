use walcraft::{Mode, WriteAccess};

#[test]
fn mode_exclusion() {
    // a replay may start only from idle
    assert_eq!(walcraft::read_transition(Mode::Idle), Some(Mode::Read));
    // while an iterator is live, another read is refused
    assert_eq!(walcraft::read_transition(Mode::Read), None);
    // writing during a replay is the fatal misuse
    assert!(matches!(
        walcraft::write_transition(Mode::Read),
        WriteAccess::Forbidden
    ));
    // writers may pile on while writing is on
    assert!(matches!(
        walcraft::write_transition(Mode::Write),
        WriteAccess::Proceed
    ));
    assert!(matches!(
        walcraft::write_transition(Mode::Idle),
        WriteAccess::Acquire
    ));
    // dropping the iterator re-enables reading
    let released = walcraft::read_release();
    assert_eq!(walcraft::read_transition(released), Some(Mode::Read));
}

#[test]
fn mode_bytes_round_trip() {
    assert_eq!(Mode::Idle.to_byte(), 0);
    assert_eq!(Mode::Read.to_byte(), 1);
    assert_eq!(Mode::Write.to_byte(), 2);
    assert_eq!(Mode::from_byte(1), Mode::Read);
    assert_eq!(Mode::from_byte(2), Mode::Write);
    assert_eq!(Mode::from_byte(0), Mode::Idle);
    assert_eq!(Mode::from_byte(77), Mode::Idle);
}
