use killswitch::verbosity::Verbosity;

#[test]
fn test_verbosity_from_count() {
    assert!(matches!(Verbosity::from(0), Verbosity::Normal));
    assert!(matches!(Verbosity::from(1), Verbosity::Verbose));
    assert!(matches!(Verbosity::from(2), Verbosity::Debug));
    assert!(matches!(Verbosity::from(3), Verbosity::Debug));
    assert!(matches!(Verbosity::from(10), Verbosity::Debug));
}

#[test]
fn test_verbosity_is_verbose() {
    assert!(!Verbosity::Normal.is_verbose());
    assert!(Verbosity::Verbose.is_verbose());
    assert!(Verbosity::Debug.is_verbose());
}

#[test]
fn test_verbosity_is_debug() {
    assert!(!Verbosity::Normal.is_debug());
    assert!(!Verbosity::Verbose.is_debug());
    assert!(Verbosity::Debug.is_debug());
}
