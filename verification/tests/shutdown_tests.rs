use quotelementa::shutdown::{ShutdownListener, ShutdownSignal, ShutdownStage};

#[test]
fn stages_escalate_with_each_signal() {
    let mut s = ShutdownSignal::new();
    assert_eq!(s.stage(), ShutdownStage::Running);
    s.signal();
    assert_eq!(s.stage(), ShutdownStage::Graceful);
    s.signal();
    assert_eq!(s.stage(), ShutdownStage::Forced);
    s.signal();
    assert_eq!(s.stage(), ShutdownStage::Forced);
}

#[test]
fn a_signal_is_seen_even_if_nobody_waited() {
    let mut s = ShutdownSignal::new();
    let mut l = ShutdownListener::new(&s);
    assert!(!l.has_changed(&s));
    s.signal();
    assert!(l.has_changed(&s));
    l.observe(&s);
    assert!(!l.has_changed(&s));
}

#[test]
fn signals_are_coalesced_not_duplicated() {
    let mut s = ShutdownSignal::new();
    let mut l = ShutdownListener::new(&s);
    s.signal();
    s.signal();
    // The reader learns only that something newer exists ...
    assert!(l.has_changed(&s));
    l.observe(&s);
    // ... and one observation catches it up with every send so far.
    assert!(!l.has_changed(&s));
}

#[test]
fn readers_are_independent() {
    let mut s = ShutdownSignal::new();
    let mut l1 = ShutdownListener::new(&s);
    let l2 = ShutdownListener::new(&s);
    s.signal();
    l1.observe(&s);
    assert!(!l1.has_changed(&s));
    assert!(l2.has_changed(&s));
}
