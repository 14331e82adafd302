use csengo::cancel::CancelRegistry;

#[test]
fn cancel_signals_the_timer() {
    let mut reg = CancelRegistry::new();
    let mut rx = reg.create_cancel("s2".to_string());
    assert!(reg.contains("s2"));
    assert_eq!(reg.cancel("s2"), Ok(()));
    assert!(!reg.contains("s2"));
    assert!(rx.try_recv().is_ok());
}

#[test]
fn cancel_twice_is_a_no_op() {
    let mut reg = CancelRegistry::new();
    let _rx = reg.create_cancel("t".to_string());
    assert_eq!(reg.cancel("t"), Ok(()));
    assert_eq!(reg.cancel("t"), Ok(()));
    assert_eq!(reg.cancel("never"), Ok(()));
    assert!(!reg.contains("t"));
}

#[test]
fn cancel_to_a_stopped_timer_fails() {
    let mut reg = CancelRegistry::new();
    let rx = reg.create_cancel("gone".to_string());
    drop(rx);
    assert!(reg.cancel("gone").is_err());
}

#[test]
fn delete_cancel_takes_the_sender() {
    let mut reg = CancelRegistry::new();
    let _a = reg.create_cancel("a".to_string());
    let _b = reg.create_cancel("b".to_string());
    assert!(reg.delete_cancel("a").is_some());
    assert!(reg.delete_cancel("a").is_none());
    assert!(reg.contains("b"));
}

#[test]
fn create_cancel_replaces_an_existing_entry() {
    let mut reg = CancelRegistry::new();
    let old = reg.create_cancel("x".to_string());
    let mut new = reg.create_cancel("x".to_string());
    drop(old);
    assert_eq!(reg.cancel("x"), Ok(()));
    assert!(new.try_recv().is_ok());
    assert!(reg.delete_cancel("x").is_none());
}

#[test]
fn delete_cancel_returns_the_registered_sender() {
    let mut reg = CancelRegistry::new();
    let mut rx_a = reg.create_cancel("a".to_string());
    let mut rx_b = reg.create_cancel("b".to_string());
    let tx = reg.delete_cancel("a").unwrap();
    tx.send(()).unwrap();
    assert!(rx_a.try_recv().is_ok());
    assert!(rx_b.try_recv().is_err());
}

