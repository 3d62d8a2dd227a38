use std::sync::{Arc, Mutex};

use rusty_framework::ivy::Signal as NamedSignal;
use rusty_framework::state::Signal;

#[test]
fn named_signal_reads_back_what_was_set() {
    let s = NamedSignal::use_state("count".to_string(), 1u32);
    assert_eq!(s.id(), "count");
    assert_eq!(s.get(), 1);
    s.set(5);
    assert_eq!(s.get(), 5);
}

#[test]
fn named_signal_clones_share_the_value() {
    let s = NamedSignal::use_state("name".to_string(), String::new());
    let t = s.clone();
    assert_eq!(t.id(), "name");
    t.set("Rory".to_string());
    assert_eq!(s.get(), "Rory");
    s.set("Ada".to_string());
    assert_eq!(t.get(), "Ada");
}

#[test]
fn state_signal_get_and_set() {
    let s = Signal::new(3i64);
    assert_eq!(s.get(), 3);
    s.set(-4);
    assert_eq!(s.get(), -4);
    let u = Signal::use_state("x".to_string());
    assert_eq!(u.get(), "x");
}

#[test]
fn subscribers_run_in_order_after_each_set() {
    let s = Signal::new(0u8);
    let log: Arc<Mutex<Vec<&'static str>>> = Arc::new(Mutex::new(Vec::new()));
    let a = log.clone();
    s.subscribe(move || a.lock().unwrap().push("first"));
    let b = log.clone();
    s.subscribe(move || b.lock().unwrap().push("second"));
    assert!(log.lock().unwrap().is_empty());
    s.set(1);
    assert_eq!(*log.lock().unwrap(), vec!["first", "second"]);
    s.set(2);
    assert_eq!(*log.lock().unwrap(), vec!["first", "second", "first", "second"]);
    assert_eq!(s.get(), 2);
}

#[test]
fn set_without_subscribers_only_stores() {
    let s = Signal::new(vec![1, 2]);
    s.set(vec![]);
    assert!(s.get().is_empty());
}

#[test]
fn state_signal_debug_text() {
    let s = Signal::new(3u8);
    assert_eq!(s.debug_text(), "Signal { value: 3 }");
    s.set(7);
    assert_eq!(s.debug_text(), "Signal { value: 7 }");
    let t = Signal::new("hi".to_string());
    assert_eq!(t.debug_text(), "Signal { value: \"hi\" }");
}
