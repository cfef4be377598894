use readiness_bridge::registry::{Registry, POLL_INTERVAL_MILLIS};
use std::cell::{Cell, RefCell};
use std::sync::{Arc, Mutex};
use std::task::{Wake, Waker};

struct CountingWaker {
    wakes: Mutex<usize>,
}

impl CountingWaker {
    fn count(&self) -> usize {
        *self.wakes.lock().unwrap()
    }
}

impl Wake for CountingWaker {
    fn wake(self: Arc<Self>) {
        *self.wakes.lock().unwrap() += 1;
    }
}

#[test]
fn new_registry_is_empty() {
    let registry: Registry<u32, u32> = Registry::new();
    assert_eq!(registry.len(), 0);
}

#[test]
fn register_appends_one_pair_per_call() {
    let mut registry: Registry<u32, &str> = Registry::new();
    registry.register(7, "a");
    assert_eq!(registry.len(), 1);
    registry.register(8, "b");
    registry.register(9, "c");
    assert_eq!(registry.len(), 3);
}

#[test]
fn poll_all_on_empty_registry_wakes_nobody() {
    let mut registry: Registry<u32, u32> = Registry::new();
    let calls = Cell::new(0);
    let woken = registry.poll_all(|_| {
        calls.set(calls.get() + 1);
        true
    });
    assert!(woken.is_empty());
    assert_eq!(calls.get(), 0);
    assert_eq!(registry.len(), 0);
}

#[test]
fn poll_all_removes_ready_and_keeps_the_rest_in_order() {
    let mut registry: Registry<u32, &str> = Registry::new();
    registry.register(1, "one");
    registry.register(2, "two");
    registry.register(3, "three");
    registry.register(4, "four");
    registry.register(5, "five");

    let woken = registry.poll_all(|token| *token % 2 == 1);
    assert_eq!(woken, vec!["one", "three", "five"]);
    assert_eq!(registry.len(), 2);

    // What stayed is 2 then 4, in that order.
    let seen = RefCell::new(Vec::new());
    let woken = registry.poll_all(|token| {
        seen.borrow_mut().push(*token);
        true
    });
    assert_eq!(seen.into_inner(), vec![2, 4]);
    assert_eq!(woken, vec!["two", "four"]);
    assert_eq!(registry.len(), 0);
}

#[test]
fn poll_all_asks_each_token_exactly_once_in_order() {
    let mut registry: Registry<u32, u32> = Registry::new();
    for token in 0..6 {
        registry.register(token, token + 100);
    }
    let asked = RefCell::new(Vec::new());
    let woken = registry.poll_all(|token| {
        asked.borrow_mut().push(*token);
        *token == 0 || *token == 1 || *token == 4
    });
    assert_eq!(asked.into_inner(), vec![0, 1, 2, 3, 4, 5]);
    assert_eq!(woken, vec![100, 101, 104]);
    assert_eq!(registry.len(), 3);
}

#[test]
fn nothing_ready_leaves_everything_pending() {
    let mut registry: Registry<u32, u32> = Registry::new();
    registry.register(1, 10);
    registry.register(2, 20);
    let woken = registry.poll_all(|_| false);
    assert!(woken.is_empty());
    assert_eq!(registry.len(), 2);
}

#[test]
fn same_token_registered_twice_holds_both_pairs() {
    let mut registry: Registry<u32, &str> = Registry::new();
    registry.register(5, "first");
    registry.register(5, "second");
    assert_eq!(registry.len(), 2);
    let woken = registry.poll_all(|token| *token == 5);
    assert_eq!(woken, vec!["first", "second"]);
    assert_eq!(registry.len(), 0);
}

#[test]
fn waiter_is_woken_exactly_once_per_registration() {
    let counter = Arc::new(CountingWaker { wakes: Mutex::new(0) });
    let mut registry: Registry<u32, Waker> = Registry::new();
    registry.register(1, Waker::from(counter.clone()));

    // Not ready yet: nobody is woken.
    for waker in registry.poll_all(|_| false) {
        waker.wake();
    }
    assert_eq!(counter.count(), 0);
    assert_eq!(registry.len(), 1);

    // Found ready: removed and woken once.
    for waker in registry.poll_all(|_| true) {
        waker.wake();
    }
    assert_eq!(counter.count(), 1);
    assert_eq!(registry.len(), 0);

    // Later scans find nothing of it: no second wake without a new registration.
    for waker in registry.poll_all(|_| true) {
        waker.wake();
    }
    assert_eq!(counter.count(), 1);

    // A fresh registration gives a fresh wake.
    registry.register(1, Waker::from(counter.clone()));
    for waker in registry.poll_all(|_| true) {
        waker.wake();
    }
    assert_eq!(counter.count(), 2);
}

#[test]
fn wake_may_register_again_after_the_scan() {
    let mut registry: Registry<u32, u32> = Registry::new();
    registry.register(1, 10);
    registry.register(2, 20);
    let woken = registry.poll_all(|token| *token == 1);
    // The waiters come back only after the scan is over, so waking one may
    // register again at once.
    for waiter in woken {
        registry.register(1, waiter + 1);
    }
    assert_eq!(registry.len(), 2);
    let woken = registry.poll_all(|_| true);
    assert_eq!(woken, vec![20, 11]);
}

#[test]
fn poll_interval_is_ten_milliseconds() {
    assert_eq!(POLL_INTERVAL_MILLIS, 10);
}
