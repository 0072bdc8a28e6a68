use corekit::quota::{LimitTracker, Messager, QuotaLevel};
use std::cell::RefCell;

struct MockMessager {
    sent_messages: RefCell<Vec<String>>,
}

impl MockMessager {
    fn new() -> MockMessager {
        MockMessager { sent_messages: RefCell::new(vec![]) }
    }
}

impl Messager for MockMessager {
    fn send(&self, message: &str) {
        self.sent_messages.borrow_mut().push(String::from(message));
    }
}

#[test]
fn it_sends_an_over_75_percent_warning_message() {
    let mock_messager = MockMessager::new();
    let mut limit_tracker = LimitTracker::new(&mock_messager, 100);

    limit_tracker.set_value(80);

    assert_eq!(mock_messager.sent_messages.borrow().len(), 1);
}

#[test]
fn each_level_sends_its_own_message() {
    let mock = MockMessager::new();
    let mut tracker = LimitTracker::new(&mock, 100);
    tracker.set_value(74);
    assert_eq!(mock.sent_messages.borrow().len(), 0);
    tracker.set_value(75);
    tracker.set_value(89);
    tracker.set_value(90);
    tracker.set_value(99);
    tracker.set_value(100);
    tracker.set_value(250);
    assert_eq!(
        *mock.sent_messages.borrow(),
        vec![
            "Warning: You've used up over 75% of your quota!".to_string(),
            "Warning: You've used up over 75% of your quota!".to_string(),
            "Urgent warning: You've used up over 90% of your quota!".to_string(),
            "Urgent warning: You've used up over 90% of your quota!".to_string(),
            "Error: You are over your quota!".to_string(),
            "Error: You are over your quota!".to_string(),
        ]
    );
}

#[test]
fn levels_by_exact_ratio() {
    assert_eq!(QuotaLevel::of(0, 100), QuotaLevel::Within);
    assert_eq!(QuotaLevel::of(3, 4), QuotaLevel::Warning);
    assert_eq!(QuotaLevel::of(2, 3), QuotaLevel::Within);
    assert_eq!(QuotaLevel::of(9, 10), QuotaLevel::Urgent);
    assert_eq!(QuotaLevel::of(8, 9), QuotaLevel::Warning);
    assert_eq!(QuotaLevel::of(10, 10), QuotaLevel::Over);
    assert_eq!(QuotaLevel::of(usize::MAX, usize::MAX), QuotaLevel::Over);
    assert_eq!(QuotaLevel::of(usize::MAX - 1, usize::MAX), QuotaLevel::Urgent);
    assert_eq!(QuotaLevel::of(usize::MAX / 4 * 3, usize::MAX), QuotaLevel::Within);
}

#[test]
fn a_limit_of_zero() {
    assert_eq!(QuotaLevel::of(0, 0), QuotaLevel::Within);
    assert_eq!(QuotaLevel::of(1, 0), QuotaLevel::Over);
    let mock = MockMessager::new();
    let mut tracker = LimitTracker::new(&mock, 0);
    tracker.set_value(0);
    assert_eq!(mock.sent_messages.borrow().len(), 0);
    tracker.set_value(1);
    assert_eq!(*mock.sent_messages.borrow(), vec!["Error: You are over your quota!".to_string()]);
    assert_eq!(tracker.level(), QuotaLevel::Over);
    assert_eq!(QuotaLevel::Within.message(), None);
}
