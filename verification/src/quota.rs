//! A tracker that warns as a value nears its limit.

use vstd::prelude::*;

verus! {

/// Whoever takes the tracker's messages.
pub trait Messager {
    fn send(&self, msg: &str);
}

/// How far a value has come towards its limit.
#[derive(Clone, Copy, Debug, PartialEq, Eq, Structural)]
pub enum QuotaLevel {
    /// Less than three quarters of the limit.
    Within,
    /// At least three quarters, less than nine tenths.
    Warning,
    /// At least nine tenths, less than the whole.
    Urgent,
    /// The limit is reached. With a limit of 0 every value but 0 is over it.
    Over,
}

/// The level of `value` against the limit `max`, by the exact ratio of the
/// two.
pub open spec fn quota_level(value: int, max: int) -> QuotaLevel {
    if max <= 0 {
        if value > 0 {
            QuotaLevel::Over
        } else {
            QuotaLevel::Within
        }
    } else if value >= max {
        QuotaLevel::Over
    } else if 10 * value >= 9 * max {
        QuotaLevel::Urgent
    } else if 4 * value >= 3 * max {
        QuotaLevel::Warning
    } else {
        QuotaLevel::Within
    }
}

/// The message that goes with a level; none while the value is within bounds.
pub open spec fn quota_message(level: QuotaLevel) -> Option<Seq<char>> {
    match level {
        QuotaLevel::Within => None,
        QuotaLevel::Warning => Some("Warning: You've used up over 75% of your quota!"@),
        QuotaLevel::Urgent => Some("Urgent warning: You've used up over 90% of your quota!"@),
        QuotaLevel::Over => Some("Error: You are over your quota!"@),
    }
}

impl QuotaLevel {
    /// The level of `value` against the limit `max`.
    pub fn of(value: usize, max: usize) -> (level: QuotaLevel)
        ensures
            level == quota_level(value as int, max as int),
    {
        if max == 0 {
            if value > 0 {
                QuotaLevel::Over
            } else {
                QuotaLevel::Within
            }
        } else if value >= max {
            QuotaLevel::Over
        } else if 10 * (value as u128) >= 9 * (max as u128) {
            QuotaLevel::Urgent
        } else if 4 * (value as u128) >= 3 * (max as u128) {
            QuotaLevel::Warning
        } else {
            QuotaLevel::Within
        }
    }

    /// The message that goes with this level.
    pub fn message(self) -> (msg: Option<&'static str>)
        ensures
            match msg {
                Some(text) => quota_message(self) == Some(text@),
                None => quota_message(self) is None,
            },
    {
        match self {
            QuotaLevel::Within => None,
            QuotaLevel::Warning => Some("Warning: You've used up over 75% of your quota!"),
            QuotaLevel::Urgent => Some("Urgent warning: You've used up over 90% of your quota!"),
            QuotaLevel::Over => Some("Error: You are over your quota!"),
        }
    }
}

/// Keeps a value and its limit, and tells a `Messager` when the value comes
/// near the limit or passes it.
pub struct LimitTracker<'a, T: Messager> {
    messager: &'a T,
    value: usize,
    max: usize,
    /// What has been handed to the messager, for contracts to speak of.
    sent: Ghost<Seq<Seq<char>>>,
}

impl<'a, T: Messager> LimitTracker<'a, T> {
    /// The value that was set last; 0 at first.
    pub closed spec fn value(&self) -> usize {
        self.value
    }

    /// The limit.
    pub closed spec fn max(&self) -> usize {
        self.max
    }

    /// The receiver of the messages.
    pub closed spec fn messager(&self) -> &'a T {
        self.messager
    }

    /// The messages that this tracker has handed to its messager, the
    /// latest last.
    pub closed spec fn sent(&self) -> Seq<Seq<char>> {
        self.sent@
    }

    /// A tracker with the limit `max` and the value 0, which has sent
    /// nothing yet.
    pub fn new(messager: &'a T, max: usize) -> (tracker: LimitTracker<'a, T>)
        ensures
            tracker.value() == 0,
            tracker.max() == max,
            tracker.messager() == messager,
            tracker.sent() == Seq::<Seq<char>>::empty(),
    {
        LimitTracker { messager, value: 0, max, sent: Ghost(Seq::empty()) }
    }

    /// The level of the value that was set last.
    pub fn level(&self) -> (level: QuotaLevel)
        ensures
            level == quota_level(self.value() as int, self.max() as int),
    {
        QuotaLevel::of(self.value, self.max)
    }

    /// Sets the value, and hands the messager the message of the value's
    /// level if that level has one: a single message, or none.
    pub fn set_value(&mut self, value: usize)
        ensures
            final(self).value() == value,
            final(self).max() == old(self).max(),
            final(self).messager() == old(self).messager(),
            final(self).sent() == match quota_message(
                quota_level(value as int, old(self).max() as int),
            ) {
                Some(text) => old(self).sent().push(text),
                None => old(self).sent(),
            },
    {
        self.value = value;
        match QuotaLevel::of(self.value, self.max).message() {
            Some(text) => {
                self.messager.send(text);
                self.sent = Ghost(self.sent@.push(text@));
            },
            None => {},
        }
    }
}

} // verus!
