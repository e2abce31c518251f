//! The focus tracker: what it remembers between polls, and what each poll
//! and the shutdown make of it.
//!
//! The tracker does no waiting and asks no clock. Whoever drives it hands
//! it what a poll saw, the day and the instant, and carries out the accrual
//! that comes back. Instants are milliseconds on a clock that does not run
//! backwards; accruals are whole seconds, counted from the instant at which
//! the focus began and never summed up poll by poll.
//!
//! An interval is not split at midnight. All of it goes to the day on which
//! the switch that ends it is seen, so a focus held across midnight counts
//! for the new day.

use crate::duration::{append_decimal, decimal};
use crate::ledger::{capped, total_of, upserted, Totals};
use crate::match_title::{identity_of, normalize, WindowObservation};
use crate::order::Key;
use vstd::prelude::*;
use vstd::string::*;

verus! {

/// One usage record: the time spent on one identity on one day.
#[derive(Debug, Clone, PartialEq, Eq)]
pub struct Usage {
    pub date: String,
    pub window_name: String,
    pub usage_time_secs: u64,
}

/// A usage record as plain values.
pub struct Accrual {
    pub date: Seq<char>,
    pub identity: Seq<char>,
    pub secs: u64,
}

impl View for Usage {
    type V = Accrual;

    open spec fn view(&self) -> Accrual {
        Accrual { date: self.date@, identity: self.window_name@, secs: self.usage_time_secs }
    }
}

/// The seconds of a stored record: zero where the duration could not be
/// read.
pub open spec fn stored_secs(duration: Option<u64>) -> u64 {
    match duration {
        Some(secs) => secs,
        None => 0,
    }
}

impl Usage {
    /// The key under which the ledger holds this record.
    pub open spec fn key(&self) -> Key {
        (self.date@, self.window_name@)
    }

    /// A record as it comes out of a store. A duration that could not be
    /// read makes a record of zero seconds: the key is kept, and the load
    /// goes on.
    pub fn from_stored(date: String, window_name: String, duration: Option<u64>) -> (record: Usage)
        ensures
            record.date == date,
            record.window_name == window_name,
            record.usage_time_secs == stored_secs(duration),
    {
        let usage_time_secs: u64 = match duration {
            Some(secs) => secs,
            None => 0,
        };
        Usage { date, window_name, usage_time_secs }
    }
}

/// The line that shows `record` where the records are listed.
pub fn record_line(record: &Usage) -> (line: String)
    ensures
        line@ == "Date: "@ + record.date@ + ", App: "@ + record.window_name@ + ", Total Usage: "@
            + decimal(record.usage_time_secs as nat) + "s"@,
{
    let mut line = String::from_str("Date: ");
    line.append(record.date.as_str());
    line.append(", App: ");
    line.append(record.window_name.as_str());
    line.append(", Total Usage: ");
    append_decimal(&mut line, record.usage_time_secs);
    line.append("s");
    line
}

/// What the tracker remembers between polls.
///
/// `last_identity` is the day and the identity that the focus was last seen
/// on, `None` while the tracker is idle. `last_switch_instant` is the instant
/// at which that focus began.
#[derive(Debug, Clone, PartialEq, Eq)]
pub struct TrackerState {
    pub last_identity: Option<(String, String)>,
    pub last_switch_instant: u64,
}

/// The tracker's memory as plain values.
pub struct Focus {
    pub last_identity: Option<Key>,
    pub last_switch_instant: u64,
}

impl View for TrackerState {
    type V = Focus;

    open spec fn view(&self) -> Focus {
        Focus {
            last_identity: match self.last_identity {
                Some(key) => Some((key.0@, key.1@)),
                None => None,
            },
            last_switch_instant: self.last_switch_instant,
        }
    }
}

/// The whole seconds from `since` to `now`: zero where `now` is the earlier.
pub open spec fn elapsed_secs(since: u64, now: u64) -> u64 {
    if now >= since {
        ((now - since) / 1000) as u64
    } else {
        0
    }
}

/// The accrual that ends the focus held in `state`, at instant `now` on day
/// `date`: the whole interval goes to the day on which it ends.
pub open spec fn closing(state: Focus, date: Seq<char>, now: u64) -> Option<Accrual> {
    match state.last_identity {
        Some(previous) => Some(
            Accrual {
                date,
                identity: previous.1,
                secs: elapsed_secs(state.last_switch_instant, now),
            },
        ),
        None => None,
    }
}

/// What a poll that saw `identity` makes of `state`.
///
/// The empty identity, and the day and identity that are already in focus,
/// change nothing. Anything else is a switch: the focus moves, the interval
/// starts anew at `now`, and the focus that ends is accrued.
pub open spec fn focused(state: Focus, date: Seq<char>, identity: Seq<char>, now: u64) -> (
    Focus,
    Option<Accrual>,
) {
    if identity.len() == 0 || state.last_identity == Some((date, identity)) {
        (state, None)
    } else {
        (
            Focus { last_identity: Some((date, identity)), last_switch_instant: now },
            closing(state, date, now),
        )
    }
}

/// What a poll makes of `state`: `window` holds the title and the class of
/// the focused window, or nothing where no window was seen.
pub open spec fn observed(
    state: Focus,
    window: Option<(Seq<char>, Seq<char>)>,
    date: Seq<char>,
    now: u64,
) -> (Focus, Option<Accrual>) {
    match window {
        Some(texts) => focused(state, date, identity_of(texts.0, texts.1), now),
        None => (state, None),
    }
}

/// What the shutdown makes of `state`: the focus that was held is accrued,
/// and the tracker is idle.
pub open spec fn shut_down(state: Focus, date: Seq<char>, now: u64) -> (Focus, Option<Accrual>) {
    (
        Focus { last_identity: None, last_switch_instant: state.last_switch_instant },
        closing(state, date, now),
    )
}

/// The accrual in `usage` as plain values.
pub open spec fn accrual_of(usage: Option<Usage>) -> Option<Accrual> {
    match usage {
        Some(record) => Some(record@),
        None => None,
    }
}

/// The title and the class of `window` as plain values.
pub open spec fn texts_of(window: Option<&WindowObservation>) -> Option<(Seq<char>, Seq<char>)> {
    match window {
        Some(seen) => Some((seen.title@, seen.class@)),
        None => None,
    }
}

/// The whole seconds from `since` to `now`.
pub fn elapsed(since: u64, now: u64) -> (secs: u64)
    ensures
        secs == elapsed_secs(since, now),
{
    if now >= since {
        (now - since) / 1000
    } else {
        0
    }
}

impl TrackerState {
    /// An idle tracker, started at instant `now`.
    pub fn new(now: u64) -> (state: TrackerState)
        ensures
            state@ == (Focus { last_identity: None, last_switch_instant: now }),
    {
        TrackerState { last_identity: None, last_switch_instant: now }
    }

    /// Whether the focus is on `identity` on day `date`.
    fn holds(&self, date: &String, identity: &String) -> (held: bool)
        ensures
            held == (self@.last_identity == Some((date@, identity@))),
    {
        match &self.last_identity {
            Some(key) => key.0 == *date && key.1 == *identity,
            None => false,
        }
    }

    /// Ends the focus that is held, if any, and starts the one given.
    fn switch(&mut self, next: Option<(String, String)>, date: String, now: u64) -> (accrual:
        Option<Usage>)
        ensures
            final(self).last_identity == next,
            final(self).last_switch_instant == old(self).last_switch_instant,
            accrual_of(accrual) == closing(old(self)@, date@, now),
    {
        let mut previous = next;
        std::mem::swap(&mut self.last_identity, &mut previous);
        match previous {
            Some(key) => Some(
                Usage {
                    date,
                    window_name: key.1,
                    usage_time_secs: elapsed(self.last_switch_instant, now),
                },
            ),
            None => None,
        }
    }

    /// Takes in a poll that saw a window of the given identity, on day
    /// `date` at instant `now`, and hands out the accrual to commit, if the
    /// focus has changed.
    pub fn focus(&mut self, identity: String, date: &str, now: u64) -> (accrual: Option<Usage>)
        ensures
            (final(self)@, accrual_of(accrual)) == focused(old(self)@, date@, identity@, now),
    {
        let day = String::from_str(date);
        if identity.as_str().is_empty() || self.holds(&day, &identity) {
            return None;
        }
        let accrual = self.switch(Some((day.clone(), identity)), day, now);
        self.last_switch_instant = now;
        accrual
    }

    /// Takes in one poll, on day `date` at instant `now`: `window` is the
    /// focused window, or nothing where the poll saw none. Hands out the
    /// accrual to commit, if the focus has changed.
    ///
    /// A poll that saw no window changes nothing and accrues nothing.
    pub fn observe(&mut self, window: Option<&WindowObservation>, date: &str, now: u64) -> (accrual:
        Option<Usage>)
        ensures
            (final(self)@, accrual_of(accrual)) == observed(
                old(self)@,
                texts_of(window),
                date@,
                now,
            ),
            window is None ==> *final(self) == *old(self) && accrual is None,
    {
        match window {
            Some(seen) => {
                let identity = normalize(seen.title.as_str(), seen.class.as_str());
                self.focus(identity, date, now)
            },
            None => None,
        }
    }

    /// Ends the tracking, on day `date` at instant `now`: hands out the
    /// accrual of the focus that was held, and leaves the tracker idle.
    pub fn shutdown(&mut self, date: &str, now: u64) -> (accrual: Option<Usage>)
        ensures
            (final(self)@, accrual_of(accrual)) == shut_down(old(self)@, date@, now),
    {
        self.switch(None, String::from_str(date), now)
    }
}

/// Switch detection. From an idle tracker, two polls that see one window
/// and a third that sees another give one accrual, at the third poll: it
/// credits the first identity with the whole time since the first poll, not
/// since the second.
pub proof fn lemma_switch_detection(
    start: Focus,
    first: (Seq<char>, Seq<char>),
    second: (Seq<char>, Seq<char>),
    date: Seq<char>,
    later_date: Seq<char>,
    t0: u64,
    t1: u64,
    t2: u64,
)
    requires
        start.last_identity is None,
        identity_of(first.0, first.1).len() > 0,
        identity_of(second.0, second.1).len() > 0,
        (later_date, identity_of(second.0, second.1)) != (date, identity_of(first.0, first.1)),
    ensures
        ({
            let one = observed(start, Some(first), date, t0);
            let two = observed(one.0, Some(first), date, t1);
            let three = observed(two.0, Some(second), later_date, t2);
            &&& one.1 is None
            &&& two.1 is None
            &&& two.0 == one.0
            &&& three.1 == Some(
                Accrual {
                    date: later_date,
                    identity: identity_of(first.0, first.1),
                    secs: elapsed_secs(t0, t2),
                },
            )
            &&& three.0 == (Focus {
                last_identity: Some((later_date, identity_of(second.0, second.1))),
                last_switch_instant: t2,
            })
        }),
{
}

/// Final flush. A shutdown while an identity is in focus hands out one
/// accrual for it, with the whole seconds since its focus began, and leaves
/// the tracker idle. Once that accrual is in the ledger, the total under its
/// key has grown by exactly those seconds, short of the stop at `u64::MAX`.
pub proof fn lemma_final_flush(state: Focus, date: Seq<char>, now: u64, ledger: Totals)
    requires
        state.last_identity is Some,
    ensures
        ({
            let held: Key = state.last_identity->Some_0;
            let identity = held.1;
            let delta = elapsed_secs(state.last_switch_instant, now);
            let end = shut_down(state, date, now);
            &&& end.0.last_identity is None
            &&& end.1 == Some(Accrual { date, identity, secs: delta })
            &&& total_of(upserted(ledger, (date, identity), delta as nat), (date, identity))
                == capped(total_of(ledger, (date, identity)) + delta as nat)
        }),
{
}

/// A poll that saw no window leaves the focus and the start of its interval
/// as they were, and accrues nothing.
pub proof fn lemma_no_observation(state: Focus, date: Seq<char>, now: u64)
    ensures
        observed(state, None, date, now) == (state, None::<Accrual>),
{
}

} // verus!
