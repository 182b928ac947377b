//! A registry of the times at which containers started, for callers that
//! record a start apart from the handle.

use crate::container::grace;
use crate::text::str_eq;
use vstd::prelude::*;
use vstd::string::StringExecFns;

verus! {

/// The start times that a run of registrations leaves: each identifier has
/// the time of its latest registration.
pub open spec fn start_times(entries: Seq<(String, u64)>) -> Map<Seq<char>, u64>
    decreases entries.len(),
{
    if entries.len() == 0 {
        Map::empty()
    } else {
        start_times(entries.drop_last()).insert(entries.last().0@, entries.last().1)
    }
}

/// Milliseconds to wait at `now` before the log of `container_id` is opened:
/// what is left of the grace period of a registered container, and nothing
/// for a container that is not registered.
pub open spec fn registered_grace(times: Map<Seq<char>, u64>, container_id: Seq<char>, now: u64) -> u64 {
    if times.contains_key(container_id) {
        grace(times[container_id], now)
    } else {
        0
    }
}

/// The start times of containers by identifier. An entry is never removed.
#[derive(Debug)]
pub struct StartRegistry {
    entries: Vec<(String, u64)>,
}

impl View for StartRegistry {
    type V = Map<Seq<char>, u64>;

    closed spec fn view(&self) -> Map<Seq<char>, u64> {
        start_times(self.entries@)
    }
}

impl StartRegistry {
    /// The registry without any container.
    pub fn new() -> (registry: StartRegistry)
        ensures
            registry@ == Map::<Seq<char>, u64>::empty(),
    {
        StartRegistry { entries: Vec::new() }
    }

    /// Records that the container `container_id` started at `now`, in
    /// milliseconds.
    pub fn register(&mut self, container_id: &str, now: u64)
        ensures
            final(self)@ == old(self)@.insert(container_id@, now),
    {
        self.entries.push((String::from_str(container_id), now));
        assert(self.entries@.drop_last() =~= old(self).entries@);
    }

    /// The time at which the container `container_id` started, if it is
    /// registered.
    pub fn started_at(&self, container_id: &str) -> (start: Option<u64>)
        ensures
            start == if self@.contains_key(container_id@) {
                Some(self@[container_id@])
            } else {
                None
            },
    {
        let mut at: usize = self.entries.len();
        assert(self.entries@.take(at as int) =~= self.entries@);
        while at > 0
            invariant
                at <= self.entries.len(),
                self@.contains_key(container_id@) == start_times(
                    self.entries@.take(at as int),
                ).contains_key(container_id@),
                self@.contains_key(container_id@) ==> self@[container_id@] == start_times(
                    self.entries@.take(at as int),
                )[container_id@],
            decreases at,
        {
            let ghost read = self.entries@.take(at as int);
            proof {
                assert(read.drop_last() =~= self.entries@.take(at - 1));
                assert(read.last() == self.entries@[at - 1]);
            }
            at -= 1;
            if str_eq(self.entries[at].0.as_str(), container_id) {
                return Some(self.entries[at].1);
            }
        }
        None
    }

    /// Milliseconds to wait at `now` before the log of `container_id` is
    /// opened.
    pub fn log_access_delay(&self, container_id: &str, now: u64) -> (delay: u64)
        ensures
            delay == registered_grace(self@, container_id@, now),
    {
        match self.started_at(container_id) {
            Some(start) => crate::container::wait_at_least_one_second_after_container_was_started(
                start,
                now,
            ),
            None => 0,
        }
    }
}

/// A registered container stays registered whatever is registered after it.
pub proof fn law_registered_stays(
    times: Map<Seq<char>, u64>,
    container_id: Seq<char>,
    other: Seq<char>,
    now: u64,
)
    requires
        times.contains_key(container_id),
    ensures
        times.insert(other, now).contains_key(container_id),
        other != container_id ==> times.insert(other, now)[container_id] == times[container_id],
{
}

} // verus!
