//! The log watcher: waiting for a message in a stream of lines, every read
//! bounded by what is left of a deadline.

use crate::errors::{WaitError, WaitFault};
use crate::text::{chars_contain, chars_of, contains};
use vstd::prelude::*;

verus! {

/// What one bounded read of the line source gave.
#[derive(Debug, Clone, PartialEq, Eq)]
pub enum ReadEvent {
    /// A line arrived, `elapsed` milliseconds after the read began.
    Line { text: String, elapsed: u64 },
    /// The source closed.
    Closed,
    /// The read was given up when its bound had passed.
    TimedOut,
    /// The transport failed, with this cause.
    Failed(String),
}

/// Mathematical model of a [`ReadEvent`].
pub enum Reading {
    Line { text: Seq<char>, elapsed: nat },
    Closed,
    TimedOut,
    Failed(Seq<char>),
}

impl View for ReadEvent {
    type V = Reading;

    open spec fn view(&self) -> Reading {
        match self {
            ReadEvent::Line { text, elapsed } => Reading::Line {
                text: text@,
                elapsed: *elapsed as nat,
            },
            ReadEvent::Closed => Reading::Closed,
            ReadEvent::TimedOut => Reading::TimedOut,
            ReadEvent::Failed(cause) => Reading::Failed(cause@),
        }
    }
}

/// Mathematical model of a watch in progress.
pub struct Watch {
    /// The message that is looked for.
    pub marker: Seq<char>,
    /// Milliseconds left of the deadline.
    pub remaining: nat,
    /// Lines compared with the marker so far.
    pub compared: nat,
}

/// Mathematical model of a [`WatchStep`].
pub enum Step {
    /// Nothing is decided: read on, in this state.
    Continue(Watch),
    /// The watch is over.
    Done { outcome: Result<(), WaitFault>, compared: nat },
}

/// The line count after one more comparison; it stops at the largest value
/// that the counter can hold.
pub open spec fn counted(compared: nat) -> nat {
    if compared < u64::MAX {
        compared + 1
    } else {
        compared
    }
}

/// A watch that has just begun.
pub open spec fn fresh(marker: Seq<char>, deadline: nat) -> Watch {
    Watch { marker, remaining: deadline, compared: 0 }
}

/// What the watcher decides on one read.
///
/// A line that took longer than what was left of the deadline expires the
/// watch whatever it holds. A line in time that contains the marker ends the
/// watch with success. Any other line is counted and its time is taken off
/// the deadline.
pub open spec fn observe_spec(watch: Watch, event: Reading) -> Step {
    match event {
        Reading::Line { text, elapsed } => if elapsed > watch.remaining {
            Step::Done { outcome: Err(WaitFault::WaitDurationExpired), compared: watch.compared }
        } else if contains(text, watch.marker) {
            Step::Done { outcome: Ok(()), compared: counted(watch.compared) }
        } else {
            Step::Continue(
                Watch {
                    marker: watch.marker,
                    remaining: (watch.remaining - elapsed) as nat,
                    compared: counted(watch.compared),
                },
            )
        },
        Reading::Closed => Step::Done {
            outcome: Err(WaitFault::EndOfStream),
            compared: watch.compared,
        },
        Reading::TimedOut => Step::Done {
            outcome: Err(WaitFault::WaitDurationExpired),
            compared: watch.compared,
        },
        Reading::Failed(cause) => Step::Done {
            outcome: Err(WaitFault::Io(cause)),
            compared: watch.compared,
        },
    }
}

/// What the watcher decides on a run of reads, handed over in order: the
/// first read that decides ends the watch, and later reads are not looked at.
pub open spec fn run_spec(watch: Watch, events: Seq<Reading>) -> Step
    decreases events.len(),
{
    if events.len() == 0 {
        Step::Continue(watch)
    } else {
        match observe_spec(watch, events[0]) {
            Step::Continue(next) => run_spec(next, events.drop_first()),
            done => done,
        }
    }
}

/// The models of a run of reads.
pub open spec fn readings(events: Seq<ReadEvent>) -> Seq<Reading> {
    events.map_values(|e: ReadEvent| e@)
}

/// A watch in progress: the message, what is left of the deadline, and how
/// many lines were compared.
#[derive(Debug, PartialEq, Eq)]
pub struct LogWatch {
    marker: Vec<char>,
    remaining: u64,
    compared: u64,
}

impl View for LogWatch {
    type V = Watch;

    closed spec fn view(&self) -> Watch {
        Watch {
            marker: self.marker@,
            remaining: self.remaining as nat,
            compared: self.compared as nat,
        }
    }
}

/// The result of handing one read to a [`LogWatch`].
#[derive(Debug, PartialEq, Eq)]
pub enum WatchStep {
    /// Nothing is decided: read on, in this state.
    Continue(LogWatch),
    /// The watch is over, after `compared` lines were compared.
    Done { outcome: Result<(), WaitError>, compared: u64 },
}

/// Mathematical model of the result of a wait.
pub open spec fn outcome_view(outcome: Result<(), WaitError>) -> Result<(), WaitFault> {
    match outcome {
        Ok(_) => Ok(()),
        Err(e) => Err(e@),
    }
}

impl View for WatchStep {
    type V = Step;

    open spec fn view(&self) -> Step {
        match self {
            WatchStep::Continue(watch) => Step::Continue(watch@),
            WatchStep::Done { outcome, compared } => Step::Done {
                outcome: outcome_view(*outcome),
                compared: *compared as nat,
            },
        }
    }
}

impl LogWatch {
    /// Begins a watch for `marker` with `deadline` milliseconds to go.
    pub fn new(marker: &str, deadline: u64) -> (watch: LogWatch)
        ensures
            watch@ == fresh(marker@, deadline as nat),
    {
        LogWatch { marker: chars_of(marker), remaining: deadline, compared: 0 }
    }

    /// The bound, in milliseconds, that the next read must be given.
    pub fn timeout(&self) -> (bound: u64)
        ensures
            bound == self@.remaining,
    {
        self.remaining
    }

    /// How many lines were compared with the marker so far.
    pub fn compared(&self) -> (count: u64)
        ensures
            count == self@.compared,
    {
        self.compared
    }

    /// Hands the watch what one read gave, and says how the watch goes on.
    pub fn observe(self, event: &ReadEvent) -> (step: WatchStep)
        ensures
            step@ == observe_spec(self@, event@),
    {
        match event {
            ReadEvent::Line { text, elapsed } => {
                let elapsed: u64 = *elapsed;
                if elapsed > self.remaining {
                    return WatchStep::Done {
                        outcome: Err(WaitError::WaitDurationExpired),
                        compared: self.compared,
                    };
                }
                let compared: u64 = if self.compared < u64::MAX {
                    self.compared + 1
                } else {
                    self.compared
                };
                let line = chars_of(text.as_str());
                if chars_contain(&line, &self.marker) {
                    WatchStep::Done { outcome: Ok(()), compared }
                } else {
                    WatchStep::Continue(
                        LogWatch {
                            marker: self.marker,
                            remaining: self.remaining - elapsed,
                            compared,
                        },
                    )
                }
            },
            ReadEvent::Closed => WatchStep::Done {
                outcome: Err(WaitError::EndOfStream),
                compared: self.compared,
            },
            ReadEvent::TimedOut => WatchStep::Done {
                outcome: Err(WaitError::WaitDurationExpired),
                compared: self.compared,
            },
            ReadEvent::Failed(cause) => WatchStep::Done {
                outcome: Err(WaitError::Io(cause.clone())),
                compared: self.compared,
            },
        }
    }

    /// Hands the watch a run of reads in order, up to the first that decides.
    pub fn run(self, events: &Vec<ReadEvent>) -> (step: WatchStep)
        ensures
            step@ == run_spec(self@, readings(events@)),
    {
        let ghost all = readings(events@);
        let ghost begin = self@;
        let mut watch = self;
        let mut at: usize = 0;
        assert(all.skip(0) =~= all);
        while at < events.len()
            invariant
                at <= events.len(),
                begin == self@,
                all == readings(events@),
                run_spec(begin, all) == run_spec(watch@, all.skip(at as int)),
            decreases events.len() - at,
        {
            let ghost before = watch@;
            let ghost rest = all.skip(at as int);
            proof {
                assert(rest[0] == events@[at as int]@);
                assert(rest.drop_first() =~= all.skip(at + 1));
                assert(run_spec(before, rest) == match observe_spec(before, rest[0]) {
                    Step::Continue(next) => run_spec(next, rest.drop_first()),
                    done => done,
                });
            }
            let step = watch.observe(&events[at]);
            match step {
                WatchStep::Continue(next) => {
                    watch = next;
                },
                WatchStep::Done { outcome, compared } => {
                    return WatchStep::Done { outcome, compared };
                },
            }
            at += 1;
        }
        assert(all.skip(at as int).len() == 0);
        WatchStep::Continue(watch)
    }
}

/// Some line of `lines` contains `marker`.
pub open spec fn some_line_contains(lines: Seq<String>, marker: Seq<char>) -> bool {
    exists|i: int| 0 <= i < lines.len() && contains(#[trigger] lines[i]@, marker)
}

/// The waiting protocol on a line source that was read to its end.
pub struct WaitForMessage;

impl WaitForMessage {
    /// Looks for `message` in `lines`, which hold all that the source gave
    /// before it closed. The wait succeeds when a line contains the message,
    /// and meets the end of the stream when none does.
    pub fn wait_for_message(lines: &Vec<String>, message: &str) -> (outcome: Result<
        (),
        WaitError,
    >)
        ensures
            outcome is Ok <==> some_line_contains(lines@, message@),
            outcome is Err ==> outcome_view(outcome) == Err::<(), WaitFault>(
                WaitFault::EndOfStream,
            ),
    {
        let marker = chars_of(message);
        let mut at: usize = 0;
        while at < lines.len()
            invariant
                at <= lines.len(),
                marker@ == message@,
                forall|i: int| 0 <= i < at ==> !contains(#[trigger] lines@[i]@, message@),
            decreases lines.len() - at,
        {
            let line = chars_of(lines[at].as_str());
            if chars_contain(&line, &marker) {
                return Ok(());
            }
            at += 1;
        }
        Err(WaitError::EndOfStream)
    }
}

/// What a step decides, if it decides.
pub open spec fn decided(step: Step) -> Option<Result<(), WaitFault>> {
    match step {
        Step::Continue(_) => None,
        Step::Done { outcome, .. } => Some(outcome),
    }
}

/// What one read decides for a watch with `remaining` milliseconds to go.
pub open spec fn verdict(marker: Seq<char>, remaining: nat, event: Reading) -> Option<
    Result<(), WaitFault>,
> {
    decided(observe_spec(Watch { marker, remaining, compared: 0 }, event))
}

/// Milliseconds that a read counts against the deadline.
pub open spec fn read_time(event: Reading) -> nat {
    match event {
        Reading::Line { elapsed, .. } => elapsed,
        _ => 0,
    }
}

/// Milliseconds that the first `n` reads count against the deadline.
pub open spec fn spent(events: Seq<Reading>, n: int) -> nat
    decreases n,
{
    if n <= 0 {
        0
    } else {
        spent(events, n - 1) + read_time(events[n - 1])
    }
}

/// The first `n` reads gave lines without the marker, and together they took
/// no longer than the deadline.
pub open spec fn quiet(marker: Seq<char>, deadline: nat, events: Seq<Reading>, n: int) -> bool {
    &&& 0 <= n <= events.len()
    &&& forall|j: int|
        0 <= j < n ==> (#[trigger] events[j]) is Line && !contains(events[j]->text, marker)
    &&& spent(events, n) <= deadline
}

/// Read `i` is the first that decides, and it decides `outcome`.
pub open spec fn decided_at(
    marker: Seq<char>,
    deadline: nat,
    events: Seq<Reading>,
    i: int,
    outcome: Result<(), WaitFault>,
) -> bool {
    &&& 0 <= i < events.len()
    &&& quiet(marker, deadline, events, i)
    &&& verdict(marker, (deadline - spent(events, i)) as nat, events[i]) == Some(outcome)
}

proof fn lemma_spent_monotone(events: Seq<Reading>, a: int, b: int)
    requires
        a <= b,
    ensures
        spent(events, a) <= spent(events, b),
    decreases b - a,
{
    if a < b {
        lemma_spent_monotone(events, a, b - 1);
        if b <= 0 {
            assert(spent(events, b) == 0 && spent(events, b - 1) == 0);
        }
    }
}

proof fn lemma_spent_shift(events: Seq<Reading>, n: int)
    requires
        1 <= n <= events.len(),
    ensures
        spent(events, n) == read_time(events[0]) + spent(events.drop_first(), n - 1),
    decreases n,
{
    if n == 1 {
        assert(spent(events, 0) == 0);
        assert(spent(events.drop_first(), 0) == 0);
    } else {
        lemma_spent_shift(events, n - 1);
        assert(events.drop_first()[n - 2] == events[n - 1]);
    }
}

/// A quiet first read and a quiet run after it make a quiet run.
proof fn lemma_quiet_shift(marker: Seq<char>, deadline: nat, events: Seq<Reading>, n: int)
    requires
        events.len() > 0,
        events[0] is Line,
        !contains(events[0]->text, marker),
        read_time(events[0]) <= deadline,
        quiet(marker, (deadline - read_time(events[0])) as nat, events.drop_first(), n),
    ensures
        quiet(marker, deadline, events, n + 1),
        spent(events, n + 1) == read_time(events[0]) + spent(events.drop_first(), n),
{
    let rest = events.drop_first();
    lemma_spent_shift(events, n + 1);
    assert forall|j: int| 0 <= j < n + 1 implies (#[trigger] events[j]) is Line && !contains(
        events[j]->text,
        marker,
    ) by {
        if j > 0 {
            assert(rest[j - 1] == events[j]);
        }
    }
}

/// What a run of reads comes to, said of the reads themselves.
proof fn lemma_run(watch: Watch, events: Seq<Reading>)
    ensures
        match run_spec(watch, events) {
            Step::Continue(after) => {
                &&& quiet(watch.marker, watch.remaining, events, events.len() as int)
                &&& after.marker == watch.marker
                &&& after.remaining == watch.remaining - spent(events, events.len() as int)
            },
            Step::Done { outcome, .. } => exists|i: int|
                decided_at(watch.marker, watch.remaining, events, i, outcome),
        },
    decreases events.len(),
{
    let marker = watch.marker;
    let deadline = watch.remaining;
    if events.len() == 0 {
        assert(spent(events, 0) == 0);
    } else {
        let rest = events.drop_first();
        assert(spent(events, 0) == 0);
        match observe_spec(watch, events[0]) {
            Step::Continue(next) => {
                lemma_run(next, rest);
                match run_spec(next, rest) {
                    Step::Continue(after) => {
                        lemma_quiet_shift(marker, deadline, events, rest.len() as int);
                    },
                    Step::Done { outcome, .. } => {
                        let i = choose|i: int|
                            decided_at(next.marker, next.remaining, rest, i, outcome);
                        lemma_quiet_shift(marker, deadline, events, i);
                        assert(rest[i] == events[i + 1]);
                        assert(decided_at(marker, deadline, events, i + 1, outcome));
                    },
                }
            },
            Step::Done { outcome, .. } => {
                assert(decided_at(marker, deadline, events, 0, outcome));
            },
        }
    }
}

/// At most one read is the first that decides.
proof fn lemma_decided_once(
    marker: Seq<char>,
    deadline: nat,
    events: Seq<Reading>,
    i: int,
    first: Result<(), WaitFault>,
    j: int,
    second: Result<(), WaitFault>,
)
    requires
        decided_at(marker, deadline, events, i, first),
        decided_at(marker, deadline, events, j, second),
    ensures
        i == j,
        first == second,
{
    if i < j {
        lemma_undecided_before(marker, deadline, events, i, j);
    } else if j < i {
        lemma_undecided_before(marker, deadline, events, j, i);
    }
}

/// No read before the end of a quiet run decides.
proof fn lemma_undecided_before(
    marker: Seq<char>,
    deadline: nat,
    events: Seq<Reading>,
    i: int,
    n: int,
)
    requires
        0 <= i < n,
        quiet(marker, deadline, events, n),
    ensures
        verdict(marker, (deadline - spent(events, i)) as nat, events[i]) is None,
{
    lemma_spent_monotone(events, i + 1, n);
    assert(events[i] is Line);
    assert(spent(events, i + 1) == spent(events, i) + read_time(events[i]));
}

/// A watch comes to an outcome exactly when some read is the first that
/// decides and decides that outcome.
pub proof fn law_first_decision(
    marker: Seq<char>,
    deadline: nat,
    events: Seq<Reading>,
    outcome: Result<(), WaitFault>,
)
    ensures
        decided(run_spec(fresh(marker, deadline), events)) == Some(outcome) <==> exists|i: int|
            decided_at(marker, deadline, events, i, outcome),
{
    let start = fresh(marker, deadline);
    lemma_run(start, events);
    if exists|i: int| decided_at(marker, deadline, events, i, outcome) {
        let i = choose|i: int| decided_at(marker, deadline, events, i, outcome);
        match run_spec(start, events) {
            Step::Continue(_) => {
                lemma_undecided_before(marker, deadline, events, i, events.len() as int);
            },
            Step::Done { outcome: other, .. } => {
                let j = choose|j: int| decided_at(marker, deadline, events, j, other);
                lemma_decided_once(marker, deadline, events, i, outcome, j, other);
            },
        }
    }
}

/// Read `i` gives, within the deadline, a line with the marker, after reads
/// that gave only lines without it.
pub open spec fn succeeds_at(marker: Seq<char>, deadline: nat, events: Seq<Reading>, i: int) -> bool {
    &&& 0 <= i < events.len()
    &&& quiet(marker, deadline, events, i)
    &&& events[i] is Line
    &&& spent(events, i + 1) <= deadline
    &&& contains(events[i]->text, marker)
}

/// Read `i` finds the source closed, after reads that gave only lines
/// without the marker.
pub open spec fn closes_at(marker: Seq<char>, deadline: nat, events: Seq<Reading>, i: int) -> bool {
    &&& 0 <= i < events.len()
    &&& quiet(marker, deadline, events, i)
    &&& events[i] is Closed
}

/// Read `i` takes longer than what is left of the deadline, after reads that
/// gave only lines without the marker: it is given up, or its line comes late.
pub open spec fn expires_at(marker: Seq<char>, deadline: nat, events: Seq<Reading>, i: int) -> bool {
    &&& 0 <= i < events.len()
    &&& quiet(marker, deadline, events, i)
    &&& (events[i] is TimedOut || (events[i] is Line && spent(events, i + 1) > deadline))
}

/// Read `i` fails with `cause`, after reads that gave only lines without the
/// marker.
pub open spec fn fails_at(
    marker: Seq<char>,
    deadline: nat,
    events: Seq<Reading>,
    i: int,
    cause: Seq<char>,
) -> bool {
    &&& 0 <= i < events.len()
    &&& quiet(marker, deadline, events, i)
    &&& events[i] == Reading::Failed(cause)
}

/// A wait succeeds exactly when some line, read before the deadline has
/// passed, contains the marker.
pub proof fn law_wait_succeeds(marker: Seq<char>, deadline: nat, events: Seq<Reading>)
    ensures
        decided(run_spec(fresh(marker, deadline), events)) == Some(Ok::<(), WaitFault>(()))
            <==> exists|i: int| succeeds_at(marker, deadline, events, i),
{
    let ok = Ok::<(), WaitFault>(());
    law_first_decision(marker, deadline, events, ok);
    if exists|i: int| decided_at(marker, deadline, events, i, ok) {
        let i = choose|i: int| decided_at(marker, deadline, events, i, ok);
        assert(spent(events, i + 1) == spent(events, i) + read_time(events[i]));
        assert(succeeds_at(marker, deadline, events, i));
    }
    if exists|i: int| succeeds_at(marker, deadline, events, i) {
        let i = choose|i: int| succeeds_at(marker, deadline, events, i);
        assert(spent(events, i + 1) == spent(events, i) + read_time(events[i]));
        assert(decided_at(marker, deadline, events, i, ok));
    }
}

/// A wait fails with the end of the stream exactly when the source closes
/// before any line matched.
pub proof fn law_wait_meets_end_of_stream(marker: Seq<char>, deadline: nat, events: Seq<Reading>)
    ensures
        decided(run_spec(fresh(marker, deadline), events)) == Some(
            Err::<(), WaitFault>(WaitFault::EndOfStream),
        ) <==> exists|i: int| closes_at(marker, deadline, events, i),
{
    let end = Err::<(), WaitFault>(WaitFault::EndOfStream);
    law_first_decision(marker, deadline, events, end);
    if exists|i: int| decided_at(marker, deadline, events, i, end) {
        let i = choose|i: int| decided_at(marker, deadline, events, i, end);
        assert(closes_at(marker, deadline, events, i));
    }
    if exists|i: int| closes_at(marker, deadline, events, i) {
        let i = choose|i: int| closes_at(marker, deadline, events, i);
        assert(decided_at(marker, deadline, events, i, end));
    }
}

/// A wait fails with an expired deadline exactly when a single read takes
/// longer than what is left of the deadline.
pub proof fn law_wait_expires(marker: Seq<char>, deadline: nat, events: Seq<Reading>)
    ensures
        decided(run_spec(fresh(marker, deadline), events)) == Some(
            Err::<(), WaitFault>(WaitFault::WaitDurationExpired),
        ) <==> exists|i: int| expires_at(marker, deadline, events, i),
{
    let late = Err::<(), WaitFault>(WaitFault::WaitDurationExpired);
    law_first_decision(marker, deadline, events, late);
    if exists|i: int| decided_at(marker, deadline, events, i, late) {
        let i = choose|i: int| decided_at(marker, deadline, events, i, late);
        assert(spent(events, i + 1) == spent(events, i) + read_time(events[i]));
        assert(expires_at(marker, deadline, events, i));
    }
    if exists|i: int| expires_at(marker, deadline, events, i) {
        let i = choose|i: int| expires_at(marker, deadline, events, i);
        assert(spent(events, i + 1) == spent(events, i) + read_time(events[i]));
        assert(decided_at(marker, deadline, events, i, late));
    }
}

/// A wait fails with a transport fault exactly when a read fails with that
/// cause before any line matched.
pub proof fn law_wait_reports_fault(
    marker: Seq<char>,
    deadline: nat,
    events: Seq<Reading>,
    cause: Seq<char>,
)
    ensures
        decided(run_spec(fresh(marker, deadline), events)) == Some(
            Err::<(), WaitFault>(WaitFault::Io(cause)),
        ) <==> exists|i: int| fails_at(marker, deadline, events, i, cause),
{
    let fault = Err::<(), WaitFault>(WaitFault::Io(cause));
    law_first_decision(marker, deadline, events, fault);
    if exists|i: int| decided_at(marker, deadline, events, i, fault) {
        let i = choose|i: int| decided_at(marker, deadline, events, i, fault);
        assert(fails_at(marker, deadline, events, i, cause));
    }
    if exists|i: int| fails_at(marker, deadline, events, i, cause) {
        let i = choose|i: int| fails_at(marker, deadline, events, i, cause);
        assert(decided_at(marker, deadline, events, i, fault));
    }
}

/// A watch is still undecided after a run of reads exactly when all of them
/// gave lines without the marker, within the deadline.
pub proof fn law_wait_goes_on(marker: Seq<char>, deadline: nat, events: Seq<Reading>)
    ensures
        decided(run_spec(fresh(marker, deadline), events)) is None <==> quiet(
            marker,
            deadline,
            events,
            events.len() as int,
        ),
{
    let start = fresh(marker, deadline);
    lemma_run(start, events);
    match run_spec(start, events) {
        Step::Continue(_) => {},
        Step::Done { outcome, .. } => {
            let i = choose|i: int| decided_at(marker, deadline, events, i, outcome);
            if quiet(marker, deadline, events, events.len() as int) {
                lemma_undecided_before(marker, deadline, events, i, events.len() as int);
            }
        },
    }
}

} // verus!
