//! The container handle: how a container becomes ready, what may be asked of
//! it while it is, and how it is torn down exactly once.

use crate::commands::{logs_arguments, logs_words, rm_arguments, rm_words, stop_arguments, stop_words};
use crate::docker_parse::{project, ContainerInfo};
use crate::errors::{ParseError, WaitError};
use crate::image::{Image, Readiness, StreamType, WaitFor};
use crate::text::{str_eq, strings_view};
use crate::wait_for_message::{fresh, LogWatch};
use vstd::prelude::*;

verus! {

/// Milliseconds that must lie between a container's start and the first
/// access to its log.
pub const GRACE_MILLIS: u64 = 1000;

/// The milliseconds of a deadline given in seconds; a deadline too long to
/// count is the longest that can be counted.
pub open spec fn deadline_millis(seconds: u64) -> u64 {
    if seconds * 1000 > u64::MAX {
        u64::MAX
    } else {
        (seconds * 1000) as u64
    }
}

/// Milliseconds still to wait at `now` before the log of a container that
/// started at `start_time` may be opened. A clock that went back counts as
/// no time passed.
pub open spec fn grace(start_time: u64, now: u64) -> u64 {
    let passed = if now >= start_time {
        now - start_time
    } else {
        0
    };
    if passed < GRACE_MILLIS {
        (GRACE_MILLIS - passed) as u64
    } else {
        0
    }
}

/// Milliseconds still to wait at `now` before the log of a container that
/// started at `start_time` may be opened: what is left of the grace period.
pub fn wait_at_least_one_second_after_container_was_started(start_time: u64, now: u64) -> (delay:
    u64)
    ensures
        delay == grace(start_time, now),
{
    let passed: u64 = if now >= start_time {
        now - start_time
    } else {
        0
    };
    if passed < GRACE_MILLIS {
        GRACE_MILLIS - passed
    } else {
        0
    }
}

/// Where a handle stands in its life.
#[derive(Debug, PartialEq, Eq, Clone, Copy, Structural)]
pub enum Phase {
    /// The container is ready for use.
    Ready,
    /// The container was stopped and is kept.
    Stopped,
    /// The container was removed.
    Removed,
}

/// The phase after a disposal: a ready container is stopped when containers
/// are kept and removed when they are not; a container that was disposed of
/// stays as it is.
pub open spec fn after_disposal(phase: Phase, keep: bool) -> Phase {
    match phase {
        Phase::Ready => if keep {
            Phase::Stopped
        } else {
            Phase::Removed
        },
        other => other,
    }
}

/// The words that a disposal has the engine started with: those of a stop or
/// of a forced removal for a ready container, none for one that was disposed
/// of.
pub open spec fn teardown_words(container_id: Seq<char>, phase: Phase, keep: bool) -> Option<
    Seq<Seq<char>>,
> {
    match phase {
        Phase::Ready => Some(
            if keep {
                stop_words(container_id)
            } else {
                rm_words(container_id)
            },
        ),
        _ => None,
    }
}

/// How many of a run of disposals, each with its own setting, issue a
/// teardown.
pub open spec fn teardowns(phase: Phase, keeps: Seq<bool>) -> nat
    decreases keeps.len(),
{
    if keeps.len() == 0 {
        0
    } else {
        let issued: nat = if phase == Phase::Ready {
            1
        } else {
            0
        };
        issued + teardowns(after_disposal(phase, keeps[0]), keeps.drop_first())
    }
}

/// A container that was disposed of issues no teardown, however often it is
/// disposed of again.
pub proof fn law_disposed_stays_disposed(phase: Phase, keeps: Seq<bool>)
    requires
        phase != Phase::Ready,
    ensures
        teardowns(phase, keeps) == 0,
    decreases keeps.len(),
{
    if keeps.len() > 0 {
        law_disposed_stays_disposed(phase, keeps.drop_first());
    }
}

/// A ready container issues exactly one teardown, however often it is
/// disposed of, and it is the first disposal that issues it.
pub proof fn law_teardown_once(container_id: Seq<char>, keeps: Seq<bool>)
    requires
        keeps.len() > 0,
    ensures
        teardowns(Phase::Ready, keeps) == 1,
        teardown_words(container_id, Phase::Ready, keeps[0]) is Some,
        forall|again: bool|
            teardown_words(
                container_id,
                after_disposal(Phase::Ready, keeps[0]),
                again,
            ) is None,
{
    law_disposed_stays_disposed(after_disposal(Phase::Ready, keeps[0]), keeps.drop_first());
}

/// Whether containers are kept after use, as the setting says: they are only
/// when it is set to the word `true`.
pub open spec fn keeps(setting: Option<Seq<char>>) -> bool {
    setting == Some("true"@)
}

/// Reads the setting that says whether containers are kept after use.
pub fn keep_containers(setting: Option<&str>) -> (keep: bool)
    ensures
        keep == keeps(optional_str_view(setting)),
{
    match setting {
        Some(text) => str_eq(text, "true"),
        None => false,
    }
}

/// The model of a setting that may be missing.
pub open spec fn optional_str_view(setting: Option<&str>) -> Option<Seq<char>> {
    match setting {
        Some(text) => Some(text@),
        None => None,
    }
}

/// The streams to tail in the background: those that were asked for,
/// standard output first.
pub open spec fn tailed(stdout: bool, stderr: bool) -> Seq<StreamType> {
    if stdout && stderr {
        seq![StreamType::StdOut, StreamType::StdErr]
    } else if stdout {
        seq![StreamType::StdOut]
    } else if stderr {
        seq![StreamType::StdErr]
    } else {
        Seq::empty()
    }
}

/// A handle to a container that is ready, or was ready before it was
/// disposed of.
#[derive(Debug)]
pub struct DockerContainer<I: Image> {
    id: String,
    start_time: u64,
    image: I,
    phase: Phase,
}

/// A container that has its identifier and is waited for: its log is to be
/// watched for a message before it counts as ready.
#[derive(Debug)]
pub struct WaitingReady<I: Image> {
    id: String,
    start_time: u64,
    image: I,
    message: String,
    stream_type: StreamType,
    wait_duration: u64,
}

/// What a container is right after it got its identifier.
#[derive(Debug)]
pub enum Startup<I: Image> {
    /// Nothing is waited for: the container is ready.
    Ready(DockerContainer<I>),
    /// The container's log is to be watched first.
    Waiting(WaitingReady<I>),
}

impl<I: Image> WaitingReady<I> {
    /// The container's identifier.
    pub closed spec fn id_view(&self) -> Seq<char> {
        self.id@
    }

    /// The time at which the container got its identifier.
    pub closed spec fn start_time_view(&self) -> u64 {
        self.start_time
    }

    /// The image that the container was made from.
    pub closed spec fn image_view(&self) -> I {
        self.image
    }

    /// What is waited for.
    pub closed spec fn readiness(&self) -> Readiness {
        Readiness::LogMessage {
            message: self.message@,
            stream_type: self.stream_type,
            wait_duration: self.wait_duration,
        }
    }

    /// The stream of the log that is to be watched.
    pub fn stream_type(&self) -> (stream: StreamType)
        ensures
            self.readiness() matches Readiness::LogMessage { stream_type, .. } && stream
                == stream_type,
    {
        self.stream_type
    }

    /// The arguments that the engine is started with to open the log.
    pub fn logs_arguments(&self) -> (arguments: Vec<String>)
        ensures
            strings_view(arguments@) == logs_words(self.id_view()),
    {
        logs_arguments(self.id.as_str())
    }

    /// Milliseconds to wait at `now` before the log is opened.
    pub fn delay(&self, now: u64) -> (delay: u64)
        ensures
            delay == grace(self.start_time_view(), now),
    {
        wait_at_least_one_second_after_container_was_started(self.start_time, now)
    }

    /// The watch that the log is to be handed to, line by line: for the
    /// message that is waited for, with the whole deadline to go.
    pub fn watch(&self) -> (watch: LogWatch)
        ensures
            self.readiness() matches Readiness::LogMessage { message, wait_duration, .. }
                && watch@ == fresh(message, deadline_millis(wait_duration) as nat),
    {
        let deadline: u64 = match self.wait_duration.checked_mul(1000) {
            Some(millis) => millis,
            None => u64::MAX,
        };
        LogWatch::new(self.message.as_str(), deadline)
    }

    /// Ends the wait with what the watch came to: a handle to the ready
    /// container when the message was found, and else the watch's error.
    pub fn conclude(self, outcome: Result<(), WaitError>) -> (handle: Result<
        DockerContainer<I>,
        WaitError,
    >)
        ensures
            match outcome {
                Ok(_) => handle is Ok && handle->Ok_0@ == (Handle {
                    id: self.id_view(),
                    start_time: self.start_time_view(),
                    phase: Phase::Ready,
                }) && handle->Ok_0.image_view() == self.image_view(),
                Err(e) => handle is Err && handle->Err_0 == e,
            },
    {
        match outcome {
            Ok(_) => Ok(
                DockerContainer {
                    id: self.id,
                    start_time: self.start_time,
                    image: self.image,
                    phase: Phase::Ready,
                },
            ),
            Err(e) => Err(e),
        }
    }
}

/// Mathematical model of a [`DockerContainer`], but for its image.
pub struct Handle {
    /// The identifier that the engine gave.
    pub id: Seq<char>,
    /// The time at which the container got its identifier, in milliseconds.
    pub start_time: u64,
    /// Where the handle stands in its life.
    pub phase: Phase,
}

impl<I: Image> View for DockerContainer<I> {
    type V = Handle;

    closed spec fn view(&self) -> Handle {
        Handle { id: self.id@, start_time: self.start_time, phase: self.phase }
    }
}

impl<I: Image> DockerContainer<I> {
    /// The image that the container was made from.
    pub closed spec fn image_view(&self) -> I {
        self.image
    }

    /// Takes up a container that the engine has just given the identifier
    /// `id`, at the time `now` in milliseconds. Without an identifier there
    /// is no container. An image that waits for nothing gives a ready
    /// container at once, with no log to be opened; any other gives a
    /// container that is waited for.
    pub fn new(id: String, image: I, now: u64) -> (startup: Option<Startup<I>>)
        ensures
            id@.len() == 0 <==> startup is None,
            match startup {
                Some(Startup::Ready(handle)) => {
                    &&& image.wait_for_view() is Nothing
                    &&& handle@ == (Handle { id: id@, start_time: now, phase: Phase::Ready })
                    &&& handle.image_view() == image
                },
                Some(Startup::Waiting(waiting)) => {
                    &&& image.wait_for_view() is LogMessage
                    &&& waiting.readiness() == image.wait_for_view()
                    &&& waiting.id_view() == id@
                    &&& waiting.start_time_view() == now
                    &&& waiting.image_view() == image
                },
                None => true,
            },
    {
        if id.as_str().is_empty() {
            return None;
        }
        match image.wait_for() {
            WaitFor::Nothing => Some(
                Startup::Ready(DockerContainer { id, start_time: now, image, phase: Phase::Ready }),
            ),
            WaitFor::LogMessage { message, stream_type, wait_duration } => Some(
                Startup::Waiting(
                    WaitingReady { id, start_time: now, image, message, stream_type, wait_duration },
                ),
            ),
        }
    }

    /// The container's identifier.
    pub fn id(&self) -> (id: String)
        ensures
            id@ == self@.id,
    {
        self.id.clone()
    }

    /// The image that the container was made from.
    pub fn image(&self) -> (image: &I)
        ensures
            *image == self.image_view(),
    {
        &self.image
    }

    /// Where the handle stands in its life.
    pub fn phase(&self) -> (phase: Phase)
        ensures
            phase == self@.phase,
    {
        self.phase
    }

    /// Milliseconds to wait at `now` before the container's log is opened.
    pub fn log_access_delay(&self, now: u64) -> (delay: u64)
        ensures
            delay == grace(self@.start_time, now),
    {
        wait_at_least_one_second_after_container_was_started(self.start_time, now)
    }

    /// The arguments that the engine is started with to open the log.
    pub fn logs_arguments(&self) -> (arguments: Vec<String>)
        ensures
            strings_view(arguments@) == logs_words(self@.id),
    {
        logs_arguments(self.id.as_str())
    }

    /// The streams to tail in the background when these were asked for; to
    /// ask for neither is to tail nothing.
    pub fn run_background_logs(&self, stdout: bool, stderr: bool) -> (streams: Vec<StreamType>)
        ensures
            streams@ == tailed(stdout, stderr),
    {
        let mut streams: Vec<StreamType> = Vec::new();
        if stdout {
            streams.push(StreamType::StdOut);
        }
        if stderr {
            streams.push(StreamType::StdErr);
        }
        assert(streams@ =~= tailed(stdout, stderr));
        streams
    }

    /// The host port to which `internal_port` is published, read from `info`,
    /// the engine's description of this container at the time of the call. A
    /// port that is not published has none.
    pub fn get_host_port(&self, info: ContainerInfo, internal_port: u16) -> (host: Result<
        Option<u16>,
        ParseError,
    >)
        ensures
            match project(info.ports.0@, info.ports.0@.len() as int) {
                Ok(table) => host == Ok::<Option<u16>, ParseError>(
                    crate::commands::lookup(table, internal_port),
                ),
                Err(fault) => host is Err && host->Err_0@ == fault,
            },
    {
        match info.get_ports() {
            Ok(ports) => Ok(ports.map_to_host_port(internal_port)),
            Err(e) => Err(e),
        }
    }

    /// Disposes of the container. The first disposal gives the arguments
    /// that the engine is started with: those of a stop when containers are
    /// kept, those of a forced removal when they are not. Any later disposal
    /// gives none and changes nothing.
    pub fn dispose(&mut self, keep: bool) -> (arguments: Option<Vec<String>>)
        ensures
            final(self)@ == (Handle { phase: after_disposal(old(self)@.phase, keep), ..old(self)@ }),
            final(self).image_view() == old(self).image_view(),
            match teardown_words(old(self)@.id, old(self)@.phase, keep) {
                Some(words) => arguments is Some && strings_view(arguments->Some_0@) == words,
                None => arguments is None,
            },
    {
        match self.phase {
            Phase::Ready => {
                if keep {
                    self.phase = Phase::Stopped;
                    Some(stop_arguments(self.id.as_str()))
                } else {
                    self.phase = Phase::Removed;
                    Some(rm_arguments(self.id.as_str()))
                }
            },
            _ => None,
        }
    }
}

} // verus!
