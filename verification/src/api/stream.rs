//! The live progress stream of a run, as the server-sent events a client
//! receives: what each progress event becomes, and when the stream ends.
//!
//! A run with no live channel (still pending, or already over) is reported
//! by its last known status, once. A live run's events are passed on in
//! order; every progress report carries the last status seen; the stream
//! ends right after a terminal status, or when the channel closes, and
//! sends nothing after that.

use vstd::prelude::*;

use crate::runner::{LogLevel, ProgressEvent};
use crate::store::RunStatus;

verus! {

pub open spec fn spec_is_terminal(status: RunStatus) -> bool {
    status is Completed || status is Cancelled || status is Failed
}

/// Whether nothing further happens to a run in this status.
pub fn is_terminal(status: RunStatus) -> (r: bool)
    ensures
        r == spec_is_terminal(status),
{
    match status {
        RunStatus::Completed | RunStatus::Cancelled | RunStatus::Failed => true,
        _ => false,
    }
}

pub open spec fn level_text(level: LogLevel) -> Seq<char> {
    match level {
        LogLevel::Info => "info"@,
        LogLevel::Warn => "warn"@,
        LogLevel::Error => "error"@,
    }
}

/// A log level's name on the wire.
pub fn log_level_str(level: LogLevel) -> (r: &'static str)
    ensures
        r@ == level_text(level),
{
    match level {
        LogLevel::Info => "info",
        LogLevel::Warn => "warn",
        LogLevel::Error => "error",
    }
}

/// One server-sent event of the stream.
#[derive(Debug, Clone)]
pub enum SseEvent {
    /// `progress`: iterations so far, seconds elapsed, the run's status.
    Progress { iterations: u64, elapsed_secs: u64, status: RunStatus },
    /// `log`: a line, its level's name and when it was passed on
    /// (nanoseconds since the Unix epoch).
    Log { line: String, level: String, ts: i128 },
    /// `finding`: the invariant and step of a finding. Its id is always
    /// empty: findings are stored only once the run is over.
    Finding { finding_id: String, invariant: String, step_index: u32 },
    /// `status`: the run's status.
    Status { status: RunStatus },
}

impl SseEvent {
    pub open spec fn spec_name(&self) -> Seq<char> {
        match self {
            SseEvent::Progress { .. } => "progress"@,
            SseEvent::Log { .. } => "log"@,
            SseEvent::Finding { .. } => "finding"@,
            SseEvent::Status { .. } => "status"@,
        }
    }

    /// The event's name on the wire.
    pub fn name(&self) -> (r: &'static str)
        ensures
            r@ == self.spec_name(),
    {
        match self {
            SseEvent::Progress { .. } => "progress",
            SseEvent::Log { .. } => "log",
            SseEvent::Finding { .. } => "finding",
            SseEvent::Status { .. } => "status",
        }
    }
}

pub fn progress_event(count: u64, elapsed_secs: u64, status: RunStatus) -> (r: SseEvent)
    ensures
        r == (SseEvent::Progress { iterations: count, elapsed_secs, status }),
{
    SseEvent::Progress { iterations: count, elapsed_secs, status }
}

pub fn log_event(line: String, level: LogLevel, ts: i128) -> (r: SseEvent)
    ensures
        r matches SseEvent::Log { line: l, level: lv, ts: t } && l == line && lv@ == level_text(level)
            && t == ts,
{
    SseEvent::Log { line, level: log_level_str(level).to_string(), ts }
}

pub fn finding_event(inv_name: String, step_index: u32) -> (r: SseEvent)
    ensures
        r matches SseEvent::Finding { finding_id, invariant: inv, step_index: s } && finding_id@
            == Seq::<char>::empty() && inv == inv_name && s == step_index,
{
    SseEvent::Finding { finding_id: String::new(), invariant: inv_name, step_index }
}

pub fn status_event(status: RunStatus) -> (r: SseEvent)
    ensures
        r == (SseEvent::Status { status }),
{
    SseEvent::Status { status }
}

/// What waiting on the run's channel came back with.
#[derive(Debug)]
pub enum Received {
    Event(ProgressEvent),
    /// Some events were dropped before this reader got them; the channel
    /// is still open.
    Lagged(u64),
    /// The channel is gone.
    Closed,
}

/// Where a stream is: the last status it saw, and whether it has ended.
#[derive(Debug, Clone, Copy)]
pub struct StreamState {
    pub last_status: RunStatus,
    pub closed: bool,
}

/// The start of the stream for a run whose status the store last recorded
/// as `initial`. Without a live channel the stream is that status, once,
/// and then ends; with one, nothing is sent yet.
pub fn open_stream(initial: RunStatus, live: bool) -> (r: (StreamState, Vec<SseEvent>))
    ensures
        !live ==> r.0.closed && r.1@ == seq![SseEvent::Status { status: initial }],
        live ==> !r.0.closed && r.0.last_status == initial && r.1@.len() == 0,
{
    if live {
        (StreamState { last_status: initial, closed: false }, Vec::new())
    } else {
        let mut events: Vec<SseEvent> = Vec::new();
        events.push(status_event(initial));
        (StreamState { last_status: initial, closed: true }, events)
    }
}

impl StreamState {
    /// The event sent for what the channel came back with, if any. Once
    /// the stream has ended it sends nothing more. Iterations become a
    /// `progress` event with the last status seen; a log line a `log`
    /// event stamped `now`; a finding a `finding` event; a status a
    /// `status` event, and it becomes the last status seen, and ends the
    /// stream if it is terminal. A lag sends nothing and goes on; a closed
    /// channel ends the stream.
    pub fn next(&mut self, received: Received, now: i128) -> (r: Option<SseEvent>)
        ensures
            old(self).closed ==> r is None && *final(self) == *old(self),
            !old(self).closed ==> match received {
                Received::Event(ProgressEvent::Iterations { count, elapsed_secs }) => {
                    &&& r == Some(
                        SseEvent::Progress {
                            iterations: count,
                            elapsed_secs,
                            status: old(self).last_status,
                        },
                    )
                    &&& *final(self) == *old(self)
                },
                Received::Event(ProgressEvent::Log { line, level }) => {
                    &&& r matches Some(SseEvent::Log { line: l, level: lv, ts })
                    &&& r->0->Log_line == line
                    &&& r->0->Log_level@ == level_text(level)
                    &&& r->0->Log_ts == now
                    &&& *final(self) == *old(self)
                },
                Received::Event(ProgressEvent::Finding { invariant: inv_name, step_index }) => {
                    &&& r matches Some(SseEvent::Finding { finding_id, invariant: inv, step_index: s })
                    &&& r->0->Finding_finding_id@ == Seq::<char>::empty()
                    &&& r->0->Finding_invariant == inv_name
                    &&& r->0->Finding_step_index == step_index
                    &&& *final(self) == *old(self)
                },
                Received::Event(ProgressEvent::Status(status)) => {
                    &&& r == Some(SseEvent::Status { status })
                    &&& final(self).last_status == status
                    &&& final(self).closed == spec_is_terminal(status)
                },
                Received::Lagged(_) => r is None && *final(self) == *old(self),
                Received::Closed => r is None && final(self).closed && final(self).last_status
                    == old(self).last_status,
            },
    {
        if self.closed {
            return None;
        }
        match received {
            Received::Event(event) => match event {
                ProgressEvent::Iterations { count, elapsed_secs } => Some(
                    progress_event(count, elapsed_secs, self.last_status),
                ),
                ProgressEvent::Log { line, level } => Some(log_event(line, level, now)),
                ProgressEvent::Finding { invariant: inv_name, step_index } => Some(
                    finding_event(inv_name, step_index),
                ),
                ProgressEvent::Status(status) => {
                    self.last_status = status;
                    if is_terminal(status) {
                        self.closed = true;
                    }
                    Some(status_event(status))
                },
            },
            Received::Lagged(_) => None,
            Received::Closed => {
                self.closed = true;
                None
            },
        }
    }
}

} // verus!
