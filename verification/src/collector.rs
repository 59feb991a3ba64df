//! The decisions of the focus collector.
//!
//! The collector receives compositor focus changes, session presence changes
//! and control requests, and decides what to record. Here it is a state
//! machine: each step takes the collector's state and one event and returns
//! the next state and the action to perform (record a transition, answer a
//! request, delete a range, stop). The program around it performs the actions
//! against the store and feeds back the outcome.
use vstd::prelude::*;

use crate::config::Config;
use crate::focus::{opt_view, sanitized_app, CoreError, FocusState, FocusTransition};
use crate::instant::{Span, Timestamp, NANOS_PER_SECOND};
use crate::niri::{change_view, ChangeView, NiriFocusChange};
use crate::presence::Presence;
use crate::protocol::{
    CollectorStatus, ControlRequest, ControlResponse, RecordingStatus, CONTROL_PROTOCOL_VERSION,
    SCHEMA_VERSION,
};
use crate::text::{lower, trim};

verus! {

/// Nanoseconds between two retention sweeps (one hour).
pub const RETENTION_SWEEP_NANOS: i128 = 3_600_000_000_000;

/// Whether a configuration excludes an application: its trimmed, lower-cased
/// identity equals one of the configured entries.
pub open spec fn excludes(config: Config, app: Seq<char>) -> bool {
    exists|i: int| 0 <= i < config.capture.excluded_apps@.len()
        && #[trigger] config.capture.excluded_apps@[i]@ == lower(trim(app))
}

/// The view of an optional focus change.
pub open spec fn opt_change_view(c: Option<NiriFocusChange>) -> Option<ChangeView> {
    match c {
        Some(c) => Some(change_view(c)),
        None => None,
    }
}

/// The focus to record while the user is present: the cached application
/// when the source is available and the window has an identity, without the
/// identity when the application is excluded, and an unavailable source
/// otherwise.
pub open spec fn focus_choice(config: Config, source_available: bool, change: Option<ChangeView>) -> (FocusState, Option<Seq<char>>) {
    if !source_available {
        (FocusState::SourceUnavailable, None)
    } else {
        match change {
            Some((Some(app), _)) => if excludes(config, app) {
                (FocusState::Excluded, None)
            } else {
                (FocusState::Observed, Some(app))
            },
            _ => (FocusState::SourceUnavailable, None),
        }
    }
}

/// The focus to record while the user is present.
pub fn active_focus(config: &Config, source_available: bool, change: Option<&NiriFocusChange>) -> (r: (FocusState, Option<String>))
    ensures
        (r.0, opt_view(r.1)) == focus_choice(*config, source_available, match change {
            Some(c) => Some(change_view(*c)),
            None => None,
        }),
{
    if !source_available {
        return (FocusState::SourceUnavailable, None);
    }
    let app_id = match change {
        Some(c) => match &c.app_id {
            Some(a) => a,
            None => return (FocusState::SourceUnavailable, None),
        },
        None => return (FocusState::SourceUnavailable, None),
    };
    if config.is_excluded(app_id.as_str()) {
        (FocusState::Excluded, None)
    } else {
        (FocusState::Observed, Some(app_id.clone()))
    }
}

/// How long recorded focus is kept: the configured number of days.
pub fn retention_duration(config: &Config) -> (r: Span)
    ensures
        r.nanos == config.retention_days * 86400 * NANOS_PER_SECOND,
        r.wf(),
{
    Span::days(config.retention_days as i64)
}

/// The instant to record at: `value`, or one nanosecond after `previous`
/// when `value` is not later, so that recorded instants strictly increase.
pub open spec fn spec_strictly_after(value: Timestamp, previous: Timestamp) -> Timestamp {
    if value.unix_nanos <= previous.unix_nanos {
        previous.shifted(1)
    } else {
        value
    }
}

/// An instant strictly after `previous`: `value` itself when it is later.
pub fn strictly_after(value: Timestamp, previous: Timestamp) -> (r: Timestamp)
    requires
        value.wf(),
        previous.wf(),
        value.unix_nanos <= previous.unix_nanos ==> previous.shifted(1).wf(),
    ensures
        r == spec_strictly_after(value, previous),
        r.unix_nanos > previous.unix_nanos,
        r.wf(),
{
    proof { crate::instant::lemma_wf_nanos_bounds(previous); }
    if value.unix_nanos <= previous.unix_nanos {
        Timestamp { unix_nanos: previous.unix_nanos + 1, offset_seconds: previous.offset_seconds }
    } else {
        value
    }
}

/// The view of a transition: instant, state, identity.
pub type TransitionView = (Timestamp, FocusState, Option<Seq<char>>);

/// The view of a transition that may have failed to form.
pub open spec fn plan_view(r: Result<FocusTransition, CoreError>) -> Result<TransitionView, CoreError> {
    match r {
        Ok(t) => Ok((t.at_view(), t.state_view(), t.app_view())),
        Err(e) => Err(e),
    }
}

/// The transition to `state` at `at`, with the identity sanitized as a
/// transition keeps it; an observed focus without identity is an error.
pub open spec fn planned(at: Timestamp, choice: (FocusState, Option<Seq<char>>)) -> Result<TransitionView, CoreError> {
    match sanitized_app(choice.0, choice.1) {
        Some(v) => Ok((at, choice.0, v)),
        None => Err(CoreError::MissingObservedAppId),
    }
}

fn plan(at: Timestamp, state: FocusState, app_id: Option<String>) -> (r: Result<FocusTransition, CoreError>)
    ensures
        plan_view(r) == planned(at, (state, opt_view(app_id))),
{
    FocusTransition::new(at, state, app_id)
}

/// What the collector decided to do after a step.
#[derive(Debug)]
pub enum CollectorStep {
    /// Nothing to do.
    Continue,
    /// Record the transition; when it could not be formed or recorded, the
    /// collector stops with the error.
    Record(Result<FocusTransition, CoreError>),
    /// Answer the control request.
    Reply(ControlResponse),
    /// Record the transition, then answer the request: acknowledged once
    /// recorded, a store error otherwise. The collector goes on either way.
    RecordThenReply(Result<FocusTransition, CoreError>),
    /// Delete the recorded focus between the instants, then hand the outcome
    /// to [`Collector::deleted`].
    DeleteRange { start: Timestamp, end: Timestamp },
    /// Close the current segment at the instant and stop, acknowledging the
    /// request when `reply` is set.
    Stop { at: Timestamp, reply: bool },
}

/// What the collector reports of an answer it made.
pub enum ReplyView {
    Acknowledged,
    Status(CollectorStatus),
    Deleted(u64),
    Error(Seq<char>, Seq<char>),
    Other,
}

/// The view of an answer.
pub open spec fn reply_view(r: ControlResponse) -> ReplyView {
    match r {
        ControlResponse::Acknowledged => ReplyView::Acknowledged,
        ControlResponse::Status(s) => ReplyView::Status(s),
        ControlResponse::Deleted { segments } => ReplyView::Deleted(segments),
        ControlResponse::Error { code, message } => ReplyView::Error(code@, message@),
        _ => ReplyView::Other,
    }
}

/// The view of a step.
pub enum StepView {
    Continue,
    Record(Result<TransitionView, CoreError>),
    Reply(ReplyView),
    RecordThenReply(Result<TransitionView, CoreError>),
    DeleteRange(Timestamp, Timestamp),
    Stop(Timestamp, bool),
}

impl CollectorStep {
    /// The view of the step.
    pub open spec fn view(&self) -> StepView {
        match *self {
            CollectorStep::Continue => StepView::Continue,
            CollectorStep::Record(r) => StepView::Record(plan_view(r)),
            CollectorStep::Reply(r) => StepView::Reply(reply_view(r)),
            CollectorStep::RecordThenReply(r) => StepView::RecordThenReply(plan_view(r)),
            CollectorStep::DeleteRange { start, end } => StepView::DeleteRange(start, end),
            CollectorStep::Stop { at, reply } => StepView::Stop(at, reply),
        }
    }
}

/// The answer made when recording failed, with the failure's text.
pub fn store_failure_reply(message: String) -> (r: ControlResponse)
    ensures
        reply_view(r) == ReplyView::Error("store_error"@, message@),
{
    ControlResponse::Error { code: "store_error".to_string(), message }
}

/// An event the collector reacts to.
#[derive(Debug)]
pub enum CollectorMessage {
    /// The focused window changed.
    Focus(NiriFocusChange),
    /// The compositor can no longer be read.
    SourceUnavailable,
    /// The session presence changed.
    Presence(Presence),
    /// A control request arrived.
    Control(ControlRequest),
    /// The process was asked to stop.
    Shutdown,
}

/// The collector requests a message can hold, as the collector reads them.
pub enum RequestView {
    Status,
    Pause(Option<Timestamp>),
    Resume,
    Delete(Timestamp, Timestamp),
    Shutdown,
    Other,
}

/// The view of a control request.
pub open spec fn request_view(r: ControlRequest) -> RequestView {
    match r {
        ControlRequest::Status => RequestView::Status,
        ControlRequest::Pause { until } => RequestView::Pause(until),
        ControlRequest::Resume => RequestView::Resume,
        ControlRequest::Delete { start, end } => RequestView::Delete(start, end),
        ControlRequest::Shutdown => RequestView::Shutdown,
        _ => RequestView::Other,
    }
}

/// The view of a message.
pub enum MessageView {
    Focus(ChangeView),
    SourceUnavailable,
    Presence(Presence),
    Control(RequestView),
    Shutdown,
}

impl CollectorMessage {
    /// The view of the message.
    pub open spec fn view(&self) -> MessageView {
        match *self {
            CollectorMessage::Focus(c) => MessageView::Focus(change_view(c)),
            CollectorMessage::SourceUnavailable => MessageView::SourceUnavailable,
            CollectorMessage::Presence(p) => MessageView::Presence(p),
            CollectorMessage::Control(r) => MessageView::Control(request_view(r)),
            CollectorMessage::Shutdown => MessageView::Shutdown,
        }
    }
}

/// Whether a request is one the collector answers itself; the others go to
/// the application side of the daemon.
pub open spec fn spec_is_collector_request(r: ControlRequest) -> bool {
    !(request_view(r) is Other)
}

/// Whether a request is one the collector answers itself.
pub fn is_collector_request(request: &ControlRequest) -> (r: bool)
    ensures
        r == spec_is_collector_request(*request),
{
    match request {
        ControlRequest::Status | ControlRequest::Pause { .. } | ControlRequest::Resume
        | ControlRequest::Delete { .. } | ControlRequest::Shutdown => true,
        _ => false,
    }
}

/// The state of the collector.
#[derive(Debug)]
pub struct Collector {
    /// Whether focus is recorded or paused.
    pub recording: RecordingStatus,
    /// When a pause ends by itself.
    pub paused_until: Option<Timestamp>,
    /// Whether the compositor could be read at the last event.
    pub source_available: bool,
    /// When the last focus change arrived.
    pub last_window_event_at: Option<Timestamp>,
    /// The last presence reported.
    pub presence: Presence,
    /// The last focus change, kept to restore the focus after a gap.
    pub last_focus: Option<NiriFocusChange>,
    /// The instant of the last recorded transition.
    pub last_transition_at: Timestamp,
    /// When old focus is next swept out.
    pub next_retention_at: Timestamp,
}

/// The state of the collector as its decisions read it.
pub struct CollectorView {
    pub recording: RecordingStatus,
    pub paused_until: Option<Timestamp>,
    pub source_available: bool,
    pub last_window_event_at: Option<Timestamp>,
    pub presence: Presence,
    pub last_focus: Option<ChangeView>,
    pub last_transition_at: Timestamp,
    pub next_retention_at: Timestamp,
}

/// What the collector reports of itself in a given state.
pub open spec fn status_of(s: CollectorView) -> CollectorStatus {
    CollectorStatus {
        control_protocol_version: CONTROL_PROTOCOL_VERSION,
        schema_version: SCHEMA_VERSION,
        recording: s.recording,
        last_window_event_at: s.last_window_event_at,
        paused_until: s.paused_until,
        source_available: s.source_available,
    }
}

/// Whether the user is away from the session.
pub open spec fn away(p: Presence) -> bool {
    p == Presence::Idle || p == Presence::Locked
}

/// The focus to record when recording resumes: the presence's gap while the
/// user is away, the active focus otherwise.
pub open spec fn resume_choice(s: CollectorView, config: Config) -> (FocusState, Option<Seq<char>>) {
    if s.presence == Presence::Idle {
        (FocusState::Idle, None)
    } else if s.presence == Presence::Locked {
        (FocusState::Locked, None)
    } else {
        focus_choice(config, s.source_available, s.last_focus)
    }
}

/// The answer to a request that does not belong to the collector.
pub open spec fn misrouted_reply() -> ReplyView {
    ReplyView::Error("invalid_collector_request"@, "request was routed to the collector incorrectly"@)
}

/// The collector's reaction to one event at instant `at`: the next state and
/// the action to perform.
pub open spec fn spec_on_message(s: CollectorView, config: Config, at: Timestamp, m: MessageView) -> (CollectorView, StepView) {
    match m {
        MessageView::Focus(c) => {
            let s1 = CollectorView { source_available: true, last_window_event_at: Some(at), last_focus: Some(c), ..s };
            if s.recording == RecordingStatus::Paused || away(s.presence) {
                (s1, StepView::Continue)
            } else {
                (s1, StepView::Record(planned(at, focus_choice(config, true, Some(c)))))
            }
        },
        MessageView::SourceUnavailable => {
            let s1 = CollectorView { source_available: false, ..s };
            if s.source_available && s.recording == RecordingStatus::Active && s.presence == Presence::Active {
                (s1, StepView::Record(planned(at, (FocusState::SourceUnavailable, None))))
            } else {
                (s1, StepView::Continue)
            }
        },
        MessageView::Presence(next) => {
            if next == s.presence {
                (s, StepView::Continue)
            } else {
                let s1 = CollectorView { presence: next, ..s };
                if s.recording == RecordingStatus::Paused {
                    (s1, StepView::Continue)
                } else {
                    match next {
                        Presence::Idle => (s1, StepView::Record(planned(at, (FocusState::Idle, None)))),
                        Presence::Locked => (s1, StepView::Record(planned(at, (FocusState::Locked, None)))),
                        Presence::Active => if away(s.presence) {
                            (s1, StepView::Record(planned(at, focus_choice(config, s.source_available, s.last_focus))))
                        } else {
                            (s1, StepView::Continue)
                        },
                        Presence::Unavailable => if away(s.presence) {
                            (s1, StepView::Record(planned(at, (FocusState::SourceUnavailable, None))))
                        } else {
                            (s1, StepView::Continue)
                        },
                    }
                }
            }
        },
        MessageView::Control(request) => match request {
            RequestView::Status => (s, StepView::Reply(ReplyView::Status(status_of(s)))),
            RequestView::Pause(until) => (
                CollectorView { recording: RecordingStatus::Paused, paused_until: until, ..s },
                StepView::RecordThenReply(planned(at, (FocusState::Paused, None))),
            ),
            RequestView::Resume => if s.recording == RecordingStatus::Active {
                (s, StepView::Reply(ReplyView::Acknowledged))
            } else {
                (
                    CollectorView { recording: RecordingStatus::Active, paused_until: None, ..s },
                    StepView::RecordThenReply(planned(at, resume_choice(s, config))),
                )
            },
            RequestView::Delete(start, end) => (s, StepView::DeleteRange(start, end)),
            RequestView::Shutdown => (s, StepView::Stop(at, true)),
            RequestView::Other => (s, StepView::Reply(misrouted_reply())),
        },
        MessageView::Shutdown => (s, StepView::Stop(at, false)),
    }
}

/// Whether a pause has run out at `at`.
pub open spec fn pause_expired(s: CollectorView, at: Timestamp) -> bool {
    s.recording == RecordingStatus::Paused && match s.paused_until {
        Some(deadline) => deadline.unix_nanos <= at.unix_nanos,
        None => false,
    }
}

/// The collector's housekeeping at instant `at`, before it reads the event:
/// the next state, the instant before which recorded focus is swept out when
/// a sweep is due, and the transition that ends an expired pause.
pub open spec fn spec_tick(s: CollectorView, config: Config, at: Timestamp) -> (CollectorView, Option<Timestamp>, StepView) {
    let due = s.next_retention_at.unix_nanos <= at.unix_nanos;
    let s1 = if due { CollectorView { next_retention_at: at.shifted(RETENTION_SWEEP_NANOS as int), ..s } } else { s };
    let purge = if due {
        Some(at.shifted(-(config.retention_days * 86400 * NANOS_PER_SECOND)))
    } else {
        None
    };
    if pause_expired(s, at) {
        (
            CollectorView { recording: RecordingStatus::Active, paused_until: None, ..s1 },
            purge,
            StepView::Record(planned(at, focus_choice(config, s.source_available, s.last_focus))),
        )
    } else {
        (s1, purge, StepView::Continue)
    }
}

/// The collector's housekeeping for one turn of its loop.
#[derive(Debug)]
pub struct TickPlan {
    /// Sweep out the focus recorded before this instant; a failure stops the
    /// collector.
    pub purge_before: Option<Timestamp>,
    /// The transition that ends an expired pause, or `Continue`.
    pub resume: CollectorStep,
}

impl Collector {
    /// The view of the collector.
    pub open spec fn view(&self) -> CollectorView {
        CollectorView {
            recording: self.recording,
            paused_until: self.paused_until,
            source_available: self.source_available,
            last_window_event_at: self.last_window_event_at,
            presence: self.presence,
            last_focus: opt_change_view(self.last_focus),
            last_transition_at: self.last_transition_at,
            next_retention_at: self.next_retention_at,
        }
    }

    /// Whether the instants the collector holds are valid.
    pub open spec fn wf(&self) -> bool {
        self.last_transition_at.wf() && self.next_retention_at.wf()
    }

    /// A collector started at `now`: recording, with no source or presence
    /// known yet, and the first sweep an hour away.
    pub fn new(now: Timestamp) -> (r: Collector)
        requires
            now.wf(),
            now.shifted(RETENTION_SWEEP_NANOS as int).wf(),
        ensures
            r.wf(),
            r@ == (CollectorView {
                recording: RecordingStatus::Active,
                paused_until: None,
                source_available: false,
                last_window_event_at: None,
                presence: Presence::Unavailable,
                last_focus: None,
                last_transition_at: now,
                next_retention_at: now.shifted(RETENTION_SWEEP_NANOS as int),
            }),
    {
        proof { crate::instant::lemma_wf_nanos_bounds(now); }
        Collector {
            recording: RecordingStatus::Active,
            paused_until: None,
            source_available: false,
            last_window_event_at: None,
            presence: Presence::Unavailable,
            last_focus: None,
            last_transition_at: now,
            next_retention_at: Timestamp {
                unix_nanos: now.unix_nanos + RETENTION_SWEEP_NANOS,
                offset_seconds: now.offset_seconds,
            },
        }
    }

    /// The instant at which an event read at `now` is handled: `now`, or just
    /// after the last recorded transition when the clock did not advance.
    pub fn instant(&self, now: Timestamp) -> (r: Timestamp)
        requires
            self.wf(),
            now.wf(),
            now.unix_nanos <= self.last_transition_at.unix_nanos ==> self.last_transition_at.shifted(1).wf(),
        ensures
            r == spec_strictly_after(now, self.last_transition_at),
            r.unix_nanos > self.last_transition_at.unix_nanos,
            r.wf(),
    {
        strictly_after(now, self.last_transition_at)
    }

    /// What the collector reports of itself.
    pub fn status(&self) -> (r: CollectorStatus)
        ensures
            r == status_of(self@),
    {
        CollectorStatus {
            control_protocol_version: CONTROL_PROTOCOL_VERSION,
            schema_version: SCHEMA_VERSION,
            recording: self.recording,
            last_window_event_at: self.last_window_event_at,
            paused_until: self.paused_until,
            source_available: self.source_available,
        }
    }

    /// The housekeeping at instant `at`: a retention sweep when one is due
    /// (and the next one an hour later), and the end of a pause whose
    /// deadline has passed, which records the focus again.
    pub fn tick(&mut self, config: &Config, at: Timestamp) -> (r: TickPlan)
        requires
            old(self).wf(),
            at.wf(),
            old(self).next_retention_at.unix_nanos <= at.unix_nanos ==> {
                &&& at.shifted(RETENTION_SWEEP_NANOS as int).wf()
                &&& at.shifted(-(config.retention_days * 86400 * NANOS_PER_SECOND)).wf()
            },
        ensures
            final(self).wf(),
            (final(self)@, r.purge_before, r.resume@) == spec_tick(old(self)@, *config, at),
    {
        let due = self.next_retention_at.unix_nanos <= at.unix_nanos;
        let mut purge_before: Option<Timestamp> = None;
        if due {
            let retention = retention_duration(config);
            purge_before = Some(at.sub(retention));
            self.next_retention_at = at.add(Span { nanos: RETENTION_SWEEP_NANOS });
        }
        let expired = match self.paused_until {
            Some(deadline) => self.recording == RecordingStatus::Paused && deadline.unix_nanos <= at.unix_nanos,
            None => false,
        };
        if expired {
            self.recording = RecordingStatus::Active;
            self.paused_until = None;
            let (state, app) = active_focus(config, self.source_available, match &self.last_focus {
                Some(c) => Some(c),
                None => None,
            });
            TickPlan { purge_before, resume: CollectorStep::Record(plan(at, state, app)) }
        } else {
            TickPlan { purge_before, resume: CollectorStep::Continue }
        }
    }

    /// The reaction to one event at instant `at`.
    pub fn on_message(&mut self, config: &Config, at: Timestamp, message: CollectorMessage) -> (r: CollectorStep)
        requires
            old(self).wf(),
        ensures
            final(self).wf(),
            (final(self)@, r@) == spec_on_message(old(self)@, *config, at, message@),
    {
        match message {
            CollectorMessage::Focus(change) => {
                self.source_available = true;
                self.last_window_event_at = Some(at);
                self.last_focus = Some(change);
                if self.recording == RecordingStatus::Paused || self.presence == Presence::Idle
                    || self.presence == Presence::Locked {
                    return CollectorStep::Continue;
                }
                let (state, app) = active_focus(config, true, match &self.last_focus {
                    Some(c) => Some(c),
                    None => None,
                });
                CollectorStep::Record(plan(at, state, app))
            },
            CollectorMessage::SourceUnavailable => {
                let was_available = self.source_available;
                self.source_available = false;
                if was_available && self.recording == RecordingStatus::Active && self.presence == Presence::Active {
                    CollectorStep::Record(plan(at, FocusState::SourceUnavailable, None))
                } else {
                    CollectorStep::Continue
                }
            },
            CollectorMessage::Presence(next) => {
                if next == self.presence {
                    return CollectorStep::Continue;
                }
                let previous = self.presence;
                self.presence = next;
                if self.recording == RecordingStatus::Paused {
                    return CollectorStep::Continue;
                }
                let was_away = previous == Presence::Idle || previous == Presence::Locked;
                match next {
                    Presence::Idle => CollectorStep::Record(plan(at, FocusState::Idle, None)),
                    Presence::Locked => CollectorStep::Record(plan(at, FocusState::Locked, None)),
                    Presence::Active => if was_away {
                        let (state, app) = active_focus(config, self.source_available, match &self.last_focus {
                            Some(c) => Some(c),
                            None => None,
                        });
                        CollectorStep::Record(plan(at, state, app))
                    } else {
                        CollectorStep::Continue
                    },
                    Presence::Unavailable => if was_away {
                        CollectorStep::Record(plan(at, FocusState::SourceUnavailable, None))
                    } else {
                        CollectorStep::Continue
                    },
                }
            },
            CollectorMessage::Control(request) => match request {
                ControlRequest::Status => CollectorStep::Reply(ControlResponse::Status(self.status())),
                ControlRequest::Pause { until } => {
                    self.recording = RecordingStatus::Paused;
                    self.paused_until = until;
                    CollectorStep::RecordThenReply(plan(at, FocusState::Paused, None))
                },
                ControlRequest::Resume => {
                    if self.recording == RecordingStatus::Active {
                        return CollectorStep::Reply(ControlResponse::Acknowledged);
                    }
                    self.recording = RecordingStatus::Active;
                    self.paused_until = None;
                    let (state, app) = if self.presence == Presence::Idle {
                        (FocusState::Idle, None)
                    } else if self.presence == Presence::Locked {
                        (FocusState::Locked, None)
                    } else {
                        active_focus(config, self.source_available, match &self.last_focus {
                            Some(c) => Some(c),
                            None => None,
                        })
                    };
                    CollectorStep::RecordThenReply(plan(at, state, app))
                },
                ControlRequest::Delete { start, end } => CollectorStep::DeleteRange { start, end },
                ControlRequest::Shutdown => CollectorStep::Stop { at, reply: true },
                _ => CollectorStep::Reply(ControlResponse::Error {
                    code: "invalid_collector_request".to_string(),
                    message: "request was routed to the collector incorrectly".to_string(),
                }),
            },
            CollectorMessage::Shutdown => CollectorStep::Stop { at, reply: false },
        }
    }

    /// Notes that the transition at `at` was recorded.
    pub fn recorded(&mut self, at: Timestamp)
        requires
            at.wf(),
            old(self).wf(),
        ensures
            final(self).wf(),
            final(self)@ == (CollectorView { last_transition_at: at, ..old(self)@ }),
    {
        self.last_transition_at = at;
    }

    /// After `count` segments were deleted, the collector records an
    /// unavailable source at `next_at` (the deletion left no current focus)
    /// and answers with the count.
    pub fn deleted(&mut self, next_at: Timestamp, count: usize) -> (r: (FocusTransition, ControlResponse))
        requires
            next_at.wf(),
            old(self).wf(),
        ensures
            final(self).wf(),
            final(self)@ == (CollectorView { last_transition_at: next_at, ..old(self)@ }),
            r.0.at_view() == next_at,
            r.0.state_view() == FocusState::SourceUnavailable,
            r.0.app_view() is None,
            reply_view(r.1) == ReplyView::Deleted(count as u64),
    {
        self.last_transition_at = next_at;
        (
            FocusTransition { at: next_at, state: FocusState::SourceUnavailable, app_id: None },
            ControlResponse::Deleted { segments: count as u64 },
        )
    }
}

/// The answer when the collector no longer takes requests.
pub fn collector_stopped_reply() -> (r: ControlResponse)
    ensures
        reply_view(r) == ReplyView::Error("collector_stopped"@, "collector is shutting down"@),
{
    ControlResponse::Error { code: "collector_stopped".to_string(), message: "collector is shutting down".to_string() }
}

/// The answer when the collector did not answer in time.
pub fn collector_timeout_reply() -> (r: ControlResponse)
    ensures
        reply_view(r) == ReplyView::Error("collector_timeout"@, "collector did not respond in time"@),
{
    ControlResponse::Error { code: "collector_timeout".to_string(), message: "collector did not respond in time".to_string() }
}

/// The answer to a request that could not be read, with the reader's text.
pub fn invalid_request_reply(message: String) -> (r: ControlResponse)
    ensures
        reply_view(r) == ReplyView::Error("invalid_request"@, message@),
{
    ControlResponse::Error { code: "invalid_request".to_string(), message }
}

/// The identity that a step records, with the state it is recorded under.
pub open spec fn recorded_identity(step: StepView) -> Option<(FocusState, Seq<char>)> {
    match step {
        StepView::Record(Ok((_, state, Some(app)))) => Some((state, app)),
        StepView::RecordThenReply(Ok((_, state, Some(app)))) => Some((state, app)),
        _ => None,
    }
}

proof fn lemma_choice_identity(config: Config, at: Timestamp, available: bool, change: Option<ChangeView>)
    ensures
        match planned(at, focus_choice(config, available, change)) {
            Ok((_, state, Some(app))) => state == FocusState::Observed && !excludes(config, app),
            _ => true,
        },
{
    if available {
        if let Some((Some(app), _)) = change {
            crate::focus::lemma_trim_idempotent(app);
        }
    }
}

/// A recorded identity is always that of an observed, non-excluded
/// application: excluded applications, gaps and pauses never keep one.
pub proof fn law_excluded_application_is_never_recorded(
    s: CollectorView,
    config: Config,
    at: Timestamp,
    m: MessageView,
)
    ensures
        recorded_identity(spec_on_message(s, config, at, m).1) matches Some((state, app))
            ==> state == FocusState::Observed && !excludes(config, app),
        recorded_identity(spec_tick(s, config, at).2) matches Some((state, app))
            ==> state == FocusState::Observed && !excludes(config, app),
{
    lemma_choice_identity(config, at, s.source_available, s.last_focus);
    if let MessageView::Focus(c) = m {
        lemma_choice_identity(config, at, true, Some(c));
    }
}

/// While recording is paused, no focus, presence or source event records
/// anything.
pub proof fn law_paused_collector_records_nothing(s: CollectorView, config: Config, at: Timestamp, m: MessageView)
    requires
        s.recording == RecordingStatus::Paused,
        !(m is Control),
        !(m is Shutdown),
    ensures
        spec_on_message(s, config, at, m).1 is Continue,
{
}

/// While the user is idle or locked, a focus change records nothing; it is
/// kept to restore the focus when the user returns.
pub proof fn law_away_user_focus_is_cached_not_recorded(s: CollectorView, config: Config, at: Timestamp, c: ChangeView)
    requires
        away(s.presence),
    ensures
        spec_on_message(s, config, at, MessageView::Focus(c)).1 is Continue,
        spec_on_message(s, config, at, MessageView::Focus(c)).0.last_focus == Some(c),
{
}

/// When the user returns from idle or lock while recording, the cached
/// application's focus is recorded again.
pub proof fn law_return_restores_cached_focus(s: CollectorView, config: Config, at: Timestamp)
    requires
        away(s.presence),
        s.recording == RecordingStatus::Active,
    ensures
        spec_on_message(s, config, at, MessageView::Presence(Presence::Active)).1
            == StepView::Record(planned(at, focus_choice(config, s.source_available, s.last_focus))),
{
}

/// Resuming a collector that records changes nothing and is acknowledged.
pub proof fn law_resume_while_recording_changes_nothing(s: CollectorView, config: Config, at: Timestamp)
    requires
        s.recording == RecordingStatus::Active,
    ensures
        spec_on_message(s, config, at, MessageView::Control(RequestView::Resume))
            == (s, StepView::Reply(ReplyView::Acknowledged)),
{
}

/// A pause records a paused gap at once, and a resume after it records
/// again and clears the deadline.
pub proof fn law_pause_then_resume(s: CollectorView, config: Config, at: Timestamp, later: Timestamp, until: Option<Timestamp>)
    ensures
        ({
            let (paused, step) = spec_on_message(s, config, at, MessageView::Control(RequestView::Pause(until)));
            let (resumed, step2) = spec_on_message(paused, config, later, MessageView::Control(RequestView::Resume));
            &&& paused.recording == RecordingStatus::Paused
            &&& paused.paused_until == until
            &&& step == StepView::RecordThenReply(Ok((at, FocusState::Paused, None)))
            &&& resumed.recording == RecordingStatus::Active
            &&& resumed.paused_until is None
            &&& step2 == StepView::RecordThenReply(planned(later, resume_choice(paused, config)))
        }),
{
}

/// Events alone never move the instant of the last recorded transition nor
/// the next sweep: only a completed recording does.
pub proof fn law_events_keep_the_recorded_clock(s: CollectorView, config: Config, at: Timestamp, m: MessageView)
    ensures
        spec_on_message(s, config, at, m).0.last_transition_at == s.last_transition_at,
        spec_on_message(s, config, at, m).0.next_retention_at == s.next_retention_at,
{
}


/// One turn of the collector's loop as its inputs arrive: the clock read when
/// the turn starts, the event that arrived within it, if any, and the clock
/// read again after a deletion.
pub type TurnInput = (Timestamp, Option<MessageView>, Timestamp);

/// One turn of the collector's loop when every store call succeeds: the next
/// state, the transitions appended, and whether the loop goes on. The turn
/// handles its event at the instant just after the last recorded transition
/// when the clock did not advance; the loop stops on an instant it cannot
/// represent, on a transition that cannot be formed, and on a stop request.
pub open spec fn spec_turn(s: CollectorView, config: Config, input: TurnInput) -> (CollectorView, Seq<TransitionView>, bool) {
    let (now, message, later) = input;
    let at = spec_strictly_after(now, s.last_transition_at);
    let retention = config.retention_days * 86400 * NANOS_PER_SECOND;
    if !now.wf() || !at.wf() {
        (s, Seq::empty(), false)
    } else if s.next_retention_at.unix_nanos <= at.unix_nanos
        && !(at.shifted(RETENTION_SWEEP_NANOS as int).wf() && at.shifted(-retention).wf()) {
        (s, Seq::empty(), false)
    } else {
        let (s1, _, resume) = spec_tick(s, config, at);
        match resume {
            StepView::Record(Err(_)) => (s1, Seq::empty(), false),
            _ => {
                let (s2, first) = match resume {
                    StepView::Record(Ok(t)) => (CollectorView { last_transition_at: at, ..s1 }, seq![t]),
                    _ => (s1, Seq::empty()),
                };
                match message {
                    None => (s2, first, true),
                    Some(m) => {
                        let (s3, step) = spec_on_message(s2, config, at, m);
                        match step {
                            StepView::Record(Ok(t)) => (CollectorView { last_transition_at: at, ..s3 }, first.push(t), true),
                            StepView::RecordThenReply(Ok(t)) => (CollectorView { last_transition_at: at, ..s3 }, first.push(t), true),
                            StepView::Record(Err(_)) => (s3, first, false),
                            StepView::Stop(_, _) => (s3, first, false),
                            StepView::DeleteRange(_, _) => {
                                let next_at = spec_strictly_after(later, at);
                                if !later.wf() || !next_at.wf() {
                                    (s3, first, false)
                                } else {
                                    (
                                        CollectorView { last_transition_at: next_at, ..s3 },
                                        first.push((next_at, FocusState::SourceUnavailable, None)),
                                        true,
                                    )
                                }
                            },
                            _ => (s3, first, true),
                        }
                    },
                }
            },
        }
    }
}

/// The transitions the collector's loop appends over a run of turns when
/// every store call succeeds, up to the turn at which it stops.
pub open spec fn spec_run(s: CollectorView, config: Config, inputs: Seq<TurnInput>) -> Seq<TransitionView>
    decreases inputs.len(),
{
    if inputs.len() == 0 {
        Seq::empty()
    } else {
        let (s1, out, go) = spec_turn(s, config, inputs[0]);
        if go {
            out + spec_run(s1, config, inputs.drop_first())
        } else {
            out
        }
    }
}

/// Whether a transition's identity is as the collector records it: none
/// unless the focus is observed, and then that of a non-excluded application.
pub open spec fn identity_kept(config: Config, t: TransitionView) -> bool {
    if t.1 == FocusState::Observed {
        t.2 matches Some(app) && !excludes(config, app)
    } else {
        t.2 is None
    }
}

/// Whether an input requests a pause with a deadline.
pub open spec fn requests_timed_pause(input: TurnInput) -> bool {
    input.1 matches Some(MessageView::Control(RequestView::Pause(Some(_))))
}

proof fn lemma_step_identity(s: CollectorView, config: Config, at: Timestamp, m: MessageView)
    ensures
        match spec_on_message(s, config, at, m).1 {
            StepView::Record(Ok(t)) => t.0 == at && identity_kept(config, t),
            StepView::RecordThenReply(Ok(t)) => t.0 == at && identity_kept(config, t),
            _ => true,
        },
{
    law_excluded_application_is_never_recorded(s, config, at, m);
}

proof fn lemma_turn(s: CollectorView, config: Config, input: TurnInput)
    requires
        s.last_transition_at.wf(),
        s.paused_until is None,
        !requests_timed_pause(input),
    ensures
        ({
            let (s1, out, go) = spec_turn(s, config, input);
            &&& out.len() <= 1
            &&& go ==> s1.last_transition_at.wf() && s1.paused_until is None
            &&& out.len() == 1 ==> out[0].0 == s1.last_transition_at
                && out[0].0.unix_nanos > s.last_transition_at.unix_nanos
                && identity_kept(config, out[0])
            &&& out.len() == 0 ==> s1.last_transition_at == s.last_transition_at
        }),
{
    crate::instant::lemma_wf_nanos_bounds(s.last_transition_at);
    let (now, message, later) = input;
    let at = spec_strictly_after(now, s.last_transition_at);
    if let Some(m) = message {
        let s2 = spec_tick(s, config, at).0;
        lemma_step_identity(s2, config, at, m);
        if at.wf() {
            crate::instant::lemma_wf_nanos_bounds(at);
        }
    }
}

/// However the clock moves between turns (it may stand still or go back),
/// the collector's loop appends its transitions at strictly increasing
/// instants, each later than the last transition recorded before the run, so
/// that no append goes back in time; a transition that is not an observed
/// focus carries no identity, and an observed one carries that of an
/// application the configuration does not exclude. Stated for runs in which
/// every store call succeeds and no pause with a deadline is requested.
pub proof fn law_loop_appends_in_order(s: CollectorView, config: Config, inputs: Seq<TurnInput>)
    requires
        s.last_transition_at.wf(),
        s.paused_until is None,
        forall|i: int| 0 <= i < inputs.len() ==> !requests_timed_pause(#[trigger] inputs[i]),
    ensures
        forall|i: int, j: int| 0 <= i < j < spec_run(s, config, inputs).len()
            ==> (#[trigger] spec_run(s, config, inputs)[i]).0.unix_nanos
                < (#[trigger] spec_run(s, config, inputs)[j]).0.unix_nanos,
        forall|i: int| 0 <= i < spec_run(s, config, inputs).len()
            ==> (#[trigger] spec_run(s, config, inputs)[i]).0.unix_nanos > s.last_transition_at.unix_nanos,
        forall|i: int| 0 <= i < spec_run(s, config, inputs).len()
            ==> identity_kept(config, #[trigger] spec_run(s, config, inputs)[i]),
    decreases inputs.len(),
{
    if inputs.len() > 0 {
        assert(!requests_timed_pause(inputs[0]));
        lemma_turn(s, config, inputs[0]);
        let (s1, out, go) = spec_turn(s, config, inputs[0]);
        if go {
            let rest = inputs.drop_first();
            assert forall|i: int| 0 <= i < rest.len() implies !requests_timed_pause(#[trigger] rest[i]) by {
                assert(rest[i] == inputs[i + 1]);
            }
            law_loop_appends_in_order(s1, config, rest);
            let tail = spec_run(s1, config, rest);
            let all = spec_run(s, config, inputs);
            assert(all == out + tail);
            assert forall|i: int| 0 <= i < all.len() implies
                (#[trigger] all[i]).0.unix_nanos > s.last_transition_at.unix_nanos
                && identity_kept(config, all[i])
                && (i >= out.len() ==> all[i].0.unix_nanos > s1.last_transition_at.unix_nanos)
                && (i < out.len() ==> all[i].0 == s1.last_transition_at) by {
                if i >= out.len() {
                    assert(all[i] == tail[i - out.len()]);
                }
            }
            assert forall|i: int, j: int| 0 <= i < j < all.len() implies
                (#[trigger] all[i]).0.unix_nanos < (#[trigger] all[j]).0.unix_nanos by {
                if i >= out.len() {
                    assert(all[i] == tail[i - out.len()]);
                    assert(all[j] == tail[j - out.len()]);
                }
            }
        }
    }
}


/// Losing the compositor while recording with the user present records the
/// loss at once: a transition to an unavailable source at the event's
/// instant, with no identity, which closes the focus that was running. In
/// every other case nothing is recorded. Either way the source is then
/// unavailable and nothing else about the collector changes.
pub proof fn law_lost_source_is_recorded_when_observed(s: CollectorView, config: Config, at: Timestamp)
    ensures
        spec_on_message(s, config, at, MessageView::SourceUnavailable).1 == if s.source_available
            && s.recording == RecordingStatus::Active && s.presence == Presence::Active {
            StepView::Record(Ok((at, FocusState::SourceUnavailable, None::<Seq<char>>)))
        } else {
            StepView::Continue
        },
        spec_on_message(s, config, at, MessageView::SourceUnavailable).0 == (CollectorView { source_available: false, ..s }),
{
}

/// A due retention sweep removes only focus older than the retention window:
/// the bound is `at` less the configured number of whole days, in the same
/// offset, so it is never later than `at`; the next sweep is an hour after
/// `at`. Before the sweep is due nothing is removed and the next sweep stays
/// where it was.
pub proof fn law_sweep_keeps_the_retention_window(s: CollectorView, config: Config, at: Timestamp)
    requires
        at.wf(),
    ensures
        s.next_retention_at.unix_nanos <= at.unix_nanos ==> {
            &&& spec_tick(s, config, at).1 matches Some(bound)
                && bound.unix_nanos == at.unix_nanos - config.retention_days * 86_400 * 1_000_000_000
                && bound.offset_seconds == at.offset_seconds
                && bound.unix_nanos <= at.unix_nanos
            &&& spec_tick(s, config, at).0.next_retention_at.unix_nanos == at.unix_nanos + 3_600_000_000_000
        },
        s.next_retention_at.unix_nanos > at.unix_nanos ==> spec_tick(s, config, at).1 is None
            && spec_tick(s, config, at).0.next_retention_at == s.next_retention_at,
{
    crate::instant::lemma_wf_nanos_bounds(at);
}


/// Unless recording is paused, the user going idle or locking the session
/// records that gap at the event's instant with no identity; while paused,
/// or when the presence does not change, nothing is recorded.
pub proof fn law_going_away_is_recorded(s: CollectorView, config: Config, at: Timestamp, next: Presence)
    requires
        next == Presence::Idle || next == Presence::Locked,
    ensures
        spec_on_message(s, config, at, MessageView::Presence(next)).1 == if s.recording != RecordingStatus::Paused
            && s.presence != next {
            StepView::Record(Ok((at, if next == Presence::Idle { FocusState::Idle } else { FocusState::Locked },
                None::<Seq<char>>)))
        } else {
            StepView::Continue
        },
        spec_on_message(s, config, at, MessageView::Presence(next)).0.presence == next,
{
}

/// A pause whose deadline has come ends at the housekeeping of instant `at`:
/// recording resumes, the deadline is cleared, and the focus is recorded at
/// `at` again; a pause without a deadline, or whose deadline is later, goes
/// on and records nothing.
pub proof fn law_pause_ends_at_its_deadline(s: CollectorView, config: Config, at: Timestamp)
    requires
        s.recording == RecordingStatus::Paused,
    ensures
        (s.paused_until matches Some(d) && d.unix_nanos <= at.unix_nanos) ==> {
            &&& spec_tick(s, config, at).0.recording == RecordingStatus::Active
            &&& spec_tick(s, config, at).0.paused_until is None
            &&& spec_tick(s, config, at).2 is Record
            &&& (spec_tick(s, config, at).2 matches StepView::Record(Ok(t)) ==> t.0 == at)
        },
        !(s.paused_until matches Some(d) && d.unix_nanos <= at.unix_nanos) ==> {
            &&& spec_tick(s, config, at).0.recording == RecordingStatus::Paused
            &&& spec_tick(s, config, at).0.paused_until == s.paused_until
            &&& spec_tick(s, config, at).2 is Continue
        },
{
}

} // verus!
