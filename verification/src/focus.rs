//! Focus states, transitions and segments, and the reducers that turn a
//! chronological stream of transitions into non-overlapping segments.
//!
//! Only an observed focus carries an application identity; every other state
//! discards it, so private or idle time never records what was on screen.
use vstd::prelude::*;

use crate::instant::{Span, Timestamp};
use crate::text::{is_blank, signed_decimal, trim, trim_end, trim_start, is_ws};

verus! {

/// What the user's attention was on during a stretch of time.
#[derive(Clone, Copy, Debug, PartialEq, Eq, PartialOrd, Ord, Hash, Structural)]
pub enum FocusState {
    Observed,
    Excluded,
    Idle,
    Locked,
    Paused,
    Disabled,
    SourceUnavailable,
}

/// Why a stretch of time has no observed application.
#[derive(Clone, Copy, Debug, PartialEq, Eq, PartialOrd, Ord, Hash, Structural)]
pub enum GapReason {
    Excluded,
    Idle,
    Locked,
    Paused,
    Disabled,
    SourceUnavailable,
}

impl FocusState {
    /// The gap reason of a non-observed state; `None` for an observed focus.
    pub fn gap_reason(&self) -> (r: Option<GapReason>)
        ensures
            r == spec_gap_reason(*self),
    {
        match self {
            FocusState::Observed => None,
            FocusState::Excluded => Some(GapReason::Excluded),
            FocusState::Idle => Some(GapReason::Idle),
            FocusState::Locked => Some(GapReason::Locked),
            FocusState::Paused => Some(GapReason::Paused),
            FocusState::Disabled => Some(GapReason::Disabled),
            FocusState::SourceUnavailable => Some(GapReason::SourceUnavailable),
        }
    }
}

/// The gap reason of each focus state.
pub open spec fn spec_gap_reason(s: FocusState) -> Option<GapReason> {
    match s {
        FocusState::Observed => None,
        FocusState::Excluded => Some(GapReason::Excluded),
        FocusState::Idle => Some(GapReason::Idle),
        FocusState::Locked => Some(GapReason::Locked),
        FocusState::Paused => Some(GapReason::Paused),
        FocusState::Disabled => Some(GapReason::Disabled),
        FocusState::SourceUnavailable => Some(GapReason::SourceUnavailable),
    }
}

/// The position of a focus state in declaration order.
pub open spec fn state_rank(s: FocusState) -> int {
    match s {
        FocusState::Observed => 0,
        FocusState::Excluded => 1,
        FocusState::Idle => 2,
        FocusState::Locked => 3,
        FocusState::Paused => 4,
        FocusState::Disabled => 5,
        FocusState::SourceUnavailable => 6,
    }
}

/// The position of a focus state in declaration order.
pub fn focus_state_rank(s: FocusState) -> (r: u8)
    ensures
        r == state_rank(s),
{
    match s {
        FocusState::Observed => 0,
        FocusState::Excluded => 1,
        FocusState::Idle => 2,
        FocusState::Locked => 3,
        FocusState::Paused => 4,
        FocusState::Disabled => 5,
        FocusState::SourceUnavailable => 6,
    }
}

/// Errors of the focus timeline and of attention proposals.
#[derive(Clone, Debug, PartialEq, Eq)]
pub enum CoreError {
    MissingObservedAppId,
    NonChronologicalTransition { previous: Timestamp, current: Timestamp },
    InvalidRange { start: Timestamp, end: Timestamp },
    InvalidDuration,
    EmptyField(&'static str),
    DuplicateId { entity: &'static str, id: String },
    InvalidBriefItemCount { count: usize, max: usize },
    InvalidExplorationMinutes { item_id: String },
    MissingEvidence { item_id: String },
}

/// The view of an optional string.
pub open spec fn opt_view(o: Option<String>) -> Option<Seq<char>> {
    match o {
        Some(s) => Some(s@),
        None => None,
    }
}

/// The application identity kept for a focus state: none unless observed,
/// and for an observed focus the trimmed identity, which must not be blank.
/// `None` means that the identity is missing.
pub open spec fn sanitized_app(state: FocusState, app: Option<Seq<char>>) -> Option<Option<Seq<char>>> {
    if state != FocusState::Observed {
        Some(None)
    } else {
        match app {
            Some(a) => if is_blank(a) { None } else { Some(Some(trim(a))) },
            None => None,
        }
    }
}

/// Whether an identity is already in the form that sanitizing produces.
pub open spec fn app_ok(state: FocusState, app: Option<Seq<char>>) -> bool {
    sanitized_app(state, app) == Some(app)
}

proof fn lemma_trim_start_shape(s: Seq<char>)
    ensures
        trim_start(s).len() <= s.len(),
        trim_start(s) =~= s.subrange(s.len() - trim_start(s).len(), s.len() as int),
        trim_start(s).len() > 0 ==> !is_ws(trim_start(s)[0]),
    decreases s.len(),
{
    if s.len() > 0 && is_ws(s[0]) {
        lemma_trim_start_shape(s.drop_first());
    }
}

proof fn lemma_trim_end_shape(s: Seq<char>)
    ensures
        trim_end(s).len() <= s.len(),
        trim_end(s) =~= s.subrange(0, trim_end(s).len() as int),
        trim_end(s).len() > 0 ==> !is_ws(trim_end(s).last()),
    decreases s.len(),
{
    if s.len() > 0 && is_ws(s.last()) {
        lemma_trim_end_shape(s.drop_last());
    }
}

/// Trimming twice is trimming once.
pub proof fn lemma_trim_idempotent(s: Seq<char>)
    ensures
        trim(trim(s)) == trim(s),
{
    let u = trim_start(s);
    let t = trim_end(u);
    lemma_trim_start_shape(s);
    lemma_trim_end_shape(u);
    if t.len() > 0 {
        assert(t[0] == u[0]);
        assert(trim_start(t) == t);
        assert(trim_end(t) == t);
    } else {
        assert(trim_start(t) == t);
        assert(trim_end(t) == t);
    }
}

/// A sanitized identity is left unchanged by sanitizing it again.
pub proof fn lemma_sanitized_is_ok(state: FocusState, app: Option<Seq<char>>)
    requires
        sanitized_app(state, app) is Some,
    ensures
        app_ok(state, sanitized_app(state, app)->0),
{
    if state == FocusState::Observed {
        let a = app->0;
        lemma_trim_idempotent(a);
    }
}

/// Keeps an application identity only for an observed focus, trimmed; an
/// observed focus without a non-blank identity is an error.
pub fn sanitize_app_id(state: &FocusState, app_id: Option<String>) -> (r: Result<Option<String>, CoreError>)
    ensures
        match sanitized_app(*state, opt_view(app_id)) {
            Some(v) => r is Ok && opt_view(r->Ok_0) == v,
            None => r == Err::<Option<String>, CoreError>(CoreError::MissingObservedAppId),
        },
{
    if *state != FocusState::Observed {
        return Ok(None);
    }
    match app_id {
        Some(value) => {
            let trimmed = crate::text::trim_string(value.as_str());
            let empty = crate::text::blank(value.as_str());
            if empty {
                Err(CoreError::MissingObservedAppId)
            } else {
                Ok(Some(trimmed))
            }
        },
        None => Err(CoreError::MissingObservedAppId),
    }
}

/// One change of focus at an instant.
#[derive(Clone, Debug, PartialEq, Eq)]
pub struct FocusTransition {
    pub at: Timestamp,
    pub state: FocusState,
    pub(crate) app_id: Option<String>,
}

impl FocusTransition {
    /// The instant of the transition.
    pub open(crate) spec fn at_view(&self) -> Timestamp {
        self.at
    }

    /// The state the transition enters.
    pub open(crate) spec fn state_view(&self) -> FocusState {
        self.state
    }

    /// The identity the transition holds.
    pub open(crate) spec fn app_view(&self) -> Option<Seq<char>> {
        opt_view(self.app_id)
    }

    /// A transition to `state` at `at`; the identity is kept only for an
    /// observed focus, trimmed, and must then be present and non-blank.
    pub fn new(at: Timestamp, state: FocusState, app_id: Option<String>) -> (r: Result<FocusTransition, CoreError>)
        ensures
            match sanitized_app(state, opt_view(app_id)) {
                Some(v) => r matches Ok(t) && t.at_view() == at && t.state_view() == state && t.app_view() == v,
                None => r == Err::<FocusTransition, CoreError>(CoreError::MissingObservedAppId),
            },
    {
        let app_id = sanitize_app_id(&state, app_id)?;
        Ok(FocusTransition { at, app_id, state })
    }

    /// An observed focus on an application.
    pub fn observed(at: Timestamp, app_id: String) -> (r: Result<FocusTransition, CoreError>)
        ensures
            match sanitized_app(FocusState::Observed, Some(app_id@)) {
                Some(v) => r matches Ok(t) && t.at_view() == at && t.state_view() == FocusState::Observed && t.app_view() == v,
                None => r == Err::<FocusTransition, CoreError>(CoreError::MissingObservedAppId),
            },
    {
        FocusTransition::new(at, FocusState::Observed, Some(app_id))
    }

    /// A gap of the given state, without identity.
    pub fn gap(at: Timestamp, state: FocusState) -> (r: Result<FocusTransition, CoreError>)
        ensures
            match sanitized_app(state, None) {
                Some(v) => r matches Ok(t) && t.at_view() == at && t.state_view() == state && t.app_view() == v,
                None => r == Err::<FocusTransition, CoreError>(CoreError::MissingObservedAppId),
            },
    {
        FocusTransition::new(at, state, None)
    }

    /// The application identity, present only for an observed focus.
    pub fn app_id(&self) -> (r: Option<&str>)
        ensures
            match r {
                Some(s) => self.app_view() == Some(s@),
                None => self.app_view() is None,
            },
    {
        match &self.app_id {
            Some(s) => Some(s.as_str()),
            None => None,
        }
    }

    /// A copy of the identity.
    pub fn app_id_owned(&self) -> (r: Option<String>)
        ensures
            opt_view(r) == self.app_view(),
    {
        match &self.app_id {
            Some(s) => Some(s.clone()),
            None => None,
        }
    }
}

/// The identifier of a segment: `focus-` and the decimal nanosecond count of
/// its start.
pub open spec fn spec_segment_id(started_at: Timestamp) -> Seq<char> {
    seq!['f', 'o', 'c', 'u', 's', '-'] + signed_decimal(started_at.unix_nanos as int)
}

/// The identifier of the segment that starts at an instant.
pub fn segment_id(started_at: Timestamp) -> (r: String)
    ensures
        r@ == spec_segment_id(started_at),
{
    let mut chars: Vec<char> = Vec::new();
    chars.push('f');
    chars.push('o');
    chars.push('c');
    chars.push('u');
    chars.push('s');
    chars.push('-');
    let digits = crate::text::signed_decimal_chars(started_at.unix_nanos);
    crate::text::extend_chars(&mut chars, digits.as_slice());
    proof {
        assert(chars@ =~= spec_segment_id(started_at));
    }
    crate::text::string_of(chars.as_slice())
}

/// A stretch of time with one focus state.
#[derive(Clone, Debug, PartialEq, Eq)]
pub struct FocusSegment {
    pub id: String,
    pub started_at: Timestamp,
    pub ended_at: Option<Timestamp>,
    pub state: FocusState,
    pub app_id: Option<String>,
}

/// Whether a segment has the given start, end, state and identity, with the
/// identifier derived from its start.
pub open spec fn segment_is(
    seg: FocusSegment,
    started_at: Timestamp,
    ended_at: Option<Timestamp>,
    state: FocusState,
    app: Option<Seq<char>>,
) -> bool {
    &&& seg.id@ == spec_segment_id(started_at)
    &&& seg.started_at == started_at
    &&& seg.ended_at == ended_at
    &&& seg.state == state
    &&& opt_view(seg.app_id) == app
}

/// The outcome of building a segment: an invalid range if it ends at or
/// before its start, a missing identity, or the segment.
pub open spec fn segment_error(
    started_at: Timestamp,
    ended_at: Option<Timestamp>,
    state: FocusState,
    app: Option<Seq<char>>,
) -> Option<CoreError> {
    match ended_at {
        Some(e) if e.unix_nanos <= started_at.unix_nanos => Some(CoreError::InvalidRange { start: started_at, end: e }),
        _ => if sanitized_app(state, app) is None { Some(CoreError::MissingObservedAppId) } else { None },
    }
}

impl FocusSegment {
    /// A segment from `started_at` to `ended_at` (open when `None`); the end
    /// must follow the start, and the identity is sanitized as for a
    /// transition.
    pub fn new(
        started_at: Timestamp,
        ended_at: Option<Timestamp>,
        state: FocusState,
        app_id: Option<String>,
    ) -> (r: Result<FocusSegment, CoreError>)
        ensures
            match segment_error(started_at, ended_at, state, opt_view(app_id)) {
                Some(e) => r == Err::<FocusSegment, CoreError>(e),
                None => r matches Ok(seg) && segment_is(seg, started_at, ended_at, state,
                    sanitized_app(state, opt_view(app_id))->0),
            },
    {
        if let Some(ended_at) = ended_at {
            if ended_at.unix_nanos <= started_at.unix_nanos {
                return Err(CoreError::InvalidRange { start: started_at, end: ended_at });
            }
        }
        let app_id = sanitize_app_id(&state, app_id)?;
        Ok(FocusSegment { id: segment_id(started_at), started_at, ended_at, app_id, state })
    }

    /// The application identity, present only for an observed focus.
    pub fn app_id(&self) -> (r: Option<&str>)
        ensures
            match r {
                Some(s) => opt_view(self.app_id) == Some(s@),
                None => self.app_id is None,
            },
    {
        match &self.app_id {
            Some(s) => Some(s.as_str()),
            None => None,
        }
    }

    /// The length of a closed segment; `None` while it is open.
    pub fn duration(&self) -> (r: Option<Span>)
        requires
            self.started_at.wf(),
            self.ended_at matches Some(e) ==> e.wf(),
        ensures
            match self.ended_at {
                Some(e) => r == Some(Span { nanos: (e.unix_nanos - self.started_at.unix_nanos) as i128 }),
                None => r is None,
            },
    {
        match self.ended_at {
            Some(e) => Some(e.since(&self.started_at)),
            None => None,
        }
    }
}

/// The segment that a transition opens, closed at `end`.
pub open spec fn closes(t: FocusTransition, end: Timestamp) -> Option<CoreError> {
    segment_error(t.at_view(), Some(end), t.state_view(), t.app_view())
}

/// The failure, if any, at position `i` when reducing transitions up to
/// `end_at`: a transition that does not strictly follow its predecessor, a
/// final transition at or after `end_at`, or a segment that cannot be built.
pub open spec fn reduce_step_error(ts: Seq<FocusTransition>, end_at: Timestamp, i: int) -> Option<CoreError> {
    if i + 1 < ts.len() {
        if ts[i + 1].at_view().unix_nanos <= ts[i].at_view().unix_nanos {
            Some(CoreError::NonChronologicalTransition { previous: ts[i].at_view(), current: ts[i + 1].at_view() })
        } else {
            closes(ts[i], ts[i + 1].at_view())
        }
    } else {
        if end_at.unix_nanos <= ts[i].at_view().unix_nanos {
            Some(CoreError::InvalidRange { start: ts[i].at_view(), end: end_at })
        } else {
            closes(ts[i], end_at)
        }
    }
}

/// The end of the segment opened by transition `i`: the next transition, or
/// `end_at` for the last one.
pub open spec fn reduce_end(ts: Seq<FocusTransition>, end_at: Timestamp, i: int) -> Timestamp {
    if i + 1 < ts.len() { ts[i + 1].at_view() } else { end_at }
}

/// Turns chronological transitions into closed segments: each transition
/// opens a segment that the next one closes, and the last one is closed at
/// `end_at`. The first failing position decides the error.
pub fn reduce_focus_transitions(transitions: &[FocusTransition], end_at: Timestamp) -> (r: Result<Vec<FocusSegment>, CoreError>)
    ensures
        match r {
            Ok(segs) => {
                &&& segs@.len() == transitions@.len()
                &&& forall|i: int| 0 <= i < transitions@.len() ==> reduce_step_error(transitions@, end_at, i) is None
                &&& forall|i: int| 0 <= i < transitions@.len() ==> segment_is(#[trigger] segs@[i],
                    transitions@[i].at_view(), Some(reduce_end(transitions@, end_at, i)), transitions@[i].state_view(),
                    sanitized_app(transitions@[i].state_view(), transitions@[i].app_view())->0)
            },
            Err(e) => exists|i: int| 0 <= i < transitions@.len()
                && reduce_step_error(transitions@, end_at, i) == Some(e)
                && forall|j: int| 0 <= j < i ==> reduce_step_error(transitions@, end_at, j) is None,
        },
{
    let n = transitions.len();
    let mut segments: Vec<FocusSegment> = Vec::new();
    let mut i: usize = 0;
    while i < n
        invariant
            i <= n,
            n == transitions@.len(),
            segments@.len() == i,
            forall|j: int| 0 <= j < i ==> reduce_step_error(transitions@, end_at, j) is None,
            forall|j: int| 0 <= j < i ==> segment_is(#[trigger] segments@[j],
                transitions@[j].at_view(), Some(reduce_end(transitions@, end_at, j)), transitions@[j].state_view(),
                sanitized_app(transitions@[j].state_view(), transitions@[j].app_view())->0),
        decreases n - i,
    {
        let current = &transitions[i];
        let end = if i + 1 < n {
            let next = &transitions[i + 1];
            if next.at.unix_nanos <= current.at.unix_nanos {
                let e = CoreError::NonChronologicalTransition { previous: current.at, current: next.at };
                proof { assert(reduce_step_error(transitions@, end_at, i as int) == Some(e)); }
                return Err(e);
            }
            next.at
        } else {
            if end_at.unix_nanos <= current.at.unix_nanos {
                let e = CoreError::InvalidRange { start: current.at, end: end_at };
                proof { assert(reduce_step_error(transitions@, end_at, i as int) == Some(e)); }
                return Err(e);
            }
            end_at
        };
        proof { assert(end == reduce_end(transitions@, end_at, i as int)); }
        let segment = match FocusSegment::new(current.at, Some(end), current.state, current.app_id_owned()) {
            Ok(seg) => seg,
            Err(e) => {
                proof { assert(reduce_step_error(transitions@, end_at, i as int) == Some(e)); }
                return Err(e);
            },
        };
        segments.push(segment);
        i = i + 1;
    }
    Ok(segments)
}

/// Builds segments one transition at a time, keeping the transition that
/// opened the current segment.
#[derive(Clone, Debug)]
pub struct FocusReducer {
    initial_at: Timestamp,
    current: Option<FocusTransition>,
}

impl FocusReducer {
    /// The instant before which no transition is accepted.
    pub closed spec fn initial(&self) -> Timestamp {
        self.initial_at
    }

    /// The transition that opened the current segment, if any.
    pub closed spec fn open(&self) -> Option<FocusTransition> {
        self.current
    }

    /// A reducer that accepts transitions from `initial_at` on.
    pub fn new(initial_at: Timestamp) -> (r: FocusReducer)
        ensures
            r.initial() == initial_at,
            r.open() is None,
    {
        FocusReducer { initial_at, current: None }
    }

    /// Records a transition and returns the segment it closes. A transition
    /// before the initial instant, or not after the open one, is refused and
    /// leaves the reducer unchanged, as does a missing identity.
    pub fn transition(&mut self, at: Timestamp, state: FocusState, app_id: Option<String>) -> (r: Result<Option<FocusSegment>, CoreError>)
        ensures
            final(self).initial() == old(self).initial(),
            if at.unix_nanos < old(self).initial().unix_nanos {
                r == Err::<Option<FocusSegment>, CoreError>(CoreError::NonChronologicalTransition { previous: old(self).initial(), current: at })
                    && final(self).open() == old(self).open()
            } else if old(self).open() matches Some(c) && at.unix_nanos <= c.at_view().unix_nanos {
                r == Err::<Option<FocusSegment>, CoreError>(CoreError::NonChronologicalTransition { previous: old(self).open()->0.at_view(), current: at })
                    && final(self).open() == old(self).open()
            } else if sanitized_app(state, opt_view(app_id)) is None {
                r == Err::<Option<FocusSegment>, CoreError>(CoreError::MissingObservedAppId)
                    && final(self).open() == old(self).open()
            } else {
                &&& final(self).open() matches Some(t) && t.at_view() == at && t.state_view() == state
                    && t.app_view() == sanitized_app(state, opt_view(app_id))->0
                &&& match old(self).open() {
                    None => r == Ok::<Option<FocusSegment>, CoreError>(None),
                    Some(c) => match closes(c, at) {
                        Some(e) => r == Err::<Option<FocusSegment>, CoreError>(e),
                        None => r matches Ok(Some(seg)) && segment_is(seg, c.at_view(), Some(at), c.state_view(),
                            sanitized_app(c.state_view(), c.app_view())->0),
                    },
                }
            },
    {
        if at.unix_nanos < self.initial_at.unix_nanos {
            return Err(CoreError::NonChronologicalTransition { previous: self.initial_at, current: at });
        }
        if let Some(current) = &self.current {
            if at.unix_nanos <= current.at.unix_nanos {
                return Err(CoreError::NonChronologicalTransition { previous: current.at, current: at });
            }
        }
        let next = FocusTransition::new(at, state, app_id)?;
        let previous = self.current.take();
        self.current = Some(next);
        match previous {
            None => Ok(None),
            Some(c) => {
                let seg = FocusSegment::new(c.at, Some(at), c.state, c.app_id)?;
                Ok(Some(seg))
            },
        }
    }

    /// Closes the open segment at `at`. With no open segment nothing happens;
    /// an end at or before the open transition is refused and keeps it open.
    pub fn finish(&mut self, at: Timestamp) -> (r: Result<Option<FocusSegment>, CoreError>)
        ensures
            final(self).initial() == old(self).initial(),
            match old(self).open() {
                None => r == Ok::<Option<FocusSegment>, CoreError>(None) && final(self).open() is None,
                Some(c) => if at.unix_nanos <= c.at_view().unix_nanos {
                    r == Err::<Option<FocusSegment>, CoreError>(CoreError::InvalidRange { start: c.at_view(), end: at })
                        && final(self).open() == old(self).open()
                } else {
                    final(self).open() is None && match closes(c, at) {
                        Some(e) => r == Err::<Option<FocusSegment>, CoreError>(e),
                        None => r matches Ok(Some(seg)) && segment_is(seg, c.at_view(), Some(at), c.state_view(),
                            sanitized_app(c.state_view(), c.app_view())->0),
                    }
                },
            },
    {
        let current = match self.current.take() {
            Some(c) => c,
            None => return Ok(None),
        };
        if at.unix_nanos <= current.at.unix_nanos {
            let start = current.at;
            self.current = Some(current);
            return Err(CoreError::InvalidRange { start, end: at });
        }
        let seg = FocusSegment::new(current.at, Some(at), current.state, current.app_id)?;
        Ok(Some(seg))
    }
}

/// A transition built by the constructors never fails to close: its identity
/// is already sanitized.
pub proof fn law_constructed_transition_closes(t: FocusTransition, end: Timestamp, state: FocusState, app: Option<Seq<char>>)
    requires
        sanitized_app(state, app) is Some,
        t.state_view() == state,
        t.app_view() == sanitized_app(state, app)->0,
        t.at_view().unix_nanos < end.unix_nanos,
    ensures
        closes(t, end) is None,
{
    lemma_sanitized_is_ok(state, app);
}

/// The amount of an observed or gap state in one activity bucket.
#[derive(Clone, Debug, PartialEq, Eq)]
pub struct DurationEntry {
    pub state: FocusState,
    pub(crate) app_id: Option<String>,
    pub seconds: u64,
}

impl DurationEntry {
    /// The state the entry counts.
    pub open(crate) spec fn state_view(&self) -> FocusState {
        self.state
    }

    /// The seconds the entry counts.
    pub open(crate) spec fn seconds_view(&self) -> u64 {
        self.seconds
    }

    /// The identity the entry holds.
    pub open(crate) spec fn app_view(&self) -> Option<Seq<char>> {
        opt_view(self.app_id)
    }

    /// An entry of `seconds` for a state; the identity is sanitized as for a
    /// transition.
    pub fn new(state: FocusState, app_id: Option<String>, seconds: u64) -> (r: Result<DurationEntry, CoreError>)
        ensures
            match sanitized_app(state, opt_view(app_id)) {
                Some(v) => r matches Ok(d) && d.state_view() == state && d.seconds_view() == seconds && d.app_view() == v,
                None => r == Err::<DurationEntry, CoreError>(CoreError::MissingObservedAppId),
            },
    {
        let app_id = sanitize_app_id(&state, app_id)?;
        Ok(DurationEntry { app_id, state, seconds })
    }

    /// The application identity, present only for an observed focus.
    pub fn app_id(&self) -> (r: Option<&str>)
        ensures
            match r {
                Some(s) => self.app_view() == Some(s@),
                None => self.app_view() is None,
            },
    {
        match &self.app_id {
            Some(s) => Some(s.as_str()),
            None => None,
        }
    }
}

/// Laws of the focus timeline.
///
/// Whatever identity is offered, a non-observed state keeps none, and an
/// observed state keeps only a trimmed, non-blank one.
pub proof fn law_only_observed_focus_keeps_identity(state: FocusState, app: Option<Seq<char>>)
    ensures
        state != FocusState::Observed ==> sanitized_app(state, app) == Some(None::<Seq<char>>),
        sanitized_app(state, app) matches Some(Some(a)) ==> state == FocusState::Observed
            && a.len() > 0 && trim(a) == a,
{
    if sanitized_app(state, app) matches Some(Some(a)) {
        lemma_trim_idempotent(app->0);
    }
}

} // verus!
