//! How focus segments are written to and read back from the store: state
//! names, instants as nanoseconds with an offset, and the clipping of stored
//! segments to a queried range.
use vstd::prelude::*;

use crate::focus::{opt_view, segment_error, segment_is, sanitized_app, CoreError, FocusSegment, FocusState};
use crate::instant::{instant_ok, offset_ok, Timestamp, MAX_OFFSET_SECONDS};
use crate::text::str_eq;

verus! {

/// What a stored value can be wrong in.
#[derive(Debug, Clone, PartialEq, Eq)]
pub enum StoredValueError {
    /// The range ends at or before its start.
    InvalidRange { start: Timestamp, end: Timestamp },
    /// Only closed segments can be inserted whole.
    OpenSegment,
    /// The stored state name is unknown.
    InvalidFocusState(String),
    /// The instant does not fit the store's nanosecond column.
    OutsideNanosecondRange(Timestamp),
    /// The stored offset is not a UTC offset.
    InvalidOffset(i32),
    /// The stored end has an instant without offset or the reverse.
    HalfStoredEnd,
    /// The stored segment breaks the segment rules.
    InvalidSegment(CoreError),
}

/// The name under which a state is stored.
pub open spec fn spec_state_name(s: FocusState) -> Seq<char> {
    match s {
        FocusState::Observed => "observed"@,
        FocusState::Excluded => "excluded"@,
        FocusState::Idle => "idle"@,
        FocusState::Locked => "locked"@,
        FocusState::Paused => "paused"@,
        FocusState::Disabled => "disabled"@,
        FocusState::SourceUnavailable => "source_unavailable"@,
    }
}

/// The name under which a state is stored.
pub fn focus_state_name(state: &FocusState) -> (r: &'static str)
    ensures
        r@ == spec_state_name(*state),
{
    match state {
        FocusState::Observed => "observed",
        FocusState::Excluded => "excluded",
        FocusState::Idle => "idle",
        FocusState::Locked => "locked",
        FocusState::Paused => "paused",
        FocusState::Disabled => "disabled",
        FocusState::SourceUnavailable => "source_unavailable",
    }
}

/// The state stored under a name, when the name is one of the state names.
pub open spec fn spec_parse_state(name: Seq<char>) -> Option<FocusState> {
    if name == "observed"@ {
        Some(FocusState::Observed)
    } else if name == "excluded"@ {
        Some(FocusState::Excluded)
    } else if name == "idle"@ {
        Some(FocusState::Idle)
    } else if name == "locked"@ {
        Some(FocusState::Locked)
    } else if name == "paused"@ {
        Some(FocusState::Paused)
    } else if name == "disabled"@ {
        Some(FocusState::Disabled)
    } else if name == "source_unavailable"@ {
        Some(FocusState::SourceUnavailable)
    } else {
        None
    }
}

/// Reads a stored state name.
pub fn parse_focus_state(value: &str) -> (r: Result<FocusState, StoredValueError>)
    ensures
        match spec_parse_state(value@) {
            Some(s) => r == Ok::<FocusState, StoredValueError>(s),
            None => r matches Err(StoredValueError::InvalidFocusState(v)) && v@ == value@,
        },
{
    if str_eq(value, "observed") {
        Ok(FocusState::Observed)
    } else if str_eq(value, "excluded") {
        Ok(FocusState::Excluded)
    } else if str_eq(value, "idle") {
        Ok(FocusState::Idle)
    } else if str_eq(value, "locked") {
        Ok(FocusState::Locked)
    } else if str_eq(value, "paused") {
        Ok(FocusState::Paused)
    } else if str_eq(value, "disabled") {
        Ok(FocusState::Disabled)
    } else if str_eq(value, "source_unavailable") {
        Ok(FocusState::SourceUnavailable)
    } else {
        Err(StoredValueError::InvalidFocusState(value.to_string()))
    }
}

/// Reading back the name a state is stored under gives the state.
pub proof fn law_state_names_round_trip(s: FocusState)
    ensures
        spec_parse_state(spec_state_name(s)) == Some(s),
{
    reveal_strlit("observed");
    reveal_strlit("excluded");
    reveal_strlit("idle");
    reveal_strlit("locked");
    reveal_strlit("paused");
    reveal_strlit("disabled");
    reveal_strlit("source_unavailable");
    assert("observed"@[0] == 'o');
    assert("excluded"@[0] == 'e');
    assert("idle"@[0] == 'i');
    assert("locked"@[0] == 'l');
    assert("paused"@[0] == 'p');
    assert("disabled"@[0] == 'd');
    assert("source_unavailable"@[0] == 's');
}

/// The nanosecond count of an instant, when it fits the store's column.
pub fn timestamp_nanos(value: Timestamp) -> (r: Result<i64, StoredValueError>)
    ensures
        i64::MIN <= value.unix_nanos <= i64::MAX ==> r == Ok::<i64, StoredValueError>(value.unix_nanos as i64),
        !(i64::MIN <= value.unix_nanos <= i64::MAX) ==> r == Err::<i64, StoredValueError>(StoredValueError::OutsideNanosecondRange(value)),
{
    if value.unix_nanos < i64::MIN as i128 || value.unix_nanos > i64::MAX as i128 {
        return Err(StoredValueError::OutsideNanosecondRange(value));
    }
    Ok(value.unix_nanos as i64)
}

/// The stored form of an instant: its nanosecond count and offset.
pub fn encode_timestamp(value: Timestamp) -> (r: Result<(i64, i32), StoredValueError>)
    ensures
        i64::MIN <= value.unix_nanos <= i64::MAX ==> r == Ok::<(i64, i32), StoredValueError>((value.unix_nanos as i64, value.offset_seconds)),
        !(i64::MIN <= value.unix_nanos <= i64::MAX) ==> r == Err::<(i64, i32), StoredValueError>(StoredValueError::OutsideNanosecondRange(value)),
{
    let nanos = timestamp_nanos(value)?;
    Ok((nanos, value.offset_seconds))
}

/// The instant stored as a nanosecond count and an offset.
pub fn decode_timestamp(nanos: i64, offset_seconds: i32) -> (r: Result<Timestamp, StoredValueError>)
    ensures
        offset_ok(offset_seconds as int) ==> r == Ok::<Timestamp, StoredValueError>(Timestamp { unix_nanos: nanos as i128, offset_seconds }),
        !offset_ok(offset_seconds as int) ==> r == Err::<Timestamp, StoredValueError>(StoredValueError::InvalidOffset(offset_seconds)),
        r matches Ok(t) ==> t.wf(),
{
    if offset_seconds < -MAX_OFFSET_SECONDS || offset_seconds > MAX_OFFSET_SECONDS {
        return Err(StoredValueError::InvalidOffset(offset_seconds));
    }
    proof {
        let n = nanos as int;
        assert(-9_223_372_037 <= n / 1_000_000_000 <= 9_223_372_036) by (nonlinear_arith)
            requires -9_223_372_036_854_775_808 <= n <= 9_223_372_036_854_775_807;
        assert(instant_ok(nanos as int, offset_seconds as int));
    }
    match Timestamp::new(nanos as i128, offset_seconds) {
        Some(t) => Ok(t),
        None => Err(StoredValueError::InvalidOffset(offset_seconds)),
    }
}

/// An instant written and read back is the same instant in the same offset.
pub proof fn law_stored_instant_round_trip(t: Timestamp)
    requires
        t.wf(),
        i64::MIN <= t.unix_nanos <= i64::MAX,
    ensures
        offset_ok(t.offset_seconds as int),
        (Timestamp { unix_nanos: (t.unix_nanos as i64) as i128, offset_seconds: t.offset_seconds }) == t,
{
}

/// The stored end of a segment: both parts or neither.
pub fn decode_end(nanos: Option<i64>, offset_seconds: Option<i32>) -> (r: Result<Option<Timestamp>, StoredValueError>)
    ensures
        match (nanos, offset_seconds) {
            (Some(n), Some(o)) => if offset_ok(o as int) {
                r == Ok::<Option<Timestamp>, StoredValueError>(Some(Timestamp { unix_nanos: n as i128, offset_seconds: o }))
            } else {
                r == Err::<Option<Timestamp>, StoredValueError>(StoredValueError::InvalidOffset(o))
            },
            (None, None) => r == Ok::<Option<Timestamp>, StoredValueError>(None),
            _ => r == Err::<Option<Timestamp>, StoredValueError>(StoredValueError::HalfStoredEnd),
        },
{
    match (nanos, offset_seconds) {
        (Some(n), Some(o)) => match decode_timestamp(n, o) {
            Ok(t) => Ok(Some(t)),
            Err(e) => Err(e),
        },
        (None, None) => Ok(None),
        _ => Err(StoredValueError::HalfStoredEnd),
    }
}

/// A range must end after it starts.
pub fn validate_range(start: Timestamp, end: Timestamp) -> (r: Result<(), StoredValueError>)
    ensures
        end.unix_nanos <= start.unix_nanos ==> r == Err::<(), StoredValueError>(StoredValueError::InvalidRange { start, end }),
        start.unix_nanos < end.unix_nanos ==> r is Ok,
{
    if end.unix_nanos <= start.unix_nanos {
        return Err(StoredValueError::InvalidRange { start, end });
    }
    Ok(())
}

/// The later of two instants; the second when they are the same instant.
pub open spec fn later(a: Timestamp, b: Timestamp) -> Timestamp {
    if a.unix_nanos > b.unix_nanos { a } else { b }
}

/// The earlier of two instants; the first when they are the same instant.
pub open spec fn earlier(a: Timestamp, b: Timestamp) -> Timestamp {
    if a.unix_nanos > b.unix_nanos { b } else { a }
}

/// The bounds of a stored segment clipped to a range; an open segment is
/// taken to run to the range's end.
pub open spec fn clipped_bounds(started_at: Timestamp, ended_at: Option<Timestamp>, range_start: Timestamp, range_end: Timestamp) -> (Timestamp, Timestamp) {
    (later(started_at, range_start), earlier(match ended_at { Some(e) => e, None => range_end }, range_end))
}

/// A stored segment clipped to `[range_start, range_end)`.
pub fn clip_segment(
    started_at: Timestamp,
    ended_at: Option<Timestamp>,
    state: FocusState,
    app_id: Option<String>,
    range_start: Timestamp,
    range_end: Timestamp,
) -> (r: Result<FocusSegment, CoreError>)
    ensures
        ({
            let (s, e) = clipped_bounds(started_at, ended_at, range_start, range_end);
            match segment_error(s, Some(e), state, opt_view(app_id)) {
                Some(err) => r == Err::<FocusSegment, CoreError>(err),
                None => r matches Ok(seg) && segment_is(seg, s, Some(e), state, sanitized_app(state, opt_view(app_id))->0),
            }
        }),
{
    let start = if started_at.unix_nanos > range_start.unix_nanos { started_at } else { range_start };
    let end_value = match ended_at {
        Some(e) => e,
        None => range_end,
    };
    let end = if end_value.unix_nanos > range_end.unix_nanos { range_end } else { end_value };
    FocusSegment::new(start, Some(end), state, app_id)
}

/// A clipped segment lies within the queried range.
pub proof fn law_clipped_segment_stays_in_range(
    started_at: Timestamp,
    ended_at: Option<Timestamp>,
    range_start: Timestamp,
    range_end: Timestamp,
)
    ensures
        range_start.unix_nanos <= clipped_bounds(started_at, ended_at, range_start, range_end).0.unix_nanos,
        clipped_bounds(started_at, ended_at, range_start, range_end).1.unix_nanos <= range_end.unix_nanos,
        ended_at is None ==> clipped_bounds(started_at, ended_at, range_start, range_end).1 == range_end,
{
}

} // verus!
