//! The command line's own rules: pause durations, the delete confirmation,
//! labels of focus states, and the output envelope.
use vstd::prelude::*;

use crate::focus::FocusState;
use crate::instant::{civil_date_ok, digit_char, two_digits, Span, NANOS_PER_SECOND};
use crate::protocol::RecordingStatus;
use crate::text::{decimal, decimal_chars, string_of};
use crate::text::{chars_of, lower, normalized_case, trim, trimmed_chars};

verus! {

/// What the command line refuses by its own rules.
#[derive(Debug, Clone, PartialEq, Eq)]
pub enum CommandError {
    /// The duration is not a positive number of minutes or hours.
    InvalidDuration(String),
    /// A delete without a terminal needs both flags.
    NonInteractiveDeleteRequiresFlags,
    /// `--no-input` also needs `--force`.
    NonInteractiveDeleteRequiresForce,
    /// The user did not confirm the delete.
    DeleteCancelled,
}

/// Whether a character is an ASCII digit.
pub open spec fn ascii_digit(c: char) -> bool {
    '0' <= c && c <= '9'
}

/// The index of the first character that is not an ASCII digit.
pub open spec fn first_non_digit(s: Seq<char>) -> Option<int>
    decreases s.len(),
{
    if s.len() == 0 {
        None
    } else if !ascii_digit(s[0]) {
        Some(0)
    } else {
        match first_non_digit(s.drop_first()) {
            Some(i) => Some(i + 1),
            None => None,
        }
    }
}

/// The value of a text of decimal digits.
pub open spec fn digits_value(s: Seq<char>) -> nat
    decreases s.len(),
{
    if s.len() == 0 { 0 } else { digits_value(s.drop_last()) * 10 + ((s.last() as int) - ('0' as int)) as nat }
}

/// The amount and unit of a duration text: the leading digits, read as an
/// `i64`, and the rest; `None` when there is no unit, no digit, or the
/// number does not fit.
pub open spec fn duration_parts(s: Seq<char>) -> Option<(int, Seq<char>)> {
    match first_non_digit(s) {
        Some(i) => if 0 < i && digits_value(s.take(i)) <= i64::MAX {
            Some((digits_value(s.take(i)) as int, s.skip(i)))
        } else {
            None
        },
        None => None,
    }
}

/// The span a duration text denotes: a positive number of minutes (`m`) or
/// hours (`h`).
pub open spec fn spec_duration(s: Seq<char>) -> Option<int> {
    match duration_parts(s) {
        Some((n, unit)) => if n <= 0 {
            None
        } else if unit == "m"@ {
            Some(n * 60 * NANOS_PER_SECOND)
        } else if unit == "h"@ {
            Some(n * 3600 * NANOS_PER_SECOND)
        } else {
            None
        },
        None => None,
    }
}

/// Whether reading a duration text stays within the range of a span; past
/// it the reading would overflow.
pub open spec fn duration_in_range(s: Seq<char>) -> bool {
    match duration_parts(s) {
        Some((n, unit)) => (unit == "m"@ ==> n * 60 <= i64::MAX) && (unit == "h"@ ==> n * 3600 <= i64::MAX),
        None => true,
    }
}

proof fn lemma_first_non_digit_at(s: Seq<char>, j: int)
    requires
        0 <= j < s.len(),
        !ascii_digit(s[j]),
        forall|k: int| 0 <= k < j ==> ascii_digit(s[k]),
    ensures
        first_non_digit(s) == Some(j),
    decreases j,
{
    if j > 0 {
        lemma_first_non_digit_at(s.drop_first(), j - 1);
    }
}

proof fn lemma_first_non_digit_none(s: Seq<char>)
    requires
        forall|k: int| 0 <= k < s.len() ==> ascii_digit(s[k]),
    ensures
        first_non_digit(s) is None,
    decreases s.len(),
{
    if s.len() > 0 {
        lemma_first_non_digit_none(s.drop_first());
    }
}

proof fn lemma_digits_grow(s: Seq<char>, k: int)
    requires
        0 <= k <= s.len(),
        forall|i: int| 0 <= i < s.len() ==> ascii_digit(s[i]),
    ensures
        digits_value(s.take(k)) <= digits_value(s),
    decreases s.len() - k,
{
    if k < s.len() {
        lemma_digits_grow(s, k + 1);
        assert(s.take(k + 1).drop_last() =~= s.take(k));
    } else {
        assert(s.take(k) =~= s);
    }
}

/// The amount and unit of a duration text, as [`duration_parts`] reads it.
fn read_duration_parts(t: &Vec<char>) -> (r: Option<(i64, usize)>)
    ensures
        match duration_parts(t@) {
            Some((n, unit)) => r matches Some((m, i)) && m == n && i <= t@.len() && unit == t@.skip(i as int),
            None => r is None,
        },
{
    let n = t.len();
    let mut i: usize = 0;
    let mut acc: i64 = 0;
    let mut overflow = false;
    while i < n && '0' <= t[i] && t[i] <= '9'
        invariant
            i <= n,
            n == t@.len(),
            forall|k: int| 0 <= k < i ==> ascii_digit(t@[k]),
            !overflow ==> acc == digits_value(t@.take(i as int)),
            overflow ==> digits_value(t@.take(i as int)) > i64::MAX,
        decreases n - i,
    {
        let d = (t[i] as u32 - '0' as u32) as i64;
        proof { assert(t@.take(i + 1).drop_last() =~= t@.take(i as int)); }
        if !overflow {
            match acc.checked_mul(10) {
                Some(m) => match m.checked_add(d) {
                    Some(v) => {
                        acc = v;
                    },
                    None => {
                        overflow = true;
                    },
                },
                None => {
                    overflow = true;
                },
            }
        } else {
            proof {
                let p = t@.take(i + 1);
                assert(digits_value(p) == digits_value(p.drop_last()) * 10 + ((p.last() as int) - ('0' as int)) as nat);
            }
        }
        i = i + 1;
    }
    if i == n {
        proof { assert(t@.take(n as int) =~= t@); lemma_first_non_digit_none(t@); }
        return None;
    }
    proof { lemma_first_non_digit_at(t@, i as int); }
    if i == 0 || overflow {
        return None;
    }
    Some((acc, i))
}

/// Reads a pause duration such as `30m` or `2h`.
pub fn parse_duration(value: &str) -> (r: Result<Span, CommandError>)
    requires
        duration_in_range(value@),
    ensures
        match spec_duration(value@) {
            Some(nanos) => r matches Ok(span) && span.nanos == nanos && span.wf(),
            None => r matches Err(CommandError::InvalidDuration(v)) && v@ == value@,
        },
{
    let t = chars_of(value);
    let parts = read_duration_parts(&t);
    let (amount, i) = match parts {
        Some(p) => p,
        None => return Err(CommandError::InvalidDuration(value.to_string())),
    };
    if amount <= 0 {
        return Err(CommandError::InvalidDuration(value.to_string()));
    }
    let rest = t.len() - i;
    proof {
        reveal_strlit("m");
        reveal_strlit("h");
        assert("m"@[0] != "h"@[0]);
        assert(t@.skip(i as int).len() == rest);
    }
    if rest == 1 && t[i] == 'm' {
        proof { assert(t@.skip(i as int) =~= "m"@); }
        return Ok(Span::minutes(amount));
    }
    if rest == 1 && t[i] == 'h' {
        proof { assert(t@.skip(i as int) =~= "h"@); }
        return Ok(Span::hours(amount));
    }
    proof {
        if rest == 1 {
            assert(t@.skip(i as int)[0] == t@[i as int]);
        }
    }
    Err(CommandError::InvalidDuration(value.to_string()))
}

/// Whether a duration text can be read without overflow.
pub fn duration_fits(value: &str) -> (r: bool)
    ensures
        r == duration_in_range(value@),
{
    let t = chars_of(value);
    match read_duration_parts(&t) {
        Some((amount, i)) => {
            proof {
                reveal_strlit("m");
                reveal_strlit("h");
            }
            let rest = t.len() - i;
            let is_m = rest == 1 && t[i] == 'm';
            let is_h = rest == 1 && t[i] == 'h';
            proof {
                if rest == 1 {
                    assert(t@.skip(i as int)[0] == t@[i as int]);
                    if is_m { assert(t@.skip(i as int) =~= "m"@); }
                    if is_h { assert(t@.skip(i as int) =~= "h"@); }
                }
            }
            proof {
                assert("m"@[0] != "h"@[0]);
                assert(t@.skip(i as int).len() == rest);
                let a = amount as int;
                assert((a <= 9223372036854775807int / 60) == (a * 60 <= 9223372036854775807int)) by (nonlinear_arith);
                assert((a <= 9223372036854775807int / 3600) == (a * 3600 <= 9223372036854775807int)) by (nonlinear_arith);
            }
            let m_ok = !is_m || amount <= i64::MAX / 60;
            let h_ok = !is_h || amount <= i64::MAX / 3600;
            m_ok && h_ok
        },
        None => true,
    }
}

/// The label of a focus state in text output.
pub open spec fn spec_state_label(s: FocusState) -> Seq<char> {
    match s {
        FocusState::Observed => "observed"@,
        FocusState::Excluded => "private / excluded"@,
        FocusState::Idle => "idle"@,
        FocusState::Locked => "locked"@,
        FocusState::Paused => "paused"@,
        FocusState::Disabled => "disabled"@,
        FocusState::SourceUnavailable => "source unavailable"@,
    }
}

/// The label of a focus state in text output.
pub fn state_label(state: &FocusState) -> (r: &'static str)
    ensures
        r@ == spec_state_label(*state),
{
    match state {
        FocusState::Observed => "observed",
        FocusState::Excluded => "private / excluded",
        FocusState::Idle => "idle",
        FocusState::Locked => "locked",
        FocusState::Paused => "paused",
        FocusState::Disabled => "disabled",
        FocusState::SourceUnavailable => "source unavailable",
    }
}

/// What a delete does before it deletes.
#[derive(Debug, Clone, PartialEq, Eq)]
pub enum DeleteGate {
    /// Delete without asking.
    Proceed,
    /// Ask the user on the terminal.
    Ask,
    /// Refuse with the error.
    Refuse(CommandError),
}

/// A delete proceeds without asking only with both `--no-input` and
/// `--force`; without a terminal it needs both; otherwise the user is asked.
pub fn delete_gate(no_input: bool, force: bool, stdin_is_terminal: bool) -> (r: DeleteGate)
    ensures
        no_input && force ==> r == DeleteGate::Proceed,
        no_input && !force ==> r == DeleteGate::Refuse(CommandError::NonInteractiveDeleteRequiresForce),
        !no_input && !stdin_is_terminal ==> r == DeleteGate::Refuse(CommandError::NonInteractiveDeleteRequiresFlags),
        !no_input && stdin_is_terminal ==> r == DeleteGate::Ask,
{
    if no_input {
        return if force {
            DeleteGate::Proceed
        } else {
            DeleteGate::Refuse(CommandError::NonInteractiveDeleteRequiresForce)
        };
    }
    if !stdin_is_terminal {
        return DeleteGate::Refuse(CommandError::NonInteractiveDeleteRequiresFlags);
    }
    DeleteGate::Ask
}

/// Whether an answer confirms: `y` or `yes`, in any ASCII case, with
/// surrounding whitespace ignored.
pub open spec fn confirms(answer: Seq<char>) -> bool {
    lower(trim(answer)) == "y"@ || lower(trim(answer)) == "yes"@
}

/// Accepts the user's answer to the delete question.
pub fn delete_answer(answer: &str) -> (r: Result<(), CommandError>)
    ensures
        confirms(answer@) ==> r is Ok,
        !confirms(answer@) ==> r == Err::<(), CommandError>(CommandError::DeleteCancelled),
{
    let trimmed = crate::text::trim_string(answer);
    let folded = normalized_case(trimmed.as_str());
    let y = chars_of("y");
    let yes = chars_of("yes");
    if crate::text::chars_eq(folded.as_slice(), y.as_slice()) || crate::text::chars_eq(folded.as_slice(), yes.as_slice()) {
        Ok(())
    } else {
        Err(CommandError::DeleteCancelled)
    }
}

/// Machine-readable output: the schema version and the data.
#[derive(Debug, Clone, PartialEq, Eq)]
pub struct Envelope<T> {
    pub schema_version: u32,
    pub data: T,
}

impl<T> Envelope<T> {
    /// The data in the current schema.
    pub fn new(data: T) -> (r: Envelope<T>)
        ensures
            r.schema_version == 1,
            r.data == data,
    {
        Envelope { schema_version: 1, data }
    }
}

/// The span half a window of minutes reaches on each side of an anchor.
pub fn around_radius(total_minutes: i64) -> (r: Span)
    requires
        i64::MIN <= total_minutes * 30 <= i64::MAX,
    ensures
        r.nanos == total_minutes * 30 * NANOS_PER_SECOND,
        r.wf(),
{
    Span::seconds(total_minutes * 30)
}


/// Whether every character of a text is an ASCII digit.
pub open spec fn all_digits(s: Seq<char>) -> bool {
    forall|i: int| 0 <= i < s.len() ==> ascii_digit(#[trigger] s[i])
}

/// The date a text of the shape `YYYY-MM-DD` (ASCII digits) writes, when it
/// is a date of the calendar; `None` for any other text.
pub open spec fn written_date(t: Seq<char>) -> Option<(i32, u8, u8)> {
    if t.len() == 10 && t[4] == '-' && t[7] == '-' && all_digits(t.subrange(0, 4))
        && all_digits(t.subrange(5, 7)) && all_digits(t.subrange(8, 10)) {
        let y = digits_value(t.subrange(0, 4)) as int;
        let m = digits_value(t.subrange(5, 7)) as int;
        let d = digits_value(t.subrange(8, 10)) as int;
        if civil_date_ok(y, m, d) { Some((y as i32, m as u8, d as u8)) } else { None }
    } else {
        None
    }
}

/// The hour and minute a text of the shape `HH:MM` (ASCII digits) writes,
/// when they are a time of day; `None` for any other text.
pub open spec fn written_clock(t: Seq<char>) -> Option<(u8, u8)> {
    if t.len() == 5 && t[2] == ':' && all_digits(t.subrange(0, 2)) && all_digits(t.subrange(3, 5)) {
        let h = digits_value(t.subrange(0, 2)) as int;
        let m = digits_value(t.subrange(3, 5)) as int;
        if h < 24 && m < 60 { Some((h as u8, m as u8)) } else { None }
    } else {
        None
    }
}

/// The calendar date (year, month, day) a text denotes in the format
/// `[year]-[month]-[day]`, or the parser's complaint, as `time::Date::parse`
/// gives them.
pub uninterp spec fn date_reading(text: Seq<char>) -> Result<(i32, u8, u8), Seq<char>>;

/// The wall-clock time (hour, minute) a text denotes in the format
/// `[hour]:[minute]`, or the parser's complaint, as `time::Time::parse`
/// gives them.
pub uninterp spec fn clock_reading(text: Seq<char>) -> Result<(u8, u8), Seq<char>>;

/// Calls `time::Date::parse` with the description `[year]-[month]-[day]`.
/// The contract claims that the result is the named function of the text;
/// that a text of four, two and two ASCII digits joined by `-` is read as the
/// date it writes when that date exists in the years the crate supports; and
/// that a date read is always such a date. What else the parser accepts (a
/// leading sign) and the text of its complaints are left to the name.
#[verifier::external_body]
fn read_date(text: &str) -> (r: Result<(i32, u8, u8), String>)
    ensures
        match r {
            Ok(d) => date_reading(text@) == Ok::<(i32, u8, u8), Seq<char>>(d),
            Err(e) => date_reading(text@) == Err::<(i32, u8, u8), Seq<char>>(e@),
        },
        (written_date(text@) is Some ==> r == Ok::<(i32, u8, u8), String>(written_date(text@)->0)),
        r matches Ok(d) ==> civil_date_ok(d.0 as int, d.1 as int, d.2 as int),
{
    let description = match time::format_description::parse("[year]-[month]-[day]") {
        Ok(items) => items,
        Err(e) => return Err(e.to_string()),
    };
    match time::Date::parse(text, &description[..]) {
        Ok(d) => Ok((d.year(), u8::from(d.month()), d.day())),
        Err(e) => Err(e.to_string()),
    }
}

/// Calls `time::Time::parse` with the description `[hour]:[minute]`. The
/// contract claims that the result is the named function of the text; that
/// a text of two and two ASCII digits joined by `:` is read as the hour and
/// minute it writes when they are a time of day; and that an hour read is
/// below 24 and a minute below 60. The text of the parser's complaints is
/// left to the name.
#[verifier::external_body]
fn read_clock(text: &str) -> (r: Result<(u8, u8), String>)
    ensures
        match r {
            Ok(t) => clock_reading(text@) == Ok::<(u8, u8), Seq<char>>(t),
            Err(e) => clock_reading(text@) == Err::<(u8, u8), Seq<char>>(e@),
        },
        (written_clock(text@) is Some ==> r == Ok::<(u8, u8), String>(written_clock(text@)->0)),
        r matches Ok(t) ==> t.0 < 24 && t.1 < 60,
{
    let description = match time::format_description::parse("[hour]:[minute]") {
        Ok(items) => items,
        Err(e) => return Err(e.to_string()),
    };
    match time::Time::parse(text, &description[..]) {
        Ok(t) => Ok((t.hour(), t.minute())),
        Err(e) => Err(e.to_string()),
    }
}

/// The date a `--date` option gives, or `today` without one; a text that
/// is not a date is refused with the parser's complaint. A `YYYY-MM-DD` text
/// of an existing date gives that date, and any date read from a text exists.
pub fn date_or_today(value: Option<&str>, today: (i32, u8, u8)) -> (r: Result<(i32, u8, u8), String>)
    ensures
        match value {
            None => r == Ok::<(i32, u8, u8), String>(today),
            Some(v) => {
                &&& match date_reading(v@) {
                    Ok(d) => r == Ok::<(i32, u8, u8), String>(d),
                    Err(e) => r matches Err(m) && m@ == e,
                }
                &&& written_date(v@) matches Some(d) ==> r == Ok::<(i32, u8, u8), String>(d)
                &&& r matches Ok(d) ==> civil_date_ok(d.0 as int, d.1 as int, d.2 as int)
            },
        },
{
    match value {
        None => Ok(today),
        Some(v) => read_date(v),
    }
}

/// The hour and minute of a `HH:MM` argument, or the parser's complaint. A
/// `HH:MM` text of a time of day gives that hour and minute, and any hour
/// and minute read are a time of day.
pub fn clock_of(value: &str) -> (r: Result<(u8, u8), String>)
    ensures
        match clock_reading(value@) {
            Ok(t) => r == Ok::<(u8, u8), String>(t),
            Err(e) => r matches Err(m) && m@ == e,
        },
        (written_clock(value@) matches Some(t) ==> r == Ok::<(u8, u8), String>(t)),
        r matches Ok(t) ==> t.0 < 24 && t.1 < 60,
{
    read_clock(value)
}


/// The word the status output gives a recording state.
pub fn recording_label(status: RecordingStatus) -> (r: &'static str)
    ensures
        r@ == match status {
            RecordingStatus::Active => "active"@,
            RecordingStatus::Paused => "paused"@,
            RecordingStatus::Disabled => "disabled"@,
        },
{
    match status {
        RecordingStatus::Active => "active",
        RecordingStatus::Paused => "paused",
        RecordingStatus::Disabled => "disabled",
    }
}

/// How a slice listing shows a number of seconds: the whole minutes, `m `,
/// the remaining seconds as two digits, and `s`.
pub open spec fn spec_duration_label(seconds: u64) -> Seq<char> {
    decimal((seconds / 60) as nat) + seq!['m', ' '] + two_digits((seconds % 60) as int) + seq!['s']
}

/// The text of a number of seconds in a slice listing, such as `12m 05s`.
pub fn duration_label(seconds: u64) -> (r: String)
    ensures
        r@ == spec_duration_label(seconds),
{
    let mut chars = decimal_chars((seconds / 60) as u128);
    chars.push('m');
    chars.push(' ');
    let rest = (seconds % 60) as i64;
    chars.push(digit_char(rest / 10));
    chars.push(digit_char(rest % 10));
    chars.push('s');
    proof { assert(chars@ =~= spec_duration_label(seconds)); }
    string_of(chars.as_slice())
}

} // verus!
