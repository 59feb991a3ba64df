//! The user's session presence, and the reading of the session manager's
//! boolean properties.
use vstd::prelude::*;

use crate::runtime::{parse_u64_range, spec_parse_u64};
use crate::text::{chars_eq, chars_of, split_words, words};

verus! {

/// Whether the user is at the session.
#[derive(Clone, Copy, Debug, PartialEq, Eq, Structural)]
pub enum Presence {
    Active,
    Idle,
    Locked,
    Unavailable,
}

/// The index of the first line feed in a text.
pub open spec fn first_newline(s: Seq<char>) -> Option<int>
    decreases s.len(),
{
    if s.len() == 0 {
        None
    } else if s[0] == '\n' {
        Some(0)
    } else {
        match first_newline(s.drop_first()) {
            Some(i) => Some(i + 1),
            None => None,
        }
    }
}

/// A line without the carriage return of a CR LF ending.
pub open spec fn strip_cr(t: Seq<char>) -> Seq<char> {
    if t.len() > 0 && t.last() == '\r' { t.drop_last() } else { t }
}

/// The lines of a text as `str::lines` yields them: split after each line
/// feed, each without its LF or CR LF ending; a final empty line is not one.
pub open spec fn text_lines(s: Seq<char>) -> Seq<Seq<char>>
    decreases s.len(),
{
    if s.len() == 0 {
        seq![]
    } else {
        match first_newline(s) {
            None => seq![s],
            Some(i) => if 0 <= i < s.len() {
                seq![strip_cr(s.take(i))] + text_lines(s.skip(i + 1))
            } else {
                seq![]
            },
        }
    }
}

proof fn lemma_first_newline_at(s: Seq<char>, j: int)
    requires
        0 <= j < s.len(),
        s[j] == '\n',
        forall|k: int| 0 <= k < j ==> s[k] != '\n',
    ensures
        first_newline(s) == Some(j),
    decreases j,
{
    if j > 0 {
        lemma_first_newline_at(s.drop_first(), j - 1);
    }
}

proof fn lemma_first_newline_none(s: Seq<char>)
    requires
        forall|k: int| 0 <= k < s.len() ==> s[k] != '\n',
    ensures
        first_newline(s) is None,
    decreases s.len(),
{
    if s.len() > 0 {
        lemma_first_newline_none(s.drop_first());
    }
}

/// The property line `name=yes`.
pub open spec fn yes_line(name: Seq<char>) -> Seq<char> {
    name + seq!['=', 'y', 'e', 's']
}

/// The lines of a text, as `str::lines` yields them.
pub fn split_lines(text: &str) -> (r: Vec<Vec<char>>)
    ensures
        r@.map_values(|l: Vec<char>| l@) == text_lines(text@),
{
    let s = chars_of(text);
    let n = s.len();
    let mut start: usize = 0;
    let mut out: Vec<Vec<char>> = Vec::new();
    let ghost mut done: Seq<Seq<char>> = seq![];
    proof { assert(s@.skip(0) =~= s@); }
    while start < n
        invariant
            start <= n,
            n == s@.len(),
            s@ == text@,
            text_lines(s@) == done + text_lines(s@.skip(start as int)),
            out@.map_values(|l: Vec<char>| l@) == done,
        decreases n - start,
    {
        let mut j: usize = start;
        while j < n && s[j] != '\n'
            invariant
                start <= j <= n,
                n == s@.len(),
                forall|k: int| start <= k < j ==> s@[k] != '\n',
            decreases n - j,
        {
            j = j + 1;
        }
        let mut end = j;
        if j < n && end > start && s[end - 1] == '\r' {
            end = end - 1;
        }
        let mut line: Vec<char> = Vec::new();
        let mut k: usize = start;
        while k < end
            invariant
                start <= k <= end <= n,
                n == s@.len(),
                line@ == s@.subrange(start as int, k as int),
            decreases end - k,
        {
            line.push(s[k]);
            proof { assert(s@.subrange(start as int, k + 1) =~= s@.subrange(start as int, k as int).push(s@[k as int])); }
            k = k + 1;
        }
        proof {
            let rest = s@.skip(start as int);
            let i = j - start;
            if j < n {
                lemma_first_newline_at(rest, i);
                assert(rest.take(i) =~= s@.subrange(start as int, j as int));
                assert(line@ == strip_cr(rest.take(i))) by {
                    if end < j {
                        assert(strip_cr(rest.take(i)) =~= s@.subrange(start as int, end as int));
                    } else {
                        assert(line@ =~= rest.take(i));
                    }
                }
                assert(rest.skip(i + 1) =~= s@.skip(j + 1));
                assert(text_lines(rest) == seq![line@] + text_lines(s@.skip(j + 1)));
            } else {
                assert forall|k2: int| 0 <= k2 < rest.len() implies rest[k2] != '\n' by {
                    assert(rest[k2] == s@[start + k2]);
                }
                lemma_first_newline_none(rest);
                assert(line@ =~= rest);
                assert(text_lines(rest) == seq![line@]);
                assert(s@.skip(n as int) =~= Seq::<char>::empty());
            }
            assert(done + (seq![line@] + text_lines(s@.skip(if j < n { j + 1 } else { n as int }))) =~= (done + seq![line@]) + text_lines(s@.skip(if j < n { j + 1 } else { n as int })));
        }
        let ghost line_view = line@;
        out.push(line);
        proof {
            assert(out@.map_values(|l: Vec<char>| l@) =~= done + seq![line_view]);
            done = done + seq![line_view];
        }
        start = if j < n { j + 1 } else { n };
    }
    proof {
        assert(s@.skip(start as int) =~= Seq::<char>::empty());
        assert(done + Seq::<Seq<char>>::empty() =~= done);
    }
    out
}

/// Whether the properties hold a line `name=yes`.
pub fn property_is_yes(properties: &str, name: &str) -> (r: bool)
    ensures
        r == text_lines(properties@).contains(yes_line(name@)),
{
    let mut target = chars_of(name);
    target.push('=');
    target.push('y');
    target.push('e');
    target.push('s');
    proof { assert(target@ =~= yes_line(name@)); }
    let lines = split_lines(properties);
    let ghost views = lines@.map_values(|l: Vec<char>| l@);
    let mut k: usize = 0;
    while k < lines.len()
        invariant
            k <= lines@.len(),
            views == lines@.map_values(|l: Vec<char>| l@),
            views == text_lines(properties@),
            target@ == yes_line(name@),
            forall|j: int| 0 <= j < k ==> views[j] != target@,
        decreases lines@.len() - k,
    {
        if chars_eq(lines[k].as_slice(), target.as_slice()) {
            proof { assert(views[k as int] == target@); }
            return true;
        }
        proof { assert(views[k as int] == lines@[k as int]@); }
        k = k + 1;
    }
    proof {
        if views.contains(target@) {
            let x = choose|x: int| 0 <= x < views.len() && views[x] == target@;
            assert(views[x] != target@);
        }
    }
    false
}

/// The presence that the session manager's properties report: a locked
/// session wins over an idle one.
pub open spec fn spec_presence_of(properties: Seq<char>) -> Presence {
    let lines = text_lines(properties);
    if lines.contains(yes_line(seq!['L', 'o', 'c', 'k', 'e', 'd', 'H', 'i', 'n', 't'])) {
        Presence::Locked
    } else if lines.contains(yes_line(seq!['I', 'd', 'l', 'e', 'H', 'i', 'n', 't'])) {
        Presence::Idle
    } else {
        Presence::Active
    }
}

/// Reads the presence out of the `LockedHint` and `IdleHint` properties.
pub fn presence_from_properties(properties: &str) -> (p: Presence)
    ensures
        p == spec_presence_of(properties@),
{
    let locked = "LockedHint";
    let idle = "IdleHint";
    proof {
        reveal_strlit("LockedHint");
        reveal_strlit("IdleHint");
        assert(locked@ =~= seq!['L', 'o', 'c', 'k', 'e', 'd', 'H', 'i', 'n', 't']);
        assert(idle@ =~= seq!['I', 'd', 'l', 'e', 'H', 'i', 'n', 't']);
    }
    if property_is_yes(properties, locked) {
        Presence::Locked
    } else if property_is_yes(properties, idle) {
        Presence::Idle
    } else {
        Presence::Active
    }
}


/// A session as the session manager lists it.
#[derive(Clone, Debug, PartialEq, Eq)]
pub struct LoginSession {
    pub session: String,
    pub uid: u32,
    pub class: String,
}

/// Whether a session is a `user`-class session of the user.
pub open spec fn is_user_session(s: LoginSession, uid: u32) -> bool {
    s.uid == uid && s.class@ == "user"@
}

/// The first session of the user in the `user` class.
pub fn user_session(sessions: &Vec<LoginSession>, uid: u32) -> (r: Option<usize>)
    ensures
        match r {
            Some(i) => i < sessions@.len() && is_user_session(sessions@[i as int], uid)
                && forall|j: int| 0 <= j < i ==> !is_user_session(#[trigger] sessions@[j], uid),
            None => forall|j: int| 0 <= j < sessions@.len() ==> !is_user_session(#[trigger] sessions@[j], uid),
        },
{
    let user = "user";
    let mut k: usize = 0;
    while k < sessions.len()
        invariant
            k <= sessions@.len(),
            user@ == "user"@,
            forall|j: int| 0 <= j < k ==> !is_user_session(#[trigger] sessions@[j], uid),
        decreases sessions@.len() - k,
    {
        if sessions[k].uid == uid && crate::text::str_eq(sessions[k].class.as_str(), user) {
            return Some(k);
        }
        k = k + 1;
    }
    None
}

/// The first line that starts with a prefix.
pub open spec fn first_prefixed(lines: Seq<Seq<char>>, prefix: Seq<char>) -> Option<Seq<char>>
    decreases lines.len(),
{
    if lines.len() == 0 {
        None
    } else if prefix.is_prefix_of(lines[0]) {
        Some(lines[0])
    } else {
        first_prefixed(lines.drop_first(), prefix)
    }
}

/// The user id that a process status text gives: on its first line that
/// starts with `Uid:`, the second word read as a 32-bit number.
pub open spec fn spec_status_uid(status: Seq<char>) -> Option<u32> {
    match first_prefixed(text_lines(status), seq!['U', 'i', 'd', ':']) {
        Some(line) => {
            let ws = words(line);
            if ws.len() >= 2 {
                match spec_parse_u64(ws[1]) {
                    Some(v) => if v <= u32::MAX { Some(v as u32) } else { None },
                    None => None,
                }
            } else {
                None
            }
        },
        None => None,
    }
}

/// Reads the real user id out of a process status text.
pub fn uid_from_status(status: &str) -> (r: Option<u32>)
    ensures
        r == spec_status_uid(status@),
{
    let prefix: Vec<char> = vec!['U', 'i', 'd', ':'];
    let ghost p = seq!['U', 'i', 'd', ':'];
    proof { assert(prefix@ =~= p); assert(p.len() == 4); }
    let lines = split_lines(status);
    let ghost views = lines@.map_values(|l: Vec<char>| l@);
    let mut k: usize = 0;
    proof { assert(views.skip(0) =~= views); }
    while k < lines.len()
        invariant
            k <= lines@.len(),
            views == lines@.map_values(|l: Vec<char>| l@),
            views == text_lines(status@),
            prefix@ == p,
            p == seq!['U', 'i', 'd', ':'],
            p.len() == 4,
            first_prefixed(views, p) == first_prefixed(views.skip(k as int), p),
        decreases lines@.len() - k,
    {
        let line = &lines[k];
        let mut starts = line.len() >= 4;
        let mut i: usize = 0;
        while starts && i < 4
            invariant
                i <= 4,
                p.len() == 4,
                starts ==> line@.len() >= 4,
                starts ==> forall|m: int| 0 <= m < i ==> line@[m] == p[m],
                !starts ==> !p.is_prefix_of(line@),
                prefix@ == p,
            decreases 4 - i,
        {
            if line[i] != prefix[i] {
                proof { assert(line@.subrange(0, 4)[i as int] != p[i as int]); }
                starts = false;
            }
            i = i + 1;
        }
        proof {
            assert(views[k as int] == line@);
            assert(views.skip(k as int).drop_first() =~= views.skip(k + 1));
            assert(views.skip(k as int)[0] == views[k as int]);
            if starts {
                assert(p.is_prefix_of(line@)) by {
                    assert(line@.subrange(0, 4) =~= p);
                }
            }
        }
        if starts {
            let text = crate::text::string_of(line.as_slice());
            let ws = split_words(text.as_str());
            proof {
                assert(first_prefixed(views, p) == Some(line@));
                assert(text@ == line@);
                assert(ws@.map_values(|w: String| w@).len() == ws@.len());
            }
            if ws.len() < 2 {
                return None;
            }
            let word = chars_of(ws[1].as_str());
            proof {
                assert(ws@.map_values(|w: String| w@)[1] == ws@[1]@);
                assert(word@.subrange(0, word@.len() as int) =~= word@);
            }
            let value = parse_u64_range(&word, 0, word.len());
            return match value {
                Some(v) => if v <= 4294967295 { Some(v as u32) } else { None },
                None => None,
            };
        }
        k = k + 1;
    }
    proof { assert(views.skip(k as int) =~= Seq::<Seq<char>>::empty()); }
    None
}

} // verus!
