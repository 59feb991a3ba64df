//! Projection of focus segments onto quarter-hour activity slices, and the
//! time ranges of recall queries.
//!
//! A segment's part inside the query range is cut at local quarter-hour
//! boundaries; each piece adds its whole seconds to the bucket it falls in,
//! under the key of its state and identity. Slices come out in time order and
//! durations in key order, one per key.
use vstd::prelude::*;

use crate::focus::{
    opt_view, reduce_end, sanitized_app, segment_is, state_rank, focus_state_rank, CoreError, DurationEntry, FocusSegment,
    FocusState, FocusTransition,
};
use crate::instant::{
    floor_seconds, floor_to_activity_bucket, lemma_floor_to_bucket, offset_ok, spec_floor_to_bucket,
    whole_seconds_of, Span, Timestamp, ACTIVITY_BUCKET_SECONDS, MAX_LOCAL_SECOND, MAX_OFFSET_SECONDS,
    MIN_LOCAL_SECOND, NANOS_PER_SECOND,
};
use crate::text::{lemma_text_lt_irreflexive, lemma_text_lt_transitive, lemma_text_lt_trichotomy, text_lt, text_order};

verus! {

/// The duration key of a state and identity.
pub type Key = (FocusState, Option<Seq<char>>);

/// Order on optional identities: absent first, then lexicographic.
pub open spec fn opt_text_lt(a: Option<Seq<char>>, b: Option<Seq<char>>) -> bool {
    match (a, b) {
        (None, Some(_)) => true,
        (Some(x), Some(y)) => text_lt(x, y),
        _ => false,
    }
}

/// Order on duration keys: by state, then by identity.
pub open spec fn key_lt(a: Key, b: Key) -> bool {
    ||| state_rank(a.0) < state_rank(b.0)
    ||| (a.0 == b.0 && opt_text_lt(a.1, b.1))
}

proof fn lemma_rank_injective(a: FocusState, b: FocusState)
    ensures
        state_rank(a) == state_rank(b) ==> a == b,
{
}

/// The key order is a strict total order.
pub proof fn lemma_key_order(a: Key, b: Key, c: Key)
    ensures
        !key_lt(a, a),
        a != b ==> (key_lt(a, b) || key_lt(b, a)),
        !(key_lt(a, b) && key_lt(b, a)),
        key_lt(a, b) && key_lt(b, c) ==> key_lt(a, c),
{
    lemma_rank_injective(a.0, b.0);
    lemma_rank_injective(b.0, c.0);
    lemma_rank_injective(a.0, c.0);
    match a.1 {
        Some(x) => { lemma_text_lt_irreflexive(x); },
        None => {},
    }
    match (a.1, b.1) {
        (Some(x), Some(y)) => { lemma_text_lt_trichotomy(x, y); },
        _ => {},
    }
    match (a.1, b.1, c.1) {
        (Some(x), Some(y), Some(z)) => {
            if text_lt(x, y) && text_lt(y, z) {
                lemma_text_lt_transitive(x, y, z);
            }
        },
        _ => {},
    }
}

/// Compares two keys: -1, 0 or 1.
fn key_order(s1: FocusState, a1: &Option<String>, s2: FocusState, a2: &Option<String>) -> (r: i8)
    ensures
        r == -1 <==> key_lt((s1, opt_view(*a1)), (s2, opt_view(*a2))),
        r == 0 <==> (s1, opt_view(*a1)) == (s2, opt_view(*a2)),
        r == 1 <==> key_lt((s2, opt_view(*a2)), (s1, opt_view(*a1))),
        -1 <= r <= 1,
{
    proof {
        lemma_key_order((s1, opt_view(*a1)), (s2, opt_view(*a2)), (s1, opt_view(*a1)));
    }
    let r1 = focus_state_rank(s1);
    let r2 = focus_state_rank(s2);
    if r1 < r2 {
        return -1;
    }
    if r1 > r2 {
        return 1;
    }
    proof { lemma_rank_injective(s1, s2); }
    match (a1, a2) {
        (None, None) => 0,
        (None, Some(_)) => -1,
        (Some(_), None) => 1,
        (Some(x), Some(y)) => text_order(x.as_str(), y.as_str()),
    }
}

/// The seconds of one state and identity in one quarter hour.
#[derive(Debug)]
struct KeyAcc {
    state: FocusState,
    app_id: Option<String>,
    seconds: u64,
}

/// The totals of one quarter hour.
#[derive(Debug)]
struct BucketAcc {
    start: Timestamp,
    entries: Vec<KeyAcc>,
}

spec fn acc_key(e: KeyAcc) -> Key {
    (e.state, opt_view(e.app_id))
}

/// A quarter hour of activity, with the time spent per state and identity.
#[derive(Clone, Debug, PartialEq, Eq)]
pub struct ActivitySlice {
    pub start: Timestamp,
    pub end: Timestamp,
    pub durations: Vec<DurationEntry>,
}

/// The activity slices that overlap a range.
#[derive(Clone, Debug, PartialEq, Eq)]
pub struct ContextBrief {
    pub start: Timestamp,
    pub end: Timestamp,
    pub slices: Vec<ActivitySlice>,
}

/// The focus segments recorded around an instant, clipped to the range.
#[derive(Clone, Debug, PartialEq, Eq)]
pub struct ContextDetail {
    pub start: Timestamp,
    pub end: Timestamp,
    pub segments: Vec<FocusSegment>,
}

/// A non-empty range of time.
#[derive(Clone, Copy, Debug, PartialEq, Eq)]
pub struct ContextRange {
    pub start: Timestamp,
    pub end: Timestamp,
}

impl ContextRange {
    /// The range from `start` to `end`, which must come after it.
    pub fn new(start: Timestamp, end: Timestamp) -> (r: Result<ContextRange, CoreError>)
        ensures
            if end.unix_nanos <= start.unix_nanos {
                r == Err::<ContextRange, CoreError>(CoreError::InvalidRange { start, end })
            } else {
                r == Ok::<ContextRange, CoreError>(ContextRange { start, end })
            },
    {
        if end.unix_nanos <= start.unix_nanos {
            return Err(CoreError::InvalidRange { start, end });
        }
        Ok(ContextRange { start, end })
    }
}

/// The earlier of two instants, the first one when they are the same instant.
pub open spec fn min_ts(a: Timestamp, b: Timestamp) -> Timestamp {
    if a.unix_nanos <= b.unix_nanos { a } else { b }
}

/// The later of two instants, the second one when they are the same instant.
pub open spec fn max_ts(a: Timestamp, b: Timestamp) -> Timestamp {
    if a.unix_nanos > b.unix_nanos { a } else { b }
}

/// The end of the quarter hour that starts at `b`.
pub open spec fn bucket_end_of(b: Timestamp) -> Timestamp {
    b.shifted(900 * NANOS_PER_SECOND)
}

/// The pieces of the interval from `cursor` to `end`, cut at the local
/// quarter hours of the cursor: each piece's bucket start and whole seconds.
pub open spec fn piece_list(cursor: Timestamp, end: Timestamp) -> Seq<(Timestamp, int)>
    decreases end.unix_nanos - cursor.unix_nanos,
{
    let b = spec_floor_to_bucket(cursor);
    let pe = min_ts(end, bucket_end_of(b));
    if cursor.unix_nanos < end.unix_nanos && cursor.unix_nanos < pe.unix_nanos {
        seq![(b, whole_seconds_of(pe.unix_nanos - cursor.unix_nanos))] + piece_list(pe, end)
    } else {
        seq![]
    }
}

/// The key a segment adds its time under.
pub open spec fn seg_key(seg: FocusSegment) -> Key {
    (seg.state, opt_view(seg.app_id))
}

/// The pieces of a closed segment inside a range; an open segment has none.
pub open spec fn seg_pieces(seg: FocusSegment, range: ContextRange) -> Seq<(Timestamp, int)> {
    match seg.ended_at {
        Some(e) => piece_list(max_ts(seg.started_at, range.start), min_ts(e, range.end)),
        None => seq![],
    }
}

/// Per bucket instant: the bucket start first recorded and the seconds per key.
pub type ActivityMap = Map<int, (Timestamp, Map<Key, int>)>;

/// Adds seconds to a key.
pub open spec fn add_key(km: Map<Key, int>, key: Key, s: int) -> Map<Key, int> {
    km.insert(key, if km.contains_key(key) { km[key] + s } else { s })
}

/// Adds a piece of positive length to the totals of its bucket.
pub open spec fn add_secs(m: ActivityMap, b: Timestamp, key: Key, s: int) -> ActivityMap {
    let n = b.unix_nanos as int;
    if s <= 0 {
        m
    } else if m.contains_key(n) {
        m.insert(n, (m[n].0, add_key(m[n].1, key, s)))
    } else {
        m.insert(n, (b, Map::<Key, int>::empty().insert(key, s)))
    }
}

/// Adds pieces in order.
pub open spec fn add_pieces(m: ActivityMap, ps: Seq<(Timestamp, int)>, key: Key) -> ActivityMap
    decreases ps.len(),
{
    if ps.len() == 0 {
        m
    } else {
        add_pieces(add_secs(m, ps[0].0, key, ps[0].1), ps.drop_first(), key)
    }
}

/// The totals of the first `k` segments inside a range.
pub open spec fn add_segments(segs: Seq<FocusSegment>, range: ContextRange, k: int) -> ActivityMap
    decreases k,
{
    if k <= 0 {
        Map::empty()
    } else {
        add_pieces(add_segments(segs, range, k - 1), seg_pieces(segs[k - 1], range), seg_key(segs[k - 1]))
    }
}

/// The totals of all segments inside a range.
pub open spec fn activity_map(segs: Seq<FocusSegment>, range: ContextRange) -> ActivityMap {
    add_segments(segs, range, segs.len() as int)
}

/// Whether every total fits in 64 bits.
pub open spec fn fits(m: ActivityMap) -> bool {
    forall|n: int, k: Key| #[trigger] m.contains_key(n) && m[n].1.contains_key(k) ==> 0 <= #[trigger] m[n].1[k] <= u64::MAX
}

spec fn dominated(m1: ActivityMap, m2: ActivityMap) -> bool {
    &&& forall|n: int| #[trigger] m1.contains_key(n) ==> m2.contains_key(n)
    &&& forall|n: int, k: Key| #[trigger] m1.contains_key(n) && #[trigger] m1[n].1.contains_key(k)
        ==> m2[n].1.contains_key(k) && m1[n].1[k] <= m2[n].1[k]
}

proof fn lemma_dominated_trans(a: ActivityMap, b: ActivityMap, c: ActivityMap)
    requires
        dominated(a, b),
        dominated(b, c),
    ensures
        dominated(a, c),
{
    assert forall|n: int, k: Key| #[trigger] a.contains_key(n) && #[trigger] a[n].1.contains_key(k)
        implies c[n].1.contains_key(k) && a[n].1[k] <= c[n].1[k] by {
        assert(b.contains_key(n));
        assert(b[n].1.contains_key(k));
    }
}

proof fn lemma_add_secs_dominates(m: ActivityMap, b: Timestamp, key: Key, s: int)
    ensures
        dominated(m, add_secs(m, b, key, s)),
{
}

proof fn lemma_add_pieces_dominates(m: ActivityMap, ps: Seq<(Timestamp, int)>, key: Key)
    ensures
        dominated(m, add_pieces(m, ps, key)),
    decreases ps.len(),
{
    if ps.len() > 0 {
        let m1 = add_secs(m, ps[0].0, key, ps[0].1);
        lemma_add_secs_dominates(m, ps[0].0, key, ps[0].1);
        lemma_add_pieces_dominates(m1, ps.drop_first(), key);
        lemma_dominated_trans(m, m1, add_pieces(m1, ps.drop_first(), key));
    }
}

proof fn lemma_add_segments_mono(segs: Seq<FocusSegment>, range: ContextRange, j: int, k: int)
    requires
        0 <= j <= k,
    ensures
        dominated(add_segments(segs, range, j), add_segments(segs, range, k)),
    decreases k - j,
{
    if j < k {
        lemma_add_segments_mono(segs, range, j, k - 1);
        lemma_add_pieces_dominates(add_segments(segs, range, k - 1), seg_pieces(segs[k - 1], range), seg_key(segs[k - 1]));
        lemma_dominated_trans(add_segments(segs, range, j), add_segments(segs, range, k - 1), add_segments(segs, range, k));
    }
}

proof fn lemma_fits_dominated(m1: ActivityMap, m2: ActivityMap)
    requires
        dominated(m1, m2),
        fits(m2),
        forall|n: int, k: Key| #[trigger] m1.contains_key(n) && m1[n].1.contains_key(k) ==> 0 <= #[trigger] m1[n].1[k],
    ensures
        fits(m1),
{
}

proof fn lemma_add_secs_nonneg(m: ActivityMap, b: Timestamp, key: Key, s: int)
    requires
        forall|n: int, k: Key| #[trigger] m.contains_key(n) && m[n].1.contains_key(k) ==> 0 <= #[trigger] m[n].1[k],
    ensures
        forall|n: int, k: Key| #[trigger] add_secs(m, b, key, s).contains_key(n) && add_secs(m, b, key, s)[n].1.contains_key(k)
            ==> 0 <= #[trigger] add_secs(m, b, key, s)[n].1[k],
{
}

/// Whether the entries list the totals of one bucket in key order.
spec fn entries_list(es: Seq<KeyAcc>, km: Map<Key, int>) -> bool {
    &&& forall|i: int, j: int| 0 <= i < j < es.len() ==> key_lt(#[trigger] acc_key(es[i]), #[trigger] acc_key(es[j]))
    &&& forall|i: int| 0 <= i < es.len() ==> km.contains_key(#[trigger] acc_key(es[i])) && km[acc_key(es[i])] == es[i].seconds
    &&& forall|k: Key| #[trigger] km.contains_key(k) ==> exists|i: int| 0 <= i < es.len() && acc_key(es[i]) == k
}

/// Whether the buckets list the activity totals in time order.
spec fn buckets_list(bs: Seq<BucketAcc>, m: ActivityMap) -> bool {
    &&& forall|i: int, j: int| 0 <= i < j < bs.len() ==> (#[trigger] bs[i]).start.unix_nanos < (#[trigger] bs[j]).start.unix_nanos
    &&& forall|i: int| 0 <= i < bs.len() ==> m.contains_key((#[trigger] bs[i]).start.unix_nanos as int)
        && m[bs[i].start.unix_nanos as int].0 == bs[i].start
        && entries_list(bs[i].entries@, m[bs[i].start.unix_nanos as int].1)
    &&& forall|n: int| #[trigger] m.contains_key(n) ==> exists|i: int| 0 <= i < bs.len() && bs[i].start.unix_nanos == n
}

fn copy_app(a: &Option<String>) -> (r: Option<String>)
    ensures
        r == *a,
{
    match a {
        Some(s) => Some(s.clone()),
        None => None,
    }
}

/// Adds seconds to one key of a bucket's entries.
fn add_to_entries(es: &mut Vec<KeyAcc>, state: FocusState, app: &Option<String>, secs: u64, Ghost(km): Ghost<Map<Key, int>>)
    requires
        entries_list(old(es)@, km),
        add_key(km, (state, opt_view(*app)), secs as int)[(state, opt_view(*app))] <= u64::MAX,
    ensures
        entries_list(final(es)@, add_key(km, (state, opt_view(*app)), secs as int)),
{
    let ghost key: Key = (state, opt_view(*app));
    let ghost km2 = add_key(km, key, secs as int);
    let mut i: usize = 0;
    while i < es.len() && key_order(es[i].state, &es[i].app_id, state, app) == -1
        invariant
            i <= es@.len(),
            es@ == old(es)@,
            key == (state, opt_view(*app)),
            entries_list(es@, km),
            forall|j: int| 0 <= j < i ==> key_lt(#[trigger] acc_key(es@[j]), key),
        decreases es@.len() - i,
    {
        i = i + 1;
    }
    let order: i8 = if i < es.len() { key_order(es[i].state, &es[i].app_id, state, app) } else { 1 };
    if i < es.len() && order == 0 {
        let old_secs = es[i].seconds;
        proof {
            assert(acc_key(es@[i as int]) == key);
            assert(km.contains_key(key));
        }
        let updated = KeyAcc { state: es[i].state, app_id: copy_app(&es[i].app_id), seconds: old_secs + secs };
        es.set(i, updated);
        proof {
            let s = es@;
            assert(acc_key(s[i as int]) == key);
            assert forall|a: int, b: int| 0 <= a < b < s.len() implies key_lt(#[trigger] acc_key(s[a]), #[trigger] acc_key(s[b])) by {
                assert(acc_key(s[a]) == acc_key(old(es)@[a]));
                assert(acc_key(s[b]) == acc_key(old(es)@[b]));
            }
            assert forall|a: int| 0 <= a < s.len() implies km2.contains_key(#[trigger] acc_key(s[a])) && km2[acc_key(s[a])] == s[a].seconds by {
                if a != i {
                    assert(acc_key(s[a]) == acc_key(old(es)@[a]));
                    lemma_key_order(acc_key(s[a]), key, key);
                    if a < i {
                        assert(key_lt(acc_key(old(es)@[a]), acc_key(old(es)@[i as int])));
                    } else {
                        assert(key_lt(acc_key(old(es)@[i as int]), acc_key(old(es)@[a])));
                    }
                }
            }
            assert forall|k: Key| #[trigger] km2.contains_key(k) implies exists|a: int| 0 <= a < s.len() && acc_key(s[a]) == k by {
                if k == key {
                    assert(acc_key(s[i as int]) == k);
                } else {
                    let a = choose|a: int| 0 <= a < old(es)@.len() && acc_key(old(es)@[a]) == k;
                    assert(acc_key(s[a]) == k);
                }
            }
        }
    } else {
        let entry = KeyAcc { state, app_id: copy_app(app), seconds: secs };
        proof {
            if i < es@.len() {
                lemma_key_order(acc_key(es@[i as int]), key, key);
                assert(key_lt(key, acc_key(es@[i as int])));
            }
            if km.contains_key(key) {
                let j = choose|j: int| 0 <= j < es@.len() && acc_key(es@[j]) == key;
                lemma_key_order(key, key, key);
                if j < i {
                } else if j == i {
                } else {
                    assert(key_lt(acc_key(es@[i as int]), acc_key(es@[j])));
                    lemma_key_order(key, acc_key(es@[i as int]), key);
                }
                assert(false);
            }
        }
        let ghost before = es@;
        es.insert(i, entry);
        proof {
            let s = es@;
            assert(acc_key(s[i as int]) == key);
            assert forall|a: int| 0 <= a < s.len() && a != i implies acc_key(#[trigger] s[a]) == acc_key(before[if a < i { a } else { a - 1 }]) by {}
            assert forall|a: int, b: int| 0 <= a < b < s.len() implies key_lt(#[trigger] acc_key(s[a]), #[trigger] acc_key(s[b])) by {
                if a < i && b < i {
                    assert(acc_key(s[a]) == acc_key(before[a]));
                    assert(acc_key(s[b]) == acc_key(before[b]));
                } else if a < i && b == i {
                    assert(acc_key(s[a]) == acc_key(before[a]));
                } else if a < i {
                    assert(acc_key(s[a]) == acc_key(before[a]));
                    assert(acc_key(s[b]) == acc_key(before[b - 1]));
                    assert(key_lt(acc_key(before[a]), key));
                    lemma_key_order(key, acc_key(before[i as int]), acc_key(before[b - 1]));
                    if b - 1 > i {
                        assert(key_lt(acc_key(before[i as int]), acc_key(before[b - 1])));
                    }
                    lemma_key_order(acc_key(before[a]), key, acc_key(before[b - 1]));
                } else if a == i {
                    assert(acc_key(s[b]) == acc_key(before[b - 1]));
                    lemma_key_order(key, acc_key(before[i as int]), acc_key(before[b - 1]));
                    if b - 1 > i {
                        assert(key_lt(acc_key(before[i as int]), acc_key(before[b - 1])));
                    }
                } else {
                    assert(acc_key(s[a]) == acc_key(before[a - 1]));
                    assert(acc_key(s[b]) == acc_key(before[b - 1]));
                }
            }
            assert forall|a: int| 0 <= a < s.len() implies km2.contains_key(#[trigger] acc_key(s[a])) && km2[acc_key(s[a])] == s[a].seconds by {
                if a < i {
                    assert(s[a] == before[a]);
                    lemma_key_order(acc_key(before[a]), key, key);
                } else if a > i {
                    assert(s[a] == before[a - 1]);
                    lemma_key_order(acc_key(before[a - 1]), key, key);
                    if a - 1 > i {
                        assert(key_lt(acc_key(before[i as int]), acc_key(before[a - 1])));
                        lemma_key_order(key, acc_key(before[i as int]), acc_key(before[a - 1]));
                    }
                    assert(acc_key(before[a - 1]) != key);
                }
            }
            assert forall|k: Key| #[trigger] km2.contains_key(k) implies exists|a: int| 0 <= a < s.len() && acc_key(s[a]) == k by {
                if k == key {
                    assert(acc_key(s[i as int]) == k);
                } else {
                    let a = choose|a: int| 0 <= a < before.len() && acc_key(before[a]) == k;
                    if a < i {
                        assert(acc_key(s[a]) == k);
                    } else {
                        assert(acc_key(s[a + 1]) == k);
                    }
                }
            }
        }
    }
}

/// Adds a positive piece to the totals.
fn add_to_buckets(
    bs: &mut Vec<BucketAcc>,
    b: Timestamp,
    state: FocusState,
    app: &Option<String>,
    secs: u64,
    Ghost(m): Ghost<ActivityMap>,
)
    requires
        buckets_list(old(bs)@, m),
        secs > 0,
        fits(add_secs(m, b, (state, opt_view(*app)), secs as int)),
    ensures
        buckets_list(final(bs)@, add_secs(m, b, (state, opt_view(*app)), secs as int)),
{
    let ghost key: Key = (state, opt_view(*app));
    let ghost m2 = add_secs(m, b, key, secs as int);
    let ghost n = b.unix_nanos as int;
    let mut i: usize = 0;
    while i < bs.len() && bs[i].start.unix_nanos < b.unix_nanos
        invariant
            i <= bs@.len(),
            bs@ == old(bs)@,
            buckets_list(bs@, m),
            forall|j: int| 0 <= j < i ==> (#[trigger] bs@[j]).start.unix_nanos < b.unix_nanos,
        decreases bs@.len() - i,
    {
        i = i + 1;
    }
    if i < bs.len() && bs[i].start.unix_nanos == b.unix_nanos {
        let ghost before = bs@;
        proof {
            assert(m.contains_key(n));
            assert(m2[n].1 == add_key(m[n].1, key, secs as int));
            assert(m2.contains_key(n) && m2[n].1.contains_key(key));
        }
        let mut bucket = bs.remove(i);
        add_to_entries(&mut bucket.entries, state, app, secs, Ghost(m[n].1));
        bs.insert(i, bucket);
        proof {
            let s = bs@;
            assert(s.len() == before.len());
            assert forall|a: int| 0 <= a < s.len() && a != i implies #[trigger] s[a] == before[a] by {}
            assert(s[i as int].start == before[i as int].start);
            assert forall|a: int, c: int| 0 <= a < c < s.len() implies (#[trigger] s[a]).start.unix_nanos < (#[trigger] s[c]).start.unix_nanos by {
                assert(before[a].start.unix_nanos < before[c].start.unix_nanos);
            }
            assert forall|a: int| 0 <= a < s.len() implies m2.contains_key((#[trigger] s[a]).start.unix_nanos as int)
                && m2[s[a].start.unix_nanos as int].0 == s[a].start
                && entries_list(s[a].entries@, m2[s[a].start.unix_nanos as int].1) by {
                if a != i {
                    assert(s[a] == before[a]);
                    if a < i {
                        assert(before[a].start.unix_nanos < before[i as int].start.unix_nanos);
                    } else {
                        assert(before[i as int].start.unix_nanos < before[a].start.unix_nanos);
                    }
                }
            }
            assert forall|k: int| #[trigger] m2.contains_key(k) implies exists|a: int| 0 <= a < s.len() && s[a].start.unix_nanos == k by {
                let a = choose|a: int| 0 <= a < before.len() && before[a].start.unix_nanos == k;
                assert(s[a].start.unix_nanos == k);
            }
        }
    } else {
        let mut entries: Vec<KeyAcc> = Vec::new();
        entries.push(KeyAcc { state, app_id: copy_app(app), seconds: secs });
        let bucket = BucketAcc { start: b, entries };
        proof {
            if m.contains_key(n) {
                let j = choose|j: int| 0 <= j < bs@.len() && bs@[j].start.unix_nanos == n;
                if j >= i {
                    if j > i {
                        assert(bs@[i as int].start.unix_nanos < bs@[j].start.unix_nanos);
                    }
                }
                assert(false);
            }
            let km1 = Map::<Key, int>::empty().insert(key, secs as int);
            assert(m2[n] == (b, km1));
            let es = bucket.entries@;
            assert(acc_key(es[0]) == key);
            assert forall|k: Key| #[trigger] km1.contains_key(k) implies exists|a: int| 0 <= a < es.len() && acc_key(es[a]) == k by {
                assert(acc_key(es[0]) == k);
            }
            assert(entries_list(es, km1));
        }
        let ghost before = bs@;
        bs.insert(i, bucket);
        proof {
            let s = bs@;
            assert forall|a: int, c: int| 0 <= a < c < s.len() implies (#[trigger] s[a]).start.unix_nanos < (#[trigger] s[c]).start.unix_nanos by {
                if a < i && c < i {
                    assert(s[a] == before[a] && s[c] == before[c]);
                } else if a < i && c == i {
                    assert(s[a] == before[a]);
                } else if a < i {
                    assert(s[a] == before[a] && s[c] == before[c - 1]);
                } else if a == i {
                    assert(s[c] == before[c - 1]);
                    if c - 1 > i {
                        assert(before[i as int].start.unix_nanos < before[c - 1].start.unix_nanos);
                    }
                } else {
                    assert(s[a] == before[a - 1] && s[c] == before[c - 1]);
                }
            }
            assert forall|a: int| 0 <= a < s.len() implies m2.contains_key((#[trigger] s[a]).start.unix_nanos as int)
                && m2[s[a].start.unix_nanos as int].0 == s[a].start
                && entries_list(s[a].entries@, m2[s[a].start.unix_nanos as int].1) by {
                if a < i {
                    assert(s[a] == before[a]);
                } else if a > i {
                    assert(s[a] == before[a - 1]);
                    if a - 1 > i {
                        assert(before[i as int].start.unix_nanos < before[a - 1].start.unix_nanos);
                    }
                }
            }
            assert forall|k: int| #[trigger] m2.contains_key(k) implies exists|a: int| 0 <= a < s.len() && s[a].start.unix_nanos == k by {
                if k == n {
                    assert(s[i as int].start.unix_nanos == k);
                } else {
                    let a = choose|a: int| 0 <= a < before.len() && before[a].start.unix_nanos == k;
                    if a < i {
                        assert(s[a].start.unix_nanos == k);
                    } else {
                        assert(s[a + 1].start.unix_nanos == k);
                    }
                }
            }
        }
    }
}

/// Whether an instant is far enough from the ends of the calendar range that
/// quarter hours around it, at any offset, stay inside it.
pub open spec fn roomy(t: Timestamp) -> bool {
    &&& offset_ok(t.offset_seconds as int)
    &&& MIN_LOCAL_SECOND + MAX_OFFSET_SECONDS + 900 <= floor_seconds(t.unix_nanos as int)
    &&& floor_seconds(t.unix_nanos as int) <= MAX_LOCAL_SECOND - MAX_OFFSET_SECONDS - 900
}

/// Whether all the instants that slicing reads are roomy.
pub open spec fn slicing_ok(segs: Seq<FocusSegment>, range: ContextRange) -> bool {
    &&& roomy(range.start)
    &&& roomy(range.end)
    &&& forall|i: int| 0 <= i < segs.len() ==> roomy(#[trigger] segs[i].started_at)
        && (segs[i].ended_at matches Some(e) ==> roomy(e))
}

/// Whether an instant is roomy.
pub fn is_roomy(t: Timestamp) -> (r: bool)
    ensures
        r == roomy(t),
{
    if t.offset_seconds < -MAX_OFFSET_SECONDS || t.offset_seconds > MAX_OFFSET_SECONDS {
        return false;
    }
    let seconds = t.unix_nanos.checked_div_euclid(NANOS_PER_SECOND).unwrap();
    let low: i128 = MIN_LOCAL_SECOND as i128 + MAX_OFFSET_SECONDS as i128 + 900;
    let high: i128 = MAX_LOCAL_SECOND as i128 - MAX_OFFSET_SECONDS as i128 - 900;
    low <= seconds && seconds <= high
}

/// Whether all the instants that slicing reads are roomy.
pub fn slicing_in_range(segments: &[FocusSegment], range: ContextRange) -> (r: bool)
    ensures
        r == slicing_ok(segments@, range),
{
    if !is_roomy(range.start) || !is_roomy(range.end) {
        return false;
    }
    let mut i: usize = 0;
    while i < segments.len()
        invariant
            i <= segments@.len(),
            roomy(range.start),
            roomy(range.end),
            forall|j: int| 0 <= j < i ==> seg_roomy(#[trigger] segments@[j]),
        decreases segments@.len() - i,
    {
        let seg = &segments[i];
        if !is_roomy(seg.started_at) {
            return false;
        }
        if let Some(e) = seg.ended_at {
            if !is_roomy(e) {
                return false;
            }
        }
        assert(seg_roomy(segments@[i as int]));
        i = i + 1;
    }
    assert forall|j: int| 0 <= j < segments@.len() implies roomy(#[trigger] segments@[j].started_at)
        && (segments@[j].ended_at matches Some(e) ==> roomy(e)) by {
        assert(seg_roomy(segments@[j]));
    }
    true
}

spec fn seg_roomy(seg: FocusSegment) -> bool {
    roomy(seg.started_at) && match seg.ended_at {
        Some(e) => roomy(e),
        None => true,
    }
}

proof fn lemma_roomy_wf(t: Timestamp)
    requires
        roomy(t),
    ensures
        t.wf(),
{
}

proof fn lemma_floor_seconds_mono(a: int, b: int)
    requires
        a <= b,
    ensures
        floor_seconds(a) <= floor_seconds(b),
{
    assert(a / 1_000_000_000 <= b / 1_000_000_000) by (nonlinear_arith)
        requires a <= b;
}

proof fn lemma_roomy_between(lo: Timestamp, t: Timestamp, hi: Timestamp)
    requires
        roomy(lo),
        roomy(hi),
        offset_ok(t.offset_seconds as int),
        lo.unix_nanos <= t.unix_nanos <= hi.unix_nanos,
    ensures
        roomy(t),
{
    lemma_floor_seconds_mono(lo.unix_nanos as int, t.unix_nanos as int);
    lemma_floor_seconds_mono(t.unix_nanos as int, hi.unix_nanos as int);
}

/// The totals of all segments inside the range, listed in time order.
fn accumulate(segments: &[FocusSegment], range: ContextRange) -> (acc: Vec<BucketAcc>)
    requires
        slicing_ok(segments@, range),
        fits(activity_map(segments@, range)),
    ensures
        buckets_list(acc@, activity_map(segments@, range)),
        starts_ok(activity_map(segments@, range)),
{
    let mut acc: Vec<BucketAcc> = Vec::new();
    let n = segments.len();
    let mut k: usize = 0;
    proof {
        assert(add_segments(segments@, range, 0) == Map::<int, (Timestamp, Map<Key, int>)>::empty());
    }
    while k < n
        invariant
            k <= n,
            n == segments@.len(),
            slicing_ok(segments@, range),
            fits(activity_map(segments@, range)),
            buckets_list(acc@, add_segments(segments@, range, k as int)),
            starts_ok(add_segments(segments@, range, k as int)),
        decreases n - k,
    {
        let seg = &segments[k];
        let ghost key = seg_key(*seg);
        let ghost target = add_segments(segments@, range, k + 1);
        proof {
            assert(target == add_pieces(add_segments(segments@, range, k as int), seg_pieces(*seg, range), key));
            lemma_add_segments_mono(segments@, range, k + 1, n as int);
            lemma_nonneg_segments(segments@, range, n as int);
        }
        match seg.ended_at {
            None => {
                proof {
                    assert(seg_pieces(*seg, range) == Seq::<(Timestamp, int)>::empty());
                }
            },
            Some(segment_end) => {
                let mut cursor = if seg.started_at.unix_nanos > range.start.unix_nanos { seg.started_at } else { range.start };
                let effective_end = if segment_end.unix_nanos <= range.end.unix_nanos { segment_end } else { range.end };
                let ghost mut macc = add_segments(segments@, range, k as int);
                proof {
                    assert(roomy(seg.started_at));
                    assert(roomy(segment_end));
                    assert(seg_pieces(*seg, range) == piece_list(cursor, effective_end));
                    lemma_add_pieces_nonneg(add_segments(segments@, range, k as int), piece_list(cursor, effective_end), key);
                }
                while cursor.unix_nanos < effective_end.unix_nanos
                    invariant
                        roomy(cursor),
                        roomy(effective_end),
                        buckets_list(acc@, macc),
                        starts_ok(macc),
                        nonneg(macc),
                        add_pieces(macc, piece_list(cursor, effective_end), key) == target,
                        dominated(target, activity_map(segments@, range)),
                        fits(activity_map(segments@, range)),
                        key == (seg.state, opt_view(seg.app_id)),
                    decreases effective_end.unix_nanos - cursor.unix_nanos,
                {
                    proof {
                        lemma_roomy_wf(cursor);
                        lemma_floor_to_bucket(cursor);
                    }
                    let bucket_start = floor_to_activity_bucket(cursor);
                    proof {
                        lemma_roomy_wf(effective_end);
                        assert(bucket_start.shifted(900 * NANOS_PER_SECOND).wf());
                    }
                    let bucket_end = bucket_start.add(Span::seconds(ACTIVITY_BUCKET_SECONDS));
                    let piece_end = if effective_end.unix_nanos <= bucket_end.unix_nanos { effective_end } else { bucket_end };
                    let span = piece_end.since(&cursor);
                    let whole = span.whole_seconds();
                    proof {
                        assert(whole == whole_seconds_of(piece_end.unix_nanos - cursor.unix_nanos));
                        assert(0 <= whole <= 900) by {
                            let d = piece_end.unix_nanos - cursor.unix_nanos;
                            assert(0 < d <= 900 * 1_000_000_000);
                            assert(d / 1_000_000_000 <= 900) by (nonlinear_arith)
                                requires d <= 900 * 1_000_000_000, d > 0;
                        }
                        let ps = piece_list(cursor, effective_end);
                        assert(bucket_end == bucket_end_of(bucket_start));
                        assert(piece_end == min_ts(effective_end, bucket_end_of(bucket_start)));
                        assert(ps == seq![(bucket_start, whole as int)] + piece_list(piece_end, effective_end));
                        assert(ps[0] == (bucket_start, whole as int));
                        assert(ps.drop_first() =~= piece_list(piece_end, effective_end));
                    }
                    let secs = whole as u64;
                    if secs > 0 {
                        proof {
                            let m1 = add_secs(macc, bucket_start, key, secs as int);
                            lemma_add_pieces_dominates(m1, piece_list(piece_end, effective_end), key);
                            lemma_dominated_trans(m1, target, activity_map(segments@, range));
                            lemma_add_secs_nonneg(macc, bucket_start, key, secs as int);
                            lemma_fits_dominated(m1, activity_map(segments@, range));
                        }
                        add_to_buckets(&mut acc, bucket_start, seg.state, &seg.app_id, secs, Ghost(macc));
                    }
                    proof {
                        lemma_add_secs_nonneg(macc, bucket_start, key, secs as int);
                        assert(starts_ok(add_secs(macc, bucket_start, key, secs as int)));
                        macc = add_secs(macc, bucket_start, key, secs as int);
                        lemma_roomy_between(cursor, piece_end, effective_end);
                    }
                    cursor = piece_end;
                }
                proof {
                    assert(piece_list(cursor, effective_end) == Seq::<(Timestamp, int)>::empty());
                    assert(macc == target);
                }
            },
        }
        k = k + 1;
    }
    acc
}

/// Whether every recorded bucket start, and the end of its quarter hour, is
/// well formed.
pub open spec fn starts_ok(m: ActivityMap) -> bool {
    forall|n: int| #[trigger] m.contains_key(n) ==> m[n].0.wf() && bucket_end_of(m[n].0).wf()
        && m[n].0.unix_nanos == n
}

/// Whether every total is non-negative.
spec fn nonneg(m: ActivityMap) -> bool {
    forall|n: int, k: Key| #[trigger] m.contains_key(n) && m[n].1.contains_key(k) ==> 0 <= #[trigger] m[n].1[k]
}

proof fn lemma_add_pieces_nonneg(m: ActivityMap, ps: Seq<(Timestamp, int)>, key: Key)
    requires
        nonneg(m),
    ensures
        nonneg(add_pieces(m, ps, key)),
    decreases ps.len(),
{
    if ps.len() > 0 {
        lemma_add_secs_nonneg(m, ps[0].0, key, ps[0].1);
        lemma_add_pieces_nonneg(add_secs(m, ps[0].0, key, ps[0].1), ps.drop_first(), key);
    }
}

proof fn lemma_nonneg_segments(segs: Seq<FocusSegment>, range: ContextRange, k: int)
    ensures
        nonneg(add_segments(segs, range, k)),
    decreases k,
{
    if k > 0 {
        lemma_nonneg_segments(segs, range, k - 1);
        lemma_add_pieces_nonneg(add_segments(segs, range, k - 1), seg_pieces(segs[k - 1], range), seg_key(segs[k - 1]));
    }
}


/// Whether a segment ends after the next one starts.
pub open spec fn pair_bad(segs: Seq<FocusSegment>, i: int) -> bool {
    segs[i].ended_at matches Some(e) && segs[i + 1].started_at.unix_nanos < e.unix_nanos
}

/// The error for an overlapping pair.
pub open spec fn pair_error(segs: Seq<FocusSegment>, i: int) -> CoreError {
    CoreError::NonChronologicalTransition { previous: segs[i].ended_at->0, current: segs[i + 1].started_at }
}

/// Whether no segment ends after the next one starts.
pub open spec fn segments_ordered(segs: Seq<FocusSegment>) -> bool {
    forall|i: int| 0 <= i < segs.len() - 1 ==> !pair_bad(segs, i)
}

/// The positive seconds of pieces, summed.
pub open spec fn piece_seconds(ps: Seq<(Timestamp, int)>) -> int
    decreases ps.len(),
{
    if ps.len() == 0 {
        0
    } else {
        (if ps[0].1 > 0 { ps[0].1 } else { 0 }) + piece_seconds(ps.drop_first())
    }
}

/// The whole seconds from one instant to a later one; zero otherwise.
pub open spec fn seconds_between(from: Timestamp, to: Timestamp) -> int {
    if from.unix_nanos < to.unix_nanos {
        (to.unix_nanos - from.unix_nanos) / (NANOS_PER_SECOND as int)
    } else {
        0
    }
}

/// Whether every total of a map is at most `bound`.
pub open spec fn bounded_by(m: ActivityMap, bound: int) -> bool {
    forall|n: int, k: Key| #[trigger] m.contains_key(n) && m[n].1.contains_key(k) ==> #[trigger] m[n].1[k] <= bound
}

proof fn lemma_piece_list_seconds(cursor: Timestamp, end: Timestamp)
    ensures
        piece_seconds(piece_list(cursor, end)) <= seconds_between(cursor, end),
    decreases end.unix_nanos - cursor.unix_nanos,
{
    let b = spec_floor_to_bucket(cursor);
    let pe = min_ts(end, bucket_end_of(b));
    if cursor.unix_nanos < end.unix_nanos && cursor.unix_nanos < pe.unix_nanos {
        lemma_piece_list_seconds(pe, end);
        let ps = piece_list(cursor, end);
        assert(ps.drop_first() == piece_list(pe, end));
        let a = pe.unix_nanos - cursor.unix_nanos;
        let c = end.unix_nanos - pe.unix_nanos;
        assert(a > 0 && c >= 0);
        assert(whole_seconds_of(a) == a / 1_000_000_000);
        assert(a / 1_000_000_000 + c / 1_000_000_000 <= (a + c) / 1_000_000_000) by (nonlinear_arith)
            requires a >= 0, c >= 0;
    }
}

proof fn lemma_add_secs_bounded(m: ActivityMap, b: Timestamp, key: Key, s: int, bound: int)
    requires
        bounded_by(m, bound),
        bound >= 0,
    ensures
        bounded_by(add_secs(m, b, key, s), bound + (if s > 0 { s } else { 0 })),
{
    let r = add_secs(m, b, key, s);
    let top = bound + (if s > 0 { s } else { 0 });
    assert forall|n: int, k: Key| #[trigger] r.contains_key(n) && r[n].1.contains_key(k) implies #[trigger] r[n].1[k] <= top by {
        let bn = b.unix_nanos as int;
        if s > 0 && n == bn {
            if m.contains_key(n) {
                if k != key {
                    assert(m[n].1.contains_key(k));
                }
            }
        } else {
            assert(m.contains_key(n) && m[n].1.contains_key(k));
        }
    }
}

proof fn lemma_add_pieces_bounded(m: ActivityMap, ps: Seq<(Timestamp, int)>, key: Key, bound: int)
    requires
        bounded_by(m, bound),
        bound >= 0,
    ensures
        bounded_by(add_pieces(m, ps, key), bound + piece_seconds(ps)),
    decreases ps.len(),
{
    if ps.len() > 0 {
        let step = if ps[0].1 > 0 { ps[0].1 } else { 0 };
        lemma_add_secs_bounded(m, ps[0].0, key, ps[0].1, bound);
        lemma_add_pieces_bounded(add_secs(m, ps[0].0, key, ps[0].1), ps.drop_first(), key, bound + step);
    }
}

proof fn lemma_add_segments_bounded(segs: Seq<FocusSegment>, range: ContextRange, k: int)
    requires
        0 <= k <= segs.len(),
    ensures
        bounded_by(add_segments(segs, range, k), k * seconds_between(range.start, range.end)),
    decreases k,
{
    let total = seconds_between(range.start, range.end);
    assert(total >= 0);
    if k <= 0 {
        assert(bounded_by(add_segments(segs, range, k), 0));
    } else {
        lemma_add_segments_bounded(segs, range, k - 1);
        let prior = (k - 1) * total;
        assert((k - 1) * total >= 0) by (nonlinear_arith) requires k >= 1, total >= 0;
        let seg = segs[k - 1];
        let ps = seg_pieces(seg, range);
        if let Some(e) = seg.ended_at {
            let from = max_ts(seg.started_at, range.start);
            let to = min_ts(e, range.end);
            lemma_piece_list_seconds(from, to);
            if from.unix_nanos < to.unix_nanos {
                let x = to.unix_nanos - from.unix_nanos;
                let y = range.end.unix_nanos - range.start.unix_nanos;
                assert(x <= y);
                assert(x / 1_000_000_000 <= y / 1_000_000_000) by (nonlinear_arith) requires x <= y, x > 0;
            }
        } else {
            assert(piece_seconds(ps) == 0);
        }
        assert(piece_seconds(ps) <= total);
        lemma_add_pieces_bounded(add_segments(segs, range, k - 1), ps, seg_key(seg), prior);
        let m = add_segments(segs, range, k);
        assert(prior + total == k * total) by (nonlinear_arith) requires prior == (k - 1) * total;
        assert forall|n: int, kk: Key| #[trigger] m.contains_key(n) && m[n].1.contains_key(kk) implies #[trigger] m[n].1[kk] <= k * total by {
        }
    }
}

/// Whether the totals of slicing fit in 64 bits however the segments lie:
/// the number of segments times the whole seconds of the range is at most
/// `u64::MAX`, and no total can exceed that product.
pub fn totals_fit(segments: &[FocusSegment], range: ContextRange) -> (r: bool)
    requires
        range.start.wf(),
        range.end.wf(),
    ensures
        r == (segments@.len() * seconds_between(range.start, range.end) <= u64::MAX),
        r ==> fits(activity_map(segments@, range)),
{
    proof {
        crate::instant::lemma_wf_nanos_bounds(range.start);
        crate::instant::lemma_wf_nanos_bounds(range.end);
    }
    let seconds: u128 = if range.start.unix_nanos < range.end.unix_nanos {
        ((range.end.unix_nanos - range.start.unix_nanos) / NANOS_PER_SECOND) as u128
    } else {
        0
    };
    let count = segments.len() as u128;
    proof {
        assert(seconds <= 1_000_000_000_000);
        assert(count * seconds <= 0xffff_ffff_ffff_ffff * 1_000_000_000_000) by (nonlinear_arith)
            requires count <= 0xffff_ffff_ffff_ffff, seconds <= 1_000_000_000_000;
    }
    let r = count * seconds <= u64::MAX as u128;
    proof {
        if r {
            let m = activity_map(segments@, range);
            lemma_add_segments_bounded(segments@, range, segments@.len() as int);
            lemma_nonneg_segments(segments@, range, segments@.len() as int);
            assert forall|n: int, k: Key| #[trigger] m.contains_key(n) && m[n].1.contains_key(k) implies 0 <= #[trigger] m[n].1[k] <= u64::MAX by {
            }
        }
    }
    r
}

/// Checks that each closed segment ends no later than the next one starts;
/// the first overlap decides the error.
pub fn validate_segments(segments: &[FocusSegment]) -> (r: Result<(), CoreError>)
    ensures
        r is Ok <==> segments_ordered(segments@),
        r matches Err(e) ==> exists|i: int| 0 <= i < segments@.len() - 1 && pair_bad(segments@, i)
            && e == pair_error(segments@, i)
            && forall|j: int| 0 <= j < i ==> !pair_bad(segments@, j),
{
    let n = segments.len();
    let mut i: usize = 0;
    while n > 0 && i < n - 1
        invariant
            n == segments@.len(),
            i <= n,
            forall|j: int| 0 <= j < i && j < n - 1 ==> !pair_bad(segments@, j),
        decreases n - i,
    {
        if let Some(e) = segments[i].ended_at {
            if segments[i + 1].started_at.unix_nanos < e.unix_nanos {
                let err = CoreError::NonChronologicalTransition { previous: e, current: segments[i + 1].started_at };
                proof { assert(pair_bad(segments@, i as int) && err == pair_error(segments@, i as int)); }
                return Err(err);
            }
        }
        i = i + 1;
    }
    Ok(())
}

/// Whether keys list the keys of a bucket in order.
pub open spec fn keys_listing(keys: Seq<Key>, km: Map<Key, int>) -> bool {
    &&& forall|i: int, j: int| 0 <= i < j < keys.len() ==> key_lt(#[trigger] keys[i], #[trigger] keys[j])
    &&& forall|i: int| 0 <= i < keys.len() ==> km.contains_key(#[trigger] keys[i])
    &&& forall|k: Key| #[trigger] km.contains_key(k) ==> exists|i: int| 0 <= i < keys.len() && keys[i] == k
}

/// Whether duration entries give the totals of a bucket, one per key in key
/// order, with each identity sanitized.
pub open spec fn durations_match(ds: Seq<DurationEntry>, km: Map<Key, int>) -> bool {
    exists|keys: Seq<Key>| #[trigger] keys_listing(keys, km) && keys.len() == ds.len()
        && forall|i: int| 0 <= i < ds.len() ==> (#[trigger] ds[i]).state_view() == keys[i].0
            && ds[i].app_view() == sanitized_app(keys[i].0, keys[i].1)->0
            && ds[i].seconds_view() == km[keys[i]]
}

/// Whether slices list the activity totals: one per bucket, in time order.
pub open spec fn slices_match(res: Seq<ActivitySlice>, m: ActivityMap) -> bool {
    &&& forall|i: int, j: int| 0 <= i < j < res.len() ==> (#[trigger] res[i]).start.unix_nanos < (#[trigger] res[j]).start.unix_nanos
    &&& forall|i: int| 0 <= i < res.len() ==> m.contains_key((#[trigger] res[i]).start.unix_nanos as int)
        && m[res[i].start.unix_nanos as int].0 == res[i].start
        && res[i].end == bucket_end_of(res[i].start)
        && durations_match(res[i].durations@, m[res[i].start.unix_nanos as int].1)
    &&& forall|n: int| #[trigger] m.contains_key(n) ==> exists|i: int| 0 <= i < res.len() && res[i].start.unix_nanos == n
}

/// Whether some total is kept under an observed key without an identity.
pub open spec fn has_missing_identity(m: ActivityMap) -> bool {
    exists|n: int, k: Key| #[trigger] m.contains_key(n) && #[trigger] m[n].1.contains_key(k) && sanitized_app(k.0, k.1) is None
}

/// What projecting segments onto a range gives: the first overlap between
/// consecutive segments as an error; else an error when an observed total has
/// no identity; else the slices that list the totals.
pub open spec fn slices_outcome(segs: Seq<FocusSegment>, range: ContextRange, r: Result<Vec<ActivitySlice>, CoreError>) -> bool {
    &&& !segments_ordered(segs) ==> (r matches Err(e) && exists|i: int| 0 <= i < segs.len() - 1
            && pair_bad(segs, i) && e == pair_error(segs, i)
            && forall|j: int| 0 <= j < i ==> !pair_bad(segs, j))
    &&& segments_ordered(segs) && has_missing_identity(activity_map(segs, range))
            ==> r == Err::<Vec<ActivitySlice>, CoreError>(CoreError::MissingObservedAppId)
    &&& segments_ordered(segs) && !has_missing_identity(activity_map(segs, range))
            ==> (r matches Ok(res) && slices_match(res@, activity_map(segs, range)))
}

/// The duration entries of one bucket.
fn bucket_durations(es: &Vec<KeyAcc>, Ghost(km): Ghost<Map<Key, int>>) -> (r: Result<Vec<DurationEntry>, CoreError>)
    requires
        entries_list(es@, km),
    ensures
        match r {
            Ok(ds) => durations_match(ds@, km) && forall|k: Key| #[trigger] km.contains_key(k) ==> sanitized_app(k.0, k.1) is Some,
            Err(e) => e == CoreError::MissingObservedAppId && exists|k: Key| #[trigger] km.contains_key(k) && sanitized_app(k.0, k.1) is None,
        },
{
    let mut ds: Vec<DurationEntry> = Vec::new();
    let mut i: usize = 0;
    while i < es.len()
        invariant
            i <= es@.len(),
            entries_list(es@, km),
            ds@.len() == i,
            forall|j: int| 0 <= j < i ==> (#[trigger] ds@[j]).state == es@[j].state
                && ds@[j].app_view() == sanitized_app(es@[j].state, opt_view(es@[j].app_id))->0
                && ds@[j].seconds == es@[j].seconds
                && sanitized_app(es@[j].state, opt_view(es@[j].app_id)) is Some,
        decreases es@.len() - i,
    {
        let e = &es[i];
        match DurationEntry::new(e.state, copy_app(&e.app_id), e.seconds) {
            Ok(d) => { ds.push(d); },
            Err(err) => {
                proof { assert(km.contains_key(acc_key(es@[i as int]))); }
                return Err(err);
            },
        }
        i = i + 1;
    }
    proof {
        let keys = es@.map_values(|e: KeyAcc| acc_key(e));
        assert forall|k: Key| #[trigger] km.contains_key(k) implies exists|a: int| 0 <= a < keys.len() && keys[a] == k by {
            let a = choose|a: int| 0 <= a < es@.len() && acc_key(es@[a]) == k;
            assert(keys[a] == k);
        }
        assert(keys_listing(keys, km));
        assert forall|k: Key| #[trigger] km.contains_key(k) implies sanitized_app(k.0, k.1) is Some by {
            let a = choose|a: int| 0 <= a < es@.len() && acc_key(es@[a]) == k;
            assert(ds@[a].state == es@[a].state);
        }
    }
    Ok(ds)
}

/// Projects segments onto the quarter-hour slices of a range. Segments must
/// not overlap (the first overlap is an error); open segments are skipped.
/// Each slice lists, per state and identity, the whole seconds its pieces
/// spent there; an observed segment without identity is an error.
pub fn build_slices(segments: &[FocusSegment], range: ContextRange) -> (r: Result<Vec<ActivitySlice>, CoreError>)
    requires
        slicing_ok(segments@, range),
        segments_ordered(segments@) ==> fits(activity_map(segments@, range)),
    ensures
        slices_outcome(segments@, range, r),
{
    validate_segments(segments)?;
    let acc = accumulate(segments, range);
    let ghost m = activity_map(segments@, range);
    let mut out: Vec<ActivitySlice> = Vec::new();
    let mut i: usize = 0;
    while i < acc.len()
        invariant
            i <= acc@.len(),
            buckets_list(acc@, m),
            starts_ok(m),
            m == activity_map(segments@, range),
            segments_ordered(segments@),
            out@.len() == i,
            forall|j: int| 0 <= j < i ==> (#[trigger] out@[j]).start == acc@[j].start
                && out@[j].end == bucket_end_of(acc@[j].start)
                && durations_match(out@[j].durations@, m[acc@[j].start.unix_nanos as int].1),
            forall|j: int, k: Key| 0 <= j < i && #[trigger] m[acc@[j].start.unix_nanos as int].1.contains_key(k)
                ==> #[trigger] sanitized_app(k.0, k.1) is Some,
        decreases acc@.len() - i,
    {
        let bucket = &acc[i];
        let ghost n = bucket.start.unix_nanos as int;
        proof { assert(m.contains_key(n)); }
        let durations = match bucket_durations(&bucket.entries, Ghost(m[n].1)) {
            Ok(ds) => ds,
            Err(e) => {
                proof {
                    let k = choose|k: Key| #[trigger] m[n].1.contains_key(k) && sanitized_app(k.0, k.1) is None;
                    assert(m.contains_key(n) && m[n].1.contains_key(k));
                    assert(has_missing_identity(m));
                }
                return Err(e);
            },
        };
        let end = bucket.start.add(Span::seconds(ACTIVITY_BUCKET_SECONDS));
        out.push(ActivitySlice { start: bucket.start, end, durations });
        i = i + 1;
    }
    proof {
        assert(!has_missing_identity(m)) by {
            if has_missing_identity(m) {
                let (n, k) = choose|n: int, k: Key| #[trigger] m.contains_key(n) && #[trigger] m[n].1.contains_key(k) && sanitized_app(k.0, k.1) is None;
                let j = choose|j: int| 0 <= j < acc@.len() && acc@[j].start.unix_nanos == n;
                assert(m[acc@[j].start.unix_nanos as int].1.contains_key(k));
            }
        }
        let res = out@;
        assert forall|a: int, b: int| 0 <= a < b < res.len() implies (#[trigger] res[a]).start.unix_nanos < (#[trigger] res[b]).start.unix_nanos by {
            assert(acc@[a].start.unix_nanos < acc@[b].start.unix_nanos);
        }
        assert forall|a: int| 0 <= a < res.len() implies m.contains_key((#[trigger] res[a]).start.unix_nanos as int)
            && m[res[a].start.unix_nanos as int].0 == res[a].start
            && res[a].end == bucket_end_of(res[a].start)
            && durations_match(res[a].durations@, m[res[a].start.unix_nanos as int].1) by {
            assert(res[a].start == acc@[a].start);
        }
        assert forall|n: int| #[trigger] m.contains_key(n) implies exists|a: int| 0 <= a < res.len() && res[a].start.unix_nanos == n by {
            let a = choose|a: int| 0 <= a < acc@.len() && acc@[a].start.unix_nanos == n;
            assert(res[a].start == acc@[a].start);
        }
    }
    Ok(out)
}


/// The end of the last closed segment.
pub open spec fn last_end(segs: Seq<FocusSegment>) -> Option<Timestamp>
    decreases segs.len(),
{
    if segs.len() == 0 {
        None
    } else {
        match segs.last().ended_at {
            Some(e) => Some(e),
            None => last_end(segs.drop_last()),
        }
    }
}

/// The range that segments cover: from the first start to the last end.
pub open spec fn projection_range(segs: Seq<FocusSegment>) -> Option<ContextRange> {
    if segs.len() == 0 {
        None
    } else {
        match last_end(segs) {
            Some(e) => Some(ContextRange { start: segs[0].started_at, end: e }),
            None => None,
        }
    }
}

/// Projects segments onto slices over the range they cover, from the first
/// start to the last end; no closed segment gives no slices.
pub fn project_activity_slices(segments: &[FocusSegment]) -> (r: Result<Vec<ActivitySlice>, CoreError>)
    requires
        match projection_range(segments@) {
            Some(rg) => rg.start.unix_nanos < rg.end.unix_nanos
                ==> slicing_ok(segments@, rg) && (segments_ordered(segments@) ==> fits(activity_map(segments@, rg))),
            None => true,
        },
    ensures
        match projection_range(segments@) {
            None => r matches Ok(v) && v@.len() == 0,
            Some(rg) => if rg.end.unix_nanos <= rg.start.unix_nanos {
                r == Err::<Vec<ActivitySlice>, CoreError>(CoreError::InvalidRange { start: rg.start, end: rg.end })
            } else {
                slices_outcome(segments@, rg, r)
            },
        },
{
    if segments.len() == 0 {
        return Ok(Vec::new());
    }
    let start = segments[0].started_at;
    let mut i: usize = segments.len();
    let mut end: Option<Timestamp> = None;
    proof { assert(segments@.take(i as int) =~= segments@); }
    while i > 0 && end.is_none()
        invariant
            i <= segments@.len(),
            segments@.len() > 0,
            end is None ==> last_end(segments@) == last_end(segments@.take(i as int)),
            end matches Some(e) ==> last_end(segments@) == Some(e),
        decreases i + if end is None { 1int } else { 0int },
    {
        proof {
            assert(segments@.take(i as int).drop_last() =~= segments@.take(i - 1));
            assert(segments@.take(i as int).last() == segments@[i - 1]);
        }
        match segments[i - 1].ended_at {
            Some(e) => { end = Some(e); },
            None => { i = i - 1; },
        }
    }
    proof {
        if end is None {
            assert(segments@.take(0) =~= Seq::<FocusSegment>::empty());
        }
    }
    let end = match end {
        Some(e) => e,
        None => return Ok(Vec::new()),
    };
    let range = ContextRange::new(start, end)?;
    build_slices(segments, range)
}

/// Whether two slices hold the same data.
pub open spec fn same_slice(a: ActivitySlice, b: ActivitySlice) -> bool {
    a.start == b.start && a.end == b.end && a.durations@ == b.durations@
}

fn copy_duration(d: &DurationEntry) -> (r: DurationEntry)
    ensures
        r == *d,
{
    DurationEntry { state: d.state, app_id: copy_app(&d.app_id), seconds: d.seconds }
}

/// A copy of a slice.
pub fn copy_slice(s: &ActivitySlice) -> (r: ActivitySlice)
    ensures
        same_slice(r, *s),
{
    let mut durations: Vec<DurationEntry> = Vec::new();
    let mut i: usize = 0;
    while i < s.durations.len()
        invariant
            i <= s.durations@.len(),
            durations@ == s.durations@.take(i as int),
        decreases s.durations@.len() - i,
    {
        durations.push(copy_duration(&s.durations[i]));
        proof { assert(s.durations@.take(i + 1) =~= s.durations@.take(i as int).push(s.durations@[i as int])); }
        i = i + 1;
    }
    proof { assert(s.durations@.take(s.durations@.len() as int) =~= s.durations@); }
    ActivitySlice { start: s.start, end: s.end, durations }
}

/// Whether a slice overlaps the range from `start` to `end`.
pub open spec fn overlaps(s: ActivitySlice, start: Timestamp, end: Timestamp) -> bool {
    s.start.unix_nanos < end.unix_nanos && s.end.unix_nanos > start.unix_nanos
}

proof fn lemma_filter_push<A>(s: Seq<A>, p: spec_fn(A) -> bool, x: A)
    ensures
        s.push(x).filter(p) == if p(x) { s.filter(p).push(x) } else { s.filter(p) },
{
    reveal(Seq::filter);
    assert(s.push(x).drop_last() =~= s);
}

/// The slices that overlap the range from `start` to `end`, which must come
/// after `start`.
pub fn context_in_range(slices: &[ActivitySlice], start: Timestamp, end: Timestamp) -> (r: Result<ContextBrief, CoreError>)
    ensures
        end.unix_nanos <= start.unix_nanos ==> r == Err::<ContextBrief, CoreError>(CoreError::InvalidRange { start, end }),
        start.unix_nanos < end.unix_nanos ==> (r matches Ok(b) && b.start == start && b.end == end
            && b.slices@.len() == slices@.filter(|s: ActivitySlice| overlaps(s, start, end)).len()
            && forall|i: int| 0 <= i < b.slices@.len() ==> same_slice(#[trigger] b.slices@[i],
                slices@.filter(|s: ActivitySlice| overlaps(s, start, end))[i])),
{
    if end.unix_nanos <= start.unix_nanos {
        return Err(CoreError::InvalidRange { start, end });
    }
    let ghost pred = |s: ActivitySlice| overlaps(s, start, end);
    let mut out: Vec<ActivitySlice> = Vec::new();
    let mut i: usize = 0;
    while i < slices.len()
        invariant
            i <= slices@.len(),
            pred == (|s: ActivitySlice| overlaps(s, start, end)),
            out@.len() == slices@.take(i as int).filter(pred).len(),
            forall|j: int| 0 <= j < out@.len() ==> same_slice(#[trigger] out@[j], slices@.take(i as int).filter(pred)[j]),
        decreases slices@.len() - i,
    {
        proof {
            assert(slices@.take(i + 1) =~= slices@.take(i as int).push(slices@[i as int]));
            lemma_filter_push(slices@.take(i as int), pred, slices@[i as int]);
        }
        let s = &slices[i];
        if s.start.unix_nanos < end.unix_nanos && s.end.unix_nanos > start.unix_nanos {
            out.push(copy_slice(s));
        }
        i = i + 1;
    }
    proof { assert(slices@.take(slices@.len() as int) =~= slices@); }
    Ok(ContextBrief { start, end, slices: out })
}

/// The slices of the `lookback` before `anchor`.
pub fn recent_context(slices: &[ActivitySlice], anchor: Timestamp, lookback: Span) -> (r: Result<ContextBrief, CoreError>)
    requires
        anchor.wf(),
        lookback.wf(),
        anchor.shifted(-lookback.nanos).wf(),
    ensures
        lookback.nanos < 0 ==> r == Err::<ContextBrief, CoreError>(CoreError::InvalidRange { start: anchor, end: anchor.shifted(-lookback.nanos) }),
        lookback.nanos == 0 ==> r == Err::<ContextBrief, CoreError>(CoreError::InvalidRange { start: anchor, end: anchor }),
        lookback.nanos > 0 ==> (r matches Ok(b) && b.start == anchor.shifted(-lookback.nanos) && b.end == anchor
            && b.slices@.len() == slices@.filter(|s: ActivitySlice| overlaps(s, b.start, anchor)).len()
            && forall|i: int| 0 <= i < b.slices@.len() ==> same_slice(#[trigger] b.slices@[i],
                slices@.filter(|s: ActivitySlice| overlaps(s, b.start, anchor))[i])),
{
    if lookback.is_negative() {
        return Err(CoreError::InvalidRange { start: anchor, end: anchor.sub(lookback) });
    }
    let start = anchor.sub(lookback);
    proof {
        if lookback.nanos == 0 {
            assert(start == anchor);
        }
    }
    context_in_range(slices, start, anchor)
}

/// The slices within `radius` of `anchor` on either side.
pub fn around_context(slices: &[ActivitySlice], anchor: Timestamp, radius: Span) -> (r: Result<ContextBrief, CoreError>)
    requires
        anchor.wf(),
        radius.wf(),
        anchor.shifted(-radius.nanos).wf(),
        anchor.shifted(radius.nanos as int).wf(),
    ensures
        radius.nanos <= 0 ==> r == Err::<ContextBrief, CoreError>(CoreError::InvalidRange {
            start: anchor.shifted(radius.nanos as int), end: anchor.shifted(-radius.nanos) }),
        radius.nanos > 0 ==> (r matches Ok(b) && b.start == anchor.shifted(-radius.nanos) && b.end == anchor.shifted(radius.nanos as int)
            && b.slices@.len() == slices@.filter(|s: ActivitySlice| overlaps(s, b.start, b.end)).len()
            && forall|i: int| 0 <= i < b.slices@.len() ==> same_slice(#[trigger] b.slices@[i],
                slices@.filter(|s: ActivitySlice| overlaps(s, b.start, b.end))[i])),
{
    if radius.is_negative() {
        return Err(CoreError::InvalidRange { start: anchor.add(radius), end: anchor.sub(radius) });
    }
    let start = anchor.sub(radius);
    let end = anchor.add(radius);
    context_in_range(slices, start, end)
}

/// The range of the `lookback` before `anchor`, which must be positive.
pub fn recent_range(anchor: Timestamp, lookback: Span) -> (r: Result<ContextRange, CoreError>)
    requires
        anchor.wf(),
        lookback.wf(),
        anchor.shifted(-lookback.nanos).wf(),
    ensures
        lookback.nanos <= 0 ==> r == Err::<ContextRange, CoreError>(CoreError::InvalidRange { start: anchor, end: anchor.shifted(-lookback.nanos) }),
        lookback.nanos > 0 ==> r == Ok::<ContextRange, CoreError>(ContextRange { start: anchor.shifted(-lookback.nanos), end: anchor }),
{
    if lookback.is_negative() || lookback.is_zero() {
        return Err(CoreError::InvalidRange { start: anchor, end: anchor.sub(lookback) });
    }
    ContextRange::new(anchor.sub(lookback), anchor)
}

/// The range within `radius` of `anchor`, which must be positive.
pub fn around_range(anchor: Timestamp, radius: Span) -> (r: Result<ContextRange, CoreError>)
    requires
        anchor.wf(),
        radius.wf(),
        anchor.shifted(-radius.nanos).wf(),
        anchor.shifted(radius.nanos as int).wf(),
    ensures
        radius.nanos <= 0 ==> r == Err::<ContextRange, CoreError>(CoreError::InvalidRange {
            start: anchor.shifted(radius.nanos as int), end: anchor.shifted(-radius.nanos) }),
        radius.nanos > 0 ==> r == Ok::<ContextRange, CoreError>(ContextRange {
            start: anchor.shifted(-radius.nanos), end: anchor.shifted(radius.nanos as int) }),
{
    if radius.is_negative() || radius.is_zero() {
        return Err(CoreError::InvalidRange { start: anchor.add(radius), end: anchor.sub(radius) });
    }
    ContextRange::new(anchor.sub(radius), anchor.add(radius))
}

/// The end of a query that has only been observed until `observed_until`:
/// the earlier of the two ends, when it is after the range's start.
pub fn effective_query_end(range: ContextRange, observed_until: Timestamp) -> (r: Option<Timestamp>)
    ensures
        r == if min_ts(range.end, observed_until).unix_nanos > range.start.unix_nanos {
            Some(min_ts(range.end, observed_until))
        } else {
            None::<Timestamp>
        },
{
    let end = if range.end.unix_nanos <= observed_until.unix_nanos { range.end } else { observed_until };
    if end.unix_nanos > range.start.unix_nanos {
        Some(end)
    } else {
        None
    }
}


/// Laws of the activity projection.
///
/// Projection never reveals what was on screen for time that was not
/// observed: in a successful projection, a duration of any other state holds
/// no application identity.
pub proof fn law_projection_keeps_identity_only_when_observed(
    segs: Seq<FocusSegment>,
    range: ContextRange,
    r: Result<Vec<ActivitySlice>, CoreError>,
)
    requires
        slices_outcome(segs, range, r),
    ensures
        r matches Ok(res) ==> forall|i: int, j: int| 0 <= i < res@.len() && 0 <= j < res@[i].durations@.len()
            && (#[trigger] res@[i].durations@[j]).state_view() != FocusState::Observed
            ==> res@[i].durations@[j].app_view() is None,
{
    if let Ok(res) = r {
        assert forall|i: int, j: int| 0 <= i < res@.len() && 0 <= j < res@[i].durations@.len()
            && (#[trigger] res@[i].durations@[j]).state_view() != FocusState::Observed
            implies res@[i].durations@[j].app_view() is None by {
            let m = activity_map(segs, range);
            let km = m[res@[i].start.unix_nanos as int].1;
            assert(durations_match(res@[i].durations@, km));
            let keys = choose|keys: Seq<Key>| #[trigger] keys_listing(keys, km) && keys.len() == res@[i].durations@.len()
                && forall|x: int| 0 <= x < res@[i].durations@.len() ==> (#[trigger] res@[i].durations@[x]).state_view() == keys[x].0
                    && res@[i].durations@[x].app_view() == sanitized_app(keys[x].0, keys[x].1)->0
                    && res@[i].durations@[x].seconds_view() == km[keys[x]];
            assert(res@[i].durations@[j].state_view() == keys[j].0);
        }
    }
}


/// Reduction never makes overlapping segments: each reduced segment ends
/// where the next one starts, so reduced segments always project.
pub proof fn law_reduced_segments_are_ordered(transitions: Seq<FocusTransition>, end_at: Timestamp, segs: Seq<FocusSegment>)
    requires
        segs.len() == transitions.len(),
        forall|i: int| 0 <= i < transitions.len() ==> segment_is(#[trigger] segs[i], transitions[i].at_view(),
            Some(reduce_end(transitions, end_at, i)), transitions[i].state_view(),
            sanitized_app(transitions[i].state_view(), transitions[i].app_view())->0),
    ensures
        segments_ordered(segs),
{
    assert forall|i: int| 0 <= i < segs.len() - 1 implies !pair_bad(segs, i) by {
        assert(segment_is(segs[i], transitions[i].at_view(), Some(reduce_end(transitions, end_at, i)), transitions[i].state_view(),
            sanitized_app(transitions[i].state_view(), transitions[i].app_view())->0));
        assert(segment_is(segs[i + 1], transitions[i + 1].at_view(), Some(reduce_end(transitions, end_at, i + 1)),
            transitions[i + 1].state_view(), sanitized_app(transitions[i + 1].state_view(), transitions[i + 1].app_view())->0));
    }
}

} // verus!
