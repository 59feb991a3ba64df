//! The catalog of agent runtimes this build knows, how a runtime is found on
//! disk, how its version is judged, and the statuses reported along the way.
use std::time::Duration;

use vstd::prelude::*;

use crate::agent::{AgentConfig, AuthMethodInfo, McpServerConfig};
use crate::focus::opt_view;
use crate::protocol::{
    AgentStatus, AuthenticationStatus, AvailabilityStatus, ProcessStatus, RuntimeDescriptor, RuntimeSource,
};
use crate::text::{concat, decimal, decimal_chars, lower, string_of};

verus! {

/// A runtime of the catalog: its identity, where the package ships it, and
/// the policy applied to it.
#[derive(Debug, Clone, Copy)]
pub struct AcpRuntimeSpec {
    pub id: &'static str,
    pub label: &'static str,
    pub packaged_path: &'static str,
    pub args: &'static [&'static str],
    /// `None` leaves compatibility to the protocol handshake.
    pub minimum_version: Option<(u64, u64, u64)>,
    pub preferred_auth_method_hint: Option<&'static str>,
    pub manual_auth_instructions: Option<&'static str>,
    pub openbrief_mcp: bool,
}

/// The catalog entry of Codex: packaged, at least version 1.1.7, signing
/// in through ChatGPT by preference, and given the proposal tool server.
pub open spec fn is_codex(r: AcpRuntimeSpec) -> bool {
    &&& r.id@ == "codex"@
    &&& r.label@ == "Codex"@
    &&& r.packaged_path@ == "libexec/openbrief/codex-acp"@
    &&& r.args@.len() == 0
    &&& r.minimum_version == Some((1u64, 1u64, 7u64))
    &&& (r.preferred_auth_method_hint matches Some(h) && h@ == "chat"@)
    &&& r.manual_auth_instructions is None
    &&& r.openbrief_mcp
}

/// The catalog entry of Pi: packaged, without version policy, with manual
/// sign-in instructions, and without the proposal tool server.
pub open spec fn is_pi(r: AcpRuntimeSpec) -> bool {
    &&& r.id@ == "pi"@
    &&& r.label@ == "Pi"@
    &&& r.packaged_path@ == "libexec/openbrief/pi-acp"@
    &&& r.args@.len() == 0
    &&& r.minimum_version is None
    &&& (r.preferred_auth_method_hint matches Some(h) && h@ == "pi_terminal_login"@)
    &&& (r.manual_auth_instructions matches Some(m) && m@ == "Piのmodel providerをterminalで設定してからopenbriefdを再起動してください"@)
    &&& !r.openbrief_mcp
}

/// The Codex runtime.
pub fn codex_runtime() -> (r: AcpRuntimeSpec)
    ensures
        is_codex(r),
{
    AcpRuntimeSpec {
        id: "codex",
        label: "Codex",
        packaged_path: "libexec/openbrief/codex-acp",
        args: &[],
        minimum_version: Some((1, 1, 7)),
        preferred_auth_method_hint: Some("chat"),
        manual_auth_instructions: None,
        openbrief_mcp: true,
    }
}

/// The Pi runtime: it has no version flag, and it does not forward the
/// proposal tool server.
pub fn pi_runtime() -> (r: AcpRuntimeSpec)
    ensures
        is_pi(r),
{
    AcpRuntimeSpec {
        id: "pi",
        label: "Pi",
        packaged_path: "libexec/openbrief/pi-acp",
        args: &[],
        minimum_version: None,
        preferred_auth_method_hint: Some("pi_terminal_login"),
        manual_auth_instructions: Some("Piのmodel providerをterminalで設定してからopenbriefdを再起動してください"),
        openbrief_mcp: false,
    }
}

/// The runtime of the catalog with the given identifier.
pub fn runtime_spec(id: &str) -> (r: Option<AcpRuntimeSpec>)
    ensures
        id@ == "codex"@ ==> (r matches Some(s) && is_codex(s)),
        id@ == "pi"@ ==> (r matches Some(s) && is_pi(s)),
        id@ != "codex"@ && id@ != "pi"@ ==> r is None,
{
    proof {
        reveal_strlit("codex");
        reveal_strlit("pi");
        assert("codex"@[1] != "pi"@[1]);
    }
    let codex = codex_runtime();
    if crate::text::str_eq(codex.id, id) {
        return Some(codex);
    }
    let pi = pi_runtime();
    if crate::text::str_eq(pi.id, id) {
        return Some(pi);
    }
    None
}

/// The descriptor of a runtime found at `path`.
pub fn descriptor(spec: &AcpRuntimeSpec, source: RuntimeSource, path: String) -> (r: RuntimeDescriptor)
    ensures
        r.provider_id@ == spec.id@,
        r.label@ == spec.label@,
        r.source == source,
        r.version is None,
        r.path == path,
{
    RuntimeDescriptor {
        provider_id: spec.id.to_string(),
        label: spec.label.to_string(),
        source,
        version: None,
        path,
    }
}

/// Whether the runtime in use is that of the provider.
pub fn runtime_matches_provider(runtime: Option<&RuntimeDescriptor>, provider_id: &str) -> (r: bool)
    ensures
        r == match runtime {
            Some(d) => d.provider_id@ == provider_id@,
            None => false,
        },
{
    match runtime {
        Some(d) => crate::text::str_eq(d.provider_id.as_str(), provider_id),
        None => false,
    }
}

/// The text without its leading `v` characters.
pub open spec fn strip_v(s: Seq<char>) -> Seq<char>
    decreases s.len(),
{
    if s.len() > 0 && s[0] == 'v' { strip_v(s.drop_first()) } else { s }
}

/// The index of the first dot of a text.
pub open spec fn first_dot(s: Seq<char>) -> Option<int>
    decreases s.len(),
{
    if s.len() == 0 {
        None
    } else if s[0] == '.' {
        Some(0)
    } else {
        match first_dot(s.drop_first()) {
            Some(i) => Some(i + 1),
            None => None,
        }
    }
}

/// The parts of a text between dots, as `str::split('.')` yields them.
pub open spec fn dot_parts(s: Seq<char>) -> Seq<Seq<char>>
    decreases s.len(),
{
    match first_dot(s) {
        Some(i) => if 0 <= i < s.len() { seq![s.take(i)] + dot_parts(s.skip(i + 1)) } else { seq![s] },
        None => seq![s],
    }
}

/// The value of a text of decimal digits.
pub open spec fn digits_value(s: Seq<char>) -> nat
    decreases s.len(),
{
    if s.len() == 0 { 0 } else { digits_value(s.drop_last()) * 10 + ((s.last() as int) - ('0' as int)) as nat }
}

/// Whether every character of a text is a decimal digit.
pub open spec fn all_digits(s: Seq<char>) -> bool {
    forall|i: int| 0 <= i < s.len() ==> '0' <= #[trigger] s[i] <= '9'
}

/// The number a text denotes as `u64::from_str` reads it: an optional plus
/// sign, then at least one decimal digit, within range.
pub open spec fn spec_parse_u64(s: Seq<char>) -> Option<u64> {
    let d = if s.len() > 0 && s[0] == '+' { s.drop_first() } else { s };
    if d.len() > 0 && all_digits(d) && digits_value(d) <= u64::MAX {
        Some(digits_value(d) as u64)
    } else {
        None
    }
}

/// A version `MAJOR.MINOR.PATCH`, after any leading `v`.
pub open spec fn spec_parse_version(s: Seq<char>) -> Option<(u64, u64, u64)> {
    let p = dot_parts(strip_v(s));
    if p.len() == 3 && spec_parse_u64(p[0]) is Some && spec_parse_u64(p[1]) is Some && spec_parse_u64(p[2]) is Some {
        Some((spec_parse_u64(p[0])->0, spec_parse_u64(p[1])->0, spec_parse_u64(p[2])->0))
    } else {
        None
    }
}

proof fn lemma_first_dot_at(s: Seq<char>, j: int)
    requires
        0 <= j < s.len(),
        s[j] == '.',
        forall|k: int| 0 <= k < j ==> s[k] != '.',
    ensures
        first_dot(s) == Some(j),
    decreases j,
{
    if j > 0 {
        lemma_first_dot_at(s.drop_first(), j - 1);
    }
}

proof fn lemma_first_dot_none(s: Seq<char>)
    requires
        forall|k: int| 0 <= k < s.len() ==> s[k] != '.',
    ensures
        first_dot(s) is None,
    decreases s.len(),
{
    if s.len() > 0 {
        lemma_first_dot_none(s.drop_first());
    }
}

proof fn lemma_dot_parts_nonempty(s: Seq<char>)
    ensures
        dot_parts(s).len() >= 1,
{
}

proof fn lemma_strip_v(s: Seq<char>, i: int)
    requires
        0 <= i <= s.len(),
        forall|k: int| 0 <= k < i ==> s[k] == 'v',
        i == s.len() || s[i] != 'v',
    ensures
        strip_v(s) == s.skip(i),
    decreases i,
{
    if i == 0 {
        assert(s.skip(0) =~= s);
    } else {
        lemma_strip_v(s.drop_first(), i - 1);
        assert(s.drop_first().skip(i - 1) =~= s.skip(i));
    }
}

proof fn lemma_digits_grow(s: Seq<char>, k: int)
    requires
        0 <= k <= s.len(),
        all_digits(s),
    ensures
        digits_value(s.take(k)) <= digits_value(s),
    decreases s.len() - k,
{
    if k < s.len() {
        lemma_digits_grow(s, k + 1);
        assert(s.take(k + 1).drop_last() =~= s.take(k));
    } else {
        assert(s.take(k) =~= s);
    }
}

pub(crate) fn parse_u64_range(t: &Vec<char>, lo: usize, hi: usize) -> (r: Option<u64>)
    requires
        lo <= hi <= t@.len(),
    ensures
        r == spec_parse_u64(t@.subrange(lo as int, hi as int)),
{
    let ghost s = t@.subrange(lo as int, hi as int);
    let mut start = lo;
    if lo < hi && t[lo] == '+' {
        start = lo + 1;
    }
    let ghost d = t@.subrange(start as int, hi as int);
    proof {
        if lo < hi && t@[lo as int] == '+' {
            assert(d =~= s.drop_first());
        } else {
            assert(d =~= s);
        }
    }
    if start == hi {
        return None;
    }
    let mut acc: u64 = 0;
    let mut k = start;
    while k < hi
        invariant
            lo <= start <= k <= hi <= t@.len(),
            s == t@.subrange(lo as int, hi as int),
            d == (if s.len() > 0 && s[0] == '+' { s.drop_first() } else { s }),
            d == t@.subrange(start as int, hi as int),
            all_digits(t@.subrange(start as int, k as int)),
            acc == digits_value(t@.subrange(start as int, k as int)),
        decreases hi - k,
    {
        let c = t[k];
        proof { assert(t@.subrange(start as int, k + 1).drop_last() =~= t@.subrange(start as int, k as int)); }
        if !('0' <= c && c <= '9') {
            proof { assert(d[k - start] == c); }
            return None;
        }
        let digit = (c as u32 - '0' as u32) as u64;
        let next = match acc.checked_mul(10) {
            Some(m) => m.checked_add(digit),
            None => None,
        };
        match next {
            Some(v) => {
                acc = v;
            },
            None => {
                proof {
                    assert(all_digits(t@.subrange(start as int, k + 1)));
                    assert(digits_value(t@.subrange(start as int, k + 1)) > u64::MAX);
                    let ghost_d = d;
                    if all_digits(ghost_d) {
                        assert(ghost_d.take(k + 1 - start) =~= t@.subrange(start as int, k + 1));
                        lemma_digits_grow(ghost_d, k + 1 - start);
                    }
                }
                return None;
            },
        }
        k = k + 1;
    }
    Some(acc)
}

/// Reads a version `MAJOR.MINOR.PATCH`, after any leading `v`; anything
/// else is `None`.
pub fn parse_version(value: &str) -> (r: Option<(u64, u64, u64)>)
    ensures
        r == spec_parse_version(value@),
{
    let t = crate::text::chars_of(value);
    let n = t.len();
    let mut i: usize = 0;
    while i < n && t[i] == 'v'
        invariant
            i <= n,
            n == t@.len(),
            forall|k: int| 0 <= k < i ==> t@[k] == 'v',
        decreases n - i,
    {
        i = i + 1;
    }
    let ghost u = t@.skip(i as int);
    proof { lemma_strip_v(t@, i as int); }
    let mut d1 = i;
    while d1 < n && t[d1] != '.'
        invariant
            i <= d1 <= n,
            n == t@.len(),
            forall|k: int| i <= k < d1 ==> t@[k] != '.',
        decreases n - d1,
    {
        d1 = d1 + 1;
    }
    if d1 == n {
        proof {
            lemma_first_dot_none(u);
            assert(dot_parts(u).len() == 1);
        }
        return None;
    }
    let mut d2 = d1 + 1;
    while d2 < n && t[d2] != '.'
        invariant
            d1 < d2 <= n,
            n == t@.len(),
            forall|k: int| d1 < k < d2 ==> t@[k] != '.',
        decreases n - d2,
    {
        d2 = d2 + 1;
    }
    let ghost u1 = t@.skip(d1 + 1);
    proof {
        lemma_first_dot_at(u, d1 - i);
        assert(u.take(d1 - i) =~= t@.subrange(i as int, d1 as int));
        assert(u.skip(d1 - i + 1) =~= u1);
    }
    if d2 == n {
        proof {
            lemma_first_dot_none(u1);
            assert(dot_parts(u1).len() == 1);
            assert(dot_parts(u).len() == 2);
        }
        return None;
    }
    let mut d3 = d2 + 1;
    while d3 < n && t[d3] != '.'
        invariant
            d2 < d3 <= n,
            n == t@.len(),
            forall|k: int| d2 < k < d3 ==> t@[k] != '.',
        decreases n - d3,
    {
        d3 = d3 + 1;
    }
    let ghost u2 = t@.skip(d2 + 1);
    proof {
        lemma_first_dot_at(u1, d2 - d1 - 1);
        assert(u1.take(d2 - d1 - 1) =~= t@.subrange(d1 + 1, d2 as int));
        assert(u1.skip(d2 - d1) =~= u2);
    }
    if d3 < n {
        proof {
            lemma_first_dot_at(u2, d3 - d2 - 1);
            lemma_dot_parts_nonempty(u2.skip(d3 - d2));
            assert(dot_parts(u2).len() >= 2);
            assert(dot_parts(u1).len() >= 3);
            assert(dot_parts(u).len() >= 4);
        }
        return None;
    }
    proof {
        lemma_first_dot_none(u2);
        assert(u2 =~= t@.subrange(d2 + 1, n as int));
        assert(dot_parts(u2) == seq![u2]);
        assert(dot_parts(u1) == seq![u1.take(d2 - d1 - 1)] + dot_parts(u2));
        assert(dot_parts(u) == seq![u.take(d1 - i)] + dot_parts(u1));
        assert(dot_parts(u) =~= seq![t@.subrange(i as int, d1 as int), t@.subrange(d1 + 1, d2 as int), t@.subrange(d2 + 1, n as int)]);
    }
    let a = parse_u64_range(&t, i, d1);
    let b = parse_u64_range(&t, d1 + 1, d2);
    let c = parse_u64_range(&t, d2 + 1, n);
    match (a, b, c) {
        (Some(x), Some(y), Some(z)) => Some((x, y, z)),
        _ => None,
    }
}

/// Whether a version is at least the required one, comparing major, then
/// minor, then patch.
pub open spec fn version_at_least(v: (u64, u64, u64), required: (u64, u64, u64)) -> bool {
    ||| v.0 > required.0
    ||| (v.0 == required.0 && v.1 > required.1)
    ||| (v.0 == required.0 && v.1 == required.1 && v.2 >= required.2)
}

/// Whether a version text is a version at least the required one.
pub fn meets_minimum_version(value: &str, required: (u64, u64, u64)) -> (r: bool)
    ensures
        r == match spec_parse_version(value@) {
            Some(v) => version_at_least(v, required),
            None => false,
        },
{
    match parse_version(value) {
        Some(v) => v.0 > required.0 || (v.0 == required.0 && v.1 > required.1)
            || (v.0 == required.0 && v.1 == required.1 && v.2 >= required.2),
        None => false,
    }
}

/// The first word of a runtime's `--version` output that reads as a
/// version, if any.
pub fn version_word(output: &str) -> (r: Option<String>)
    ensures
        ({
            let ws = crate::text::words(output@);
            match r {
                Some(w) => exists|i: int| 0 <= i < ws.len() && ws[i] == w@ && spec_parse_version(ws[i]) is Some
                    && forall|j: int| 0 <= j < i ==> spec_parse_version(#[trigger] ws[j]) is None,
                None => forall|j: int| 0 <= j < ws.len() ==> spec_parse_version(#[trigger] ws[j]) is None,
            }
        }),
{
    let ws = crate::text::split_words(output);
    let ghost views = ws@.map_values(|w: String| w@);
    let mut k: usize = 0;
    while k < ws.len()
        invariant
            k <= ws@.len(),
            views == ws@.map_values(|w: String| w@),
            views == crate::text::words(output@),
            forall|j: int| 0 <= j < k ==> spec_parse_version(#[trigger] views[j]) is None,
        decreases ws@.len() - k,
    {
        if parse_version(ws[k].as_str()).is_some() {
            let found = ws[k].clone();
            proof { assert(views[k as int] == ws@[k as int]@); }
            return Some(found);
        }
        proof { assert(views[k as int] == ws@[k as int]@); }
        k = k + 1;
    }
    None
}

/// The text of a version: `MAJOR.MINOR.PATCH`.
pub open spec fn spec_version_text(v: (u64, u64, u64)) -> Seq<char> {
    decimal(v.0 as nat) + seq!['.'] + decimal(v.1 as nat) + seq!['.'] + decimal(v.2 as nat)
}

/// The text of a version.
pub fn version_text(v: (u64, u64, u64)) -> (r: String)
    ensures
        r@ == spec_version_text(v),
{
    let mut chars = decimal_chars(v.0 as u128);
    chars.push('.');
    let b = decimal_chars(v.1 as u128);
    crate::text::extend_chars(&mut chars, b.as_slice());
    chars.push('.');
    let c = decimal_chars(v.2 as u128);
    crate::text::extend_chars(&mut chars, c.as_slice());
    proof { assert(chars@ =~= spec_version_text(v)); }
    string_of(chars.as_slice())
}

/// The parent of a path, as `std::path::Path::parent` gives it.
pub uninterp spec fn path_parent_of(path: Seq<char>) -> Option<Seq<char>>;

/// A path with another joined to it, as `std::path::Path::join` joins them
/// on Unix: an absolute tail replaces the base; otherwise the tail follows
/// the base, after a `/` unless the base is empty or already ends in one.
pub open spec fn path_joined(base: Seq<char>, tail: Seq<char>) -> Seq<char> {
    if tail.len() > 0 && tail[0] == '/' {
        tail
    } else if base.len() == 0 || base.last() == '/' {
        base + tail
    } else {
        base + seq!['/'] + tail
    }
}

/// Whether a path begins with the components of another, as
/// `std::path::Path::starts_with` decides.
pub uninterp spec fn path_has_prefix(path: Seq<char>, prefix: Seq<char>) -> bool;

/// Calls `std::path::Path::parent`; the contract claims the result is the
/// named function of the path.
#[verifier::external_body]
pub(crate) fn path_parent(path: &str) -> (r: Option<String>)
    ensures
        opt_view(r) == path_parent_of(path@),
{
    match std::path::Path::new(path).parent() {
        Some(p) => Some(p.to_string_lossy().into_owned()),
        None => None,
    }
}

/// Calls `std::path::Path::join` (through `PathBuf::push`): the contract
/// claims that on Unix an absolute tail (one starting with `/`) replaces the
/// base, and a relative one is appended after a `/` that is added only when
/// the base is non-empty and does not end in one. Both texts are UTF-8, so
/// the lossy conversion back to text loses nothing.
#[verifier::external_body]
pub(crate) fn path_join(base: &str, tail: &str) -> (r: String)
    ensures
        r@ == path_joined(base@, tail@),
{
    std::path::Path::new(base).join(tail).to_string_lossy().into_owned()
}

/// Calls `std::path::Path::starts_with`; the contract claims the result is
/// the named function of the two paths.
#[verifier::external_body]
pub(crate) fn path_starts_with(path: &str, prefix: &str) -> (r: bool)
    ensures
        r == path_has_prefix(path@, prefix@),
{
    std::path::Path::new(path).starts_with(prefix)
}

/// A place where a packaged runtime may be.
#[derive(Debug, Clone, PartialEq, Eq)]
pub struct RuntimeCandidate {
    pub source: RuntimeSource,
    pub path: String,
}

/// The view of a candidate.
pub open spec fn candidate_view(c: RuntimeCandidate) -> (RuntimeSource, Seq<char>) {
    (c.source, c.path@)
}

/// Where a packaged runtime may be, in the order they are tried: beside the
/// running executable (a Nix store path when the executable lives there),
/// then in the resource directory.
pub open spec fn spec_candidates(packaged_path: Seq<char>, current_executable: Seq<char>, resource_dir: Option<Seq<char>>) -> Seq<(RuntimeSource, Seq<char>)> {
    let beside = match path_parent_of(current_executable) {
        Some(bin_dir) => seq![(
            if path_has_prefix(current_executable, "/nix/store/"@) { RuntimeSource::NixStore } else { RuntimeSource::Packaged },
            path_joined(path_joined(bin_dir, "../"@), packaged_path),
        )],
        None => seq![],
    };
    let resources = match resource_dir {
        Some(d) => seq![(RuntimeSource::Packaged, path_joined(d, packaged_path))],
        None => seq![],
    };
    beside + resources
}

/// The places to look for the packaged runtime.
pub fn runtime_candidates(spec: &AcpRuntimeSpec, current_executable: &str, resource_dir: Option<&str>) -> (r: Vec<RuntimeCandidate>)
    ensures
        r@.map_values(|c: RuntimeCandidate| candidate_view(c)) == spec_candidates(spec.packaged_path@, current_executable@,
            match resource_dir { Some(d) => Some(d@), None => None }),
{
    let mut out: Vec<RuntimeCandidate> = Vec::new();
    if let Some(bin_dir) = path_parent(current_executable) {
        let source = if path_starts_with(current_executable, "/nix/store/") {
            RuntimeSource::NixStore
        } else {
            RuntimeSource::Packaged
        };
        let up = path_join(bin_dir.as_str(), "../");
        out.push(RuntimeCandidate { source, path: path_join(up.as_str(), spec.packaged_path) });
    }
    if let Some(dir) = resource_dir {
        out.push(RuntimeCandidate { source: RuntimeSource::Packaged, path: path_join(dir, spec.packaged_path) });
    }
    proof {
        assert(out@.map_values(|c: RuntimeCandidate| candidate_view(c)) =~= spec_candidates(spec.packaged_path@, current_executable@,
            match resource_dir { Some(d) => Some(d@), None => None }));
    }
    out
}

/// Why no runtime could be found.
#[derive(Debug, Clone, PartialEq, Eq)]
pub enum ResolveError {
    MissingOverride { label: String, path: String },
    MissingPackaged { label: String },
}

impl ResolveError {
    /// The text shown to the user.
    pub fn message(&self) -> (r: String)
        ensures
            r@ == match *self {
                ResolveError::MissingOverride { label, path } =>
                    "設定された"@ + label@ + " ACP runtimeが見つかりません: "@ + path@,
                ResolveError::MissingPackaged { label } =>
                    label@ + " ACP runtimeがOpenBriefに含まれていません。OpenBriefを再インストールしてください"@,
            },
    {
        match self {
            ResolveError::MissingOverride { label, path } => {
                let a = concat("設定された", label.as_str());
                let b = concat(a.as_str(), " ACP runtimeが見つかりません: ");
                concat(b.as_str(), path.as_str())
            },
            ResolveError::MissingPackaged { label } =>
                concat(label.as_str(), " ACP runtimeがOpenBriefに含まれていません。OpenBriefを再インストールしてください"),
        }
    }
}

/// The runtime to use: a configured override wins when it is a file (and is
/// an error otherwise); else the first candidate that is a file.
pub fn resolve_runtime(
    spec: &AcpRuntimeSpec,
    configured: Option<&str>,
    configured_is_file: bool,
    candidates: &Vec<RuntimeCandidate>,
    candidate_is_file: &Vec<bool>,
) -> (r: Result<RuntimeDescriptor, ResolveError>)
    requires
        candidate_is_file@.len() == candidates@.len(),
    ensures
        match configured {
            Some(p) => if configured_is_file {
                r matches Ok(d) && d.provider_id@ == spec.id@ && d.label@ == spec.label@
                    && d.source == RuntimeSource::Override && d.version is None && d.path@ == p@
            } else {
                r matches Err(ResolveError::MissingOverride { label, path }) && label@ == spec.label@ && path@ == p@
            },
            None => match r {
                Ok(d) => exists|i: int| 0 <= i < candidates@.len() && candidate_is_file@[i]
                    && (forall|j: int| 0 <= j < i ==> !#[trigger] candidate_is_file@[j])
                    && d.provider_id@ == spec.id@ && d.label@ == spec.label@ && d.version is None
                    && d.source == candidates@[i].source && d.path == candidates@[i].path,
                Err(e) => (forall|j: int| 0 <= j < candidates@.len() ==> !#[trigger] candidate_is_file@[j])
                    && (e matches ResolveError::MissingPackaged { label } && label@ == spec.label@),
            },
        },
{
    if let Some(path) = configured {
        if configured_is_file {
            return Ok(descriptor(spec, RuntimeSource::Override, path.to_string()));
        }
        return Err(ResolveError::MissingOverride { label: spec.label.to_string(), path: path.to_string() });
    }
    let mut k: usize = 0;
    while k < candidates.len()
        invariant
            k <= candidates@.len(),
            configured is None,
            candidate_is_file@.len() == candidates@.len(),
            forall|j: int| 0 <= j < k ==> !#[trigger] candidate_is_file@[j],
        decreases candidates@.len() - k,
    {
        if candidate_is_file[k] {
            let c = &candidates[k];
            return Ok(descriptor(spec, c.source, c.path.clone()));
        }
        k = k + 1;
    }
    Err(ResolveError::MissingPackaged { label: spec.label.to_string() })
}

/// Whether a text contains another.
pub open spec fn contains_text(s: Seq<char>, part: Seq<char>) -> bool {
    exists|i: int| 0 <= i && i + part.len() <= s.len() && #[trigger] s.subrange(i, i + part.len()) == part
}

fn text_contains(s: &Vec<char>, part: &Vec<char>) -> (r: bool)
    ensures
        r == contains_text(s@, part@),
{
    if part.len() > s.len() {
        return false;
    }
    if part.len() == 0 {
        proof { let z: int = 0; assert(s@.subrange(z, z + part@.len()) =~= part@); }
        return true;
    }
    let n = s.len();
    let last = n - part.len();
    let mut i: usize = 0;
    while i <= last
        invariant
            n == s@.len(),
            last < s@.len(),
            last == s@.len() - part@.len(),
            1 <= part@.len() <= s@.len(),
            i <= last + 1,
            forall|k: int| 0 <= k < i ==> #[trigger] s@.subrange(k, k + part@.len()) != part@,
        decreases last + 1 - i,
    {
        let mut j: usize = 0;
        while j < part.len() && s[i + j] == part[j]
            invariant
                n == s@.len(),
                i <= last,
                last < n,
                i + part@.len() <= s@.len(),
                last == s@.len() - part@.len(),
                1 <= part@.len() <= s@.len(),
                j <= part@.len(),
                forall|m: int| 0 <= m < j ==> s@[i + m] == part@[m],
            decreases part@.len() - j,
        {
            j = j + 1;
        }
        if j == part.len() {
            proof { assert(s@.subrange(i as int, i + part@.len()) =~= part@); }
            return true;
        }
        proof {
            assert(s@.subrange(i as int, i + part@.len())[j as int] == s@[i + j]);
        }
        i = i + 1;
    }
    false
}

/// Whether a method's identity, lower-cased, contains the hint.
pub open spec fn preferred_method(m: AuthMethodInfo, hint: Seq<char>) -> bool {
    contains_text(lower(m.id@), hint)
}

/// The methods of a list that are (or are not) preferred, in list order.
pub open spec fn methods_where(ms: Seq<AuthMethodInfo>, hint: Seq<char>, preferred: bool) -> Seq<AuthMethodInfo>
    decreases ms.len(),
{
    if ms.len() == 0 {
        seq![]
    } else {
        let rest = methods_where(ms.drop_last(), hint, preferred);
        if preferred_method(ms.last(), hint) == preferred { rest.push(ms.last()) } else { rest }
    }
}

impl AcpRuntimeSpec {
    /// Puts the methods that match the runtime's preferred hint first,
    /// keeping the order within each group; without a hint nothing moves.
    pub fn prioritize_auth_methods(&self, methods: &mut Vec<AuthMethodInfo>)
        ensures
            match self.preferred_auth_method_hint {
                Some(h) => final(methods)@ == methods_where(old(methods)@, h@, true) + methods_where(old(methods)@, h@, false),
                None => final(methods)@ == old(methods)@,
            },
    {
        let hint = match self.preferred_auth_method_hint {
            Some(h) => h,
            None => return,
        };
        let hint_chars = crate::text::chars_of(hint);
        let ghost initial = methods@;
        let mut first: Vec<AuthMethodInfo> = Vec::new();
        let mut rest: Vec<AuthMethodInfo> = Vec::new();
        let mut k: usize = 0;
        while k < methods.len()
            invariant
                k <= methods@.len(),
                methods@ == initial,
                hint_chars@ == hint@,
                first@ == methods_where(initial.take(k as int), hint@, true),
                rest@ == methods_where(initial.take(k as int), hint@, false),
            decreases methods@.len() - k,
        {
            proof { assert(initial.take(k + 1).drop_last() =~= initial.take(k as int)); }
            let m = &methods[k];
            let id = crate::text::normalized_case(m.id.as_str());
            let copy = AuthMethodInfo { id: m.id.clone(), name: m.name.clone() };
            if text_contains(&id, &hint_chars) {
                first.push(copy);
            } else {
                rest.push(copy);
            }
            k = k + 1;
        }
        proof { assert(initial.take(initial.len() as int) =~= initial); }
        let mut k: usize = 0;
        let ghost head = first@;
        while k < rest.len()
            invariant
                k <= rest@.len(),
                first@ == head + rest@.take(k as int),
            decreases rest@.len() - k,
        {
            let m = &rest[k];
            first.push(AuthMethodInfo { id: m.id.clone(), name: m.name.clone() });
            proof { assert(head + rest@.take(k + 1) =~= (head + rest@.take(k as int)).push(rest@[k as int])); }
            k = k + 1;
        }
        proof { assert(rest@.take(rest@.len() as int) =~= rest@); }
        *methods = first;
    }
}

/// The status while the runtime is being looked for.
pub fn checking_agent_status() -> (r: AgentStatus)
    ensures
        r.availability == AvailabilityStatus::Checking,
        r.authentication == AuthenticationStatus::Unknown,
        r.process == ProcessStatus::Stopped,
        r.runtime is None,
{
    AgentStatus {
        availability: AvailabilityStatus::Checking,
        authentication: AuthenticationStatus::Unknown,
        process: ProcessStatus::Stopped,
        runtime: None,
    }
}

/// The status when no usable runtime exists, with the reason.
pub fn missing_agent_status(message: String) -> (r: AgentStatus)
    ensures
        r.availability == (AvailabilityStatus::Missing { message }),
        r.authentication == AuthenticationStatus::Unknown,
        r.process == ProcessStatus::Stopped,
        r.runtime is None,
{
    AgentStatus {
        availability: AvailabilityStatus::Missing { message },
        authentication: AuthenticationStatus::Unknown,
        process: ProcessStatus::Stopped,
        runtime: None,
    }
}

/// The status after a failure: available when a runtime was found, missing
/// with the reason otherwise; the process failed with the reason.
pub fn failed_agent_status(message: String, runtime: Option<RuntimeDescriptor>) -> (r: AgentStatus)
    ensures
        r.availability == if runtime is Some { AvailabilityStatus::Available } else { AvailabilityStatus::Missing { message } },
        r.authentication == AuthenticationStatus::Unknown,
        r.process == (ProcessStatus::Failed { message }),
        r.runtime == runtime,
{
    AgentStatus {
        availability: if runtime.is_some() {
            AvailabilityStatus::Available
        } else {
            AvailabilityStatus::Missing { message: message.clone() }
        },
        authentication: AuthenticationStatus::Unknown,
        process: ProcessStatus::Failed { message },
        runtime,
    }
}

/// The status when the configured provider is not in the catalog.
pub fn unsupported_provider_status(provider: &str) -> (r: AgentStatus)
    ensures
        (r.availability matches AvailabilityStatus::Missing { message } && message@ == "未対応のACP providerです: "@ + provider@),
        r.authentication == AuthenticationStatus::Unknown,
        r.process == ProcessStatus::Stopped,
        r.runtime is None,
{
    missing_agent_status(concat("未対応のACP providerです: ", provider))
}

/// Why a runtime's version could not be accepted.
#[derive(Debug, Clone, PartialEq, Eq)]
pub enum ProbeError {
    Timeout { label: String },
    Failed { label: String, message: String },
    Unparseable { label: String },
    Incompatible { label: String, found: String, required: String },
}

impl ProbeError {
    /// The text shown to the user, as a specification.
    pub open spec fn message_view(&self) -> Seq<char> {
        match *self {
            ProbeError::Timeout { label } => label@ + " ACPのversion確認がtimeoutしました"@,
            ProbeError::Failed { label, message } => label@ + " ACPのversionを確認できません: "@ + message@,
            ProbeError::Unparseable { label } => label@ + " ACPのversion出力を解釈できません"@,
            ProbeError::Incompatible { label, found, required } =>
                label@ + " ACP "@ + found@ + "は非互換です。"@ + required@ + "以上が必要です"@,
        }
    }

    /// The text shown to the user.
    pub fn message(&self) -> (r: String)
        ensures
            r@ == self.message_view(),
    {
        match self {
            ProbeError::Timeout { label } => concat(label.as_str(), " ACPのversion確認がtimeoutしました"),
            ProbeError::Failed { label, message } => {
                let a = concat(label.as_str(), " ACPのversionを確認できません: ");
                concat(a.as_str(), message.as_str())
            },
            ProbeError::Unparseable { label } => concat(label.as_str(), " ACPのversion出力を解釈できません"),
            ProbeError::Incompatible { label, found, required } => {
                let a = concat(label.as_str(), " ACP ");
                let b = concat(a.as_str(), found.as_str());
                let c = concat(b.as_str(), "は非互換です。");
                let d = concat(c.as_str(), required.as_str());
                concat(d.as_str(), "以上が必要です")
            },
        }
    }
}

/// Judges the version a runtime reported against the catalog's minimum;
/// without a minimum every runtime is accepted.
pub fn check_runtime_version(spec: &AcpRuntimeSpec, found: &str) -> (r: Result<(), ProbeError>)
    ensures
        match spec.minimum_version {
            None => r is Ok,
            Some(required) => match spec_parse_version(found@) {
                Some(v) if version_at_least(v, required) => r is Ok,
                _ => r matches Err(ProbeError::Incompatible { label, found: f, required: q })
                    && label@ == spec.label@ && f@ == found@ && q@ == spec_version_text(required),
            },
        },
{
    let required = match spec.minimum_version {
        Some(v) => v,
        None => return Ok(()),
    };
    if meets_minimum_version(found, required) {
        return Ok(());
    }
    Err(ProbeError::Incompatible {
        label: spec.label.to_string(),
        found: found.to_string(),
        required: version_text(required),
    })
}

/// The status reported when the version probe failed: an incompatible
/// version keeps the runtime with both versions; any other failure is a
/// failed process with the failure's text.
pub fn probe_failure_status(error: ProbeError, runtime: RuntimeDescriptor) -> (r: AgentStatus)
    ensures
        match error {
            ProbeError::Incompatible { found, required, .. } =>
                r.availability == (AvailabilityStatus::Incompatible { found, required })
                && r.process == ProcessStatus::Stopped,
            _ => r.availability == AvailabilityStatus::Available
                && (r.process matches ProcessStatus::Failed { message } && message@ == error.message_view()),
        },
        r.authentication == AuthenticationStatus::Unknown,
        r.runtime == Some(runtime),
{
    match error {
        ProbeError::Incompatible { found, required, .. } => AgentStatus {
            availability: AvailabilityStatus::Incompatible { found, required },
            authentication: AuthenticationStatus::Unknown,
            process: ProcessStatus::Stopped,
            runtime: Some(runtime),
        },
        other => {
            let message = other.message();
            failed_agent_status(message, Some(runtime))
        },
    }
}

/// A duration of whole seconds, as `std::time::Duration::from_secs` makes it.
pub uninterp spec fn seconds_duration(secs: u64) -> Duration;

/// Calls `std::time::Duration::from_secs`; the contract claims the result is
/// the named function of the count.
#[verifier::external_body]
pub(crate) fn duration_from_secs(secs: u64) -> (r: Duration)
    ensures
        r == seconds_duration(secs),
{
    Duration::from_secs(secs)
}

/// How long a runtime may take to become ready, in seconds.
pub const STARTUP_TIMEOUT_SECONDS: u64 = 15;

/// How long one turn may take, in seconds (two minutes).
pub const TURN_TIMEOUT_SECONDS: u64 = 120;

/// What was settled before a runtime is started.
#[derive(Debug, Clone)]
pub struct PreparedAgentStart {
    pub spec: AcpRuntimeSpec,
    pub descriptor: RuntimeDescriptor,
    pub working_directory: String,
    pub openbrief_executable: Option<String>,
}

/// The texts of a list of static strings.
pub open spec fn static_texts(v: Seq<&'static str>) -> Seq<Seq<char>> {
    v.map_values(|s: &'static str| s@)
}

/// How to start the prepared runtime: its executable and arguments, the
/// working directory, and, when the runtime takes it, the proposal tool
/// server over the given database.
pub fn build_agent_config(prepared: &PreparedAgentStart, database_file: &str) -> (r: AgentConfig)
    ensures
        r.executable == prepared.descriptor.path,
        crate::attention::texts(r.args@) == static_texts(prepared.spec.args@),
        r.working_directory == prepared.working_directory,
        match prepared.openbrief_executable {
            Some(e) => r.mcp_server matches Some(m) && (m.executable == e
                && crate::attention::texts(m.args@) == seq!["mcp"@, "serve"@, "--database"@, database_file@]),
            None => r.mcp_server is None,
        },
        r.startup_timeout == seconds_duration(STARTUP_TIMEOUT_SECONDS),
        r.turn_timeout == seconds_duration(TURN_TIMEOUT_SECONDS),
{
    let mut args: Vec<String> = Vec::new();
    let mut k: usize = 0;
    while k < prepared.spec.args.len()
        invariant
            k <= prepared.spec.args@.len(),
            args@.len() == k,
            forall|i: int| 0 <= i < k ==> #[trigger] args@[i]@ == prepared.spec.args@[i]@,
        decreases prepared.spec.args@.len() - k,
    {
        args.push(prepared.spec.args[k].to_string());
        k = k + 1;
    }
    proof { assert(crate::attention::texts(args@) =~= static_texts(prepared.spec.args@)); }
    let mcp_server = match &prepared.openbrief_executable {
        Some(e) => {
            let mut margs: Vec<String> = Vec::new();
            margs.push("mcp".to_string());
            margs.push("serve".to_string());
            margs.push("--database".to_string());
            margs.push(database_file.to_string());
            proof { assert(crate::attention::texts(margs@) =~= seq!["mcp"@, "serve"@, "--database"@, database_file@]); }
            Some(McpServerConfig { executable: e.clone(), args: margs })
        },
        None => None,
    };
    AgentConfig {
        executable: prepared.descriptor.path.clone(),
        args,
        working_directory: prepared.working_directory.clone(),
        mcp_server,
        startup_timeout: duration_from_secs(STARTUP_TIMEOUT_SECONDS),
        turn_timeout: duration_from_secs(TURN_TIMEOUT_SECONDS),
    }
}

} // verus!
