//! Collector configuration: the applications never recorded, the agent
//! runtime choice and the retention window.
use vstd::prelude::*;

use crate::text::{
    blank, is_blank, lemma_text_lt_irreflexive, lemma_text_lt_transitive, lemma_text_lt_trichotomy, lower,
    normalized_chars, string_of, text_lt, text_order, trim, trim_string,
};

verus! {

/// What the collector never records by application identity.
#[derive(Clone, Debug, PartialEq, Eq)]
pub struct CaptureConfig {
    pub excluded_apps: Vec<String>,
}

/// The ACP runtime selected for the agent.
#[derive(Clone, Debug, PartialEq, Eq)]
pub struct AgentSettings {
    /// Runtime identifier from the runtime catalog.
    pub provider: String,
    /// Optional absolute path of a custom runtime executable.
    pub executable_path: Option<String>,
}

/// The whole configuration.
#[derive(Clone, Debug, PartialEq, Eq)]
pub struct Config {
    pub capture: CaptureConfig,
    pub agent: AgentSettings,
    pub retention_days: u16,
}

/// Errors of configuration values.
#[derive(Clone, Debug, PartialEq, Eq)]
pub enum ConfigError {
    InvalidPath,
    InvalidRetention(u16),
    AgentProviderRequired,
    AgentPathMustBeAbsolute,
}

fn text(s: &str) -> (r: String)
    ensures
        r@ == s@,
{
    s.to_owned()
}

/// The applications excluded by default.
pub open spec fn default_excluded_apps() -> Seq<Seq<char>> {
    seq![
        "1password"@, "com.1password.1password"@, "signal"@, "org.signal.signal"@,
        "discord"@, "com.discordapp.discord"@, "vesktop"@, "dev.vencord.vesktop"@,
    ]
}

impl CaptureConfig {
    /// Excludes password managers and private messengers.
    pub fn default_config() -> (r: CaptureConfig)
        ensures
            r.excluded_apps@.map_values(|s: String| s@) == default_excluded_apps(),
    {
        let mut excluded_apps: Vec<String> = Vec::new();
        excluded_apps.push(text("1password"));
        excluded_apps.push(text("com.1password.1password"));
        excluded_apps.push(text("signal"));
        excluded_apps.push(text("org.signal.signal"));
        excluded_apps.push(text("discord"));
        excluded_apps.push(text("com.discordapp.discord"));
        excluded_apps.push(text("vesktop"));
        excluded_apps.push(text("dev.vencord.vesktop"));
        proof {
            assert(excluded_apps@.map_values(|s: String| s@) =~= default_excluded_apps());
        }
        CaptureConfig { excluded_apps }
    }
}

impl AgentSettings {
    /// The packaged Codex runtime, without override.
    pub fn default_settings() -> (r: AgentSettings)
        ensures
            r.provider@ == "codex"@,
            r.executable_path is None,
    {
        AgentSettings { provider: text("codex"), executable_path: None }
    }
}

impl Config {
    /// The default configuration: default exclusions, Codex, seven days.
    pub fn default_config() -> (r: Config)
        ensures
            r.capture.excluded_apps@.map_values(|s: String| s@) == default_excluded_apps(),
            r.agent.provider@ == "codex"@,
            r.agent.executable_path is None,
            r.retention_days == 7,
    {
        Config {
            capture: CaptureConfig::default_config(),
            agent: AgentSettings::default_settings(),
            retention_days: 7,
        }
    }

    /// Whether an application is excluded: its trimmed, lower-cased identity
    /// equals one of the configured entries.
    pub fn is_excluded(&self, app_id: &str) -> (r: bool)
        ensures
            r == exists|i: int| 0 <= i < self.capture.excluded_apps@.len()
                && #[trigger] self.capture.excluded_apps@[i]@ == lower(trim(app_id@)),
    {
        let normalized = normalized_chars(app_id);
        let n = self.capture.excluded_apps.len();
        let mut i: usize = 0;
        while i < n
            invariant
                i <= n,
                n == self.capture.excluded_apps@.len(),
                normalized@ == lower(trim(app_id@)),
                forall|j: int| 0 <= j < i ==> #[trigger] self.capture.excluded_apps@[j]@ != lower(trim(app_id@)),
            decreases n - i,
        {
            let candidate = crate::text::chars_of(self.capture.excluded_apps[i].as_str());
            if crate::text::chars_eq(candidate.as_slice(), normalized.as_slice()) {
                return true;
            }
            i = i + 1;
        }
        false
    }

    /// Checks the retention window (1 to 30 days), that a provider is named,
    /// and that an executable override is an absolute path.
    pub fn validate(&self) -> (r: Result<(), ConfigError>)
        ensures
            r == config_check(*self),
    {
        if self.retention_days == 0 || self.retention_days > 30 {
            return Err(ConfigError::InvalidRetention(self.retention_days));
        }
        if blank(self.agent.provider.as_str()) {
            return Err(ConfigError::AgentProviderRequired);
        }
        if let Some(path) = &self.agent.executable_path {
            if !is_absolute_path(path.as_str()) {
                return Err(ConfigError::AgentPathMustBeAbsolute);
            }
        }
        Ok(())
    }

    /// Completes a configuration read from disk: the provider is trimmed and
    /// lower-cased, the result validated, and the exclusions normalized.
    pub fn finish_load(self) -> (r: Result<Config, ConfigError>)
        ensures
            ({
                match r {
                    Ok(c) => config_check(c) is Ok && c.retention_days == self.retention_days
                        && c.agent.provider@ == lower(trim(self.agent.provider@))
                        && c.agent.executable_path == self.agent.executable_path
                        && normalized_list(c.capture.excluded_apps@, self.capture.excluded_apps@),
                    Err(e) => config_check_values(self.retention_days, lower(trim(self.agent.provider@)),
                        self.agent.executable_path) == Err::<(), ConfigError>(e),
                }
            }),
    {
        let provider_chars = normalized_chars(self.agent.provider.as_str());
        let provider = string_of(provider_chars.as_slice());
        let mut config = Config {
            capture: self.capture,
            agent: AgentSettings { provider, executable_path: self.agent.executable_path },
            retention_days: self.retention_days,
        };
        proof { lemma_normalized_blank(self.agent.provider@); }
        config.validate()?;
        let apps = normalize_apps(config.capture.excluded_apps);
        config.capture = CaptureConfig { excluded_apps: apps };
        Ok(config)
    }
}

/// Whether a path is absolute: on Unix, it starts at the root.
pub open spec fn is_absolute(p: Seq<char>) -> bool {
    p.len() > 0 && p[0] == '/'
}

/// Whether a path is absolute.
pub fn is_absolute_path(p: &str) -> (r: bool)
    ensures
        r == is_absolute(p@),
{
    let chars = crate::text::chars_of(p);
    chars.len() > 0 && chars[0] == '/'
}

/// The outcome of validating configuration values.
pub open spec fn config_check_values(retention_days: u16, provider: Seq<char>, executable_path: Option<String>) -> Result<(), ConfigError> {
    if retention_days == 0 || retention_days > 30 {
        Err(ConfigError::InvalidRetention(retention_days))
    } else if is_blank(provider) {
        Err(ConfigError::AgentProviderRequired)
    } else if executable_path matches Some(p) && !is_absolute(p@) {
        Err(ConfigError::AgentPathMustBeAbsolute)
    } else {
        Ok(())
    }
}

/// The outcome of validating a configuration.
pub open spec fn config_check(c: Config) -> Result<(), ConfigError> {
    config_check_values(c.retention_days, c.agent.provider@, c.agent.executable_path)
}

proof fn lemma_normalized_blank(s: Seq<char>)
    ensures
        is_blank(lower(trim(s))) == is_blank(s),
{
    let t = trim(s);
    crate::focus::lemma_trim_idempotent(s);
    lemma_lower_keeps_whitespace_shape(t);
}

proof fn lemma_lower_keeps_whitespace_shape(t: Seq<char>)
    requires
        trim(t) == t,
    ensures
        is_blank(lower(t)) == (t.len() == 0),
{
    let l = lower(t);
    if t.len() > 0 {
        lemma_trim_nonempty_ends(t);
        assert(l[0] == crate::text::lower_char(t[0]));
        assert(!crate::text::is_ws(l[0]));
        assert(crate::text::trim_start(l) == l);
        assert(!crate::text::is_ws(l.last())) by {
            assert(l.last() == crate::text::lower_char(t.last()));
        }
        assert(crate::text::trim_end(l) == l);
    } else {
        assert(l.len() == 0);
    }
}

proof fn lemma_trim_nonempty_ends(t: Seq<char>)
    requires
        trim(t) == t,
        t.len() > 0,
    ensures
        !crate::text::is_ws(t[0]),
        !crate::text::is_ws(t.last()),
{
    if crate::text::is_ws(t[0]) {
        lemma_trim_start_shorter(t);
        lemma_trim_end_not_longer(crate::text::trim_start(t));
        assert(false);
    }
    if crate::text::is_ws(t.last()) {
        lemma_trim_start_not_longer(t);
        let u = crate::text::trim_start(t);
        if u.len() == t.len() {
            assert(u == t) by { lemma_trim_start_same_len(t); }
            assert(crate::text::trim_end(t).len() < t.len()) by { lemma_trim_end_shorter(t); }
        } else {
            lemma_trim_end_not_longer(u);
        }
        assert(false);
    }
}

proof fn lemma_trim_start_not_longer(s: Seq<char>)
    ensures
        crate::text::trim_start(s).len() <= s.len(),
    decreases s.len(),
{
    if s.len() > 0 && crate::text::is_ws(s[0]) {
        lemma_trim_start_not_longer(s.drop_first());
    }
}

proof fn lemma_trim_start_same_len(s: Seq<char>)
    requires
        crate::text::trim_start(s).len() == s.len(),
    ensures
        crate::text::trim_start(s) == s,
{
    if s.len() > 0 && crate::text::is_ws(s[0]) {
        lemma_trim_start_not_longer(s.drop_first());
    }
}

proof fn lemma_trim_start_shorter(s: Seq<char>)
    requires
        s.len() > 0,
        crate::text::is_ws(s[0]),
    ensures
        crate::text::trim_start(s).len() < s.len(),
{
    lemma_trim_start_not_longer(s.drop_first());
}

proof fn lemma_trim_end_not_longer(s: Seq<char>)
    ensures
        crate::text::trim_end(s).len() <= s.len(),
    decreases s.len(),
{
    if s.len() > 0 && crate::text::is_ws(s.last()) {
        lemma_trim_end_not_longer(s.drop_last());
    }
}

proof fn lemma_trim_end_shorter(s: Seq<char>)
    requires
        s.len() > 0,
        crate::text::is_ws(s.last()),
    ensures
        crate::text::trim_end(s).len() < s.len(),
{
    lemma_trim_end_not_longer(s.drop_last());
}

/// Whether `t` is the normalized, non-empty form of an identity in a list.
pub open spec fn normalized_from(apps: Seq<String>, t: Seq<char>) -> bool {
    t.len() > 0 && exists|i: int| 0 <= i < apps.len() && #[trigger] lower(trim(apps[i]@)) == t
}

/// Whether `out` lists the normalized identities of `apps` once each, in
/// lexicographic order.
pub open spec fn normalized_list(out: Seq<String>, apps: Seq<String>) -> bool {
    &&& forall|i: int, j: int| 0 <= i < j < out.len() ==> text_lt(#[trigger] out[i]@, #[trigger] out[j]@)
    &&& forall|i: int| 0 <= i < out.len() ==> normalized_from(apps, #[trigger] out[i]@)
    &&& forall|t: Seq<char>| #[trigger] normalized_from(apps, t) ==> exists|i: int| 0 <= i < out.len() && out[i]@ == t
}

/// Trims and lower-cases identities, drops empty ones, and returns each
/// remaining one once, in lexicographic order.
pub fn normalize_apps(apps: Vec<String>) -> (r: Vec<String>)
    ensures
        normalized_list(r@, apps@),
{
    let mut out: Vec<String> = Vec::new();
    let mut k: usize = 0;
    while k < apps.len()
        invariant
            k <= apps@.len(),
            normalized_list(out@, apps@.take(k as int)),
        decreases apps@.len() - k,
    {
        let chars = normalized_chars(apps[k].as_str());
        let ghost t = lower(trim(apps@[k as int]@));
        proof {
            assert forall|u: Seq<char>| normalized_from(apps@.take(k + 1), u)
                <==> (normalized_from(apps@.take(k as int), u) || (u == t && t.len() > 0)) by {
                if normalized_from(apps@.take(k + 1), u) {
                    let i = choose|i: int| 0 <= i < k + 1 && #[trigger] lower(trim(apps@.take(k + 1)[i]@)) == u && u.len() > 0;
                    if i < k {
                        assert(apps@.take(k as int)[i] == apps@.take(k + 1)[i]);
                    }
                }
                if normalized_from(apps@.take(k as int), u) {
                    let i = choose|i: int| 0 <= i < k && #[trigger] lower(trim(apps@.take(k as int)[i]@)) == u && u.len() > 0;
                    assert(apps@.take(k as int)[i] == apps@.take(k + 1)[i]);
                }
                if u == t && t.len() > 0 {
                    assert(apps@.take(k + 1)[k as int] == apps@[k as int]);
                }
            }
        }
        let ghost old_out = out@;
        if chars.len() > 0 {
            let value = string_of(chars.as_slice());
            insert_sorted_unique(&mut out, value);
        }
        proof {
            let s1 = apps@.take(k + 1);
            let s0 = apps@.take(k as int);
            assert(chars.len() > 0 <==> t.len() > 0);
            assert forall|u: Seq<char>| listed(out@, u) <==> (listed(old_out, u) || (u == t && t.len() > 0)) by {
                if chars.len() == 0 {
                    assert(out@ == old_out);
                }
            }
            assert forall|i: int| 0 <= i < out@.len() implies normalized_from(s1, #[trigger] out@[i]@) by {
                let u = out@[i]@;
                assert(listed(out@, u));
                if listed(old_out, u) {
                    let j = choose|j: int| 0 <= j < old_out.len() && #[trigger] old_out[j]@ == u;
                    assert(normalized_from(s0, old_out[j]@));
                    assert(normalized_from(s1, u));
                } else {
                    assert(u == t && t.len() > 0);
                    assert(s1[k as int] == apps@[k as int]);
                    assert(lower(trim(s1[k as int]@)) == t);
                    assert(normalized_from(s1, u));
                }
            }
            assert forall|u: Seq<char>| #[trigger] normalized_from(s1, u) implies exists|i: int| 0 <= i < out@.len() && out@[i]@ == u by {
                if u == t && t.len() > 0 {
                    assert(listed(out@, u));
                } else {
                    assert(normalized_from(s0, u));
                    assert(listed(old_out, u));
                    assert(listed(out@, u));
                }
            }
        }
        k = k + 1;
    }
    proof { assert(apps@.take(apps@.len() as int) =~= apps@); }
    out
}

/// Whether a list holds a text.
pub open spec fn listed(v: Seq<String>, u: Seq<char>) -> bool {
    exists|i: int| 0 <= i < v.len() && #[trigger] v[i]@ == u
}

/// Inserts a text into a strictly sorted list unless it is already there.
fn insert_sorted_unique(out: &mut Vec<String>, value: String)
    requires
        forall|i: int, j: int| 0 <= i < j < old(out)@.len() ==> text_lt(#[trigger] old(out)@[i]@, #[trigger] old(out)@[j]@),
    ensures
        forall|i: int, j: int| 0 <= i < j < final(out)@.len() ==> text_lt(#[trigger] final(out)@[i]@, #[trigger] final(out)@[j]@),
        forall|u: Seq<char>| #![trigger listed(final(out)@, u)] #![trigger listed(old(out)@, u)]
            listed(final(out)@, u) <==> (listed(old(out)@, u) || u == value@),
{
    let mut i: usize = 0;
    while i < out.len() && text_order(out[i].as_str(), value.as_str()) == -1
        invariant
            i <= out@.len(),
            out@ == old(out)@,
            forall|j: int| 0 <= j < i ==> text_lt(#[trigger] out@[j]@, value@),
        decreases out@.len() - i,
    {
        i = i + 1;
    }
    if i < out.len() && text_order(out[i].as_str(), value.as_str()) == 0 {
        proof {
            assert forall|u: Seq<char>| listed(out@, u) <==> (listed(old(out)@, u) || u == value@) by {
                if u == value@ {
                    assert(out@[i as int]@ == u);
                }
            }
        }
        return;
    }
    let ghost before = out@;
    proof {
        if i < before.len() {
            lemma_text_lt_trichotomy(before[i as int]@, value@);
        }
    }
    out.insert(i, value);
    proof {
        let s = out@;
        assert forall|a: int, b: int| 0 <= a < b < s.len() implies text_lt(#[trigger] s[a]@, #[trigger] s[b]@) by {
            if a < i && b < i {
                assert(s[a] == before[a] && s[b] == before[b]);
            } else if a < i && b == i {
                assert(s[a] == before[a]);
            } else if a < i {
                assert(s[a] == before[a] && s[b] == before[b - 1]);
                if b - 1 > i {
                    assert(text_lt(before[i as int]@, before[b - 1]@));
                    lemma_text_lt_transitive(s[i as int]@, before[i as int]@, before[b - 1]@);
                }
                lemma_text_lt_transitive(before[a]@, s[i as int]@, before[b - 1]@);
            } else if a == i {
                assert(s[b] == before[b - 1]);
                if b - 1 > i {
                    assert(text_lt(before[i as int]@, before[b - 1]@));
                    lemma_text_lt_transitive(s[i as int]@, before[i as int]@, before[b - 1]@);
                }
            } else {
                assert(s[a] == before[a - 1] && s[b] == before[b - 1]);
            }
        }
        assert forall|u: Seq<char>| listed(s, u) <==> (listed(before, u) || u == s[i as int]@) by {
            if listed(s, u) {
                let a = choose|a: int| 0 <= a < s.len() && #[trigger] s[a]@ == u;
                if a < i {
                    assert(before[a] == s[a]);
                } else if a > i {
                    assert(before[a - 1] == s[a]);
                }
            }
            if listed(before, u) {
                let a = choose|a: int| 0 <= a < before.len() && #[trigger] before[a]@ == u;
                if a < i {
                    assert(s[a] == before[a]);
                } else {
                    assert(s[a + 1] == before[a]);
                }
            }
            if u == s[i as int]@ {
                assert(s[i as int]@ == u);
            }
        }
    }
}

/// Laws of configuration.
///
/// Exclusion looks only at the trimmed, lower-cased identity: two identities
/// that normalize alike are excluded alike.
pub proof fn law_exclusion_ignores_case_and_padding(apps: Seq<String>, a: Seq<char>, b: Seq<char>)
    requires
        lower(trim(a)) == lower(trim(b)),
    ensures
        (exists|i: int| 0 <= i < apps.len() && #[trigger] apps[i]@ == lower(trim(a)))
            == (exists|i: int| 0 <= i < apps.len() && #[trigger] apps[i]@ == lower(trim(b))),
{
}

impl Default for CaptureConfig {
    fn default() -> (r: CaptureConfig)
        ensures
            r.excluded_apps@.map_values(|s: String| s@) == default_excluded_apps(),
    {
        CaptureConfig::default_config()
    }
}

impl Default for AgentSettings {
    fn default() -> (r: AgentSettings)
        ensures
            r.provider@ == "codex"@,
            r.executable_path is None,
    {
        AgentSettings::default_settings()
    }
}

impl Default for Config {
    fn default() -> (r: Config)
        ensures
            r.capture.excluded_apps@.map_values(|s: String| s@) == default_excluded_apps(),
            r.agent.provider@ == "codex"@,
            r.agent.executable_path is None,
            r.retention_days == 7,
    {
        Config::default_config()
    }
}

} // verus!
