//! The configuration model and the resolution of a remote's host/owner to an
//! account.

use vstd::prelude::*;
use crate::paths::{is_set, join_path, joined, non_empty, Environment, EnvironmentView};
use crate::text::{eq_ci, eq_ignore_ascii_case, to_chars, trim, trimmed};

verus! {

#[verifier::external_type_specification]
#[verifier::external_body]
pub struct ExRegex(regex::Regex);

#[verifier::external_type_specification]
#[verifier::external_body]
pub struct ExRegexError(regex::Error);

/// Whether `regex::Regex::new` accepts `pattern` (it refuses invalid syntax
/// and programs over the default size limit).
pub uninterp spec fn regex_compiles(pattern: Seq<char>) -> bool;

/// Whether the regex compiled from `pattern` finds a match anywhere in
/// `haystack` (`regex::Regex::is_match`).
pub uninterp spec fn regex_finds_match(pattern: Seq<char>, haystack: Seq<char>) -> bool;

/// A compiled regular expression together with the pattern it came from.
pub struct CompiledPattern {
    regex: regex::Regex,
    source: Ghost<Seq<char>>,
}

impl CompiledPattern {
    /// The pattern this regex was compiled from.
    pub closed spec fn source(&self) -> Seq<char> {
        self.source@
    }
}

/// Calls `regex::Regex::new`. Claimed: it succeeds exactly when
/// `regex_compiles` holds of the pattern, and the compiled value remembers
/// the pattern it was built from.
#[verifier::external_body]
fn compile_regex(pattern: &str) -> (r: Result<CompiledPattern, regex::Error>)
    ensures
        r is Ok <==> regex_compiles(pattern@),
        r matches Ok(c) ==> c.source() == pattern@,
{
    match regex::Regex::new(pattern) {
        Ok(regex) => Ok(CompiledPattern { regex, source: Ghost(pattern@) }),
        Err(e) => Err(e),
    }
}

/// Calls `regex::Regex::is_match`. Claimed: its answer is `regex_finds_match`
/// of the compiled pattern and the haystack.
#[verifier::external_body]
fn regex_is_match(c: &CompiledPattern, haystack: &str) -> (r: bool)
    ensures
        r == regex_finds_match(c.source(), haystack@),
{
    c.regex.is_match(haystack)
}

/// A single `host` + `owner` -> `account` mapping, as mathematical strings.
pub struct MappingView {
    pub host: Seq<char>,
    pub owner: Seq<char>,
    pub account: Seq<char>,
}

/// The configuration, as mathematical values.
pub struct ConfigView {
    pub gh_path: Option<Seq<char>>,
    pub default_account: Option<Seq<char>>,
    pub mappings: Seq<MappingView>,
}

/// A single `host` + `owner` -> `account` mapping.
///
/// `owner` is matched against the remote's first path segment and may be:
/// * a literal org/user name (case-insensitive), or
/// * `*` — a per-host catch-all default, or
/// * a regular expression (e.g. `org1|org2|acme-.*`), matched fully and
///   case-insensitively.
#[derive(Debug, Clone)]
pub struct Mapping {
    pub host: String,
    pub owner: String,
    pub account: String,
}

impl View for Mapping {
    type V = MappingView;

    open spec fn view(&self) -> MappingView {
        MappingView { host: self.host@, owner: self.owner@, account: self.account@ }
    }
}

/// The on-disk configuration.
#[derive(Debug, Clone)]
pub struct Config {
    /// Path to the `gh` executable; inferred on install.
    pub gh_path: Option<String>,
    /// Fallback account when no mapping matches the remote's host/owner.
    pub default_account: Option<String>,
    /// host/owner -> account mappings, in file order.
    pub mappings: Vec<Mapping>,
}

/// The view of an optional string.
pub open spec fn opt_view(o: Option<String>) -> Option<Seq<char>> {
    match o {
        Some(s) => Some(s@),
        None => None,
    }
}

/// The view of an optional borrowed string.
pub open spec fn opt_str_view(o: Option<&str>) -> Option<Seq<char>> {
    match o {
        Some(s) => Some(s@),
        None => None,
    }
}

impl View for Config {
    type V = ConfigView;

    open spec fn view(&self) -> ConfigView {
        ConfigView {
            gh_path: opt_view(self.gh_path),
            default_account: opt_view(self.default_account),
            mappings: self.mappings@.map_values(|m: Mapping| m@),
        }
    }
}

impl Default for Config {
    /// The empty configuration: no `gh` path, no default account, no mappings.
    fn default() -> (r: Config)
        ensures
            r.gh_path is None,
            r.default_account is None,
            r.mappings@.len() == 0,
    {
        Config { gh_path: None, default_account: None, mappings: Vec::new() }
    }
}

/// The characters that make an `owner` a regular expression.
pub open spec fn is_regex_meta(c: char) -> bool {
    ||| c == '.'
    ||| c == '^'
    ||| c == '$'
    ||| c == '*'
    ||| c == '+'
    ||| c == '?'
    ||| c == '('
    ||| c == ')'
    ||| c == '['
    ||| c == ']'
    ||| c == '{'
    ||| c == '}'
    ||| c == '|'
    ||| c == '\\'
}

/// An owner with no regex metacharacter, compared by case-insensitive equality.
pub open spec fn is_literal(o: Seq<char>) -> bool {
    forall|i: int| 0 <= i < o.len() ==> !is_regex_meta(#[trigger] o[i])
}

/// The per-host catch-all owner `*`.
pub open spec fn is_star(o: Seq<char>) -> bool {
    o == seq!['*']
}

/// The pattern an owner is compiled to: fully anchored and case-insensitive.
pub open spec fn anchored(o: Seq<char>) -> Seq<char> {
    seq!['(', '?', 'i', ')', '^', '(', '?', ':'] + o + seq![')', '$']
}

/// Whether a regex `owner` fully matches `value`; an invalid pattern never matches.
pub open spec fn owner_pattern_matches(o: Seq<char>, value: Seq<char>) -> bool {
    regex_compiles(anchored(o)) && regex_finds_match(anchored(o), value)
}

/// Mapping `m` is for `host` (ASCII case ignored).
pub open spec fn host_is(m: MappingView, host: Seq<char>) -> bool {
    eq_ci(m.host, host)
}

/// Mapping `m` names `owner` literally (ASCII case ignored).
pub open spec fn exact_hit(m: MappingView, host: Seq<char>, owner: Seq<char>) -> bool {
    host_is(m, host) && is_literal(m.owner) && eq_ci(m.owner, owner)
}

/// Mapping `m` holds a regex owner for `host`.
pub open spec fn pattern_eligible(m: MappingView, host: Seq<char>) -> bool {
    host_is(m, host) && !is_star(m.owner) && !is_literal(m.owner)
}

/// Mapping `m` is the catch-all of `host`.
pub open spec fn star_hit(m: MappingView, host: Seq<char>) -> bool {
    host_is(m, host) && is_star(m.owner)
}

/// Whether position `j` of `hits` records a regex match.
pub open spec fn hit_at(hits: Seq<bool>, j: int) -> bool {
    0 <= j < hits.len() && hits[j]
}

/// The account of the first literal match at or after position `k`.
pub open spec fn exact_from(ms: Seq<MappingView>, host: Seq<char>, owner: Seq<char>, k: nat) -> Option<
    Seq<char>,
>
    decreases ms.len() - k,
{
    if k >= ms.len() {
        None
    } else if exact_hit(ms[k as int], host, owner) {
        Some(ms[k as int].account)
    } else {
        exact_from(ms, host, owner, k + 1)
    }
}

/// The account of the first regex mapping for `host` at or after position `k`
/// whose regex matched, as `hits` records.
pub open spec fn pattern_from(ms: Seq<MappingView>, host: Seq<char>, hits: Seq<bool>, k: nat) -> Option<
    Seq<char>,
>
    decreases ms.len() - k,
{
    if k >= ms.len() {
        None
    } else if pattern_eligible(ms[k as int], host) && hit_at(hits, k as int) {
        Some(ms[k as int].account)
    } else {
        pattern_from(ms, host, hits, k + 1)
    }
}

/// The account of the first catch-all of `host` at or after position `k`.
pub open spec fn star_from(ms: Seq<MappingView>, host: Seq<char>, k: nat) -> Option<Seq<char>>
    decreases ms.len() - k,
{
    if k >= ms.len() {
        None
    } else if star_hit(ms[k as int], host) {
        Some(ms[k as int].account)
    } else {
        star_from(ms, host, k + 1)
    }
}

/// Resolution given the regex results: literal match, then regex match (first
/// in file order), then the host's catch-all, then the global default.
pub open spec fn resolve_spec(c: ConfigView, host: Seq<char>, owner: Seq<char>, hits: Seq<bool>) -> Option<
    Seq<char>,
> {
    match exact_from(c.mappings, host, owner, 0) {
        Some(a) => Some(a),
        None => match pattern_from(c.mappings, host, hits, 0) {
            Some(a) => Some(a),
            None => match star_from(c.mappings, host, 0) {
                Some(a) => Some(a),
                None => c.default_account,
            },
        },
    }
}

/// For each mapping, whether it is a regex mapping of `host` whose pattern
/// fully matches `owner`.
pub open spec fn regex_hits(ms: Seq<MappingView>, host: Seq<char>, owner: Seq<char>) -> Seq<bool> {
    Seq::new(
        ms.len(),
        |j: int| pattern_eligible(ms[j], host) && owner_pattern_matches(ms[j].owner, owner),
    )
}

/// The account that the configuration maps `host`/`owner` to.
pub open spec fn lookup_spec(c: ConfigView, host: Seq<char>, owner: Seq<char>) -> Option<Seq<char>> {
    resolve_spec(c, host, owner, regex_hits(c.mappings, host, owner))
}

/// Whether `c` is a regex metacharacter.
pub fn is_regex_meta_char(c: char) -> (r: bool)
    ensures
        r == is_regex_meta(c),
{
    c == '.' || c == '^' || c == '$' || c == '*' || c == '+' || c == '?' || c == '(' || c == ')'
        || c == '[' || c == ']' || c == '{' || c == '}' || c == '|' || c == '\\'
}

/// Whether an `owner` pattern is a plain literal (no regex metacharacters), and
/// so should be compared by case-insensitive equality rather than as a regex.
pub fn is_literal_owner(owner: &str) -> (r: bool)
    ensures
        r == is_literal(owner@),
{
    let v = to_chars(owner);
    let mut i: usize = 0;
    while i < v.len()
        invariant
            v@ == owner@,
            i <= v.len(),
            forall|k: int| 0 <= k < i ==> !is_regex_meta(#[trigger] v@[k]),
        decreases v.len() - i,
    {
        if is_regex_meta_char(v[i]) {
            return false;
        }
        i = i + 1;
    }
    true
}

/// Whether `owner` is the catch-all `*`.
pub fn is_star_owner(owner: &str) -> (r: bool)
    ensures
        r == is_star(owner@),
{
    let v = to_chars(owner);
    let r = v.len() == 1 && v[0] == '*';
    assert(r ==> v@ =~= seq!['*']);
    r
}

/// The fully anchored, case-insensitive pattern for an `owner`.
pub fn anchored_pattern(owner: &str) -> (r: String)
    ensures
        r@ == anchored(owner@),
{
    let mut s = String::from_str("(?i)^(?:");
    s.append(owner);
    s.append(")$");
    proof {
        reveal_strlit("(?i)^(?:");
        reveal_strlit(")$");
    }
    assert(s@ =~= anchored(owner@));
    s
}

/// Compile `owner` as a fully-anchored, case-insensitive regex and test it
/// against `value`. Invalid patterns never match (they are skipped).
pub fn owner_regex_matches(owner: &str, value: &str) -> (r: bool)
    ensures
        r == owner_pattern_matches(owner@, value@),
{
    let anchored = anchored_pattern(owner);
    match compile_regex(anchored.as_str()) {
        Ok(re) => regex_is_match(&re, value),
        Err(_) => false,
    }
}

impl Config {
    /// For each mapping, whether it is a regex mapping of `host` whose pattern
    /// fully matches `owner` (regexes of other mappings are not compiled).
    pub fn regex_hits(&self, host: &str, owner: &str) -> (hits: Vec<bool>)
        ensures
            hits@ == regex_hits(self@.mappings, host@, owner@),
    {
        let ghost ms = self@.mappings;
        let mut hits: Vec<bool> = Vec::new();
        let mut i: usize = 0;
        while i < self.mappings.len()
            invariant
                ms == self@.mappings,
                i <= self.mappings.len(),
                hits@ == regex_hits(ms, host@, owner@).take(i as int),
            decreases self.mappings.len() - i,
        {
            let m = &self.mappings[i];
            assert(ms[i as int] == m@);
            let eligible = eq_ignore_ascii_case(m.host.as_str(), host) && !is_star_owner(
                m.owner.as_str(),
            ) && !is_literal_owner(m.owner.as_str());
            let hit = eligible && owner_regex_matches(m.owner.as_str(), owner);
            hits.push(hit);
            i = i + 1;
            assert(hits@ =~= regex_hits(ms, host@, owner@).take(i as int));
        }
        assert(hits@ =~= regex_hits(ms, host@, owner@));
        hits
    }

    /// Resolve the account for `host`/`owner` given, for each mapping, whether
    /// its regex matched (`hits`; a missing entry counts as no match).
    ///
    /// Precedence (independent of file order between the steps):
    /// 1. A literal `owner` equal to the remote owner (ASCII case ignored).
    /// 2. A regex `owner` whose entry in `hits` is set (first in file order).
    /// 3. A `*` per-host catch-all.
    /// 4. The global `default_account`.
    pub fn resolve<'a>(&'a self, host: &str, owner: &str, hits: &Vec<bool>) -> (r: Option<&'a str>)
        ensures
            opt_str_view(r) == resolve_spec(self@, host@, owner@, hits@),
    {
        let ghost ms = self@.mappings;
        let n = self.mappings.len();
        // 1. Literal exact match wins over any pattern.
        let mut i: usize = 0;
        while i < n
            invariant
                n == self.mappings.len(),
                ms == self@.mappings,
                i <= n,
                exact_from(ms, host@, owner@, 0) == exact_from(ms, host@, owner@, i as nat),
            decreases n - i,
        {
            let m = &self.mappings[i];
            assert(ms[i as int] == m@);
            if eq_ignore_ascii_case(m.host.as_str(), host) && is_literal_owner(m.owner.as_str())
                && eq_ignore_ascii_case(m.owner.as_str(), owner) {
                return Some(m.account.as_str());
            }
            i = i + 1;
        }
        // 2. Regex match (first in file order), then 3. `*` catch-all.
        let mut wildcard: Option<&'a str> = None;
        let mut j: usize = 0;
        while j < n
            invariant
                n == self.mappings.len(),
                ms == self@.mappings,
                j <= n,
                exact_from(ms, host@, owner@, 0) is None,
                pattern_from(ms, host@, hits@, 0) == pattern_from(ms, host@, hits@, j as nat),
                wildcard is None ==> star_from(ms, host@, 0) == star_from(ms, host@, j as nat),
                wildcard matches Some(w) ==> star_from(ms, host@, 0) == Some(w@),
            decreases n - j,
        {
            let m = &self.mappings[j];
            assert(ms[j as int] == m@);
            if eq_ignore_ascii_case(m.host.as_str(), host) {
                if is_star_owner(m.owner.as_str()) {
                    if wildcard.is_none() {
                        wildcard = Some(m.account.as_str());
                    }
                } else if !is_literal_owner(m.owner.as_str()) && j < hits.len() && hits[j] {
                    return Some(m.account.as_str());
                }
            }
            j = j + 1;
        }
        // 3. per-host catch-all, else 4. global default.
        match wildcard {
            Some(w) => Some(w),
            None => match &self.default_account {
                Some(d) => Some(d.as_str()),
                None => None,
            },
        }
    }

    /// Resolve the mapped account for a host/owner.
    ///
    /// Precedence (deterministic, independent of file order):
    /// 1. A literal `owner` that equals the remote owner (case-insensitive).
    /// 2. A regex `owner` that fully matches the remote owner (case-insensitive,
    ///    first match in file order).
    /// 3. A `*` per-host catch-all.
    /// 4. The global `default_account`.
    ///
    /// Returns `None` only when none of the above apply (caller leaves the
    /// active account unchanged). Invalid regex patterns are skipped.
    pub fn lookup<'a>(&'a self, host: &str, owner: &str) -> (r: Option<&'a str>)
        ensures
            opt_str_view(r) == lookup_spec(self@, host@, owner@),
    {
        let hits = self.regex_hits(host, owner);
        self.resolve(host, owner, &hits)
    }
}

/// The directory that holds per-user configuration: (on Windows) `APPDATA`,
/// else `XDG_CONFIG_HOME`, else `~/.config`; `None` without a home directory.
pub open spec fn config_dir_spec(env: EnvironmentView) -> Option<Seq<char>> {
    if env.windows && non_empty(env.appdata) {
        env.appdata
    } else if non_empty(env.xdg_config_home) {
        env.xdg_config_home
    } else {
        match env.home {
            Some(h) => Some(joined(h, ".config"@, env.windows)),
            None => None,
        }
    }
}

/// The configuration file: `GH_AUTOSWITCH_CONFIG` when set, else
/// `gh-autoswitch/config.yml` in the configuration directory.
pub open spec fn config_path_spec(env: EnvironmentView) -> Option<Seq<char>> {
    if non_empty(env.config_override) {
        env.config_override
    } else {
        match config_dir_spec(env) {
            Some(d) => Some(joined(joined(d, "gh-autoswitch"@, env.windows), "config.yml"@, env.windows)),
            None => None,
        }
    }
}

/// Whether a configuration file's text holds nothing but white space, in
/// which case it stands for the empty configuration.
pub fn is_blank(text: &str) -> (r: bool)
    ensures
        r == (trimmed(text@).len() == 0),
{
    let t = trim(text);
    t.unicode_len() == 0
}

/// The per-user configuration directory; `None` when there is no home
/// directory to fall back on.
pub fn config_dir(env: &Environment) -> (r: Option<String>)
    ensures
        opt_view(r) == config_dir_spec(env@),
        env.windows && non_empty(env@.appdata) ==> opt_view(r) == env@.appdata,
{
    proof {
        lemma_config_location(env@);
    }
    if env.windows && is_set(&env.appdata) {
        return env.appdata.clone();
    }
    if is_set(&env.xdg_config_home) {
        return env.xdg_config_home.clone();
    }
    match &env.home {
        Some(h) => Some(join_path(h.as_str(), ".config", env.windows)),
        None => None,
    }
}

/// Resolve the config file path (honours `GH_AUTOSWITCH_CONFIG`); `None`
/// when the home directory cannot be determined.
pub fn config_path(env: &Environment) -> (r: Option<String>)
    ensures
        opt_view(r) == config_path_spec(env@),
        non_empty(env@.config_override) ==> opt_view(r) == env@.config_override,
        !non_empty(env@.config_override) && env.windows && non_empty(env@.appdata) ==> opt_view(r)
            == Some(joined(joined(env@.appdata->0, "gh-autoswitch"@, true), "config.yml"@, true)),
{
    proof {
        lemma_config_location(env@);
    }
    if is_set(&env.config_override) {
        return env.config_override.clone();
    }
    match config_dir(env) {
        Some(d) => {
            let app = join_path(d.as_str(), "gh-autoswitch", env.windows);
            Some(join_path(app.as_str(), "config.yml", env.windows))
        },
        None => None,
    }
}

/// Before the first position that satisfies the step's test, every step
/// function gives what it gives at that position.
proof fn lemma_exact_from_first(ms: Seq<MappingView>, host: Seq<char>, owner: Seq<char>, j: nat, k: nat)
    requires
        j <= k < ms.len(),
        exact_hit(ms[k as int], host, owner),
        forall|i: int| j <= i < k ==> !exact_hit(#[trigger] ms[i], host, owner),
    ensures
        exact_from(ms, host, owner, j) == Some(ms[k as int].account),
    decreases k - j,
{
    if j < k {
        lemma_exact_from_first(ms, host, owner, j + 1, k);
    }
}

proof fn lemma_exact_from_none(ms: Seq<MappingView>, host: Seq<char>, owner: Seq<char>, j: nat)
    requires
        forall|i: int| j <= i < ms.len() ==> !exact_hit(#[trigger] ms[i], host, owner),
    ensures
        exact_from(ms, host, owner, j) is None,
    decreases ms.len() - j,
{
    if j < ms.len() {
        lemma_exact_from_none(ms, host, owner, j + 1);
    }
}

proof fn lemma_exact_from_some(ms: Seq<MappingView>, host: Seq<char>, owner: Seq<char>, j: nat)
    ensures
        exact_from(ms, host, owner, j) is None ==> forall|i: int|
            j <= i < ms.len() ==> !exact_hit(#[trigger] ms[i], host, owner),
    decreases ms.len() - j,
{
    if j < ms.len() {
        lemma_exact_from_some(ms, host, owner, j + 1);
    }
}

proof fn lemma_pattern_from_first(ms: Seq<MappingView>, host: Seq<char>, hits: Seq<bool>, j: nat, k: nat)
    requires
        j <= k < ms.len(),
        pattern_eligible(ms[k as int], host) && hit_at(hits, k as int),
        forall|i: int|
            j <= i < k ==> !(pattern_eligible(#[trigger] ms[i], host) && hit_at(hits, i)),
    ensures
        pattern_from(ms, host, hits, j) == Some(ms[k as int].account),
    decreases k - j,
{
    if j < k {
        lemma_pattern_from_first(ms, host, hits, j + 1, k);
    }
}

proof fn lemma_pattern_from_none(ms: Seq<MappingView>, host: Seq<char>, hits: Seq<bool>, j: nat)
    requires
        forall|i: int|
            j <= i < ms.len() ==> !(pattern_eligible(#[trigger] ms[i], host) && hit_at(hits, i)),
    ensures
        pattern_from(ms, host, hits, j) is None,
    decreases ms.len() - j,
{
    if j < ms.len() {
        lemma_pattern_from_none(ms, host, hits, j + 1);
    }
}

proof fn lemma_pattern_from_some(ms: Seq<MappingView>, host: Seq<char>, hits: Seq<bool>, j: nat)
    ensures
        pattern_from(ms, host, hits, j) is None ==> forall|i: int|
            j <= i < ms.len() ==> !(pattern_eligible(#[trigger] ms[i], host) && hit_at(hits, i)),
    decreases ms.len() - j,
{
    if j < ms.len() {
        lemma_pattern_from_some(ms, host, hits, j + 1);
    }
}

proof fn lemma_star_from_first(ms: Seq<MappingView>, host: Seq<char>, j: nat, k: nat)
    requires
        j <= k < ms.len(),
        star_hit(ms[k as int], host),
        forall|i: int| j <= i < k ==> !star_hit(#[trigger] ms[i], host),
    ensures
        star_from(ms, host, j) == Some(ms[k as int].account),
    decreases k - j,
{
    if j < k {
        lemma_star_from_first(ms, host, j + 1, k);
    }
}

proof fn lemma_star_from_none(ms: Seq<MappingView>, host: Seq<char>, j: nat)
    requires
        forall|i: int| j <= i < ms.len() ==> !star_hit(#[trigger] ms[i], host),
    ensures
        star_from(ms, host, j) is None,
    decreases ms.len() - j,
{
    if j < ms.len() {
        lemma_star_from_none(ms, host, j + 1);
    }
}

proof fn lemma_star_from_some(ms: Seq<MappingView>, host: Seq<char>, j: nat)
    ensures
        star_from(ms, host, j) is None ==> forall|i: int|
            j <= i < ms.len() ==> !star_hit(#[trigger] ms[i], host),
    decreases ms.len() - j,
{
    if j < ms.len() {
        lemma_star_from_some(ms, host, j + 1);
    }
}

/// A literal owner wins: when mapping `k` is the first that names `owner`
/// literally for `host`, its account is the answer, whatever regex or
/// catch-all mappings come before it in the file.
pub proof fn lemma_literal_match_wins(c: ConfigView, host: Seq<char>, owner: Seq<char>, hits: Seq<bool>, k: int)
    requires
        0 <= k < c.mappings.len(),
        exact_hit(c.mappings[k], host, owner),
        forall|i: int| 0 <= i < k ==> !exact_hit(#[trigger] c.mappings[i], host, owner),
    ensures
        resolve_spec(c, host, owner, hits) == Some(c.mappings[k].account),
        lookup_spec(c, host, owner) == Some(c.mappings[k].account),
{
    lemma_exact_from_first(c.mappings, host, owner, 0, k as nat);
}

/// Without a literal match, the first regex mapping of `host` that matches
/// gives the answer, even when a catch-all comes before it.
pub proof fn lemma_regex_beats_catch_all(c: ConfigView, host: Seq<char>, owner: Seq<char>, hits: Seq<bool>, k: int)
    requires
        0 <= k < c.mappings.len(),
        forall|i: int| 0 <= i < c.mappings.len() ==> !exact_hit(#[trigger] c.mappings[i], host, owner),
        pattern_eligible(c.mappings[k], host) && hit_at(hits, k),
        forall|i: int|
            0 <= i < k ==> !(pattern_eligible(#[trigger] c.mappings[i], host) && hit_at(hits, i)),
    ensures
        resolve_spec(c, host, owner, hits) == Some(c.mappings[k].account),
{
    lemma_exact_from_none(c.mappings, host, owner, 0);
    lemma_pattern_from_first(c.mappings, host, hits, 0, k as nat);
}

/// Without a literal or regex match, the first catch-all of `host` beats the
/// global default account.
pub proof fn lemma_catch_all_beats_default(c: ConfigView, host: Seq<char>, owner: Seq<char>, hits: Seq<bool>, k: int)
    requires
        0 <= k < c.mappings.len(),
        forall|i: int| 0 <= i < c.mappings.len() ==> !exact_hit(#[trigger] c.mappings[i], host, owner),
        forall|i: int|
            0 <= i < c.mappings.len() ==> !(pattern_eligible(#[trigger] c.mappings[i], host)
                && hit_at(hits, i)),
        star_hit(c.mappings[k], host),
        forall|i: int| 0 <= i < k ==> !star_hit(#[trigger] c.mappings[i], host),
    ensures
        resolve_spec(c, host, owner, hits) == Some(c.mappings[k].account),
{
    lemma_exact_from_none(c.mappings, host, owner, 0);
    lemma_pattern_from_none(c.mappings, host, hits, 0);
    lemma_star_from_first(c.mappings, host, 0, k as nat);
}

/// When no mapping applies to `host`/`owner`, the answer is the global
/// default account (on every host), and it is `None` exactly then and only
/// when no default account is configured.
pub proof fn lemma_default_when_nothing_applies(c: ConfigView, host: Seq<char>, owner: Seq<char>, hits: Seq<bool>)
    ensures
        (forall|i: int|
            0 <= i < c.mappings.len() ==> {
                &&& !exact_hit(#[trigger] c.mappings[i], host, owner)
                &&& !(pattern_eligible(c.mappings[i], host) && hit_at(hits, i))
                &&& !star_hit(c.mappings[i], host)
            }) ==> resolve_spec(c, host, owner, hits) == c.default_account,
        resolve_spec(c, host, owner, hits) is None <==> (c.default_account is None && forall|
            i: int,
        |
            0 <= i < c.mappings.len() ==> {
                &&& !exact_hit(#[trigger] c.mappings[i], host, owner)
                &&& !(pattern_eligible(c.mappings[i], host) && hit_at(hits, i))
                &&& !star_hit(c.mappings[i], host)
            }),
{
    let ms = c.mappings;
    lemma_exact_from_some(ms, host, owner, 0);
    lemma_pattern_from_some(ms, host, hits, 0);
    lemma_star_from_some(ms, host, 0);
    if forall|i: int|
        0 <= i < ms.len() ==> {
            &&& !exact_hit(#[trigger] ms[i], host, owner)
            &&& !(pattern_eligible(ms[i], host) && hit_at(hits, i))
            &&& !star_hit(ms[i], host)
        } {
        lemma_exact_from_none(ms, host, owner, 0);
        lemma_pattern_from_none(ms, host, hits, 0);
        lemma_star_from_none(ms, host, 0);
    }
}

/// An invalid regex pattern never matches anything.
pub proof fn lemma_invalid_regex_never_matches(c: ConfigView, host: Seq<char>, owner: Seq<char>, k: int)
    requires
        0 <= k < c.mappings.len(),
        !regex_compiles(anchored(c.mappings[k].owner)),
    ensures
        !hit_at(regex_hits(c.mappings, host, owner), k),
{
}

/// Resolution ignores ASCII case in the host and the owner: hosts or owners
/// that differ only in ASCII case get the same account.
pub proof fn lemma_resolve_ignores_ascii_case(
    c: ConfigView,
    h1: Seq<char>,
    o1: Seq<char>,
    h2: Seq<char>,
    o2: Seq<char>,
    hits: Seq<bool>,
)
    requires
        eq_ci(h1, h2),
        eq_ci(o1, o2),
    ensures
        resolve_spec(c, h1, o1, hits) == resolve_spec(c, h2, o2, hits),
{
    let ms = c.mappings;
    assert forall|i: int| 0 <= i < ms.len() implies {
        &&& #[trigger] exact_hit(ms[i], h1, o1) == exact_hit(ms[i], h2, o2)
        &&& pattern_eligible(ms[i], h1) == pattern_eligible(ms[i], h2)
        &&& star_hit(ms[i], h1) == star_hit(ms[i], h2)
    } by {
        crate::text::lemma_eq_ci_equivalence(ms[i].host, h1, h2);
        crate::text::lemma_eq_ci_equivalence(ms[i].host, h2, h1);
        crate::text::lemma_eq_ci_equivalence(h1, h2, h2);
        crate::text::lemma_eq_ci_equivalence(ms[i].owner, o1, o2);
        crate::text::lemma_eq_ci_equivalence(ms[i].owner, o2, o1);
        crate::text::lemma_eq_ci_equivalence(o1, o2, o2);
    }
    lemma_ci_same_from(ms, h1, o1, h2, o2, hits, 0);
}

proof fn lemma_ci_same_from(
    ms: Seq<MappingView>,
    h1: Seq<char>,
    o1: Seq<char>,
    h2: Seq<char>,
    o2: Seq<char>,
    hits: Seq<bool>,
    j: nat,
)
    requires
        forall|i: int|
            0 <= i < ms.len() ==> {
                &&& #[trigger] exact_hit(ms[i], h1, o1) == exact_hit(ms[i], h2, o2)
                &&& pattern_eligible(ms[i], h1) == pattern_eligible(ms[i], h2)
                &&& star_hit(ms[i], h1) == star_hit(ms[i], h2)
            },
    ensures
        exact_from(ms, h1, o1, j) == exact_from(ms, h2, o2, j),
        pattern_from(ms, h1, hits, j) == pattern_from(ms, h2, hits, j),
        star_from(ms, h1, j) == star_from(ms, h2, j),
    decreases ms.len() - j,
{
    if j < ms.len() {
        assert(exact_hit(ms[j as int], h1, o1) == exact_hit(ms[j as int], h2, o2));
        lemma_ci_same_from(ms, h1, o1, h2, o2, hits, j + 1);
    }
}

proof fn lemma_skip_after(ms: Seq<MappingView>, host: Seq<char>, owner: Seq<char>, k: int, j: nat)
    requires
        0 <= k <= j,
        k < ms.len(),
    ensures
        ({
            let rs = ms.remove(k);
            &&& exact_from(ms, host, owner, j + 1) == exact_from(rs, host, owner, j)
            &&& pattern_from(ms, host, regex_hits(ms, host, owner), j + 1) == pattern_from(
                rs,
                host,
                regex_hits(rs, host, owner),
                j,
            )
            &&& star_from(ms, host, j + 1) == star_from(rs, host, j)
        }),
    decreases ms.len() - j,
{
    let rs = ms.remove(k);
    if j < rs.len() {
        assert(rs[j as int] == ms[j + 1int]);
        assert(hit_at(regex_hits(ms, host, owner), j + 1int) == hit_at(
            regex_hits(rs, host, owner),
            j as int,
        ));
        lemma_skip_after(ms, host, owner, k, j + 1);
    }
}

proof fn lemma_skip_before(ms: Seq<MappingView>, host: Seq<char>, owner: Seq<char>, k: int, j: nat)
    requires
        0 <= j <= k < ms.len(),
        !exact_hit(ms[k], host, owner),
        !(pattern_eligible(ms[k], host) && owner_pattern_matches(ms[k].owner, owner)),
        !star_hit(ms[k], host),
    ensures
        ({
            let rs = ms.remove(k);
            &&& exact_from(ms, host, owner, j) == exact_from(rs, host, owner, j)
            &&& pattern_from(ms, host, regex_hits(ms, host, owner), j) == pattern_from(
                rs,
                host,
                regex_hits(rs, host, owner),
                j,
            )
            &&& star_from(ms, host, j) == star_from(rs, host, j)
        }),
    decreases k - j,
{
    let rs = ms.remove(k);
    if j < k {
        assert(rs[j as int] == ms[j as int]);
        assert(hit_at(regex_hits(ms, host, owner), j as int) == hit_at(
            regex_hits(rs, host, owner),
            j as int,
        ));
        lemma_skip_before(ms, host, owner, k, j + 1);
    } else {
        lemma_skip_after(ms, host, owner, k, j);
    }
}

/// Invalid regex patterns are skipped: a regex mapping whose pattern does
/// not compile changes no lookup, as if it were not in the file.
pub proof fn lemma_invalid_regex_is_skipped(c: ConfigView, host: Seq<char>, owner: Seq<char>, k: int)
    requires
        0 <= k < c.mappings.len(),
        !is_literal(c.mappings[k].owner),
        !is_star(c.mappings[k].owner),
        !regex_compiles(anchored(c.mappings[k].owner)),
    ensures
        lookup_spec(c, host, owner) == lookup_spec(
            ConfigView { mappings: c.mappings.remove(k), ..c },
            host,
            owner,
        ),
{
    lemma_skip_before(c.mappings, host, owner, k, 0);
}

/// Where the configuration lives. On Windows a non-empty `APPDATA` is the
/// configuration directory whatever `XDG_CONFIG_HOME` holds; elsewhere
/// `APPDATA` plays no part, a non-empty `XDG_CONFIG_HOME` comes next, then
/// `~/.config`, and without a home directory there is none. A non-empty
/// `GH_AUTOSWITCH_CONFIG` is the file itself; otherwise the file is
/// `gh-autoswitch/config.yml` in the configuration directory.
pub proof fn lemma_config_location(env: EnvironmentView)
    ensures
        env.windows && non_empty(env.appdata) ==> config_dir_spec(env) == env.appdata,
        !env.windows ==> config_dir_spec(env) == config_dir_spec(
            EnvironmentView { appdata: None, ..env },
        ),
        !(env.windows && non_empty(env.appdata)) && non_empty(env.xdg_config_home)
            ==> config_dir_spec(env) == env.xdg_config_home,
        !(env.windows && non_empty(env.appdata)) && !non_empty(env.xdg_config_home) ==> (
        config_dir_spec(env) == match env.home {
            Some(h) => Some(joined(h, ".config"@, env.windows)),
            None => None,
        }),
        config_dir_spec(env) is None <==> (env.home is None && !non_empty(env.xdg_config_home)
            && !(env.windows && non_empty(env.appdata))),
        non_empty(env.config_override) ==> config_path_spec(env) == env.config_override,
        !non_empty(env.config_override) ==> config_path_spec(env) == match config_dir_spec(env) {
            Some(d) => Some(joined(joined(d, "gh-autoswitch"@, env.windows), "config.yml"@, env.windows)),
            None => None,
        },
{
}

} // verus!
