//! The GitHub CLI (`gh`): where its executable and files are, which account
//! it has active, and whether a switch is needed.

use vstd::prelude::*;
use crate::config::{opt_str_view, opt_view};
use crate::paths::{is_set, join_path, joined, non_empty, Environment, EnvironmentView};
use crate::text::{eq_ci, eq_ignore_ascii_case, str_eq};
use crate::yaml::{
    as_str, entries_view, get, lemma_entries_view, parse_document, string_keys, string_keys_of,
    untag_ref, yaml_as_str, yaml_doc, yaml_entries, yaml_get, yaml_view, Yaml, YamlView,
};

verus! {

/// The name of the `gh` executable on the platform.
pub open spec fn exe_name_spec(windows: bool) -> Seq<char> {
    if windows {
        "gh.exe"@
    } else {
        "gh"@
    }
}

/// The name of the `gh` executable on the platform.
pub fn exe_name(windows: bool) -> (r: &'static str)
    ensures
        r@ == exe_name_spec(windows),
{
    if windows {
        "gh.exe"
    } else {
        "gh"
    }
}

/// The well-known install locations of `gh`, in the order they are tried.
pub open spec fn well_known_spec(env: EnvironmentView) -> Seq<Seq<char>> {
    if env.windows {
        seq!["C:\\Program Files\\GitHub CLI\\gh.exe"@] + match env.program_files {
            Some(pf) => seq![joined(joined(pf, "GitHub CLI"@, true), "gh.exe"@, true)],
            None => Seq::<Seq<char>>::empty(),
        } + match env.local_app_data {
            Some(la) => seq![joined(joined(la, "GitHub CLI"@, true), "gh.exe"@, true)],
            None => Seq::<Seq<char>>::empty(),
        }
    } else {
        seq![
            "/opt/homebrew/bin/gh"@,
            "/usr/local/bin/gh"@,
            "/usr/bin/gh"@,
            "/home/linuxbrew/.linuxbrew/bin/gh"@,
        ]
    }
}

/// The `gh` executable in each directory of `PATH`, in order.
pub open spec fn path_candidates(env: EnvironmentView) -> Seq<Seq<char>> {
    env.path_dirs.map_values(|d: Seq<char>| joined(d, exe_name_spec(env.windows), env.windows))
}

/// Where `gh` is looked for, in order: the configured path (when non-empty),
/// then `PATH`, then the well-known locations.
pub open spec fn gh_candidates(configured: Option<Seq<char>>, env: EnvironmentView) -> Seq<
    Seq<char>,
> {
    (if non_empty(configured) {
        seq![configured->0]
    } else {
        Seq::<Seq<char>>::empty()
    }) + path_candidates(env) + well_known_spec(env)
}

/// The first candidate at or after `k` whose flag is set.
pub open spec fn first_flagged(cands: Seq<Seq<char>>, flags: Seq<bool>, k: nat) -> Option<Seq<char>>
    decreases cands.len() - k,
{
    if k >= cands.len() {
        None
    } else if k < flags.len() && flags[k as int] {
        Some(cands[k as int])
    } else {
        first_flagged(cands, flags, k + 1)
    }
}

/// The well-known install locations of `gh`, in the order they are tried.
pub fn well_known(env: &Environment) -> (r: Vec<String>)
    ensures
        r@.map_values(|s: String| s@) == well_known_spec(env@),
{
    let mut v: Vec<String> = Vec::new();
    if env.windows {
        v.push(String::from_str("C:\\Program Files\\GitHub CLI\\gh.exe"));
        if let Some(pf) = &env.program_files {
            let d = join_path(pf.as_str(), "GitHub CLI", true);
            v.push(join_path(d.as_str(), "gh.exe", true));
        }
        if let Some(la) = &env.local_app_data {
            let d = join_path(la.as_str(), "GitHub CLI", true);
            v.push(join_path(d.as_str(), "gh.exe", true));
        }
    } else {
        v.push(String::from_str("/opt/homebrew/bin/gh"));
        v.push(String::from_str("/usr/local/bin/gh"));
        v.push(String::from_str("/usr/bin/gh"));
        v.push(String::from_str("/home/linuxbrew/.linuxbrew/bin/gh"));
    }
    assert(v@.map_values(|s: String| s@) =~= well_known_spec(env@));
    v
}

/// Every place where `gh` is looked for, in order.
pub fn candidates(configured: Option<&str>, env: &Environment) -> (r: Vec<String>)
    ensures
        r@.map_values(|s: String| s@) == gh_candidates(opt_str_view(configured), env@),
{
    let mut v: Vec<String> = Vec::new();
    if let Some(p) = configured {
        if p.unicode_len() > 0 {
            v.push(String::from_str(p));
        }
    }
    let ghost head = v@.map_values(|s: String| s@);
    assert(head =~= (if non_empty(opt_str_view(configured)) {
        seq![opt_str_view(configured)->0]
    } else {
        Seq::<Seq<char>>::empty()
    }));
    let exe = exe_name(env.windows);
    let mut i: usize = 0;
    while i < env.path_dirs.len()
        invariant
            i <= env.path_dirs.len(),
            exe@ == exe_name_spec(env.windows),
            v@.map_values(|s: String| s@) == head + path_candidates(env@).take(i as int),
        decreases env.path_dirs.len() - i,
    {
        let c = join_path(env.path_dirs[i].as_str(), exe, env.windows);
        assert(env@.path_dirs[i as int] == env.path_dirs@[i as int]@);
        assert(path_candidates(env@)[i as int] == c@);
        let ghost before = v@;
        v.push(c);
        assert(v@ == before.push(c));
        assert(v@.map_values(|s: String| s@) =~= before.map_values(|s: String| s@).push(c@));
        assert(path_candidates(env@).take(i + 1) =~= path_candidates(env@).take(i as int).push(c@));
        i = i + 1;
        assert(v@.map_values(|s: String| s@) =~= head + path_candidates(env@).take(i as int));
    }
    assert(path_candidates(env@).take(i as int) =~= path_candidates(env@));
    let wk = well_known(env);
    let ghost mid = v@.map_values(|s: String| s@);
    let mut j: usize = 0;
    while j < wk.len()
        invariant
            j <= wk.len(),
            wk@.map_values(|s: String| s@) == well_known_spec(env@),
            v@.map_values(|s: String| s@) == mid + well_known_spec(env@).take(j as int),
        decreases wk.len() - j,
    {
        let w = wk[j].clone();
        assert(well_known_spec(env@)[j as int] == w@);
        let ghost before = v@;
        v.push(w);
        assert(v@ == before.push(w));
        assert(v@.map_values(|s: String| s@) =~= before.map_values(|s: String| s@).push(w@));
        assert(well_known_spec(env@).take(j + 1) =~= well_known_spec(env@).take(j as int).push(w@));
        j = j + 1;
        assert(v@.map_values(|s: String| s@) =~= mid + well_known_spec(env@).take(j as int));
    }
    assert(well_known_spec(env@).take(j as int) =~= well_known_spec(env@));
    assert(v@.map_values(|s: String| s@) =~= gh_candidates(opt_str_view(configured), env@));
    v
}

/// Calls `std::path::Path::is_file`: whether a regular file exists at `path`.
/// Its answer depends on the file system, so nothing is claimed of it.
#[verifier::external_body]
fn is_file(path: &str) -> bool {
    std::path::Path::new(path).is_file()
}

/// The first candidate whose entry in `exists` is set (a missing entry counts
/// as unset).
pub fn first_existing(cands: &Vec<String>, exists: &Vec<bool>) -> (r: Option<String>)
    ensures
        opt_view(r) == first_flagged(cands@.map_values(|s: String| s@), exists@, 0),
        r matches Some(p) ==> exists|i: int|
            0 <= i < cands.len() && i < exists.len() && exists[i] && cands@[i]@ == p@ && forall|
                j: int,
            | 0 <= j < i ==> !(j < exists.len() && exists[j]),
        r is None ==> forall|j: int| 0 <= j < cands.len() ==> !(j < exists.len() && exists[j]),
{
    let ghost cs = cands@.map_values(|s: String| s@);
    let mut i: usize = 0;
    while i < cands.len()
        invariant
            cs == cands@.map_values(|s: String| s@),
            i <= cands.len(),
            first_flagged(cs, exists@, 0) == first_flagged(cs, exists@, i as nat),
        decreases cands.len() - i,
    {
        if i < exists.len() && exists[i] {
            let r = Some(cands[i].clone());
            proof {
                lemma_first_flagged_is_first(cs, exists@);
                assert(forall|k: int| 0 <= k < cands.len() ==> cs[k] == #[trigger] cands@[k]@);
            }
            return r;
        }
        i = i + 1;
    }
    proof {
        lemma_first_flagged_is_first(cs, exists@);
    }
    None
}

/// Locate the `gh` executable: an explicit configured path, then `PATH`, then
/// well-known install locations, taking the first that is a file. Returns
/// `None` if none is.
pub fn locate_gh(configured: Option<&str>, env: &Environment) -> (r: Option<String>)
    ensures
        r matches Some(p) ==> gh_candidates(opt_str_view(configured), env@).contains(p@),
{
    let cands = candidates(configured, env);
    let mut exists: Vec<bool> = Vec::new();
    let mut i: usize = 0;
    while i < cands.len()
        invariant
            i <= cands.len(),
            exists.len() == i,
        decreases cands.len() - i,
    {
        exists.push(is_file(cands[i].as_str()));
        i = i + 1;
    }
    let r = first_existing(&cands, &exists);
    proof {
        lemma_first_flagged_member(cands@.map_values(|s: String| s@), exists@, 0);
    }
    r
}

/// A flagged candidate is one of the candidates.
pub proof fn lemma_first_flagged_member(cands: Seq<Seq<char>>, flags: Seq<bool>, k: nat)
    ensures
        first_flagged(cands, flags, k) matches Some(p) ==> cands.contains(p),
    decreases cands.len() - k,
{
    if k < cands.len() {
        if !(k < flags.len() && flags[k as int]) {
            lemma_first_flagged_member(cands, flags, k + 1);
        } else {
            assert(cands[k as int] == cands[k as int]);
        }
    }
}

/// Resolve the `gh` command string: the located path, or `gh` on `PATH`.
pub fn resolve_gh(configured: Option<&str>, env: &Environment) -> (r: String)
    ensures
        r@ == "gh"@ || gh_candidates(opt_str_view(configured), env@).contains(r@),
{
    match locate_gh(configured, env) {
        Some(p) => p,
        None => String::from_str("gh"),
    }
}

/// The gh configuration directory: `GH_CONFIG_DIR`, else (on Windows)
/// `APPDATA\GitHub CLI`, else `XDG_CONFIG_HOME/gh`, else `~/.config/gh`,
/// else `gh`.
pub open spec fn gh_config_dir_spec(env: EnvironmentView) -> Seq<char> {
    if non_empty(env.gh_config_dir) {
        env.gh_config_dir->0
    } else if env.windows && non_empty(env.appdata) {
        joined(env.appdata->0, "GitHub CLI"@, env.windows)
    } else if non_empty(env.xdg_config_home) {
        joined(env.xdg_config_home->0, "gh"@, env.windows)
    } else if env.home is Some {
        joined(joined(env.home->0, ".config"@, env.windows), "gh"@, env.windows)
    } else {
        "gh"@
    }
}

/// The gh config directory (honours `GH_CONFIG_DIR`).
pub fn gh_config_dir(env: &Environment) -> (r: String)
    ensures
        r@ == gh_config_dir_spec(env@),
        non_empty(env@.gh_config_dir) ==> r@ == env@.gh_config_dir->0,
        !non_empty(env@.gh_config_dir) && env.windows && non_empty(env@.appdata) ==> r@ == joined(
            env@.appdata->0,
            "GitHub CLI"@,
            true,
        ),
{
    proof {
        lemma_gh_config_location(env@);
    }
    if is_set(&env.gh_config_dir) {
        return env.gh_config_dir.clone().unwrap();
    }
    if env.windows && is_set(&env.appdata) {
        let a = env.appdata.clone().unwrap();
        return join_path(a.as_str(), "GitHub CLI", env.windows);
    }
    if is_set(&env.xdg_config_home) {
        let x = env.xdg_config_home.clone().unwrap();
        return join_path(x.as_str(), "gh", env.windows);
    }
    if let Some(home) = &env.home {
        let c = join_path(home.as_str(), ".config", env.windows);
        return join_path(c.as_str(), "gh", env.windows);
    }
    String::from_str("gh")
}

/// The path of gh's `hosts.yml`.
pub fn hosts_file(env: &Environment) -> (r: String)
    ensures
        r@ == joined(gh_config_dir_spec(env@), "hosts.yml"@, env.windows),
{
    let d = gh_config_dir(env);
    join_path(d.as_str(), "hosts.yml", env.windows)
}

/// What gh's `hosts.yml` records of one host: its active `user` and the
/// names of its logged-in `users`.
#[derive(Debug, Clone)]
pub struct GhHost {
    pub name: String,
    pub user: Option<String>,
    pub users: Vec<String>,
}

/// The hosts of gh's `hosts.yml`, in file order.
#[derive(Debug, Clone)]
pub struct GhHosts {
    pub hosts: Vec<GhHost>,
}

/// A host entry as mathematical values.
pub struct GhHostView {
    pub name: Seq<char>,
    pub user: Option<Seq<char>>,
    pub users: Seq<Seq<char>>,
}

impl View for GhHost {
    type V = GhHostView;

    open spec fn view(&self) -> GhHostView {
        GhHostView {
            name: self.name@,
            user: opt_view(self.user),
            users: self.users@.map_values(|u: String| u@),
        }
    }
}

impl View for GhHosts {
    type V = Seq<GhHostView>;

    open spec fn view(&self) -> Seq<GhHostView> {
        self.hosts@.map_values(|h: GhHost| h@)
    }
}

/// What `hosts.yml` records of the host under key `name` with value `v`:
/// the string `user` and the string keys of the `users` mapping.
pub open spec fn host_view_of(name: Seq<char>, v: YamlView) -> GhHostView {
    GhHostView {
        name,
        user: match yaml_get(v, "user"@) {
            Some(u) => yaml_as_str(u),
            None => None,
        },
        users: match yaml_get(v, "users"@) {
            Some(u) => match yaml_entries(u) {
                Some(um) => string_keys(um),
                None => Seq::empty(),
            },
            None => Seq::empty(),
        },
    }
}

/// The hosts of the entries whose key is a string, in order.
pub open spec fn hosts_of_entries(m: Seq<(YamlView, YamlView)>) -> Seq<GhHostView>
    decreases m.len(),
{
    if m.len() == 0 {
        Seq::empty()
    } else {
        let rest = hosts_of_entries(m.drop_first());
        match m[0].0 {
            YamlView::Str(name) => seq![host_view_of(name, m[0].1)] + rest,
            _ => rest,
        }
    }
}

/// The hosts a `hosts.yml` document records; none unless it is a mapping.
pub open spec fn hosts_spec(doc: YamlView) -> Seq<GhHostView> {
    match yaml_entries(doc) {
        Some(m) => hosts_of_entries(m),
        None => Seq::empty(),
    }
}

/// The hosts of a `hosts.yml` text; `None` when it is not YAML.
pub open spec fn hosts_of_text(text: Seq<char>) -> Option<Seq<GhHostView>> {
    match yaml_doc(text) {
        Some(d) => Some(hosts_spec(d)),
        None => None,
    }
}

/// What a `hosts.yml` document records of each host.
pub fn hosts_from_yaml(doc: &Yaml) -> (r: GhHosts)
    ensures
        r@ == hosts_spec(yaml_view(*doc)),
{
    let mut hosts: Vec<GhHost> = Vec::new();
    match untag_ref(doc) {
        Yaml::Mapping(entries) => {
            let ghost m = entries_view(entries@);
            proof {
                lemma_entries_view(entries@);
                assert(m.skip(0) =~= m);
            }
            assert(yaml_entries(yaml_view(*doc)) == Some(m));
            let mut i: usize = 0;
            while i < entries.len()
                invariant
                    m == entries_view(entries@),
                    yaml_entries(yaml_view(*doc)) == Some(m),
                    m.len() == entries@.len(),
                    forall|k: int|
                        0 <= k < entries@.len() ==> #[trigger] m[k] == (
                            yaml_view(entries@[k].0),
                            yaml_view(entries@[k].1),
                        ),
                    i <= entries.len(),
                    hosts_of_entries(m) == hosts@.map_values(|h: GhHost| h@) + hosts_of_entries(
                        m.skip(i as int),
                    ),
                decreases entries.len() - i,
            {
                assert(m[i as int] == (yaml_view(entries@[i as int].0), yaml_view(entries@[i as int].1)));
                assert(m.skip(i as int).drop_first() =~= m.skip(i + 1));
                assert(m.skip(i as int)[0] == m[i as int]);
                let ghost before = hosts@.map_values(|h: GhHost| h@);
                if let Yaml::Str(name) = &entries[i].0 {
                    let v = &entries[i].1;
                    let user = match get(v, "user") {
                        Some(u) => as_str(u),
                        None => None,
                    };
                    let users = match get(v, "users") {
                        Some(u) => string_keys_of(u),
                        None => {
                            let e: Vec<String> = Vec::new();
                            assert(e@.map_values(|s: String| s@) =~= Seq::<Seq<char>>::empty());
                            e
                        },
                    };
                    let h = GhHost { name: name.clone(), user, users };
                    assert(h@ == host_view_of(name@, m[i as int].1));
                    hosts.push(h);
                    assert(hosts@.map_values(|h: GhHost| h@) =~= before.push(h@));
                    assert(before.push(h@) + hosts_of_entries(m.skip(i + 1)) =~= before + (seq![h@]
                        + hosts_of_entries(m.skip(i + 1))));
                }
                i = i + 1;
            }
            assert(m.skip(i as int) =~= Seq::<(YamlView, YamlView)>::empty());
            assert(hosts@.map_values(|h: GhHost| h@) + Seq::<GhHostView>::empty() =~= hosts@.map_values(
                |h: GhHost| h@,
            ));
        },
        _ => {
            assert(hosts@.map_values(|h: GhHost| h@) =~= Seq::<GhHostView>::empty());
        },
    }
    GhHosts { hosts }
}

/// What gh's `hosts.yml` text records of each host; `None` when the text is
/// not YAML.
pub fn parse_hosts(text: &str) -> (r: Option<GhHosts>)
    ensures
        match r {
            Some(h) => hosts_of_text(text@) == Some(h@),
            None => hosts_of_text(text@) is None,
        },
{
    match parse_document(text) {
        Some(doc) => Some(hosts_from_yaml(&doc)),
        None => None,
    }
}

/// The first entry at or after `k` named exactly `host`.
pub open spec fn host_entry(hs: Seq<GhHostView>, host: Seq<char>, k: nat) -> Option<GhHostView>
    decreases hs.len() - k,
{
    if k >= hs.len() {
        None
    } else if hs[k as int].name == host {
        Some(hs[k as int])
    } else {
        host_entry(hs, host, k + 1)
    }
}

/// The active account of `host`.
pub open spec fn active_account_spec(hs: Seq<GhHostView>, host: Seq<char>) -> Option<Seq<char>> {
    match host_entry(hs, host, 0) {
        Some(e) => e.user,
        None => None,
    }
}

/// The accounts known for `host`.
pub open spec fn known_accounts_spec(hs: Seq<GhHostView>, host: Seq<char>) -> Seq<Seq<char>> {
    match host_entry(hs, host, 0) {
        Some(e) => e.users,
        None => Seq::<Seq<char>>::empty(),
    }
}

/// The first name at or after `k` equal to `account` up to ASCII case.
pub open spec fn first_ci(names: Seq<Seq<char>>, account: Seq<char>, k: nat) -> Option<Seq<char>>
    decreases names.len() - k,
{
    if k >= names.len() {
        None
    } else if eq_ci(names[k as int], account) {
        Some(names[k as int])
    } else {
        first_ci(names, account, k + 1)
    }
}

/// The account name in the casing gh knows, or `account` itself.
pub open spec fn canonical_spec(hs: Seq<GhHostView>, host: Seq<char>, account: Seq<char>) -> Seq<
    char,
> {
    match first_ci(known_accounts_spec(hs, host), account, 0) {
        Some(a) => a,
        None => account,
    }
}

/// The account to switch `host` to, or `None` when it is already active.
pub open spec fn switch_target(hs: Seq<GhHostView>, host: Seq<char>, account: Seq<char>) -> Option<
    Seq<char>,
> {
    let target = canonical_spec(hs, host, account);
    match active_account_spec(hs, host) {
        Some(a) => if eq_ci(a, target) {
            None
        } else {
            Some(target)
        },
        None => Some(target),
    }
}

/// The position of the entry named exactly `host`, if any.
fn host_position(hosts: &GhHosts, host: &str) -> (r: Option<usize>)
    ensures
        match r {
            Some(i) => i < hosts.hosts.len() && host_entry(hosts@, host@, 0) == Some(
                hosts@[i as int],
            ),
            None => host_entry(hosts@, host@, 0) is None,
        },
{
    let mut i: usize = 0;
    while i < hosts.hosts.len()
        invariant
            i <= hosts.hosts.len(),
            host_entry(hosts@, host@, 0) == host_entry(hosts@, host@, i as nat),
        decreases hosts.hosts.len() - i,
    {
        assert(hosts@[i as int] == hosts.hosts@[i as int]@);
        if str_eq(hosts.hosts[i].name.as_str(), host) {
            return Some(i);
        }
        i = i + 1;
    }
    None
}

/// The currently active account for a host, as gh's `hosts.yml` records it.
pub fn active_account(hosts: &GhHosts, host: &str) -> (r: Option<String>)
    ensures
        opt_view(r) == active_account_spec(hosts@, host@),
{
    match host_position(hosts, host) {
        Some(i) => {
            assert(hosts@[i as int] == hosts.hosts@[i as int]@);
            hosts.hosts[i].user.clone()
        },
        None => None,
    }
}

/// All accounts known to `gh` for a host, as gh's `hosts.yml` records them.
pub fn known_accounts(hosts: &GhHosts, host: &str) -> (r: Vec<String>)
    ensures
        r@.map_values(|u: String| u@) == known_accounts_spec(hosts@, host@),
{
    match host_position(hosts, host) {
        Some(i) => {
            assert(hosts@[i as int] == hosts.hosts@[i as int]@);
            hosts.hosts[i].users.clone()
        },
        None => {
            let v: Vec<String> = Vec::new();
            assert(v@.map_values(|u: String| u@) =~= Seq::<Seq<char>>::empty());
            v
        },
    }
}

/// Resolve a configured account name to the exact casing `gh` knows, matching
/// case-insensitively. Falls back to the given name when no match is found so
/// the caller still produces a meaningful error.
pub fn canonical_account(hosts: &GhHosts, host: &str, account: &str) -> (r: String)
    ensures
        r@ == canonical_spec(hosts@, host@, account@),
{
    let known = known_accounts(hosts, host);
    let ghost ks = known@.map_values(|u: String| u@);
    let mut i: usize = 0;
    while i < known.len()
        invariant
            ks == known@.map_values(|u: String| u@),
            ks == known_accounts_spec(hosts@, host@),
            i <= known.len(),
            first_ci(ks, account@, 0) == first_ci(ks, account@, i as nat),
        decreases known.len() - i,
    {
        if eq_ignore_ascii_case(known[i].as_str(), account) {
            return known[i].clone();
        }
        i = i + 1;
    }
    String::from_str(account)
}

/// Decide whether `host` must be switched to `account`: `None` when the
/// account (in gh's casing) is already active, else the name to switch to.
/// The configured name is resolved to `gh`'s canonical casing first.
pub fn switch_if_needed(hosts: &GhHosts, host: &str, account: &str) -> (r: Option<String>)
    ensures
        opt_view(r) == switch_target(hosts@, host@, account@),
{
    let target = canonical_account(hosts, host, account);
    match active_account(hosts, host) {
        Some(a) => if eq_ignore_ascii_case(a.as_str(), target.as_str()) {
            None
        } else {
            Some(target)
        },
        None => Some(target),
    }
}

/// The active account of a host, read from a `hosts.yml` text; `None` when
/// the text is not YAML.
pub fn active_account_in(text: &str, host: &str) -> (r: Option<String>)
    ensures
        opt_view(r) == match hosts_of_text(text@) {
            Some(hs) => active_account_spec(hs, host@),
            None => None,
        },
{
    match parse_hosts(text) {
        Some(h) => active_account(&h, host),
        None => None,
    }
}

/// The accounts known for a host, read from a `hosts.yml` text; empty when
/// the text is not YAML.
pub fn known_accounts_in(text: &str, host: &str) -> (r: Vec<String>)
    ensures
        r@.map_values(|u: String| u@) == match hosts_of_text(text@) {
            Some(hs) => known_accounts_spec(hs, host@),
            None => Seq::empty(),
        },
{
    match parse_hosts(text) {
        Some(h) => known_accounts(&h, host),
        None => {
            let v: Vec<String> = Vec::new();
            assert(v@.map_values(|u: String| u@) =~= Seq::<Seq<char>>::empty());
            v
        },
    }
}

proof fn lemma_entry_value_shift(m: Seq<(YamlView, YamlView)>, key: Seq<char>, k: nat)
    requires
        m.len() > 0,
    ensures
        crate::yaml::entry_value(m, key, k + 1) == crate::yaml::entry_value(m.drop_first(), key, k),
    decreases m.len() - k,
{
    if k + 1 < m.len() {
        assert(m.drop_first()[k as int] == m[k + 1int]);
        lemma_entry_value_shift(m, key, k + 1);
    }
}

proof fn lemma_host_entry_shift(hs: Seq<GhHostView>, host: Seq<char>, k: nat)
    requires
        hs.len() > 0,
    ensures
        host_entry(hs, host, k + 1) == host_entry(hs.drop_first(), host, k),
    decreases hs.len() - k,
{
    if k + 1 < hs.len() {
        assert(hs.drop_first()[k as int] == hs[k + 1int]);
        lemma_host_entry_shift(hs, host, k + 1);
    }
}

proof fn lemma_host_entry_of_entries(m: Seq<(YamlView, YamlView)>, host: Seq<char>)
    ensures
        host_entry(hosts_of_entries(m), host, 0) == match crate::yaml::entry_value(m, host, 0) {
            Some(v) => Some(host_view_of(host, v)),
            None => None,
        },
    decreases m.len(),
{
    if m.len() > 0 {
        lemma_host_entry_of_entries(m.drop_first(), host);
        lemma_entry_value_shift(m, host, 0);
        let rest = hosts_of_entries(m.drop_first());
        match m[0].0 {
            YamlView::Str(name) => {
                let hs = seq![host_view_of(name, m[0].1)] + rest;
                lemma_host_entry_shift(hs, host, 0);
                assert(hs.drop_first() =~= rest);
            },
            _ => {},
        }
    }
}

/// The host model agrees with reading the document directly, as
/// `serde_yaml::Value::get` and `as_str` do: the active account is the
/// string `user` under the host's key, and the known accounts are the string
/// keys of its `users` mapping.
pub proof fn lemma_hosts_model_follows_document(d: YamlView, host: Seq<char>)
    ensures
        active_account_spec(hosts_spec(d), host) == match yaml_get(d, host) {
            Some(h) => match yaml_get(h, "user"@) {
                Some(u) => yaml_as_str(u),
                None => None,
            },
            None => None,
        },
        known_accounts_spec(hosts_spec(d), host) == match yaml_get(d, host) {
            Some(h) => match yaml_get(h, "users"@) {
                Some(u) => match yaml_entries(u) {
                    Some(um) => string_keys(um),
                    None => Seq::empty(),
                },
                None => Seq::empty(),
            },
            None => Seq::empty(),
        },
{
    if let Some(m) = yaml_entries(d) {
        lemma_host_entry_of_entries(m, host);
    }
}

proof fn lemma_first_ci_matches(names: Seq<Seq<char>>, account: Seq<char>, k: nat)
    ensures
        first_ci(names, account, k) matches Some(a) ==> eq_ci(a, account),
    decreases names.len() - k,
{
    if k < names.len() && !eq_ci(names[k as int], account) {
        lemma_first_ci_matches(names, account, k + 1);
    }
}

/// The canonical name of an account always equals the configured name up to
/// ASCII case.
pub proof fn lemma_canonical_account_matches(hs: Seq<GhHostView>, host: Seq<char>, account: Seq<char>)
    ensures
        eq_ci(canonical_spec(hs, host, account), account),
{
    lemma_first_ci_matches(known_accounts_spec(hs, host), account, 0);
    crate::text::lemma_eq_ci_equivalence(account, account, account);
}

/// A switch is needed exactly when the active account of the host is not
/// the configured one (up to ASCII case), and the account switched to is the
/// configured one up to ASCII case.
pub proof fn lemma_switch_only_when_needed(hs: Seq<GhHostView>, host: Seq<char>, account: Seq<char>)
    ensures
        switch_target(hs, host, account) is None <==> (active_account_spec(hs, host) matches Some(
            a,
        ) && eq_ci(a, account)),
        switch_target(hs, host, account) matches Some(t) ==> eq_ci(t, account),
{
    let t = canonical_spec(hs, host, account);
    lemma_canonical_account_matches(hs, host, account);
    if let Some(a) = active_account_spec(hs, host) {
        crate::text::lemma_eq_ci_equivalence(a, t, account);
        crate::text::lemma_eq_ci_equivalence(a, account, t);
        crate::text::lemma_eq_ci_equivalence(t, account, account);
        crate::text::lemma_eq_ci_equivalence(account, t, t);
    }
}

/// Where gh keeps its files: a non-empty `GH_CONFIG_DIR` wins; then, on
/// Windows only, `APPDATA\GitHub CLI` whatever `XDG_CONFIG_HOME` holds; then
/// `XDG_CONFIG_HOME/gh`; then `~/.config/gh`; and `gh` without a home.
pub proof fn lemma_gh_config_location(env: EnvironmentView)
    ensures
        non_empty(env.gh_config_dir) ==> gh_config_dir_spec(env) == env.gh_config_dir->0,
        !non_empty(env.gh_config_dir) && env.windows && non_empty(env.appdata)
            ==> gh_config_dir_spec(env) == joined(env.appdata->0, "GitHub CLI"@, true),
        !env.windows ==> gh_config_dir_spec(env) == gh_config_dir_spec(
            EnvironmentView { appdata: None, ..env },
        ),
        !non_empty(env.gh_config_dir) && !(env.windows && non_empty(env.appdata)) && non_empty(
            env.xdg_config_home,
        ) ==> gh_config_dir_spec(env) == joined(env.xdg_config_home->0, "gh"@, env.windows),
{
}

proof fn lemma_first_flagged_from(cands: Seq<Seq<char>>, flags: Seq<bool>, k: nat)
    requires
        k <= cands.len(),
    ensures
        first_flagged(cands, flags, k) matches Some(p) ==> exists|i: int|
            k <= i < cands.len() && i < flags.len() && flags[i] && cands[i] == p && forall|j: int|
                k <= j < i ==> !(j < flags.len() && flags[j]),
        first_flagged(cands, flags, k) is None ==> forall|j: int|
            k <= j < cands.len() ==> !(j < flags.len() && flags[j]),
    decreases cands.len() - k,
{
    if k < cands.len() {
        lemma_first_flagged_from(cands, flags, k + 1);
        if !(k < flags.len() && flags[k as int]) {
            if let Some(p) = first_flagged(cands, flags, k + 1) {
                let i = choose|i: int|
                    k + 1 <= i < cands.len() && i < flags.len() && flags[i] && cands[i] == p
                        && forall|j: int| k + 1 <= j < i ==> !(j < flags.len() && flags[j]);
                assert(forall|j: int| k <= j < i ==> !(j < flags.len() && flags[j]));
            }
        }
    }
}

/// The located path is the first candidate found to be a file: every
/// candidate before it was found not to be one, and `None` means none was.
pub proof fn lemma_first_flagged_is_first(cands: Seq<Seq<char>>, flags: Seq<bool>)
    ensures
        first_flagged(cands, flags, 0) matches Some(p) ==> exists|i: int|
            0 <= i < cands.len() && i < flags.len() && flags[i] && cands[i] == p && forall|j: int|
                0 <= j < i ==> !(j < flags.len() && flags[j]),
        first_flagged(cands, flags, 0) is None ==> forall|j: int|
            0 <= j < cands.len() ==> !(j < flags.len() && flags[j]),
{
    lemma_first_flagged_from(cands, flags, 0);
}

/// A configured path that is a file is always the one located, before any
/// directory of `PATH` or well-known location.
pub proof fn lemma_configured_path_wins(configured: Option<Seq<char>>, env: EnvironmentView, flags: Seq<bool>)
    requires
        non_empty(configured),
        flags.len() > 0,
        flags[0],
    ensures
        first_flagged(gh_candidates(configured, env), flags, 0) == configured,
{
    assert(gh_candidates(configured, env)[0] == configured->0);
}

} // verus!
