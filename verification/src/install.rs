//! What installing the credential helper writes to git's configuration, and
//! how git's stored values are summarised for diagnostics.

use vstd::prelude::*;
use vstd::utf8::{decode_utf8, valid_utf8};
use crate::config::{opt_view, Config, Mapping, MappingView};
use crate::credential::{decode_lossy, utf8_lossy};
use crate::text::{push_char, to_chars, trim, trimmed};

verus! {

/// The `git config` scope flag.
pub open spec fn scope_flag_spec(global: bool) -> Seq<char> {
    if global {
        "--global"@
    } else {
        "--local"@
    }
}

/// The `git config` scope flag: `--global` or `--local`.
pub fn scope_flag(global: bool) -> (r: &'static str)
    ensures
        r@ == scope_flag_spec(global),
{
    if global {
        "--global"
    } else {
        "--local"
    }
}

/// The key of the credential helpers for `host`.
pub open spec fn helper_key_spec(host: Seq<char>) -> Seq<char> {
    "credential.https://"@ + host + ".helper"@
}

/// The key that makes git pass the repository path for `host`.
pub open spec fn use_http_path_key_spec(host: Seq<char>) -> Seq<char> {
    "credential.https://"@ + host + ".useHttpPath"@
}

/// `s` with every backslash turned into a forward slash.
pub open spec fn forward_slashes(s: Seq<char>) -> Seq<char> {
    s.map_values(|c: char| if c == '\\' { '/' } else { c })
}

/// The helper command git runs: the executable, quoted, with forward
/// slashes, followed by `git-credential`.
pub open spec fn helper_command_spec(exe: Seq<char>) -> Seq<char> {
    "!\""@ + forward_slashes(exe) + "\" git-credential"@
}

/// The key of the credential helpers for `host`.
pub fn helper_key(host: &str) -> (r: String)
    ensures
        r@ == helper_key_spec(host@),
        r@.len() == host@.len() + 26,
        r@.subrange(19, 19 + host@.len() as int) == host@,
{
    proof {
        lemma_keys_name_the_host(host@, host@);
    }
    let mut s = String::from_str("credential.https://");
    s.append(host);
    s.append(".helper");
    s
}

/// The key that makes git pass the repository path for `host`.
pub fn use_http_path_key(host: &str) -> (r: String)
    ensures
        r@ == use_http_path_key_spec(host@),
        r@.len() == host@.len() + 31,
        r@.subrange(19, 19 + host@.len() as int) == host@,
{
    proof {
        lemma_keys_name_the_host(host@, host@);
    }
    let mut s = String::from_str("credential.https://");
    s.append(host);
    s.append(".useHttpPath");
    s
}

/// `s` with every backslash turned into a forward slash.
pub fn to_forward_slashes(s: &str) -> (r: String)
    ensures
        r@ == forward_slashes(s@),
{
    let v = to_chars(s);
    let mut r = String::new();
    let mut i: usize = 0;
    while i < v.len()
        invariant
            v@ == s@,
            i <= v.len(),
            r@ == forward_slashes(s@).take(i as int),
        decreases v.len() - i,
    {
        let c = v[i];
        if c == '\\' {
            push_char(&mut r, '/');
        } else {
            push_char(&mut r, c);
        }
        i = i + 1;
        assert(r@ =~= forward_slashes(s@).take(i as int));
    }
    assert(r@ =~= forward_slashes(s@));
    r
}

/// The helper command git runs for the executable at `exe`.
pub fn helper_command(exe: &str) -> (r: String)
    ensures
        r@ == helper_command_spec(exe@),
{
    let mut s = String::from_str("!\"");
    let fwd = to_forward_slashes(exe);
    s.append(fwd.as_str());
    s.append("\" git-credential");
    s
}

/// One character of a multi-valued git setting as shown on one line.
pub open spec fn bar_piece(c: char) -> Seq<char> {
    if c == '\n' {
        " | "@
    } else {
        seq![c]
    }
}

/// `s` with each newline shown as ` | `.
pub open spec fn bar_joined(s: Seq<char>) -> Seq<char>
    decreases s.len(),
{
    if s.len() == 0 {
        Seq::<char>::empty()
    } else {
        bar_joined(s.drop_last()) + bar_piece(s.last())
    }
}

/// The values git printed, on one line, or `None` when it printed nothing
/// but white space.
pub open spec fn git_values_spec(text: Seq<char>) -> Option<Seq<char>> {
    let t = trimmed(text);
    if t.len() == 0 {
        None
    } else {
        Some(bar_joined(t))
    }
}

/// The values git printed for a key, on one line with ` | ` between them, or
/// `None` when it printed nothing but white space.
pub fn git_values(text: &str) -> (r: Option<String>)
    ensures
        opt_view(r) == git_values_spec(text@),
{
    let t = trim(text);
    let v = to_chars(t.as_str());
    if v.len() == 0 {
        return None;
    }
    let mut r = String::new();
    let mut i: usize = 0;
    while i < v.len()
        invariant
            v@ == t@,
            i <= v.len(),
            r@ == bar_joined(t@.take(i as int)),
        decreases v.len() - i,
    {
        let c = v[i];
        assert(t@.take(i + 1).drop_last() =~= t@.take(i as int));
        if c == '\n' {
            r.append(" | ");
        } else {
            push_char(&mut r, c);
        }
        i = i + 1;
        assert(r@ =~= bar_joined(t@.take(i as int)));
    }
    assert(t@.take(i as int) =~= t@);
    Some(r)
}

/// The values that `git config --get-all` wrote to its standard output.
pub fn git_config_value(stdout: &[u8]) -> (r: Option<String>)
    ensures
        opt_view(r) == git_values_spec(utf8_lossy(stdout@)),
        valid_utf8(stdout@) ==> opt_view(r) == git_values_spec(decode_utf8(stdout@)),
{
    let text = decode_lossy(stdout);
    git_values(text.as_str())
}

impl Config {
    /// Record the located `gh` path when none is configured yet. Returns
    /// whether the configuration changed (and so should be saved).
    pub fn adopt_gh_path(&mut self, located: Option<String>) -> (changed: bool)
        ensures
            changed == (old(self).gh_path is None && located is Some),
            final(self).gh_path == (if changed {
                located
            } else {
                old(self).gh_path
            }),
            final(self).default_account == old(self).default_account,
            final(self).mappings == old(self).mappings,
    {
        if self.gh_path.is_none() {
            if let Some(p) = located {
                self.gh_path = Some(p);
                return true;
            }
        }
        false
    }
}

/// How diagnostics list a mapping.
pub open spec fn mapping_summary_spec(m: MappingView) -> Seq<char> {
    m.host + "/"@ + m.owner + " = "@ + m.account
}

/// How diagnostics list a mapping: `host/owner = account`.
pub fn mapping_summary(m: &Mapping) -> (r: String)
    ensures
        r@ == mapping_summary_spec(m@),
{
    let mut s = m.host.clone();
    s.append("/");
    s.append(m.owner.as_str());
    s.append(" = ");
    s.append(m.account.as_str());
    s
}

/// The git keys name the host they are for: the host stands right after
/// `credential.https://` (19 characters), followed by `.helper` or
/// `.useHttpPath`, so different hosts get different keys.
pub proof fn lemma_keys_name_the_host(h1: Seq<char>, h2: Seq<char>)
    ensures
        helper_key_spec(h1).len() == h1.len() + 26,
        helper_key_spec(h1).subrange(19, 19 + h1.len() as int) == h1,
        helper_key_spec(h1).take(19) == "credential.https://"@,
        helper_key_spec(h1) == helper_key_spec(h2) ==> h1 == h2,
        use_http_path_key_spec(h1).len() == h1.len() + 31,
        use_http_path_key_spec(h1).subrange(19, 19 + h1.len() as int) == h1,
        use_http_path_key_spec(h1).take(19) == "credential.https://"@,
        use_http_path_key_spec(h1) == use_http_path_key_spec(h2) ==> h1 == h2,
        helper_key_spec(h1) != use_http_path_key_spec(h2),
{
    reveal_strlit("credential.https://");
    reveal_strlit(".helper");
    reveal_strlit(".useHttpPath");
    let a = "credential.https://"@;
    assert(a.len() == 19);
    assert(".helper"@.len() == 7);
    assert(".useHttpPath"@.len() == 12);
    assert(helper_key_spec(h1).subrange(19, 19 + h1.len() as int) =~= h1);
    assert(helper_key_spec(h1).take(19) =~= a);
    assert(use_http_path_key_spec(h1).subrange(19, 19 + h1.len() as int) =~= h1);
    assert(use_http_path_key_spec(h1).take(19) =~= a);
    if helper_key_spec(h1) == helper_key_spec(h2) {
        assert(helper_key_spec(h2).subrange(19, 19 + h2.len() as int) =~= h2);
    }
    if use_http_path_key_spec(h1) == use_http_path_key_spec(h2) {
        assert(use_http_path_key_spec(h2).subrange(19, 19 + h2.len() as int) =~= h2);
    }
    if helper_key_spec(h1) == use_http_path_key_spec(h2) {
        let k = helper_key_spec(h1);
        assert(k[k.len() - 1] == 'r');
        assert(use_http_path_key_spec(h2)[k.len() - 1] == 'h');
    }
}

} // verus!
