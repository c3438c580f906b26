//! Reading a git credential-helper request: the host and the owner (the
//! first segment of the repository path).

use vstd::prelude::*;
use vstd::utf8::{decode_utf8, valid_utf8};
use crate::config::{lookup_spec, opt_view, Config};
use crate::gh::{switch_if_needed, switch_target, GhHosts, GhHostView};
use crate::text::{str_eq, 
    find_char, find_char_in, has_prefix, lemma_find_char, starts_with_at, to_chars, trim_range,
    trimmed,
};

verus! {

/// The text that `String::from_utf8_lossy` decodes from `bytes`.
pub uninterp spec fn utf8_lossy(bytes: Seq<u8>) -> Seq<char>;

/// Calls `String::from_utf8_lossy`. Claimed: the result is `utf8_lossy` of the
/// bytes, and valid UTF-8 is decoded unchanged (invalid sequences become
/// U+FFFD, which is not stated).
#[verifier::external_body]
pub(crate) fn decode_lossy(input: &[u8]) -> (r: String)
    ensures
        r@ == utf8_lossy(input@),
        valid_utf8(input@) ==> r@ == decode_utf8(input@),
{
    String::from_utf8_lossy(input).into_owned()
}

/// The lines of `t`: the pieces between `\n` characters, without a final
/// empty piece after a trailing `\n`.
pub open spec fn lines(t: Seq<char>) -> Seq<Seq<char>>
    decreases t.len(),
{
    if t.len() == 0 {
        seq![]
    } else {
        let i = find_char(t, '\n');
        if i < t.len() {
            seq![t.take(i as int)] + lines(t.skip(i + 1int))
        } else {
            seq![t]
        }
    }
}

/// The value of the last line that starts with `key`: the rest of that line,
/// trimmed.
pub open spec fn field_value(ls: Seq<Seq<char>>, key: Seq<char>) -> Option<Seq<char>>
    decreases ls.len(),
{
    if ls.len() == 0 {
        None
    } else {
        match field_value(ls.drop_first(), key) {
            Some(v) => Some(v),
            None => if has_prefix(ls[0], key) {
                Some(trimmed(ls[0].skip(key.len() as int)))
            } else {
                None
            },
        }
    }
}

/// The key of the host line.
pub open spec fn host_key() -> Seq<char> {
    seq!['h', 'o', 's', 't', '=']
}

/// The key of the path line.
pub open spec fn path_key() -> Seq<char> {
    seq!['p', 'a', 't', 'h', '=']
}

/// The first segment of a path: everything before the first `/`.
pub open spec fn first_segment(p: Seq<char>) -> Seq<char> {
    p.take(find_char(p, '/') as int)
}

/// `(host, owner)` of a credential request text: the last `host=` value and
/// the first segment of the last `path=` value, both required non-empty.
pub open spec fn parse_owner_spec(text: Seq<char>) -> Option<(Seq<char>, Seq<char>)> {
    let ls = lines(text);
    match (field_value(ls, host_key()), field_value(ls, path_key())) {
        (Some(h), Some(p)) => if h.len() == 0 || first_segment(p).len() == 0 {
            None
        } else {
            Some((h, first_segment(p)))
        },
        _ => None,
    }
}

/// The later value if there is one, else the earlier.
pub open spec fn or_else(later: Option<Seq<char>>, earlier: Option<Seq<char>>) -> Option<Seq<char>> {
    match later {
        Some(v) => Some(v),
        None => earlier,
    }
}

/// The view of an optional pair of strings.
pub open spec fn pair_view(o: Option<(String, String)>) -> Option<(Seq<char>, Seq<char>)> {
    match o {
        Some((a, b)) => Some((a@, b@)),
        None => None,
    }
}

/// The value a single line gives to `key`, if it starts with it.
pub open spec fn line_value(line: Seq<char>, key: Seq<char>) -> Option<Seq<char>> {
    if has_prefix(line, key) {
        Some(trimmed(line.skip(key.len() as int)))
    } else {
        None
    }
}

/// Splitting off the first line of a non-empty text.
proof fn lemma_lines_step(t: Seq<char>, key: Seq<char>)
    requires
        t.len() > 0,
    ensures
        ({
            let i = find_char(t, '\n');
            let rest = if i < t.len() {
                t.skip(i + 1int)
            } else {
                Seq::<char>::empty()
            };
            field_value(lines(t), key) == or_else(
                field_value(lines(rest), key),
                line_value(t.take(i as int), key),
            )
        }),
{
    let i = find_char(t, '\n');
    lemma_find_char(t, '\n');
    let ls = lines(t);
    if i < t.len() {
        assert(ls.drop_first() =~= lines(t.skip(i + 1int)));
        assert(ls[0] == t.take(i as int));
    } else {
        assert(t.take(i as int) =~= t);
        assert(ls.drop_first() =~= seq![]);
        let e = Seq::<char>::empty();
        assert(lines(e) =~= seq![]);
    }
}

/// The value of `key` on the line `[lo, hi)` of `v`, as a string cut from `text`.
fn line_field(v: &Vec<char>, text: &str, lo: usize, hi: usize, key: &str) -> (r: Option<String>)
    requires
        v@ == text@,
        lo <= hi <= v.len(),
    ensures
        opt_view(r) == line_value(v@.subrange(lo as int, hi as int), key@),
{
    if starts_with_at(v, lo, hi, key) {
        let klen = key.unicode_len();
        let ghost line = v@.subrange(lo as int, hi as int);
        assert(line.skip(klen as int) =~= v@.subrange(lo + klen, hi as int));
        let (a, b) = trim_range(v, lo + klen, hi);
        Some(String::from_str(text.substring_char(a, b)))
    } else {
        None
    }
}

/// Parse the `host=` and `path=` lines of a credential request text and
/// derive `(host, owner)` where owner is the first path segment.
pub fn parse_owner_text(text: &str) -> (r: Option<(String, String)>)
    ensures
        pair_view(r) == parse_owner_spec(text@),
{
    let v = to_chars(text);
    let n = v.len();
    let mut host: Option<String> = None;
    let mut path: Option<String> = None;
    let mut start: usize = 0;
    proof {
        reveal_strlit("host=");
        reveal_strlit("path=");
        assert(v@.skip(0) =~= v@);
    }
    while start < n
        invariant
            v@ == text@,
            n == v.len(),
            start <= n,
            field_value(lines(v@), host_key()) == or_else(
                field_value(lines(v@.skip(start as int)), host_key()),
                opt_view(host),
            ),
            field_value(lines(v@), path_key()) == or_else(
                field_value(lines(v@.skip(start as int)), path_key()),
                opt_view(path),
            ),
        decreases n - start,
    {
        let ghost t = v@.skip(start as int);
        let end = find_char_in(&v, start, n, '\n');
        proof {
            assert(v@.subrange(start as int, n as int) =~= t);
            lemma_lines_step(t, host_key());
            lemma_lines_step(t, path_key());
            assert(t.take(end - start) =~= v@.subrange(start as int, end as int));
            reveal_strlit("host=");
            reveal_strlit("path=");
        }
        let h = line_field(&v, text, start, end, "host=");
        let p = line_field(&v, text, start, end, "path=");
        proof {
            assert("host="@ =~= host_key());
            assert("path="@ =~= path_key());
            let line = v@.subrange(start as int, end as int);
            if has_prefix(line, host_key()) {
                assert(line.take(5)[0] == 'h');
                assert(!has_prefix(line, path_key()));
            }
        }
        if h.is_some() {
            host = h;
        } else if p.is_some() {
            path = p;
        }
        proof {
            if end < n {
                assert(t.skip(end - start + 1) =~= v@.skip(end + 1));
            }
        }
        if end < n {
            start = end + 1;
        } else {
            start = n;
            proof {
                let e = Seq::<char>::empty();
                assert(v@.skip(n as int) =~= e);
            }
        }
    }
    proof {
        let e = Seq::<char>::empty();
        assert(v@.skip(start as int) =~= e);
        assert(lines(e) =~= seq![]);
    }
    match (host, path) {
        (Some(h), Some(p)) => {
            let pv = to_chars(p.as_str());
            let k = find_char_in(&pv, 0, pv.len(), '/');
            proof {
                assert(pv@.subrange(0, pv@.len() as int) =~= pv@);
            }
            let owner = String::from_str(p.as_str().substring_char(0, k));
            proof {
                assert(owner@ =~= first_segment(p@));
            }
            if h.unicode_len() == 0 || owner.unicode_len() == 0 {
                None
            } else {
                Some((h, owner))
            }
        },
        _ => None,
    }
}

/// Parse the `host=` and `path=` lines of a git credential request and derive
/// `(host, owner)` where owner is the first path segment.
pub fn parse_owner(input: &[u8]) -> (r: Option<(String, String)>)
    ensures
        pair_view(r) == parse_owner_spec(utf8_lossy(input@)),
        valid_utf8(input@) ==> pair_view(r) == parse_owner_spec(decode_utf8(input@)),
{
    let text = decode_lossy(input);
    parse_owner_text(text.as_str())
}

/// Whether the credential operation `op` is one before which the account is
/// switched (only `get`: git asks for a credential).
pub fn wants_switch(op: &str) -> (r: bool)
    ensures
        r == (op@ == "get"@),
{
    str_eq(op, "get")
}

/// The switch a credential request calls for: the host and the account (in
/// gh's casing) to make active, or `None` when the request names no
/// host/owner, nothing is mapped, or the account is already active.
pub open spec fn switch_decision(c: crate::config::ConfigView, hs: Seq<GhHostView>, text: Seq<char>) -> Option<
    (Seq<char>, Seq<char>),
> {
    match parse_owner_spec(text) {
        Some((h, o)) => match lookup_spec(c, h, o) {
            Some(a) => match switch_target(hs, h, a) {
                Some(t) => Some((h, t)),
                None => None,
            },
            None => None,
        },
        None => None,
    }
}

/// Decide the account switch for a credential request: parse host/owner,
/// look the account up, and compare it with the active one.
pub fn maybe_switch(cfg: &Config, hosts: &GhHosts, input: &[u8]) -> (r: Option<(String, String)>)
    ensures
        pair_view(r) == switch_decision(cfg@, hosts@, utf8_lossy(input@)),
        valid_utf8(input@) ==> pair_view(r) == switch_decision(cfg@, hosts@, decode_utf8(input@)),
{
    let (host, owner) = match parse_owner(input) {
        Some(v) => v,
        None => return None,
    };
    let account = match cfg.lookup(host.as_str(), owner.as_str()) {
        Some(a) => a,
        None => return None,
    };
    match switch_if_needed(hosts, host.as_str(), account) {
        Some(t) => Some((host, t)),
        None => None,
    }
}

/// A parsed request always names a non-empty host and a non-empty owner
/// that holds no `/`, and a request without a `path=` line gives nothing.
pub proof fn lemma_parsed_owner_is_a_segment(text: Seq<char>)
    ensures
        parse_owner_spec(text) matches Some((h, o)) ==> h.len() > 0 && o.len() > 0 && forall|i: int|
            0 <= i < o.len() ==> o[i] != '/',
        field_value(lines(text), path_key()) is None ==> parse_owner_spec(text) is None,
{
    if let Some(p) = field_value(lines(text), path_key()) {
        lemma_find_char(p, '/');
    }
}

} // verus!
