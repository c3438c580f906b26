//! YAML documents as parsed by `serde_yaml`, held as plain values, and the
//! lookups on them that `serde_yaml::Value` offers (`get`, `as_str`,
//! `as_mapping`, keys).

use vstd::prelude::*;
use crate::config::opt_view;
use crate::text::str_eq;

verus! {

#[verifier::external_type_specification]
#[verifier::external_body]
pub struct ExYamlValue(serde_yaml::Value);

#[verifier::external_type_specification]
#[verifier::external_body]
pub struct ExYamlError(serde_yaml::Error);

/// A YAML value: `serde_yaml::Value` with numbers and tags as text.
#[derive(Debug)]
pub enum Yaml {
    Null,
    Bool(bool),
    /// A number, as `serde_yaml` displays it.
    Number(String),
    Str(String),
    Sequence(Vec<Yaml>),
    /// The entries of a mapping, in document order.
    Mapping(Vec<(Yaml, Yaml)>),
    /// A tagged value: the tag as displayed (`!tag`) and the value.
    Tagged(String, Box<Yaml>),
}

/// A YAML value as mathematical values.
pub enum YamlView {
    Null,
    Bool(bool),
    Number(Seq<char>),
    Str(Seq<char>),
    Sequence(Seq<YamlView>),
    Mapping(Seq<(YamlView, YamlView)>),
    Tagged(Seq<char>, Box<YamlView>),
}

/// The view of a YAML value.
pub open spec fn yaml_view(y: Yaml) -> YamlView
    decreases y,
{
    match y {
        Yaml::Null => YamlView::Null,
        Yaml::Bool(b) => YamlView::Bool(b),
        Yaml::Number(n) => YamlView::Number(n@),
        Yaml::Str(s) => YamlView::Str(s@),
        Yaml::Sequence(v) => YamlView::Sequence(items_view(v@)),
        Yaml::Mapping(v) => YamlView::Mapping(entries_view(v@)),
        Yaml::Tagged(t, b) => YamlView::Tagged(t@, Box::new(yaml_view(*b))),
    }
}

/// The views of the items of a sequence.
pub open spec fn items_view(s: Seq<Yaml>) -> Seq<YamlView>
    decreases s,
{
    if s.len() == 0 {
        Seq::empty()
    } else {
        items_view(s.drop_last()).push(yaml_view(s.last()))
    }
}

/// The views of the entries of a mapping.
pub open spec fn entries_view(s: Seq<(Yaml, Yaml)>) -> Seq<(YamlView, YamlView)>
    decreases s,
{
    if s.len() == 0 {
        Seq::empty()
    } else {
        entries_view(s.drop_last()).push((yaml_view(s.last().0), yaml_view(s.last().1)))
    }
}

/// The document that `serde_yaml::from_str::<serde_yaml::Value>` reads from
/// `text`, or `None` when it refuses the text.
pub uninterp spec fn yaml_doc(text: Seq<char>) -> Option<YamlView>;

/// The same value as plain values: each variant of `serde_yaml::Value` to
/// the variant of the same name, numbers and tags as they display.
#[verifier::external_body]
fn yaml_of(v: serde_yaml::Value) -> Yaml {
    match v {
        serde_yaml::Value::Null => Yaml::Null,
        serde_yaml::Value::Bool(b) => Yaml::Bool(b),
        serde_yaml::Value::Number(n) => Yaml::Number(n.to_string()),
        serde_yaml::Value::String(s) => Yaml::Str(s),
        serde_yaml::Value::Sequence(q) => Yaml::Sequence(q.into_iter().map(yaml_of).collect()),
        serde_yaml::Value::Mapping(m) => Yaml::Mapping(
            m.into_iter().map(|(k, v)| (yaml_of(k), yaml_of(v))).collect(),
        ),
        serde_yaml::Value::Tagged(t) => Yaml::Tagged(t.tag.to_string(), Box::new(yaml_of(t.value))),
    }
}

/// Calls `serde_yaml::from_str::<serde_yaml::Value>`. Claimed: it succeeds
/// exactly when `yaml_doc` gives a document, and the value it returns is that
/// document (converted one for one by `yaml_of`).
#[verifier::external_body]
fn parse_yaml(text: &str) -> (r: Result<Yaml, serde_yaml::Error>)
    ensures
        match r {
            Ok(y) => yaml_doc(text@) == Some(yaml_view(y)),
            Err(_) => yaml_doc(text@) is None,
        },
{
    match serde_yaml::from_str::<serde_yaml::Value>(text) {
        Ok(v) => Ok(yaml_of(v)),
        Err(e) => Err(e),
    }
}

/// Parse a YAML document; `None` when the text is not YAML.
pub fn parse_document(text: &str) -> (r: Option<Yaml>)
    ensures
        match r {
            Some(y) => yaml_doc(text@) == Some(yaml_view(y)),
            None => yaml_doc(text@) is None,
        },
{
    match parse_yaml(text) {
        Ok(y) => Some(y),
        Err(_) => None,
    }
}

/// A value with its tags removed.
pub open spec fn untag(y: YamlView) -> YamlView
    decreases y,
{
    match y {
        YamlView::Tagged(_, b) => untag(*b),
        _ => y,
    }
}

/// The string a value holds, tags ignored (`Value::as_str`).
pub open spec fn yaml_as_str(y: YamlView) -> Option<Seq<char>> {
    match untag(y) {
        YamlView::Str(s) => Some(s),
        _ => None,
    }
}

/// The entries of a mapping, tags ignored (`Value::as_mapping`).
pub open spec fn yaml_entries(y: YamlView) -> Option<Seq<(YamlView, YamlView)>> {
    match untag(y) {
        YamlView::Mapping(m) => Some(m),
        _ => None,
    }
}

/// The value of the first entry at or after `k` whose key is the (untagged)
/// string `key`.
pub open spec fn entry_value(m: Seq<(YamlView, YamlView)>, key: Seq<char>, k: nat) -> Option<YamlView>
    decreases m.len() - k,
{
    if k >= m.len() {
        None
    } else if m[k as int].0 == YamlView::Str(key) {
        Some(m[k as int].1)
    } else {
        entry_value(m, key, k + 1)
    }
}

/// The value under the string key `key` of a mapping (`Value::get`).
pub open spec fn yaml_get(y: YamlView, key: Seq<char>) -> Option<YamlView> {
    match yaml_entries(y) {
        Some(m) => entry_value(m, key, 0),
        None => None,
    }
}

/// The keys of the entries that are strings (tags ignored), in order.
pub open spec fn string_keys(m: Seq<(YamlView, YamlView)>) -> Seq<Seq<char>>
    decreases m.len(),
{
    if m.len() == 0 {
        Seq::empty()
    } else {
        let rest = string_keys(m.drop_last());
        match yaml_as_str(m.last().0) {
            Some(s) => rest.push(s),
            None => rest,
        }
    }
}

/// The views of the entries are the entries' views, one by one.
pub proof fn lemma_entries_view(s: Seq<(Yaml, Yaml)>)
    ensures
        entries_view(s).len() == s.len(),
        forall|i: int|
            0 <= i < s.len() ==> #[trigger] entries_view(s)[i] == (
                yaml_view(s[i].0),
                yaml_view(s[i].1),
            ),
    decreases s.len(),
{
    if s.len() > 0 {
        lemma_entries_view(s.drop_last());
        assert forall|i: int| 0 <= i < s.len() implies #[trigger] entries_view(s)[i] == (
            yaml_view(s[i].0),
            yaml_view(s[i].1),
        ) by {
            if i < s.len() - 1 {
                assert(s.drop_last()[i] == s[i]);
            }
        }
    }
}

/// `y` with its tags removed.
pub fn untag_ref(y: &Yaml) -> (r: &Yaml)
    ensures
        yaml_view(*r) == untag(yaml_view(*y)),
    decreases y,
{
    match y {
        Yaml::Tagged(_, b) => untag_ref(&**b),
        _ => y,
    }
}

/// The string a value holds, tags ignored (`Value::as_str`).
pub fn as_str(y: &Yaml) -> (r: Option<String>)
    ensures
        opt_view(r) == yaml_as_str(yaml_view(*y)),
{
    match untag_ref(y) {
        Yaml::Str(s) => Some(s.clone()),
        _ => None,
    }
}

/// The value under the string key `key` of a mapping (`Value::get`).
pub fn get<'a>(y: &'a Yaml, key: &str) -> (r: Option<&'a Yaml>)
    ensures
        match r {
            Some(v) => yaml_get(yaml_view(*y), key@) == Some(yaml_view(*v)),
            None => yaml_get(yaml_view(*y), key@) is None,
        },
{
    match untag_ref(y) {
        Yaml::Mapping(entries) => {
            let ghost m = entries_view(entries@);
            proof {
                lemma_entries_view(entries@);
            }
            assert(yaml_entries(yaml_view(*y)) == Some(m));
            let mut i: usize = 0;
            while i < entries.len()
                invariant
                    m == entries_view(entries@),
                    yaml_entries(yaml_view(*y)) == Some(m),
                    m.len() == entries@.len(),
                    forall|k: int|
                        0 <= k < entries@.len() ==> #[trigger] m[k] == (
                            yaml_view(entries@[k].0),
                            yaml_view(entries@[k].1),
                        ),
                    i <= entries.len(),
                    entry_value(m, key@, 0) == entry_value(m, key@, i as nat),
                decreases entries.len() - i,
            {
                assert(m[i as int] == (yaml_view(entries@[i as int].0), yaml_view(entries@[i as int].1)));
                if let Yaml::Str(k) = &entries[i].0 {
                    if str_eq(k.as_str(), key) {
                        assert(yaml_view(entries@[i as int].0) == YamlView::Str(key@));
                        assert(entry_value(m, key@, i as nat) == Some(m[i as int].1));
                        return Some(&entries[i].1);
                    }
                }
                i = i + 1;
            }
            None
        },
        _ => None,
    }
}

/// The string keys of a mapping (tags ignored), in order; empty for
/// anything else.
pub fn string_keys_of(y: &Yaml) -> (r: Vec<String>)
    ensures
        r@.map_values(|s: String| s@) == match yaml_entries(yaml_view(*y)) {
            Some(m) => string_keys(m),
            None => Seq::empty(),
        },
{
    let mut r: Vec<String> = Vec::new();
    match untag_ref(y) {
        Yaml::Mapping(entries) => {
            let ghost m = entries_view(entries@);
            proof {
                lemma_entries_view(entries@);
            }
            assert(yaml_entries(yaml_view(*y)) == Some(m));
            let mut i: usize = 0;
            while i < entries.len()
                invariant
                    m == entries_view(entries@),
                    yaml_entries(yaml_view(*y)) == Some(m),
                    m.len() == entries@.len(),
                    forall|k: int|
                        0 <= k < entries@.len() ==> #[trigger] m[k] == (
                            yaml_view(entries@[k].0),
                            yaml_view(entries@[k].1),
                        ),
                    i <= entries.len(),
                    r@.map_values(|s: String| s@) == string_keys(m.take(i as int)),
                decreases entries.len() - i,
            {
                assert(m.take(i + 1).drop_last() =~= m.take(i as int));
                assert(m.take(i + 1).last() == m[i as int]);
                assert(m[i as int] == (yaml_view(entries@[i as int].0), yaml_view(entries@[i as int].1)));
                let ghost before = r@;
                match as_str(&entries[i].0) {
                    Some(k) => {
                        let ghost kv = k@;
                        r.push(k);
                        assert(r@.map_values(|s: String| s@) =~= before.map_values(|s: String| s@).push(kv));
                    },
                    None => {},
                }
                i = i + 1;
            }
            assert(m.take(i as int) =~= m);
            r
        },
        _ => {
            assert(r@.map_values(|s: String| s@) =~= Seq::<Seq<char>>::empty());
            r
        },
    }
}

} // verus!
