use gh_autoswitch::config::{Config, Mapping};

fn sample() -> Config {
    Config {
        gh_path: None,
        default_account: None,
        mappings: vec![
            Mapping {
                host: "github.com".into(),
                owner: "acme-corp".into(),
                account: "alice_work".into(),
            },
            Mapping {
                host: "github.com".into(),
                owner: "*".into(),
                account: "alice_personal".into(),
            },
        ],
    }
}

fn map(host: &str, owner: &str, account: &str) -> Mapping {
    Mapping {
        host: host.into(),
        owner: owner.into(),
        account: account.into(),
    }
}

#[test]
fn exact_match_wins_over_wildcard() {
    let c = sample();
    assert_eq!(c.lookup("github.com", "acme-corp"), Some("alice_work"));
}

#[test]
fn wildcard_used_for_unknown_owner() {
    let c = sample();
    assert_eq!(c.lookup("github.com", "someone"), Some("alice_personal"));
}

#[test]
fn no_match_for_other_host() {
    let c = sample();
    assert_eq!(c.lookup("ghe.example.com", "acme-corp"), None);
}

#[test]
fn lookup_is_case_insensitive_for_host_and_owner() {
    let c = sample();
    assert_eq!(c.lookup("GitHub.com", "ACME-Corp"), Some("alice_work"));
}

#[test]
fn regex_alternation_matches_either_org() {
    let c = Config {
        mappings: vec![map("github.com", "org1|org2", "shared")],
        ..Default::default()
    };
    assert_eq!(c.lookup("github.com", "org1"), Some("shared"));
    assert_eq!(c.lookup("github.com", "org2"), Some("shared"));
    assert_eq!(c.lookup("github.com", "org3"), None);
}

#[test]
fn regex_wildcard_matches_prefix() {
    let c = Config {
        mappings: vec![map("github.com", "acme-.*", "acct")],
        ..Default::default()
    };
    assert_eq!(c.lookup("github.com", "acme-foo"), Some("acct"));
    assert_eq!(c.lookup("github.com", "acme-"), Some("acct"));
    // Fully anchored: a leading segment that isn't `acme-` must not match.
    assert_eq!(c.lookup("github.com", "notacme-foo"), None);
}

#[test]
fn regex_is_case_insensitive() {
    let c = Config {
        mappings: vec![map("github.com", "Acme-.*", "acct")],
        ..Default::default()
    };
    assert_eq!(c.lookup("github.com", "ACME-Bar"), Some("acct"));
}

#[test]
fn literal_exact_wins_over_regex() {
    // Order deliberately puts the regex first to prove precedence.
    let c = Config {
        mappings: vec![
            map("github.com", "acme-.*", "regex_acct"),
            map("github.com", "acme-team", "exact_acct"),
        ],
        ..Default::default()
    };
    assert_eq!(c.lookup("github.com", "acme-team"), Some("exact_acct"));
    assert_eq!(c.lookup("github.com", "acme-other"), Some("regex_acct"));
}

#[test]
fn default_account_used_when_nothing_matches() {
    let c = Config {
        default_account: Some("fallback".into()),
        mappings: vec![map("github.com", "acme-corp", "work")],
        ..Default::default()
    };
    assert_eq!(c.lookup("github.com", "acme-corp"), Some("work"));
    assert_eq!(c.lookup("github.com", "unknown-org"), Some("fallback"));
    // Applies to unknown hosts too.
    assert_eq!(c.lookup("ghe.example.com", "whatever"), Some("fallback"));
}

#[test]
fn wildcard_beats_default_account() {
    let c = Config {
        default_account: Some("fallback".into()),
        mappings: vec![map("github.com", "*", "host_default")],
        ..Default::default()
    };
    assert_eq!(c.lookup("github.com", "anything"), Some("host_default"));
    assert_eq!(c.lookup("other.com", "anything"), Some("fallback"));
}

#[test]
fn invalid_regex_is_skipped_not_fatal() {
    // `[` is an unterminated character class -> invalid regex.
    let c = Config {
        default_account: Some("fallback".into()),
        mappings: vec![map("github.com", "acme[", "bad")],
        ..Default::default()
    };
    assert_eq!(c.lookup("github.com", "acme["), Some("fallback"));
    assert_eq!(c.lookup("github.com", "acme"), Some("fallback"));
}
