use gh_autoswitch::cli::{parse_command, parse_scope, Command};
use gh_autoswitch::config::{
    is_blank, anchored_pattern, config_dir, config_path, is_literal_owner, owner_regex_matches, Config,
    Mapping,
};
use gh_autoswitch::credential::{maybe_switch, parse_owner_text, wants_switch};
use gh_autoswitch::editor::{mapping_label, Editor, Effect, Form, Key, Mode};
use gh_autoswitch::gh::{
    active_account, active_account_in, known_accounts_in, parse_hosts, candidates, canonical_account, exe_name, first_existing, gh_config_dir,
    hosts_file, known_accounts, locate_gh, resolve_gh, switch_if_needed, well_known, GhHost,
    GhHosts,
};
use gh_autoswitch::install::{
    git_config_value, git_values, helper_command, helper_key, mapping_summary, scope_flag,
    use_http_path_key,
};
use gh_autoswitch::paths::{join_path, Environment};
use gh_autoswitch::text::{eq_ignore_ascii_case, trim};

fn map(host: &str, owner: &str, account: &str) -> Mapping {
    Mapping {
        host: host.into(),
        owner: owner.into(),
        account: account.into(),
    }
}

fn unix_env() -> Environment {
    Environment {
        windows: false,
        path_dirs: vec!["/usr/bin".into(), "/opt/tools/".into()],
        program_files: None,
        local_app_data: None,
        appdata: None,
        xdg_config_home: None,
        gh_config_dir: None,
        config_override: None,
        home: Some("/home/alice".into()),
    }
}

fn hosts() -> GhHosts {
    GhHosts {
        hosts: vec![
            GhHost {
                name: "github.com".into(),
                user: Some("Alice_Work".into()),
                users: vec!["Alice_Personal".into(), "Alice_Work".into()],
            },
            GhHost {
                name: "ghe.example.com".into(),
                user: None,
                users: vec![],
            },
        ],
    }
}

fn strings(v: &[&str]) -> Vec<String> {
    v.iter().map(|s| s.to_string()).collect()
}

// ---- text ------------------------------------------------------------------

#[test]
fn trim_removes_unicode_white_space_at_both_ends() {
    assert_eq!(trim("  \t a b \r\n"), "a b");
    assert_eq!(trim("\u{3000}x\u{a0}"), "x");
    assert_eq!(trim("   "), "");
    assert_eq!(trim(""), "");
}

#[test]
fn ascii_case_is_ignored_but_nothing_else() {
    assert!(eq_ignore_ascii_case("GitHub.COM", "github.com"));
    assert!(!eq_ignore_ascii_case("github.com", "github.co"));
    assert!(!eq_ignore_ascii_case("É", "é"));
}

// ---- config ----------------------------------------------------------------

#[test]
fn literal_owner_has_no_regex_metacharacter() {
    assert!(is_literal_owner("acme-corp"));
    assert!(!is_literal_owner("acme-.*"));
    assert!(!is_literal_owner("org1|org2"));
    assert!(!is_literal_owner("*"));
    assert!(!is_literal_owner("a\\b"));
}

#[test]
fn owner_pattern_is_anchored_and_case_insensitive() {
    assert_eq!(anchored_pattern("org1|org2"), "(?i)^(?:org1|org2)$");
    assert!(owner_regex_matches("org1|org2", "ORG2"));
    assert!(!owner_regex_matches("org1|org2", "org12"));
    assert!(!owner_regex_matches("acme[", "acme["));
}

#[test]
fn regex_beats_an_earlier_catch_all() {
    let c = Config {
        mappings: vec![
            map("github.com", "*", "catch_all"),
            map("github.com", "widgets-.*", "widgets"),
        ],
        ..Default::default()
    };
    assert_eq!(c.lookup("github.com", "widgets-inc"), Some("widgets"));
    assert_eq!(c.lookup("github.com", "other"), Some("catch_all"));
}

#[test]
fn first_catch_all_of_the_host_is_used() {
    let c = Config {
        mappings: vec![
            map("other.com", "*", "other"),
            map("GITHUB.com", "*", "first"),
            map("github.com", "*", "second"),
        ],
        ..Default::default()
    };
    assert_eq!(c.lookup("github.com", "x"), Some("first"));
}

#[test]
fn resolve_uses_the_given_regex_results() {
    let c = Config {
        default_account: Some("fallback".into()),
        mappings: vec![
            map("github.com", "a.*", "first_regex"),
            map("github.com", "b.*", "second_regex"),
            map("github.com", "exact", "exact_acct"),
        ],
        ..Default::default()
    };
    assert_eq!(c.resolve("github.com", "zzz", &vec![false, true, false]), Some("second_regex"));
    assert_eq!(c.resolve("github.com", "zzz", &vec![true, true, false]), Some("first_regex"));
    assert_eq!(c.resolve("github.com", "zzz", &vec![]), Some("fallback"));
    // A flag on a literal mapping is ignored; the literal is compared itself.
    assert_eq!(c.resolve("github.com", "zzz", &vec![false, false, true]), Some("fallback"));
    assert_eq!(c.resolve("github.com", "EXACT", &vec![true, true, true]), Some("exact_acct"));
    assert_eq!(c.regex_hits("github.com", "bob"), vec![false, true, false]);
    assert_eq!(c.regex_hits("other.com", "bob"), vec![false, false, false]);
}

#[test]
fn invalid_regex_behaves_as_if_absent() {
    let with_bad = Config {
        mappings: vec![
            map("github.com", "acme[", "bad"),
            map("github.com", "*", "catch_all"),
        ],
        ..Default::default()
    };
    let without = Config {
        mappings: vec![map("github.com", "*", "catch_all")],
        ..Default::default()
    };
    for owner in ["acme[", "acme", "x"] {
        assert_eq!(with_bad.lookup("github.com", owner), without.lookup("github.com", owner));
    }
}

#[test]
fn lookup_ignores_ascii_case_of_host_and_owner() {
    let c = Config {
        mappings: vec![map("GitHub.com", "Acme", "acct"), map("github.com", "*", "all")],
        ..Default::default()
    };
    assert_eq!(c.lookup("github.COM", "aCME"), c.lookup("GITHUB.com", "acme"));
    assert_eq!(c.lookup("github.COM", "aCME"), Some("acct"));
}

#[test]
fn nothing_configured_gives_none() {
    let c = Config::default();
    assert_eq!(c.lookup("github.com", "acme"), None);
    assert!(c.gh_path.is_none());
    assert!(c.mappings.is_empty());
}

#[test]
fn config_path_prefers_override_then_xdg_then_home() {
    let mut env = unix_env();
    assert_eq!(config_path(&env), Some("/home/alice/.config/gh-autoswitch/config.yml".into()));
    env.xdg_config_home = Some("/xdg/".into());
    assert_eq!(config_path(&env), Some("/xdg/gh-autoswitch/config.yml".into()));
    env.config_override = Some("/tmp/c.yml".into());
    assert_eq!(config_path(&env), Some("/tmp/c.yml".into()));
    env.config_override = Some("".into());
    env.xdg_config_home = Some("".into());
    env.home = None;
    assert_eq!(config_path(&env), None);
    assert_eq!(config_dir(&env), None);
}

#[test]
fn config_path_on_windows_uses_appdata() {
    let mut env = unix_env();
    env.windows = true;
    env.appdata = Some("C:\\Users\\a\\AppData\\Roaming".into());
    assert_eq!(
        config_path(&env),
        Some("C:\\Users\\a\\AppData\\Roaming\\gh-autoswitch\\config.yml".into())
    );
    env.windows = false;
    assert_eq!(config_dir(&env), Some("/home/alice/.config".into()));
}

#[test]
fn adopting_a_gh_path_only_fills_an_empty_one() {
    let mut c = Config::default();
    assert!(!c.adopt_gh_path(None));
    assert!(c.adopt_gh_path(Some("/usr/bin/gh".into())));
    assert_eq!(c.gh_path.as_deref(), Some("/usr/bin/gh"));
    assert!(!c.adopt_gh_path(Some("/other/gh".into())));
    assert_eq!(c.gh_path.as_deref(), Some("/usr/bin/gh"));
}

// ---- paths and gh ------------------------------------------------------------

#[test]
fn join_inserts_one_separator() {
    assert_eq!(join_path("/a", "b", false), "/a/b");
    assert_eq!(join_path("/a/", "b", false), "/a/b");
    assert_eq!(join_path("", "b", false), "b");
    assert_eq!(join_path("C:\\x", "b", true), "C:\\x\\b");
    assert_eq!(join_path("C:/x/", "b", true), "C:/x/b");
    assert_eq!(join_path("a\\", "b", false), "a\\/b");
}

#[test]
fn exe_name_depends_on_platform() {
    assert_eq!(exe_name(true), "gh.exe");
    assert_eq!(exe_name(false), "gh");
}

#[test]
fn candidates_are_configured_then_path_then_well_known() {
    let env = unix_env();
    assert_eq!(
        candidates(Some("/custom/gh"), &env),
        strings(&[
            "/custom/gh",
            "/usr/bin/gh",
            "/opt/tools/gh",
            "/opt/homebrew/bin/gh",
            "/usr/local/bin/gh",
            "/usr/bin/gh",
            "/home/linuxbrew/.linuxbrew/bin/gh",
        ])
    );
    assert_eq!(candidates(Some(""), &env).len(), 6);
}

#[test]
fn windows_well_known_locations() {
    let mut env = unix_env();
    env.windows = true;
    env.program_files = Some("D:\\PF".into());
    env.local_app_data = Some("".into());
    assert_eq!(
        well_known(&env),
        strings(&[
            "C:\\Program Files\\GitHub CLI\\gh.exe",
            "D:\\PF\\GitHub CLI\\gh.exe",
            "GitHub CLI\\gh.exe",
        ])
    );
}

#[test]
fn first_existing_takes_the_first_flagged() {
    let c = strings(&["a", "b", "c"]);
    assert_eq!(first_existing(&c, &vec![false, true, true]), Some("b".to_string()));
    assert_eq!(first_existing(&c, &vec![false]), None);
}

#[test]
fn locate_gh_finds_an_existing_configured_file() {
    let env = Environment { path_dirs: vec![], ..unix_env() };
    assert_eq!(locate_gh(Some("/etc/passwd"), &env), Some("/etc/passwd".to_string()));
    let r = resolve_gh(Some("/no/such/gh-binary"), &env);
    assert!(r == "gh" || r.ends_with("/gh"));
}

#[test]
fn gh_config_dir_precedence() {
    let mut env = unix_env();
    assert_eq!(gh_config_dir(&env), "/home/alice/.config/gh");
    assert_eq!(hosts_file(&env), "/home/alice/.config/gh/hosts.yml");
    env.xdg_config_home = Some("/x".into());
    assert_eq!(gh_config_dir(&env), "/x/gh");
    env.gh_config_dir = Some("/g".into());
    assert_eq!(hosts_file(&env), "/g/hosts.yml");
    let mut w = unix_env();
    w.windows = true;
    w.appdata = Some("C:\\AD".into());
    assert_eq!(gh_config_dir(&w), "C:\\AD\\GitHub CLI");
    let none = Environment { home: None, ..unix_env() };
    assert_eq!(gh_config_dir(&none), "gh");
}

#[test]
fn active_and_known_accounts_come_from_the_host_entry() {
    let h = hosts();
    assert_eq!(active_account(&h, "github.com"), Some("Alice_Work".to_string()));
    assert_eq!(active_account(&h, "GITHUB.com"), None);
    assert_eq!(active_account(&h, "ghe.example.com"), None);
    assert_eq!(known_accounts(&h, "github.com"), strings(&["Alice_Personal", "Alice_Work"]));
    assert!(known_accounts(&h, "nowhere").is_empty());
}

#[test]
fn canonical_account_takes_gh_casing() {
    let h = hosts();
    assert_eq!(canonical_account(&h, "github.com", "alice_personal"), "Alice_Personal");
    assert_eq!(canonical_account(&h, "github.com", "bob"), "bob");
    assert_eq!(canonical_account(&h, "other", "ALICE_WORK"), "ALICE_WORK");
}

#[test]
fn switch_only_when_account_differs() {
    let h = hosts();
    assert_eq!(switch_if_needed(&h, "github.com", "alice_work"), None);
    assert_eq!(
        switch_if_needed(&h, "github.com", "alice_personal"),
        Some("Alice_Personal".to_string())
    );
    assert_eq!(switch_if_needed(&h, "ghe.example.com", "x"), Some("x".to_string()));
}

// ---- credential ---------------------------------------------------------------

#[test]
fn credential_request_values_are_trimmed_and_last_wins() {
    assert_eq!(
        parse_owner_text("host= first \r\nhost=  example.org \r\npath= Org/repo\r\n"),
        Some(("example.org".to_string(), "Org".to_string()))
    );
    assert_eq!(parse_owner_text("host=\npath=org/r\n"), None);
    assert_eq!(parse_owner_text("host=h\npath=/org/r\n"), None);
    assert_eq!(parse_owner_text("host=h\npath=org"), Some(("h".into(), "org".into())));
    assert_eq!(parse_owner_text(""), None);
    assert_eq!(parse_owner_text(" host=h\npath=o\n"), None);
}

#[test]
fn invalid_utf8_is_replaced_not_fatal() {
    let input = b"host=github.com\npath=\xffacme/repo\n";
    let (h, o) = gh_autoswitch::credential::parse_owner(input).unwrap();
    assert_eq!(h, "github.com");
    assert_eq!(o, "\u{fffd}acme");
}

#[test]
fn only_get_switches() {
    assert!(wants_switch("get"));
    assert!(!wants_switch("store"));
    assert!(!wants_switch("erase"));
}

#[test]
fn maybe_switch_combines_parse_lookup_and_hosts() {
    let c = Config {
        mappings: vec![map("github.com", "acme-corp", "alice_personal")],
        default_account: Some("alice_work".into()),
        ..Default::default()
    };
    let h = hosts();
    assert_eq!(
        maybe_switch(&c, &h, b"host=github.com\npath=acme-corp/x.git\n"),
        Some(("github.com".to_string(), "Alice_Personal".to_string()))
    );
    assert_eq!(maybe_switch(&c, &h, b"host=github.com\npath=other/x.git\n"), None);
    assert_eq!(maybe_switch(&c, &h, b"host=github.com\n"), None);
    assert_eq!(maybe_switch(&Config::default(), &h, b"host=github.com\npath=a/b\n"), None);
}

// ---- install ----------------------------------------------------------------------

#[test]
fn git_configuration_keys_and_helper() {
    assert_eq!(scope_flag(true), "--global");
    assert_eq!(scope_flag(false), "--local");
    assert_eq!(helper_key("github.com"), "credential.https://github.com.helper");
    assert_eq!(use_http_path_key("ghe.x"), "credential.https://ghe.x.useHttpPath");
    assert_eq!(
        helper_command("C:\\tools\\gh-autoswitch.exe"),
        "!\"C:/tools/gh-autoswitch.exe\" git-credential"
    );
    assert_eq!(mapping_summary(&map("h", "o", "a")), "h/o = a");
}

#[test]
fn git_values_are_shown_on_one_line() {
    assert_eq!(git_values("  \n"), None);
    assert_eq!(git_values("one\n"), Some("one".to_string()));
    assert_eq!(git_values("\nA\nB\n"), Some("A | B".to_string()));
    assert_eq!(git_config_value(b"x\ny\n"), Some("x | y".to_string()));
}

// ---- command line ---------------------------------------------------------------

#[test]
fn scope_flags_last_one_wins() {
    assert_eq!(parse_scope(&[]), ("github.com".to_string(), true));
    assert_eq!(
        parse_scope(&strings(&["--local", "--host", "ghe.x", "--global", "--local"])),
        ("ghe.x".to_string(), false)
    );
    assert_eq!(parse_scope(&strings(&["--host=a.b", "--host"])), ("a.b".to_string(), true));
    assert_eq!(parse_scope(&strings(&["--host", "--local"])), ("--local".to_string(), true));
}

#[test]
fn commands_are_selected_from_arguments() {
    assert!(matches!(parse_command(&[]), Command::Tui));
    assert!(matches!(parse_command(&strings(&["help"])), Command::Help));
    assert!(matches!(parse_command(&strings(&["-h"])), Command::Help));
    assert!(matches!(parse_command(&strings(&["edit"])), Command::Tui));
    match parse_command(&strings(&["git-credential", "get"])) {
        Command::GitCredential(op) => assert_eq!(op, "get"),
        other => panic!("{other:?}"),
    }
    match parse_command(&strings(&["git-credential"])) {
        Command::GitCredential(op) => assert_eq!(op, ""),
        other => panic!("{other:?}"),
    }
    match parse_command(&strings(&["install", "--local", "--host=h"])) {
        Command::Install(h, g) => assert_eq!((h.as_str(), g), ("h", false)),
        other => panic!("{other:?}"),
    }
    match parse_command(&strings(&["uninstall"])) {
        Command::Uninstall(h, g) => assert_eq!((h.as_str(), g), ("github.com", true)),
        other => panic!("{other:?}"),
    }
    match parse_command(&strings(&["doctor"])) {
        Command::Doctor(h) => assert_eq!(h, "github.com"),
        other => panic!("{other:?}"),
    }
    match parse_command(&strings(&["frobnicate"])) {
        Command::Unknown(c) => assert_eq!(c, "frobnicate"),
        other => panic!("{other:?}"),
    }
}

// ---- editor -----------------------------------------------------------------------

fn type_text(e: &mut Editor, s: &str) {
    for c in s.chars() {
        e.on_key(Key::Char(c));
    }
}

#[test]
fn adding_a_mapping_trims_and_selects_it() {
    let mut e = Editor::new(Config::default());
    assert_eq!(e.on_key(Key::Char('a')), Effect::Nothing);
    assert_eq!(e.mode, Mode::Edit);
    assert_eq!(e.form.fields, strings(&["github.com", "", ""]));
    e.on_key(Key::Tab);
    type_text(&mut e, " acme ");
    e.on_key(Key::Down);
    type_text(&mut e, "alice_x");
    e.on_key(Key::Backspace);
    type_text(&mut e, "work");
    assert_eq!(e.form.field_display(2), "alice_work_");
    assert_eq!(e.form.field_display(0), "github.com");
    e.on_key(Key::Enter);
    assert_eq!(e.mode, Mode::List);
    assert!(e.dirty);
    assert_eq!(e.selected, 0);
    let m = &e.cfg.mappings[0];
    assert_eq!((m.host.as_str(), m.owner.as_str(), m.account.as_str()), ("github.com", "acme", "alice_work"));
    assert_eq!(e.status, "Mapping saved (press 's' to write to disk).");
    assert_eq!(mapping_label(m), "github.com / acme  →  alice_work");
}

#[test]
fn empty_field_is_refused() {
    let mut e = Editor::new(Config::default());
    e.on_key(Key::Char('a'));
    e.on_key(Key::Enter);
    assert_eq!(e.mode, Mode::Edit);
    assert!(e.cfg.mappings.is_empty());
    assert_eq!(e.status, "All fields are required (owner may be '*').");
    e.on_key(Key::Esc);
    assert_eq!(e.mode, Mode::List);
    assert_eq!(e.status, "Cancelled.");
}

#[test]
fn editing_replaces_and_deleting_removes() {
    let cfg = Config {
        mappings: vec![map("h1", "o1", "a1"), map("h2", "o2", "a2")],
        ..Default::default()
    };
    let mut e = Editor::new(cfg);
    e.on_key(Key::Down);
    assert_eq!(e.selected, 1);
    e.on_key(Key::Down);
    assert_eq!(e.selected, 1);
    e.on_key(Key::Char('e'));
    assert_eq!(e.form.editing, Some(1));
    assert_eq!(e.form.title(), " Edit mapping ");
    e.on_key(Key::BackTab);
    assert_eq!(e.form.field, 2);
    type_text(&mut e, "b");
    e.on_key(Key::Enter);
    assert_eq!(e.cfg.mappings[1].account, "a2b");
    assert_eq!(e.cfg.mappings.len(), 2);
    e.on_key(Key::Char('d'));
    assert_eq!(e.cfg.mappings.len(), 1);
    assert_eq!(e.selected, 0);
    assert_eq!(e.status, "Deleted h2/o2.");
    e.on_key(Key::Char('d'));
    assert!(e.cfg.mappings.is_empty());
    assert_eq!(e.on_key(Key::Char('d')), Effect::Nothing);
    e.on_key(Key::Char('e'));
    assert_eq!(e.status, "Nothing to edit.");
    assert_eq!(e.clamp_selection(), None);
}

#[test]
fn quitting_with_unsaved_changes_asks_first() {
    let mut e = Editor::new(Config::default());
    e.dirty = true;
    assert_eq!(e.header_title(), "gh-autoswitch — config editor  [modified]");
    e.on_key(Key::Char('q'));
    assert!(!e.quit);
    assert_eq!(e.mode, Mode::ConfirmQuit);
    e.on_key(Key::Char('c'));
    assert_eq!(e.mode, Mode::List);
    assert_eq!(e.status, "Quit cancelled.");
    e.on_key(Key::Char('q'));
    assert_eq!(e.on_key(Key::Char('Y')), Effect::Save);
    assert!(e.quit);
    let mut clean = Editor::new(Config::default());
    clean.on_key(Key::Char('q'));
    assert!(clean.quit);
}

#[test]
fn effects_report_back() {
    let mut e = Editor::new(Config::default());
    assert_eq!(e.gh_path_label(), "(not set — press 'g' to detect)");
    assert_eq!(e.on_key(Key::Char('g')), Effect::DetectGh);
    e.gh_detected(Some("/usr/bin/gh".into()));
    assert_eq!(e.cfg.gh_path.as_deref(), Some("/usr/bin/gh"));
    assert_eq!(e.status, "Detected gh: /usr/bin/gh");
    assert!(e.dirty);
    assert_eq!(e.on_key(Key::Char('s')), Effect::Save);
    e.saved("/tmp/c.yml");
    assert!(!e.dirty);
    assert_eq!(e.status, "Saved to /tmp/c.yml");
    e.save_failed("disk full");
    assert_eq!(e.status, "Save failed: disk full");
    e.gh_detected(None);
    assert_eq!(e.status, "gh not found on PATH or well-known locations.");
}

#[test]
fn selection_is_clamped_into_the_list() {
    let cfg = Config {
        mappings: vec![map("h", "o", "a")],
        ..Default::default()
    };
    let mut e = Editor::new(cfg);
    e.selected = 7;
    assert_eq!(e.clamp_selection(), Some(0));
    e.on_key(Key::Up);
    assert_eq!(e.selected, 0);
    let f = Form::new(None, "x", "y", "z");
    assert_eq!(f.title(), " Add mapping ");
}

#[test]
fn shift_d_makes_the_selected_account_the_default() {
    let cfg = Config {
        mappings: vec![map("h", "o", "a1"), map("h", "p", "a2")],
        ..Default::default()
    };
    let mut e = Editor::new(cfg);
    assert_eq!(e.default_account_label(), "(none — press 'D' on a mapping)");
    e.on_key(Key::Char('j'));
    assert_eq!(e.on_key(Key::Char('D')), Effect::Nothing);
    assert_eq!(e.cfg.default_account.as_deref(), Some("a2"));
    assert!(e.dirty);
    assert_eq!(e.status, "Default account set to a2.");
    assert_eq!(e.default_account_label(), "a2");
    let mut empty = Editor::new(Config::default());
    empty.on_key(Key::Char('D'));
    assert!(empty.cfg.default_account.is_none());
    assert!(!empty.dirty);
    assert_eq!(empty.status, "Select a mapping to take its account as default.");
}

const HOSTS_YML: &str = "github.com:\n    users:\n        Alice_Personal:\n        Alice_Work:\n            oauth_token: x\n    git_protocol: https\n    user: Alice_Work\nghe.example.com:\n    user: 42\n";

#[test]
fn hosts_yml_is_read_into_hosts() {
    let h = parse_hosts(HOSTS_YML).unwrap();
    assert_eq!(h.hosts.len(), 2);
    assert_eq!(h.hosts[0].name, "github.com");
    assert_eq!(h.hosts[0].user.as_deref(), Some("Alice_Work"));
    assert_eq!(h.hosts[0].users, strings(&["Alice_Personal", "Alice_Work"]));
    assert_eq!(h.hosts[1].name, "ghe.example.com");
    assert_eq!(h.hosts[1].user, None);
    assert!(h.hosts[1].users.is_empty());
    assert!(parse_hosts("a: [").is_none());
    assert!(parse_hosts("- x\n- y\n").unwrap().hosts.is_empty());
}

#[test]
fn accounts_are_read_from_hosts_text() {
    assert_eq!(active_account_in(HOSTS_YML, "github.com"), Some("Alice_Work".to_string()));
    assert_eq!(active_account_in(HOSTS_YML, "ghe.example.com"), None);
    assert_eq!(active_account_in(HOSTS_YML, "GITHUB.COM"), None);
    assert_eq!(active_account_in("not: [yaml", "github.com"), None);
    assert_eq!(
        known_accounts_in(HOSTS_YML, "github.com"),
        strings(&["Alice_Personal", "Alice_Work"])
    );
    assert!(known_accounts_in(HOSTS_YML, "nowhere").is_empty());
    assert!(known_accounts_in("", "github.com").is_empty());
}

#[test]
fn tags_are_looked_through_on_values_but_not_on_keys() {
    let tagged_value = "github.com: !t\n  user: !s bob\n  users: !m\n    bob: 1\n";
    assert_eq!(active_account_in(tagged_value, "github.com"), Some("bob".to_string()));
    assert_eq!(known_accounts_in(tagged_value, "github.com"), strings(&["bob"]));
    let tagged_key = "!k github.com:\n  user: bob\n";
    assert_eq!(active_account_in(tagged_key, "github.com"), None);
}

#[test]
fn blank_configuration_text() {
    assert!(is_blank(""));
    assert!(is_blank(" \n\t\n"));
    assert!(!is_blank("mappings: []"));
}

#[test]
fn bare_windows_drive_is_joined_without_separator() {
    assert_eq!(join_path("C:", "gh.exe", true), "C:gh.exe");
    assert_eq!(join_path("C:", "x", false), "C:/x");
    assert_eq!(join_path("1:", "x", true), "1:\\x");
}
