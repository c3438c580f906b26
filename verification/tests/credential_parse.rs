use gh_autoswitch::credential::parse_owner;

#[test]
fn extracts_host_and_owner() {
    let input = b"protocol=https\nhost=github.com\npath=acme-corp/repo.git\n\n";
    assert_eq!(
        parse_owner(input),
        Some(("github.com".to_string(), "acme-corp".to_string()))
    );
}

#[test]
fn none_without_path() {
    let input = b"protocol=https\nhost=github.com\n\n";
    assert_eq!(parse_owner(input), None);
}

#[test]
fn owner_is_first_segment() {
    let input = b"host=github.com\npath=org/sub/repo.git\n";
    assert_eq!(
        parse_owner(input).map(|(_, o)| o),
        Some("org".to_string())
    );
}
