use clusterpluk::cluster_line::extract_member_id;

fn extract(line: &str) -> Option<String> {
    extract_member_id(&line.as_bytes().to_vec())
        .map(|id| String::from_utf8(id).unwrap())
}

#[test]
fn plain_member_line() {
    assert_eq!(extract(">id..."), Some("id".to_string()));
}

#[test]
fn clstr_style_member_line() {
    assert_eq!(extract("0\t9606nt, >id1... *"), Some("id1".to_string()));
}

#[test]
fn identifier_follows_the_last_gt() {
    assert_eq!(extract("a>b>c..."), Some("c".to_string()));
}

#[test]
fn identifier_ends_at_the_first_dots() {
    assert_eq!(extract(">x...y..."), Some("x".to_string()));
}

#[test]
fn empty_identifier() {
    assert_eq!(extract(">..."), Some("".to_string()));
}

#[test]
fn line_without_gt_is_malformed() {
    assert_eq!(extract("no pattern here"), None);
    assert_eq!(extract(""), None);
}

#[test]
fn line_without_dots_after_the_last_gt_is_malformed() {
    assert_eq!(extract(">id"), None);
    assert_eq!(extract("a...>id"), None);
}

#[test]
fn two_dots_are_not_enough() {
    assert_eq!(extract(">id.."), None);
}
