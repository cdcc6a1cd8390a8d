use pgcheck::config::{load_config, parse_port};

#[test]
fn parse_port_plain() {
    assert_eq!(parse_port("8080"), Some(8080));
    assert_eq!(parse_port("0"), Some(0));
    assert_eq!(parse_port("65535"), Some(65535));
}

#[test]
fn parse_port_sign_and_zeros() {
    assert_eq!(parse_port("+5432"), Some(5432));
    assert_eq!(parse_port("007"), Some(7));
    assert_eq!(parse_port("0000000000065535"), Some(65535));
}

#[test]
fn parse_port_rejects_empty() {
    assert_eq!(parse_port(""), None);
    assert_eq!(parse_port("+"), None);
}

#[test]
fn parse_port_rejects_non_digits() {
    assert_eq!(parse_port("not_a_number"), None);
    assert_eq!(parse_port("12a"), None);
    assert_eq!(parse_port("-1"), None);
    assert_eq!(parse_port(" 80"), None);
    assert_eq!(parse_port("80 "), None);
}

#[test]
fn parse_port_rejects_out_of_range() {
    assert_eq!(parse_port("65536"), None);
    assert_eq!(parse_port("99999"), None);
    assert_eq!(parse_port("99999999999999999999"), None);
    assert_eq!(parse_port("65536x"), None);
}

#[test]
fn parse_port_matches_std() {
    let cases = [
        "8080", "0", "65535", "+5432", "007", "", "+", "not_a_number", "12a", "-1", " 80",
        "80 ", "65536", "99999999999999999999",
    ];
    for s in cases {
        assert_eq!(parse_port(s), s.parse::<u16>().ok(), "on {:?}", s);
    }
}

#[test]
fn defaults_when_nothing_is_set() {
    let c = load_config(None, None, None, None, None);
    assert_eq!(c.host, "postgres");
    assert_eq!(c.user, "postgres");
    assert_eq!(c.password, "password");
    assert_eq!(c.dbname, "appdb");
    assert_eq!(c.port, None);
}

#[test]
fn explicit_values_pass_through() {
    let c = load_config(
        Some("db.example".to_string()),
        Some("alice".to_string()),
        Some("s3cret".to_string()),
        Some("prod".to_string()),
        Some("5433".to_string()),
    );
    assert_eq!(c.host, "db.example");
    assert_eq!(c.user, "alice");
    assert_eq!(c.password, "s3cret");
    assert_eq!(c.dbname, "prod");
    assert_eq!(c.port, Some(5433));
}

#[test]
fn unparseable_port_is_ignored() {
    let c = load_config(None, None, None, None, Some("not_a_number".to_string()));
    assert_eq!(c.port, None);
    let c = load_config(None, None, None, None, Some("70000".to_string()));
    assert_eq!(c.port, None);
}

#[test]
fn empty_strings_pass_through_uncorrected() {
    let c = load_config(Some(String::new()), None, None, None, Some(String::new()));
    assert_eq!(c.host, "");
    assert_eq!(c.port, None);
}
