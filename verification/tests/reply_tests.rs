use pgcheck::reply::{db_check_reply, index_reply, DbOutcome};

#[test]
fn index_is_fixed_and_ok() {
    let r = index_reply();
    assert_eq!(r.status, 200);
    assert_eq!(r.body, "{\"status\":\"Rust API is running! 🦀\"}");
}

#[test]
fn index_is_idempotent() {
    let a = index_reply();
    let b = index_reply();
    assert_eq!(a.status, b.status);
    assert_eq!(a.body, b.body);
}

#[test]
fn one_row_reports_its_version_verbatim() {
    let o = DbOutcome::Rows(vec!["PostgreSQL 16.1 on x86_64-pc-linux-gnu".to_string()]);
    let r = db_check_reply(&o);
    assert_eq!(r.status, 200);
    assert_eq!(r.body, "{\"version\":\"PostgreSQL 16.1 on x86_64-pc-linux-gnu\"}");
}

#[test]
fn only_the_first_row_is_reported() {
    let o = DbOutcome::Rows(vec!["first".to_string(), "second".to_string()]);
    let r = db_check_reply(&o);
    assert_eq!(r.status, 200);
    assert_eq!(r.body, "{\"version\":\"first\"}");
}

#[test]
fn pool_failure_is_a_500_with_its_message() {
    let o = DbOutcome::PoolError("timed out waiting for an available connection".to_string());
    let r = db_check_reply(&o);
    assert_eq!(r.status, 500);
    assert_eq!(
        r.body,
        "{\"status\":\"Failed to get connection: timed out waiting for an available connection\"}"
    );
    assert!(r.body.contains("Failed to get connection"));
}

#[test]
fn query_failure_is_a_500_with_its_message() {
    let o = DbOutcome::QueryError("connection closed".to_string());
    let r = db_check_reply(&o);
    assert_eq!(r.status, 500);
    assert_eq!(r.body, "{\"status\":\"Query failed: connection closed\"}");
    assert!(r.body.contains("Query failed"));
}

#[test]
fn zero_rows_is_a_500_with_the_exact_message() {
    let o = DbOutcome::Rows(vec![]);
    let r = db_check_reply(&o);
    assert_eq!(r.status, 500);
    assert_eq!(r.body, "{\"status\":\"No rows returned\"}");
}

#[test]
fn same_outcome_gives_byte_identical_replies() {
    let o = DbOutcome::Rows(vec!["PostgreSQL 16.1".to_string()]);
    let a = db_check_reply(&o);
    let b = db_check_reply(&o);
    assert_eq!(a.status, b.status);
    assert_eq!(a.body, b.body);

    let e = DbOutcome::PoolError("pool exhausted".to_string());
    let a = db_check_reply(&e);
    let b = db_check_reply(&e);
    assert_eq!(a.body, b.body);
}

#[test]
fn error_detail_is_json_escaped() {
    let o = DbOutcome::QueryError("bad \"query\": line\\1\n\tcontrol\u{1f}\u{8}".to_string());
    let r = db_check_reply(&o);
    assert_eq!(r.status, 500);
    assert_eq!(
        r.body,
        "{\"status\":\"Query failed: bad \\\"query\\\": line\\\\1\\n\\tcontrol\\u001f\\b\"}"
    );
}

#[test]
fn version_text_is_json_escaped() {
    let o = DbOutcome::Rows(vec!["v\u{c}\r\u{0}end".to_string()]);
    let r = db_check_reply(&o);
    assert_eq!(r.body, "{\"version\":\"v\\f\\r\\u0000end\"}");
}

#[test]
fn non_ascii_text_passes_through_unescaped() {
    let o = DbOutcome::Rows(vec!["Pöstgres 🦀 版".to_string()]);
    let r = db_check_reply(&o);
    assert_eq!(r.body, "{\"version\":\"Pöstgres 🦀 版\"}");
}
