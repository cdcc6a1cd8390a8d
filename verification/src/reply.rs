//! The request-handling decisions: what the liveness endpoint answers, and
//! how the database-check endpoint maps what it observed — a pool failure,
//! a query failure, or the returned rows — to an HTTP status and a JSON
//! body.

use vstd::prelude::*;
use crate::json::{
    escape_seq, is_plain, lemma_escape_append, lemma_escape_plain, spec_status_payload,
    spec_version_payload, status_payload, version_payload,
};

verus! {

/// What one database-check request observed: either acquiring a pooled
/// connection failed, or the query failed, or the query returned rows,
/// kept here as the text of column 0 of each row.
pub enum DbOutcome {
    /// Acquiring a connection from the pool failed, with the error's
    /// description.
    PoolError(String),
    /// Executing the query failed, with the error's description.
    QueryError(String),
    /// The query succeeded; column 0 of each returned row, as text.
    Rows(Vec<String>),
}

/// One HTTP reply: a status code and a JSON body.
pub struct HttpReply {
    pub status: u16,
    pub body: String,
}

/// The status code the database check answers with: 500 on any failure or
/// on an empty result, 200 otherwise.
pub open spec fn spec_db_status(o: DbOutcome) -> int {
    match o {
        DbOutcome::PoolError(_) => 500,
        DbOutcome::QueryError(_) => 500,
        DbOutcome::Rows(rows) => if rows@.len() == 0 {
            500
        } else {
            200
        },
    }
}

/// The body the database check answers with: a status payload naming the
/// failure, or the version payload carrying row 0's text.
pub open spec fn spec_db_body(o: DbOutcome) -> Seq<char> {
    match o {
        DbOutcome::PoolError(e) => spec_status_payload("Failed to get connection: "@ + e@),
        DbOutcome::QueryError(e) => spec_status_payload("Query failed: "@ + e@),
        DbOutcome::Rows(rows) => if rows@.len() == 0 {
            spec_status_payload("No rows returned"@)
        } else {
            spec_version_payload(rows@[0]@)
        },
    }
}

/// The liveness reply: always 200, always the same payload, independent of
/// anything else.
pub fn index_reply() -> (r: HttpReply)
    ensures
        r.status == 200,
        r.body@ == spec_status_payload("Rust API is running! 🦀"@),
{
    HttpReply { status: 200, body: status_payload("Rust API is running! 🦀") }
}

/// Maps what a database-check request observed to its reply: each failure
/// becomes a 500 with the message the failure calls for, and a non-empty
/// result becomes a 200 carrying row 0's text verbatim.
pub fn db_check_reply(o: &DbOutcome) -> (r: HttpReply)
    ensures
        r.status as int == spec_db_status(*o),
        r.body@ == spec_db_body(*o),
{
    match o {
        DbOutcome::PoolError(e) => {
            let msg = String::from_str("Failed to get connection: ").concat(e.as_str());
            HttpReply { status: 500, body: status_payload(msg.as_str()) }
        },
        DbOutcome::QueryError(e) => {
            let msg = String::from_str("Query failed: ").concat(e.as_str());
            HttpReply { status: 500, body: status_payload(msg.as_str()) }
        },
        DbOutcome::Rows(rows) => {
            if rows.len() == 0 {
                HttpReply { status: 500, body: status_payload("No rows returned") }
            } else {
                HttpReply { status: 200, body: version_payload(rows[0].as_str()) }
            }
        },
    }
}

/// The sequence `sub` occurs contiguously somewhere in `s`.
pub open spec fn contains_sub(s: Seq<char>, sub: Seq<char>) -> bool {
    exists|k: int| 0 <= k && k + sub.len() <= s.len() && #[trigger] s.subrange(k, k + sub.len())
        == sub
}

/// The reply is a function of the observed outcome alone: two requests
/// that observe the same database state are answered with the same status
/// and a byte-identical body.
pub proof fn lemma_reply_deterministic(o1: DbOutcome, o2: DbOutcome)
    requires
        o1 == o2,
    ensures
        spec_db_status(o1) == spec_db_status(o2),
        spec_db_body(o1) == spec_db_body(o2),
{
}

/// The liveness body is exactly the fixed payload.
pub proof fn lemma_index_body()
    ensures
        spec_status_payload("Rust API is running! 🦀"@) == "{\"status\":\"Rust API is running! 🦀\"}"@,
{
    reveal_strlit("Rust API is running! 🦀");
    reveal_strlit("{\"status\":\"");
    reveal_strlit("\"}");
    reveal_strlit("{\"status\":\"Rust API is running! 🦀\"}");
    let m = "Rust API is running! 🦀"@;
    assert forall|i: int| 0 <= i < m.len() implies is_plain(#[trigger] m[i]) by {
    }
    lemma_escape_plain(m);
    assert(spec_status_payload(m) =~= "{\"status\":\"Rust API is running! 🦀\"}"@);
}

/// Whenever the query returns at least one row, the reply is 200 and its
/// body is the version payload carrying row 0's text verbatim.
pub proof fn lemma_rows_reply(rows: Vec<String>)
    requires
        rows@.len() > 0,
    ensures
        spec_db_status(DbOutcome::Rows(rows)) == 200,
        spec_db_body(DbOutcome::Rows(rows)) == spec_version_payload(rows@[0]@),
{
}

/// Whenever pool acquisition fails, the reply is 500 and its body carries
/// the marker "Failed to get connection".
pub proof fn lemma_pool_error_reply(e: String)
    ensures
        spec_db_status(DbOutcome::PoolError(e)) == 500,
        contains_sub(spec_db_body(DbOutcome::PoolError(e)), "Failed to get connection"@),
{
    reveal_strlit("Failed to get connection: ");
    reveal_strlit("Failed to get connection");
    reveal_strlit("{\"status\":\"");
    let p = "Failed to get connection: "@;
    let marker = "Failed to get connection"@;
    assert forall|i: int| 0 <= i < p.len() implies is_plain(#[trigger] p[i]) by {
    }
    lemma_escape_plain(p);
    lemma_escape_append(p, e@);
    let body = spec_db_body(DbOutcome::PoolError(e));
    assert(body == "{\"status\":\""@ + (p + escape_seq(e@)) + "\"}"@);
    assert(body.subrange(11, 11 + marker.len() as int) =~= marker);
}

/// Whenever the query fails, the reply is 500 and its body carries the
/// marker "Query failed".
pub proof fn lemma_query_error_reply(e: String)
    ensures
        spec_db_status(DbOutcome::QueryError(e)) == 500,
        contains_sub(spec_db_body(DbOutcome::QueryError(e)), "Query failed"@),
{
    reveal_strlit("Query failed: ");
    reveal_strlit("Query failed");
    reveal_strlit("{\"status\":\"");
    let p = "Query failed: "@;
    let marker = "Query failed"@;
    assert forall|i: int| 0 <= i < p.len() implies is_plain(#[trigger] p[i]) by {
    }
    lemma_escape_plain(p);
    lemma_escape_append(p, e@);
    let body = spec_db_body(DbOutcome::QueryError(e));
    assert(body == "{\"status\":\""@ + (p + escape_seq(e@)) + "\"}"@);
    assert(body.subrange(11, 11 + marker.len() as int) =~= marker);
}

/// Whenever the query returns no rows, the reply is 500 and its body is
/// exactly the payload whose message is "No rows returned".
pub proof fn lemma_no_rows_reply(rows: Vec<String>)
    requires
        rows@.len() == 0,
    ensures
        spec_db_status(DbOutcome::Rows(rows)) == 500,
        spec_db_body(DbOutcome::Rows(rows)) == "{\"status\":\"No rows returned\"}"@,
{
    reveal_strlit("No rows returned");
    reveal_strlit("{\"status\":\"");
    reveal_strlit("\"}");
    reveal_strlit("{\"status\":\"No rows returned\"}");
    let m = "No rows returned"@;
    assert forall|i: int| 0 <= i < m.len() implies is_plain(#[trigger] m[i]) by {
    }
    lemma_escape_plain(m);
    assert(spec_db_body(DbOutcome::Rows(rows)) =~= "{\"status\":\"No rows returned\"}"@);
}

} // verus!
