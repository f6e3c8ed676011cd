use quic_forward_proxy::postgres::get_max_safe_inserts;
use quic_forward_proxy::postgres::get_max_safe_updates;
use quic_forward_proxy::postgres::PostgresSession;
use quic_forward_proxy::postgres::SchemaSize;
use quic_forward_proxy::postgres::MAX_QUERY_SIZE;

struct SmallRow;

impl SchemaSize for SmallRow {
    const DEFAULT_SIZE: usize = 100;
    const MAX_SIZE: usize = 3;
}

struct WideRow;

impl SchemaSize for WideRow {
    const DEFAULT_SIZE: usize = 200_000;
    const MAX_SIZE: usize = 200_001;
}

#[test]
fn multiline_query_test() {
    let mut query = String::new();

    PostgresSession::multiline_query(&mut query, 3, 2, &[]);
    assert_eq!(query, "($1,$2,$3),($4,$5,$6)");
}

#[test]
fn multiline_query_test_types() {
    let mut query = String::new();

    PostgresSession::multiline_query(&mut query, 3, 2, &["text", "int", "int"]);
    assert_eq!(query, "(($1)::text,($2)::int,($3)::int),($4,$5,$6)");
}

#[test]
fn multiline_query_appends_to_what_is_there() {
    let mut query = String::from("INSERT INTO t VALUES ");

    PostgresSession::multiline_query(&mut query, 2, 1, &[]);
    assert_eq!(query, "INSERT INTO t VALUES ($1,$2)");
}

#[test]
fn multiline_query_without_rows_adds_nothing() {
    let mut query = String::from("x");

    PostgresSession::multiline_query(&mut query, 3, 0, &["text"]);
    assert_eq!(query, "x");
}

#[test]
fn multiline_query_without_args_gives_empty_rows() {
    let mut query = String::new();

    PostgresSession::multiline_query(&mut query, 0, 3, &[]);
    assert_eq!(query, "(),(),()");
}

#[test]
fn multiline_query_single_cell() {
    let mut query = String::new();

    PostgresSession::multiline_query(&mut query, 1, 1, &["bigint"]);
    assert_eq!(query, "(($1)::bigint)");
}

#[test]
fn multiline_query_numbers_run_past_nine() {
    let mut query = String::new();

    PostgresSession::multiline_query(&mut query, 4, 3, &[]);
    assert_eq!(query, "($1,$2,$3,$4),($5,$6,$7,$8),($9,$10,$11,$12)");
}

#[test]
fn multiline_query_numbers_run_past_ninety_nine() {
    let mut query = String::new();

    PostgresSession::multiline_query(&mut query, 1, 101, &[]);
    assert!(query.starts_with("($1),($2),"));
    assert!(query.ends_with(",($99),($100),($101)"));
}

#[test]
fn multiline_query_more_types_than_args() {
    let mut query = String::new();

    PostgresSession::multiline_query(&mut query, 1, 2, &["text", "int"]);
    assert_eq!(query, "(($1)::text),($2)");
}

#[test]
fn max_safe_inserts_divides_the_query_size() {
    assert_eq!(MAX_QUERY_SIZE, 200_000);
    assert_eq!(get_max_safe_inserts::<SmallRow>(), 2_000);
    assert_eq!(get_max_safe_inserts::<WideRow>(), 1);
}

#[test]
fn max_safe_updates_divides_the_query_size() {
    assert_eq!(get_max_safe_updates::<SmallRow>(), 66_666);
    assert_eq!(get_max_safe_updates::<WideRow>(), 0);
}
