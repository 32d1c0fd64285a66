use starproxy::explain::{
    max_cpu_cost_of, ColumnOutput, Description, Estimate, ExplainNode, FloatingPointHack,
};
use starproxy::headers::Headers;
use starproxy::net::{parse_ipv4, CidrV4};
use starproxy::rules::{
    inbound_cidr_check, require_limit_if_select_star, scan_estimates_check,
    scan_estimates_request, send_query_to_low_priority, EvalError, QueryData,
};
use starproxy::sqlinfo::{expression_texts, extract_tables_from_query, join_dots, scope_shapes};

fn headers_of(pairs: &[(&str, &str)]) -> Headers {
    let mut entries: Vec<(String, String)> = Vec::new();
    for (k, v) in pairs {
        entries.push((k.to_string(), v.to_string()));
    }
    Headers { entries }
}

fn plain_node(cpu: FloatingPointHack, children: Option<Vec<ExplainNode>>) -> ExplainNode {
    ExplainNode {
        id: "1".to_string(),
        name: "Scan".to_string(),
        descriptor: Description {
            column_names: None,
            count: None,
            with_ties: None,
            input_pre_sorted_by: None,
        },
        outputs: vec![ColumnOutput { symbol: "a".to_string(), kind: "bigint".to_string() }],
        details: vec![],
        estimates: Some(vec![Estimate {
            output_row_count: FloatingPointHack::NaN("NaN".to_string()),
            output_size_in_bytes: FloatingPointHack::NaN("Infinity".to_string()),
            cpu_cost: cpu,
            memory_cost: FloatingPointHack::NaN("-Infinity".to_string()),
            network_cost: FloatingPointHack::NaN("NaN".to_string()),
        }]),
        children,
    }
}

#[test]
fn extract_tables_is_a_stable_set() {
    let q = "SELECT a.x, b.y FROM db.a AS a JOIN db.b AS b ON a.id = b.id JOIN db.a AS c ON a.id = c.id";
    let t1 = extract_tables_from_query(q).unwrap();
    let t2 = extract_tables_from_query(q).unwrap();
    assert_eq!(t1, t2);
    assert_eq!(t1, vec!["db.a".to_string(), "db.b".to_string()]);
}

#[test]
fn extract_tables_no_from_is_empty() {
    let t = extract_tables_from_query("SELECT 1").unwrap();
    assert!(t.is_empty());
}

#[test]
fn extract_tables_rejects_bad_sql() {
    assert_eq!(extract_tables_from_query("NOT ;; SQL").unwrap_err(), EvalError::SqlParse);
}

#[test]
fn expression_texts_carry_canonical_filter() {
    let exprs = expression_texts("SELECT a FROM db.x WHERE tenant_id = 42").unwrap();
    assert!(exprs.iter().any(|e| e == "tenant_id = 42"));
}

#[test]
fn scope_shapes_read_star_and_limit() {
    let scopes = scope_shapes("SELECT * FROM db.x LIMIT 100").unwrap();
    assert_eq!(scopes.len(), 1);
    assert!(scopes[0].has_wildcard);
    assert!(scopes[0].has_limit);
    assert_eq!(scopes[0].tables, vec!["db.x".to_string()]);
    let scopes = scope_shapes("SELECT a FROM db.x").unwrap();
    assert!(!scopes[0].has_wildcard);
    assert!(!scopes[0].has_limit);
}

#[test]
fn select_star_found_in_subquery_scope() {
    let qd = QueryData {
        query: "SELECT c FROM db.y WHERE EXISTS (SELECT * FROM db.x)".to_string(),
        headers: headers_of(&[]),
    };
    assert_eq!(require_limit_if_select_star("db.x", &qd), Ok(true));
    assert_eq!(require_limit_if_select_star("db.y", &qd), Ok(false));
}

#[test]
fn select_star_found_in_derived_table_scope() {
    let qd = QueryData {
        query: "SELECT a FROM (SELECT * FROM db.x) AS t".to_string(),
        headers: headers_of(&[]),
    };
    assert_eq!(require_limit_if_select_star("db.x", &qd), Ok(true));
}

#[test]
fn select_star_requires_same_scope_from() {
    // the star sits in the outer scope, whose FROM names only t; db.x is
    // referenced from a different scope, so the rule does not fire for it
    let qd = QueryData {
        query: "SELECT * FROM t WHERE c IN (SELECT a FROM db.x)".to_string(),
        headers: headers_of(&[]),
    };
    assert_eq!(require_limit_if_select_star("db.x", &qd), Ok(false));
    assert_eq!(require_limit_if_select_star("t", &qd), Ok(true));
}

#[test]
fn select_star_found_in_cte_scope() {
    let qd = QueryData {
        query: "WITH c AS (SELECT * FROM db.x) SELECT a FROM c".to_string(),
        headers: headers_of(&[]),
    };
    assert_eq!(require_limit_if_select_star("db.x", &qd), Ok(true));
}

#[test]
fn join_dots_joins_parts() {
    let parts = vec!["catalog".to_string(), "schema".to_string(), "table".to_string()];
    assert_eq!(join_dots(&parts), "catalog.schema.table");
    assert_eq!(join_dots(&vec!["t".to_string()]), "t");
    assert_eq!(join_dots(&Vec::new()), "");
}

#[test]
fn parse_ipv4_reads_dotted_quads() {
    assert_eq!(parse_ipv4("10.1.2.3"), Some(0x0A01_0203));
    assert_eq!(parse_ipv4("0.0.0.0"), Some(0));
    assert_eq!(parse_ipv4("255.255.255.255"), Some(u32::MAX));
    assert_eq!(parse_ipv4("8.8.8.8"), Some(0x0808_0808));
    assert_eq!(parse_ipv4("10.1.2"), None);
    assert_eq!(parse_ipv4("10.1.2.3.4"), None);
    assert_eq!(parse_ipv4("256.1.2.3"), None);
    assert_eq!(parse_ipv4("01.2.3.4"), None);
    assert_eq!(parse_ipv4(""), None);
    assert_eq!(parse_ipv4("a.b.c.d"), None);
}

#[test]
fn cidr_contains_matches_prefix() {
    let net = CidrV4 { addr: 0x0A00_0000, prefix: 8 };
    assert!(net.contains(0x0A01_0203));
    assert!(!net.contains(0x0808_0808));
    let all = CidrV4 { addr: 0, prefix: 0 };
    assert!(all.contains(0xFFFF_FFFF));
    let host = CidrV4 { addr: 0x0A01_0203, prefix: 32 };
    assert!(host.contains(0x0A01_0203));
    assert!(!host.contains(0x0A01_0204));
}

#[test]
fn missing_forwarded_for_is_a_violation() {
    let net = CidrV4 { addr: 0x0A00_0000, prefix: 8 };
    let qd = QueryData {
        query: "SELECT a FROM db.x".to_string(),
        headers: headers_of(&[("authorization", "x")]),
    };
    assert_eq!(inbound_cidr_check("db.x", net, &qd), Ok(true));
}

#[test]
fn unparseable_forwarded_for_is_an_error() {
    let net = CidrV4 { addr: 0x0A00_0000, prefix: 8 };
    let qd = QueryData {
        query: "SELECT a FROM db.x".to_string(),
        headers: headers_of(&[("x-forwarded-for", "10.1.2.3, 8.8.8.8")]),
    };
    assert_eq!(inbound_cidr_check("db.x", net, &qd), Err(EvalError::BadForwardedFor));
}

#[test]
fn unreferenced_table_skips_origin_check() {
    let net = CidrV4 { addr: 0x0A00_0000, prefix: 8 };
    let qd = QueryData {
        query: "SELECT a FROM db.other".to_string(),
        headers: headers_of(&[]),
    };
    assert_eq!(inbound_cidr_check("db.x", net, &qd), Ok(false));
}

#[test]
fn inject_header_appends_tags_cumulatively() {
    let mut h = headers_of(&[("x-trino-client-tags", "batch")]);
    let _ = send_query_to_low_priority(&mut h);
    assert_eq!(h.get_first("x-trino-client-tags"), Some("batch,lowprio".to_string()));
    let _ = send_query_to_low_priority(&mut h);
    assert_eq!(
        h.get_first("x-trino-client-tags"),
        Some("batch,lowprio,lowprio".to_string()),
    );
    let mut fresh = headers_of(&[]);
    let _ = send_query_to_low_priority(&mut fresh);
    assert_eq!(fresh.get_first("x-trino-client-tags"), Some("lowprio".to_string()));
}

#[test]
fn scan_estimates_needs_authorization() {
    let qd = QueryData {
        query: "SELECT a FROM db.x".to_string(),
        headers: headers_of(&[("content-type", "text/plain")]),
    };
    assert!(matches!(
        scan_estimates_request(&qd),
        Err(EvalError::MissingAuthorization),
    ));
}

#[test]
fn scan_estimates_probe_drops_hop_headers() {
    let qd = QueryData {
        query: "SELECT a FROM db.x".to_string(),
        headers: headers_of(&[
            ("authorization", "Basic x"),
            ("content-length", "18"),
            ("content-type", "text/plain"),
            ("x-custom", "kept"),
        ]),
    };
    let req = scan_estimates_request(&qd).unwrap();
    assert_eq!(req.explain_sql, "EXPLAIN (TYPE LOGICAL, FORMAT JSON) SELECT a FROM db.x");
    assert_eq!(req.headers.get_first("content-length"), None);
    assert_eq!(req.headers.get_first("content-type"), None);
    assert_eq!(req.headers.get_first("authorization"), Some("Basic x".to_string()));
    assert_eq!(req.headers.get_first("x-custom"), Some("kept".to_string()));
}

#[test]
fn max_cpu_cost_takes_subtree_maximum() {
    let leaf_small = plain_node(FloatingPointHack::Float(10f32.to_bits()), None);
    let leaf_big = plain_node(FloatingPointHack::Float(5000f32.to_bits()), None);
    let root = plain_node(
        FloatingPointHack::Float(100f32.to_bits()),
        Some(vec![leaf_small, leaf_big]),
    );
    assert_eq!(max_cpu_cost_of(&root), 5000f32.to_bits());
}

#[test]
fn marker_only_plan_observes_zero_and_never_violates() {
    let leaf = plain_node(FloatingPointHack::NaN("NaN".to_string()), None);
    let root = plain_node(FloatingPointHack::NaN("Infinity".to_string()), Some(vec![leaf]));
    assert_eq!(max_cpu_cost_of(&root), 0);
    assert!(!scan_estimates_check(0, Some(&root)));
    assert!(!scan_estimates_check(1000f32.to_bits(), Some(&root)));
    assert!(!scan_estimates_check(u32::MAX, Some(&root)));
}

#[test]
fn cost_bits_order_as_floats() {
    assert!(5000f32.to_bits() > 1000f32.to_bits());
    assert!(1000.5f32.to_bits() > 1000f32.to_bits());
    assert!(!(999.9f32.to_bits() > 1000f32.to_bits()));
}
