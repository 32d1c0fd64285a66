use starproxy::explain::{
    ColumnOutput, Description, Estimate, ExplainNode, FloatingPointHack,
};
use starproxy::headers::Headers;
use starproxy::net::CidrV4;
use starproxy::pipeline::{classify, handle_request, resume_after_probe, PipeStep};
use starproxy::rules::{
    ActionType, CidrOriginRule, CostInput, QueryData, RuleConfig, RuleContainer, RuleEntry,
    SelectStarRule, WhereClauseRule,
};

fn headers_of(pairs: &[(&str, &str)]) -> Headers {
    let mut entries: Vec<(String, String)> = Vec::new();
    for (k, v) in pairs {
        entries.push((k.to_string(), v.to_string()));
    }
    Headers { entries }
}

fn one_rule(table: &str, value: RuleContainer, action: Option<ActionType>) -> RuleConfig {
    RuleConfig {
        rules: vec![RuleEntry {
            name: "r".to_string(),
            table_name: table.to_string(),
            value,
            action,
        }],
    }
}

fn cidr_10_8() -> CidrV4 {
    CidrV4 { addr: 0x0A00_0000, prefix: 8 }
}

fn marker_estimate() -> Estimate {
    Estimate {
        output_row_count: FloatingPointHack::NaN("NaN".to_string()),
        output_size_in_bytes: FloatingPointHack::NaN("NaN".to_string()),
        cpu_cost: FloatingPointHack::NaN("NaN".to_string()),
        memory_cost: FloatingPointHack::NaN("NaN".to_string()),
        network_cost: FloatingPointHack::NaN("NaN".to_string()),
    }
}

fn node_with_cost(cost: FloatingPointHack, children: Option<Vec<ExplainNode>>) -> ExplainNode {
    let mut e = marker_estimate();
    e.cpu_cost = cost;
    ExplainNode {
        id: "0".to_string(),
        name: "Output".to_string(),
        descriptor: Description {
            column_names: None,
            count: None,
            with_ties: None,
            input_pre_sorted_by: None,
        },
        outputs: vec![ColumnOutput { symbol: "a".to_string(), kind: "bigint".to_string() }],
        details: vec![],
        estimates: Some(vec![e]),
        children,
    }
}

#[test]
fn cidr_origin_block() {
    let config = one_rule(
        "db.x",
        RuleContainer::CidrOrigin(CidrOriginRule { inbound_cidr: cidr_10_8() }),
        Some(ActionType::Block),
    );
    let headers = headers_of(&[("authorization", "Basic dXNlcg=="), ("x-forwarded-for", "8.8.8.8")]);
    let step = handle_request(
        &config,
        "trino",
        "POST",
        "/v1/statement",
        headers,
        "SELECT a FROM db.x",
        b"SELECT a FROM db.x".to_vec(),
    );
    match step {
        PipeStep::Respond { status, body } => {
            assert_eq!(status, 403);
            assert_eq!(body, "Request blocked");
        },
        _ => panic!("expected a direct response"),
    }
}

#[test]
fn cidr_origin_allow() {
    let config = one_rule(
        "db.x",
        RuleContainer::CidrOrigin(CidrOriginRule { inbound_cidr: cidr_10_8() }),
        Some(ActionType::Block),
    );
    let headers = headers_of(&[("authorization", "Basic dXNlcg=="), ("x-forwarded-for", "10.1.2.3")]);
    let step = handle_request(
        &config,
        "trino",
        "POST",
        "/v1/statement",
        headers,
        "SELECT a FROM db.x",
        b"SELECT a FROM db.x".to_vec(),
    );
    match step {
        PipeStep::Forward { headers, body } => {
            assert_eq!(headers.get_first("host"), Some("trino".to_string()));
            assert_eq!(body, b"SELECT a FROM db.x".to_vec());
        },
        _ => panic!("expected a forward"),
    }
}

#[test]
fn select_star_injects_tag() {
    let config = one_rule(
        "db.x",
        RuleContainer::SelectStarNoLimit(SelectStarRule {}),
        Some(ActionType::InjectHeader),
    );
    let headers = headers_of(&[("authorization", "Basic dXNlcg==")]);
    let step = handle_request(&config, "trino", "POST", "/v1/statement", headers, "SELECT * FROM db.x", "SELECT * FROM db.x".as_bytes().to_vec());
    match step {
        PipeStep::Forward { headers, body } => {
            assert_eq!(
                headers.get_first("x-trino-client-tags"),
                Some("lowprio".to_string()),
            );
            assert_eq!(body, b"SELECT * FROM db.x".to_vec());
        },
        _ => panic!("expected a forward"),
    }
}

#[test]
fn select_star_with_limit_not_triggered() {
    let config = one_rule(
        "db.x",
        RuleContainer::SelectStarNoLimit(SelectStarRule {}),
        Some(ActionType::InjectHeader),
    );
    let headers = headers_of(&[("authorization", "Basic dXNlcg==")]);
    let step = handle_request(
        &config,
        "trino",
        "POST",
        "/v1/statement",
        headers,
        "SELECT * FROM db.x LIMIT 100",
        b"SELECT * FROM db.x LIMIT 100".to_vec(),
    );
    match step {
        PipeStep::Forward { headers, body } => {
            assert_eq!(headers.get_first("x-trino-client-tags"), None);
            assert_eq!(body, b"SELECT * FROM db.x LIMIT 100".to_vec());
        },
        _ => panic!("expected a forward"),
    }
}

#[test]
fn where_clause_predicate_present() {
    let config = one_rule(
        "db.x",
        RuleContainer::WhereClause(WhereClauseRule { filter: "tenant_id = 42".to_string() }),
        Some(ActionType::Block),
    );
    let headers = headers_of(&[("authorization", "Basic dXNlcg==")]);
    let step = handle_request(
        &config,
        "trino",
        "POST",
        "/v1/statement",
        headers,
        "SELECT a FROM db.x WHERE tenant_id = 42",
        b"SELECT a FROM db.x WHERE tenant_id = 42".to_vec(),
    );
    assert!(matches!(step, PipeStep::Forward { .. }));
}

#[test]
fn where_clause_predicate_missing_blocks() {
    let config = one_rule(
        "db.x",
        RuleContainer::WhereClause(WhereClauseRule { filter: "tenant_id = 42".to_string() }),
        Some(ActionType::Block),
    );
    let headers = headers_of(&[("authorization", "Basic dXNlcg==")]);
    let step = handle_request(&config, "trino", "POST", "/v1/statement", headers, "SELECT a FROM db.x", "SELECT a FROM db.x".as_bytes().to_vec());
    match step {
        PipeStep::Respond { status, body } => {
            assert_eq!(status, 403);
            assert_eq!(body, "Request blocked");
        },
        _ => panic!("expected a direct response"),
    }
}

#[test]
fn scan_estimates_exceeding_threshold_blocks() {
    let config = one_rule(
        "db.x",
        RuleContainer::ScanEstimates(CostInput { max_cpu_cost: 1000f32.to_bits() }),
        Some(ActionType::Block),
    );
    let headers = headers_of(&[("authorization", "Basic dXNlcg==")]);
    let step = handle_request(&config, "trino", "POST", "/v1/statement", headers, "SELECT a FROM db.x", "SELECT a FROM db.x".as_bytes().to_vec());
    let (request, resume) = match step {
        PipeStep::Probe { request, resume } => (request, resume),
        _ => panic!("expected a probe"),
    };
    assert_eq!(
        request.explain_sql,
        "EXPLAIN (TYPE LOGICAL, FORMAT JSON) SELECT a FROM db.x",
    );
    let qd = QueryData {
        query: "SELECT a FROM db.x".to_string(),
        headers: headers_of(&[("authorization", "Basic dXNlcg=="), ("host", "trino")]),
    };
    let plan = node_with_cost(FloatingPointHack::Float(5000f32.to_bits()), None);
    let step = resume_after_probe(&config, &qd, resume, Some(&plan));
    match step {
        PipeStep::Respond { status, body } => {
            assert_eq!(status, 403);
            assert_eq!(body, "Request blocked");
        },
        _ => panic!("expected a direct response"),
    }
}

#[test]
fn scan_estimates_probe_failure_fails_open() {
    let config = one_rule(
        "db.x",
        RuleContainer::ScanEstimates(CostInput { max_cpu_cost: 1000f32.to_bits() }),
        Some(ActionType::Block),
    );
    let headers = headers_of(&[("authorization", "Basic dXNlcg==")]);
    let step = handle_request(&config, "trino", "POST", "/v1/statement", headers, "SELECT a FROM db.x", "SELECT a FROM db.x".as_bytes().to_vec());
    let resume = match step {
        PipeStep::Probe { resume, .. } => resume,
        _ => panic!("expected a probe"),
    };
    let qd = QueryData {
        query: "SELECT a FROM db.x".to_string(),
        headers: headers_of(&[("authorization", "Basic dXNlcg=="), ("host", "trino")]),
    };
    let step = resume_after_probe(&config, &qd, resume, None);
    assert!(matches!(step, PipeStep::Forward { .. }));
}

#[test]
fn unclassified_request_forwards_without_evaluation() {
    let config = one_rule(
        "db.x",
        RuleContainer::CidrOrigin(CidrOriginRule { inbound_cidr: cidr_10_8() }),
        Some(ActionType::Block),
    );
    let headers = headers_of(&[("x-forwarded-for", "8.8.8.8")]);
    let step = handle_request(&config, "trino", "POST", "/v1/statement", headers, "SELECT a FROM db.x", "SELECT a FROM db.x".as_bytes().to_vec());
    match step {
        PipeStep::Forward { headers, body } => {
            assert_eq!(headers.get_first("host"), Some("trino".to_string()));
            assert_eq!(headers.get_first("x-forwarded-for"), Some("8.8.8.8".to_string()));
            assert_eq!(body, b"SELECT a FROM db.x".to_vec());
        },
        _ => panic!("expected a forward"),
    }
}

#[test]
fn wrong_path_forwards_untouched_body_decision() {
    let config = one_rule(
        "db.x",
        RuleContainer::CidrOrigin(CidrOriginRule { inbound_cidr: cidr_10_8() }),
        Some(ActionType::Block),
    );
    let headers = headers_of(&[("authorization", "Basic dXNlcg==")]);
    let step = handle_request(&config, "trino", "GET", "/v1/info", headers, "", "".as_bytes().to_vec());
    assert!(matches!(step, PipeStep::Forward { .. }));
}

#[test]
fn no_from_clause_skips_all_rules() {
    let config = one_rule(
        "db.x",
        RuleContainer::CidrOrigin(CidrOriginRule { inbound_cidr: cidr_10_8() }),
        Some(ActionType::Block),
    );
    let headers = headers_of(&[("authorization", "Basic dXNlcg==")]);
    let step = handle_request(&config, "trino", "POST", "/v1/statement", headers, "SELECT 1", "SELECT 1".as_bytes().to_vec());
    assert!(matches!(step, PipeStep::Forward { .. }));
}

#[test]
fn unparseable_sql_answers_500() {
    let config = one_rule(
        "db.x",
        RuleContainer::CidrOrigin(CidrOriginRule { inbound_cidr: cidr_10_8() }),
        Some(ActionType::Block),
    );
    let headers = headers_of(&[("authorization", "Basic dXNlcg==")]);
    let step = handle_request(&config, "trino", "POST", "/v1/statement", headers, "THIS IS ;; NOT SQL", "THIS IS ;; NOT SQL".as_bytes().to_vec());
    match step {
        PipeStep::Respond { status, .. } => assert_eq!(status, 500),
        _ => panic!("expected a direct response"),
    }
}

#[test]
fn bad_forwarded_for_answers_500() {
    let config = one_rule(
        "db.x",
        RuleContainer::CidrOrigin(CidrOriginRule { inbound_cidr: cidr_10_8() }),
        Some(ActionType::Block),
    );
    let headers = headers_of(&[("authorization", "Basic dXNlcg=="), ("x-forwarded-for", "not-an-ip")]);
    let step = handle_request(&config, "trino", "POST", "/v1/statement", headers, "SELECT a FROM db.x", "SELECT a FROM db.x".as_bytes().to_vec());
    match step {
        PipeStep::Respond { status, .. } => assert_eq!(status, 500),
        _ => panic!("expected a direct response"),
    }
}

#[test]
fn classification_is_stable_under_rewrite() {
    let headers = headers_of(&[("authorization", "Basic dXNlcg==")]);
    assert!(classify("POST", "/v1/statement", &headers));
    let mut rewritten = headers;
    starproxy::pipeline::rewrite_host(&mut rewritten, "trino");
    assert!(classify("POST", "/v1/statement", &rewritten));
    let bare = headers_of(&[("x-other", "1")]);
    assert!(!classify("POST", "/v1/statement", &bare));
    assert!(!classify("GET", "/v1/statement", &headers_of(&[("authorization", "x")])));
    assert!(!classify("POST", "/v1/other", &headers_of(&[("authorization", "x")])));
}
