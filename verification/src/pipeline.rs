use crate::explain::{node_max, ExplainNode};
use crate::headers::{has_header, set_value, Headers};
use crate::rules::{
    authorization_header, inject_lowprio, scan_estimates_check, scan_estimates_request,
    send_query_to_low_priority, spec_cidr_check, spec_predicate_check, spec_select_star_check,
    ActionType, EvalError, ExplainRequest, QueryData, RuleConfig, RuleContainer, RuleEntry,
};
use crate::sqlinfo::{
    dedup_first, extract_tables_from_query, holds_str, lemma_dedup_first_contents, sql_ok,
    sql_tables, str_views,
};
use vstd::prelude::*;
use vstd::string::StringExecFns;

verus! {

/// What the verified pipeline tells its caller to do next.
pub enum PipeStep {
    /// Answer the client directly with this status and body text.
    Respond { status: u16, body: String },
    /// Forward the client body upstream, byte for byte, with these headers.
    Forward { headers: Headers, body: Vec<u8> },
    /// Run the cost probe upstream, then resume with its outcome.
    Probe { request: ExplainRequest, resume: ResumeState },
}

/// Where evaluation stands while a cost probe is outstanding.
pub struct ResumeState {
    pub next_rule: usize,
    pub max_cpu_cost: u32,
    pub action: Option<ActionType>,
    pub headers: Headers,
    pub body: Vec<u8>,
}

/// The mathematical shadow of a pipeline step.
pub enum SpecStep {
    SRespond(u16, Seq<char>),
    SForward(Seq<(Seq<char>, Seq<char>)>),
    SProbe(int, u32, Option<ActionType>, Seq<(Seq<char>, Seq<char>)>),
}

pub open spec fn step_view(s: PipeStep) -> SpecStep {
    match s {
        PipeStep::Respond { status, body } => SpecStep::SRespond(status, body@),
        PipeStep::Forward { headers, body } => SpecStep::SForward(headers@),
        PipeStep::Probe { request, resume } => SpecStep::SProbe(
            resume.next_rule as int,
            resume.max_cpu_cost,
            resume.action,
            resume.headers@,
        ),
    }
}

pub open spec fn blocked_body() -> Seq<char> {
    "Request blocked"@
}

pub open spec fn rule_error_body() -> Seq<char> {
    "Error checking rule"@
}

/// The immediate rule checks; a cost rule is decided elsewhere.
pub open spec fn spec_rule_check(
    rule: RuleEntry,
    query: Seq<char>,
    client: Seq<(Seq<char>, Seq<char>)>,
) -> Result<bool, EvalError> {
    match rule.value {
        RuleContainer::CidrOrigin(c) => spec_cidr_check(
            rule.table_name@,
            c.inbound_cidr,
            query,
            client,
        ),
        RuleContainer::WhereClause(w) => spec_predicate_check(w.filter@, rule.table_name@, query),
        RuleContainer::SelectStarNoLimit(_) => spec_select_star_check(rule.table_name@, query),
        RuleContainer::ScanEstimates(_) => Ok(false),
    }
}

/// Rule evaluation from rule `i` on, with `hs` the outgoing headers gathered
/// so far and `client` the request headers the evaluators see. A rule whose
/// table is not referenced has no effect. The first violated rule with a
/// block action answers 403 and stops; header injections accumulate; an
/// evaluation failure answers 500; a cost rule hands over to the probe.
pub open spec fn spec_run(
    rules: Seq<RuleEntry>,
    query: Seq<char>,
    client: Seq<(Seq<char>, Seq<char>)>,
    i: int,
    hs: Seq<(Seq<char>, Seq<char>)>,
) -> SpecStep
    decreases rules.len() - i,
{
    if !sql_ok(query) {
        SpecStep::SRespond(500, rule_error_body())
    } else if i < 0 || i >= rules.len() {
        SpecStep::SForward(hs)
    } else if !sql_tables(query).contains(rules[i].table_name@) {
        spec_run(rules, query, client, i + 1, hs)
    } else {
        match rules[i].value {
            RuleContainer::ScanEstimates(cost) => {
                if !has_header(client, authorization_header()) {
                    SpecStep::SRespond(500, rule_error_body())
                } else {
                    SpecStep::SProbe(i + 1, cost.max_cpu_cost, rules[i].action, hs)
                }
            },
            _ => match spec_rule_check(rules[i], query, client) {
                Err(_) => SpecStep::SRespond(500, rule_error_body()),
                Ok(false) => spec_run(rules, query, client, i + 1, hs),
                Ok(true) => match rules[i].action {
                    None => spec_run(rules, query, client, i + 1, hs),
                    Some(ActionType::Block) => SpecStep::SRespond(403, blocked_body()),
                    Some(ActionType::InjectHeader) => spec_run(
                        rules,
                        query,
                        client,
                        i + 1,
                        inject_lowprio(hs),
                    ),
                },
            },
        }
    }
}

/// How evaluation continues once the probe's outcome is in hand.
pub open spec fn spec_resume(
    rules: Seq<RuleEntry>,
    query: Seq<char>,
    client: Seq<(Seq<char>, Seq<char>)>,
    next: int,
    threshold: u32,
    action: Option<ActionType>,
    hs: Seq<(Seq<char>, Seq<char>)>,
    outcome: Option<ExplainNode>,
) -> SpecStep {
    let violation = match outcome {
        Some(n) => node_max(n) > threshold,
        None => false,
    };
    if violation {
        match action {
            None => spec_run(rules, query, client, next, hs),
            Some(ActionType::Block) => SpecStep::SRespond(403, blocked_body()),
            Some(ActionType::InjectHeader) => spec_run(
                rules,
                query,
                client,
                next,
                inject_lowprio(hs),
            ),
        }
    } else {
        spec_run(rules, query, client, next, hs)
    }
}

/// Runs the rules from `start` with `headers` as the outgoing header state.
pub fn eval_from(
    config: &RuleConfig,
    qd: &QueryData,
    start: usize,
    headers: Headers,
    body: Vec<u8>,
) -> (r: PipeStep)
    requires
        config.wf(),
    ensures
        step_view(r) == spec_run(config.rules@, qd.query@, qd.headers@, start as int, headers@),
        (r matches PipeStep::Forward { headers: h, body: b } ==> b@ == body@),
        (r matches PipeStep::Probe { request, resume } ==> request.explain_sql@
            == crate::rules::explain_prefix() + qd.query@ && request.headers@
            == crate::rules::probe_headers(qd.headers@) && resume.body@ == body@),
{
    let tables = match extract_tables_from_query(qd.query.as_str()) {
        Ok(t) => t,
        Err(_) => {
            return PipeStep::Respond { status: 500, body: "Error checking rule".to_owned() };
        },
    };
    let mut hs = headers;
    let mut i: usize = start;
    loop
        invariant
            config.wf(),
            sql_ok(qd.query@),
            start <= i,
            str_views(tables@) == dedup_first(sql_tables(qd.query@)),
            spec_run(config.rules@, qd.query@, qd.headers@, start as int, headers@) == spec_run(
                config.rules@,
                qd.query@,
                qd.headers@,
                i as int,
                hs@,
            ),
        decreases config.rules.len() - i,
    {
        if i >= config.rules.len() {
            return PipeStep::Forward { headers: hs, body };
        }
        let rule = &config.rules[i];
        proof {
            lemma_dedup_first_contents(sql_tables(qd.query@), rule.table_name@);
        }
        if !holds_str(&tables, rule.table_name.as_str()) {
            i = i + 1;
            continue ;
        }
        match &rule.value {
            RuleContainer::ScanEstimates(cost) => {
                match scan_estimates_request(qd) {
                    Err(_) => {
                        return PipeStep::Respond {
                            status: 500,
                            body: "Error checking rule".to_owned(),
                        };
                    },
                    Ok(request) => {
                        return PipeStep::Probe {
                            request,
                            resume: ResumeState {
                                next_rule: i + 1,
                                max_cpu_cost: cost.max_cpu_cost,
                                action: rule.action,
                                headers: hs,
                                body,
                            },
                        };
                    },
                }
            },
            RuleContainer::CidrOrigin(c) => {
                let res = crate::rules::inbound_cidr_check(
                    rule.table_name.as_str(),
                    c.inbound_cidr,
                    qd,
                );
                match res {
                    Err(_) => {
                        return PipeStep::Respond {
                            status: 500,
                            body: "Error checking rule".to_owned(),
                        };
                    },
                    Ok(violated) => {
                        if violated {
                            match rule.action {
                                Some(ActionType::Block) => {
                                    return PipeStep::Respond {
                                        status: 403,
                                        body: "Request blocked".to_owned(),
                                    };
                                },
                                Some(ActionType::InjectHeader) => {
                                    let _ = send_query_to_low_priority(&mut hs);
                                },
                                None => {},
                            }
                        }
                    },
                }
            },
            RuleContainer::WhereClause(w) => {
                let res = crate::rules::check_for_predicate(
                    w.filter.as_str(),
                    rule.table_name.as_str(),
                    qd,
                );
                match res {
                    Err(_) => {
                        return PipeStep::Respond {
                            status: 500,
                            body: "Error checking rule".to_owned(),
                        };
                    },
                    Ok(violated) => {
                        if violated {
                            match rule.action {
                                Some(ActionType::Block) => {
                                    return PipeStep::Respond {
                                        status: 403,
                                        body: "Request blocked".to_owned(),
                                    };
                                },
                                Some(ActionType::InjectHeader) => {
                                    let _ = send_query_to_low_priority(&mut hs);
                                },
                                None => {},
                            }
                        }
                    },
                }
            },
            RuleContainer::SelectStarNoLimit(_) => {
                let res = crate::rules::require_limit_if_select_star(rule.table_name.as_str(), qd);
                match res {
                    Err(_) => {
                        return PipeStep::Respond {
                            status: 500,
                            body: "Error checking rule".to_owned(),
                        };
                    },
                    Ok(violated) => {
                        if violated {
                            match rule.action {
                                Some(ActionType::Block) => {
                                    return PipeStep::Respond {
                                        status: 403,
                                        body: "Request blocked".to_owned(),
                                    };
                                },
                                Some(ActionType::InjectHeader) => {
                                    let _ = send_query_to_low_priority(&mut hs);
                                },
                                None => {},
                            }
                        }
                    },
                }
            },
        }
        i = i + 1;
    }
}

/// Continues a suspended evaluation with the probe's outcome: no usable plan
/// fails open; a cost above the threshold is a violation and the pending
/// action applies.
pub fn resume_after_probe(
    config: &RuleConfig,
    qd: &QueryData,
    resume: ResumeState,
    outcome: Option<&ExplainNode>,
) -> (r: PipeStep)
    requires
        config.wf(),
    ensures
        step_view(r) == spec_resume(
            config.rules@,
            qd.query@,
            qd.headers@,
            resume.next_rule as int,
            resume.max_cpu_cost,
            resume.action,
            resume.headers@,
            match outcome {
                Some(n) => Some(*n),
                None => None,
            },
        ),
        (r matches PipeStep::Forward { headers: h, body: b } ==> b@ == resume.body@),
        (r matches PipeStep::Probe { request, resume: rs } ==> request.explain_sql@
            == crate::rules::explain_prefix() + qd.query@ && request.headers@
            == crate::rules::probe_headers(qd.headers@) && rs.body@ == resume.body@),
{
    let violated = scan_estimates_check(resume.max_cpu_cost, outcome);
    let mut hs = resume.headers;
    if violated {
        match resume.action {
            Some(ActionType::Block) => {
                return PipeStep::Respond { status: 403, body: "Request blocked".to_owned() };
            },
            Some(ActionType::InjectHeader) => {
                let _ = send_query_to_low_priority(&mut hs);
            },
            None => {},
        }
    }
    eval_from(config, qd, resume.next_rule, hs, resume.body)
}

pub open spec fn host_header() -> Seq<char> {
    "host"@
}

/// The inspection predicate: method POST, the statement path, a credential.
pub open spec fn spec_classify(
    method: Seq<char>,
    path: Seq<char>,
    headers: Seq<(Seq<char>, Seq<char>)>,
) -> bool {
    method == "POST"@ && path == "/v1/statement"@ && has_header(headers, authorization_header())
}

pub fn classify(method: &str, path: &str, headers: &Headers) -> (r: bool)
    ensures
        r == spec_classify(method@, path@, headers@),
{
    let m: String = method.to_owned();
    let p: String = path.to_owned();
    let post: String = "POST".to_owned();
    let stmt: String = "/v1/statement".to_owned();
    m == post && p == stmt && headers.contains_name("authorization")
}

/// Replaces any client host header with the upstream authority.
pub fn rewrite_host(headers: &mut Headers, upstream: &str)
    ensures
        final(headers)@ == set_value(old(headers)@, host_header(), upstream@),
        old(headers).wf() ==> final(headers).wf(),
{
    proof {
        reveal_strlit("host");
        assert(crate::headers::is_lower_name("host"@));
    }
    headers.set_replacing("host", upstream.to_owned());
}

/// What one whole request comes to, given the configured rules, the upstream
/// authority, the request line, the client headers and the buffered body
/// text: the host header is rewritten first, and a request that is not a
/// query submission forwards as it stands, with no rule evaluated.
pub open spec fn spec_handle(
    rules: Seq<RuleEntry>,
    upstream: Seq<char>,
    method: Seq<char>,
    path: Seq<char>,
    client: Seq<(Seq<char>, Seq<char>)>,
    query: Seq<char>,
) -> SpecStep {
    let rewritten = set_value(client, host_header(), upstream);
    if !spec_classify(method, path, rewritten) {
        SpecStep::SForward(rewritten)
    } else {
        spec_run(rules, query, rewritten, 0, rewritten)
    }
}

pub fn handle_request(
    config: &RuleConfig,
    upstream: &str,
    method: &str,
    path: &str,
    headers: Headers,
    query: &str,
    body: Vec<u8>,
) -> (r: PipeStep)
    requires
        config.wf(),
    ensures
        step_view(r) == spec_handle(config.rules@, upstream@, method@, path@, headers@, query@),
        (r matches PipeStep::Forward { headers: h, body: b } ==> b@ == body@),
        (r matches PipeStep::Probe { request, resume } ==> request.explain_sql@
            == crate::rules::explain_prefix() + query@ && request.headers@
            == crate::rules::probe_headers(set_value(headers@, host_header(), upstream@))
            && resume.body@ == body@),
{
    let mut h = headers;
    rewrite_host(&mut h, upstream);
    if !classify(method, path, &h) {
        return PipeStep::Forward { headers: h, body };
    }
    let qd = QueryData { query: query.to_owned(), headers: h.duplicate() };
    eval_from(config, &qd, 0, h, body)
}

/// A request that fails the inspection gate is forwarded as it stands: the
/// body is never read and no rule evaluator runs.
pub proof fn lemma_unclassified_forwarded(
    rules: Seq<RuleEntry>,
    upstream: Seq<char>,
    method: Seq<char>,
    path: Seq<char>,
    client: Seq<(Seq<char>, Seq<char>)>,
    query: Seq<char>,
)
    requires
        !spec_classify(method, path, set_value(client, host_header(), upstream)),
    ensures
        spec_handle(rules, upstream, method, path, client, query) == SpecStep::SForward(
            set_value(client, host_header(), upstream),
        ),
{
}

/// A rule whose table is not referenced in the SQL has no observable effect:
/// evaluation proceeds exactly as if the rule were not there.
pub proof fn lemma_unreferenced_rule_skipped(
    rules: Seq<RuleEntry>,
    query: Seq<char>,
    client: Seq<(Seq<char>, Seq<char>)>,
    i: int,
    hs: Seq<(Seq<char>, Seq<char>)>,
)
    requires
        0 <= i < rules.len(),
        !sql_tables(query).contains(rules[i].table_name@),
    ensures
        spec_run(rules, query, client, i, hs) == spec_run(rules, query, client, i + 1, hs),
{
}

/// When the SQL references no table at all, every table-scoped rule is
/// skipped and the request forwards with its headers untouched.
pub proof fn lemma_no_tables_forwards(
    rules: Seq<RuleEntry>,
    query: Seq<char>,
    client: Seq<(Seq<char>, Seq<char>)>,
    i: int,
    hs: Seq<(Seq<char>, Seq<char>)>,
)
    requires
        sql_ok(query),
        sql_tables(query).len() == 0,
        0 <= i <= rules.len(),
    ensures
        spec_run(rules, query, client, i, hs) == SpecStep::SForward(hs),
    decreases rules.len() - i,
{
    if i < rules.len() {
        assert(!sql_tables(query).contains(rules[i].table_name@));
        lemma_no_tables_forwards(rules, query, client, i + 1, hs);
    }
}

/// Rewriting the host header does not change the inspection decision, so
/// classifying an already-rewritten request again decides the same way.
pub proof fn lemma_classify_stable_under_rewrite(
    method: Seq<char>,
    path: Seq<char>,
    client: Seq<(Seq<char>, Seq<char>)>,
    upstream: Seq<char>,
)
    ensures
        spec_classify(method, path, set_value(client, host_header(), upstream)) == spec_classify(
            method,
            path,
            client,
        ),
{
    reveal_strlit("host");
    reveal_strlit("authorization");
    assert("host"@.len() == 4);
    assert("authorization"@.len() == 13);
    assert(host_header() != authorization_header());
    crate::headers::lemma_set_value(client, host_header(), upstream, authorization_header());
}

} // verus!
