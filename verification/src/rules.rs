use crate::explain::{node_max, ExplainNode};
use crate::headers::{first_value, has_header, set_value, Headers};
use crate::net::{parse_ipv4, parse_ipv4_spec, CidrV4};
use crate::sqlinfo::{
    expression_texts, holds_str, references_table, scope_shapes, scope_view, shape_views,
    sql_exprs, sql_ok, sql_scopes, sql_tables, str_views, ScopeShape,
};
use vstd::prelude::*;
use vstd::string::StringExecFns;

verus! {

/// Why a rule evaluation failed, as distinct from a violation.
#[derive(Clone, Copy, Debug, PartialEq, Eq, Structural)]
pub enum EvalError {
    /// The SQL body does not parse.
    SqlParse,
    /// The forwarded-for header does not read as an IPv4 address.
    BadForwardedFor,
    /// A cost rule needs the client authenticated.
    MissingAuthorization,
}

/// A required predicate, in the canonical expression text the parser emits.
pub struct WhereClauseRule {
    pub filter: String,
}

pub struct SelectStarRule {}

pub struct CidrOriginRule {
    pub inbound_cidr: CidrV4,
}

/// The threshold as the bit pattern of a finite, non-negative 32-bit float.
pub struct CostInput {
    pub max_cpu_cost: u32,
}

/// One rule archetype per variant; this controls how configuration is read
/// and which parameters an evaluator receives.
pub enum RuleContainer {
    WhereClause(WhereClauseRule),
    SelectStarNoLimit(SelectStarRule),
    CidrOrigin(CidrOriginRule),
    ScanEstimates(CostInput),
}

pub struct RuleEntry {
    pub name: String,
    pub table_name: String,
    pub value: RuleContainer,
    pub action: Option<ActionType>,
}

pub struct RuleConfig {
    pub rules: Vec<RuleEntry>,
}

impl RuleEntry {
    /// Parameters that evaluators require of a configured rule.
    pub open spec fn wf(&self) -> bool {
        match self.value {
            RuleContainer::CidrOrigin(c) => c.inbound_cidr.wf(),
            _ => true,
        }
    }
}

impl RuleConfig {
    pub open spec fn wf(&self) -> bool {
        forall|i: int| 0 <= i < self.rules@.len() ==> self.rules@[i].wf()
    }
}

#[derive(Clone, Copy, Debug, PartialEq, Eq, Structural)]
pub enum ActionType {
    Block,
    InjectHeader,
}

/// Decouples action application from blocking.
pub enum ActionState {
    Applied,
}

/// The evaluation-time snapshot of one inbound request.
pub struct QueryData {
    pub query: String,
    pub headers: Headers,
}

pub open spec fn forwarded_for_header() -> Seq<char> {
    "x-forwarded-for"@
}

pub open spec fn authorization_header() -> Seq<char> {
    "authorization"@
}

pub open spec fn tags_header() -> Seq<char> {
    "x-trino-client-tags"@
}

/// What the origin check returns: skipped when the table is not referenced;
/// with no forwarded-for header, a violation; otherwise a violation exactly
/// when the address lies outside the allowed network.
pub open spec fn spec_cidr_check(
    table: Seq<char>,
    cidr: CidrV4,
    query: Seq<char>,
    headers: Seq<(Seq<char>, Seq<char>)>,
) -> Result<bool, EvalError> {
    if !sql_ok(query) {
        Err(EvalError::SqlParse)
    } else if !sql_tables(query).contains(table) {
        Ok(false)
    } else {
        match first_value(headers, forwarded_for_header()) {
            None => Ok(true),
            Some(v) => match parse_ipv4_spec(v) {
                None => Err(EvalError::BadForwardedFor),
                Some(ip) => Ok(!cidr.spec_contains(ip)),
            },
        }
    }
}

pub fn inbound_cidr_check(input_table_name: &str, input_cidr: CidrV4, data: &QueryData) -> (r:
    Result<bool, EvalError>)
    requires
        input_cidr.wf(),
    ensures
        r == spec_cidr_check(input_table_name@, input_cidr, data.query@, data.headers@),
{
    let referenced = match references_table(data.query.as_str(), input_table_name) {
        Ok(b) => b,
        Err(e) => {
            return Err(e);
        },
    };
    if !referenced {
        return Ok(false);
    }
    match data.headers.get_first("x-forwarded-for") {
        None => Ok(true),
        Some(v) => match parse_ipv4(v.as_str()) {
            None => Err(EvalError::BadForwardedFor),
            Some(ip) => Ok(!input_cidr.contains(ip)),
        },
    }
}

/// What the required-predicate check returns: a violation exactly when the
/// table is referenced and the filter text occurs nowhere among the query's
/// expression nodes.
pub open spec fn spec_predicate_check(
    filter: Seq<char>,
    table: Seq<char>,
    query: Seq<char>,
) -> Result<bool, EvalError> {
    if !sql_ok(query) {
        Err(EvalError::SqlParse)
    } else {
        Ok(!sql_exprs(query).contains(filter) && sql_tables(query).contains(table))
    }
}

pub fn check_for_predicate(input_predicate: &str, input_table_name: &str, data: &QueryData) -> (r:
    Result<bool, EvalError>)
    ensures
        r == spec_predicate_check(input_predicate@, input_table_name@, data.query@),
{
    let referenced = match references_table(data.query.as_str(), input_table_name) {
        Ok(b) => b,
        Err(e) => {
            return Err(e);
        },
    };
    let exprs = match expression_texts(data.query.as_str()) {
        Ok(v) => v,
        Err(e) => {
            return Err(e);
        },
    };
    let found = holds_str(&exprs, input_predicate);
    Ok(!found && referenced)
}

/// Whether one scope violates the bare-star rule for the table: the scope's
/// subtree references it, the projection holds a bare `*`, and no LIMIT is
/// given in the same scope.
pub open spec fn star_scope_violation(sc: (Seq<Seq<char>>, bool, bool), table: Seq<char>) -> bool {
    sc.0.contains(table) && sc.1 && !sc.2
}

pub open spec fn spec_select_star_check(table: Seq<char>, query: Seq<char>) -> Result<
    bool,
    EvalError,
> {
    if !sql_ok(query) {
        Err(EvalError::SqlParse)
    } else {
        Ok(
            exists|i: int|
                0 <= i < sql_scopes(query).len() && star_scope_violation(
                    sql_scopes(query)[i],
                    table,
                ),
        )
    }
}

/// A return of `Ok(true)` means a violation.
pub fn require_limit_if_select_star(input_table_name: &str, data: &QueryData) -> (r: Result<
    bool,
    EvalError,
>)
    ensures
        r == spec_select_star_check(input_table_name@, data.query@),
{
    let scopes = match scope_shapes(data.query.as_str()) {
        Ok(v) => v,
        Err(e) => {
            return Err(e);
        },
    };
    let ghost model = sql_scopes(data.query@);
    let mut i: usize = 0;
    while i < scopes.len()
        invariant
            0 <= i <= scopes.len(),
            shape_views(scopes@) == model,
            model == sql_scopes(data.query@),
            sql_ok(data.query@),
            forall|k: int| 0 <= k < i ==> !star_scope_violation(model[k], input_table_name@),
        decreases scopes.len() - i,
    {
        proof {
            assert(model[i as int] == scope_view(scopes@[i as int]));
        }
        let sc = &scopes[i];
        if sc.has_wildcard && !sc.has_limit {
            if holds_str(&sc.tables, input_table_name) {
                proof {
                    assert((i as int) < sql_scopes(data.query@).len());
                    assert(star_scope_violation(
                        sql_scopes(data.query@)[i as int],
                        input_table_name@,
                    ));
                    assert(sql_ok(data.query@));
                    assert(exists|k: int|
                        0 <= k < sql_scopes(data.query@).len() && star_scope_violation(
                            sql_scopes(data.query@)[k],
                            input_table_name@,
                        ));
                    assert(spec_select_star_check(input_table_name@, data.query@) == Ok::<
                        bool,
                        EvalError,
                    >(true));
                }
                return Ok(true);
            }
        }
        i = i + 1;
    }
    Ok(false)
}

/// An upstream cost probe to run before deciding a cost rule.
#[derive(Debug)]
pub struct ExplainRequest {
    pub explain_sql: String,
    pub headers: Headers,
}

pub open spec fn explain_prefix() -> Seq<char> {
    "EXPLAIN (TYPE LOGICAL, FORMAT JSON) "@
}

/// Hop-oriented headers that are dropped from the probe request.
pub open spec fn probe_dropped(name: Seq<char>) -> bool {
    name == "content-length"@ || name == "content-type"@ || name == "if-match"@ || name
        == "range"@
}

pub open spec fn probe_headers(h: Seq<(Seq<char>, Seq<char>)>) -> Seq<(Seq<char>, Seq<char>)>
    decreases h.len(),
{
    if h.len() == 0 {
        Seq::empty()
    } else {
        let prior = probe_headers(h.drop_last());
        if probe_dropped(h.last().0) {
            prior
        } else {
            prior.push(h.last())
        }
    }
}

fn probe_kept(name: &String) -> (r: bool)
    ensures
        r == !probe_dropped(name@),
{
    let a: String = "content-length".to_owned();
    let b: String = "content-type".to_owned();
    let c: String = "if-match".to_owned();
    let d: String = "range".to_owned();
    !(*name == a || *name == b || *name == c || *name == d)
}

/// Builds the cost probe for a query: errors exactly when the client sent no
/// authorization header; otherwise the probe text is the EXPLAIN prefix
/// before the query, and the probe headers are the client's without the
/// dropped set.
pub fn scan_estimates_request(data: &QueryData) -> (r: Result<ExplainRequest, EvalError>)
    ensures
        r is Ok <==> has_header(data.headers@, authorization_header()),
        r is Err ==> r.unwrap_err() == EvalError::MissingAuthorization,
        r is Ok ==> r.unwrap().explain_sql@ == explain_prefix() + data.query@,
        r is Ok ==> r.unwrap().headers@ == probe_headers(data.headers@),
{
    if !data.headers.contains_name("authorization") {
        return Err(EvalError::MissingAuthorization);
    }
    let mut sql: String = "EXPLAIN (TYPE LOGICAL, FORMAT JSON) ".to_owned();
    sql.append(data.query.as_str());
    let mut kept: Vec<(String, String)> = Vec::new();
    let mut i: usize = 0;
    proof {
        assert(data.headers@.take(0) =~= Seq::<(Seq<char>, Seq<char>)>::empty());
    }
    while i < data.headers.entries.len()
        invariant
            0 <= i <= data.headers.entries.len(),
            crate::headers::entries_view(kept@) == probe_headers(data.headers@.take(i as int)),
        decreases data.headers.entries.len() - i,
    {
        let ghost pre = data.headers@.take(i as int);
        if probe_kept(&data.headers.entries[i].0) {
            kept.push(
                (data.headers.entries[i].0.clone(), data.headers.entries[i].1.clone()),
            );
        }
        proof {
            assert(data.headers@.take(i + 1).drop_last() =~= pre);
            assert(data.headers@.take(i + 1).last() == data.headers@[i as int]);
            if !probe_dropped(data.headers@[i as int].0) {
                assert(crate::headers::entries_view(kept@) =~= probe_headers(pre).push(
                    data.headers@[i as int],
                ));
            }
        }
        i = i + 1;
    }
    proof {
        assert(data.headers@.take(data.headers.entries.len() as int) =~= data.headers@);
    }
    Ok(ExplainRequest { explain_sql: sql, headers: Headers { entries: kept } })
}

/// Decides a cost rule from the probe's outcome: with no usable plan the
/// system fails open; with a plan, a violation exactly when the maximum
/// observed CPU cost exceeds the threshold.
pub fn scan_estimates_check(max_cpu_cost: u32, explain: Option<&ExplainNode>) -> (r: bool)
    ensures
        r == (match explain {
            Some(n) => node_max(*n) > max_cpu_cost,
            None => false,
        }),
{
    match explain {
        None => false,
        Some(n) => {
            let m = crate::explain::max_cpu_cost_of(n);
            m > max_cpu_cost
        },
    }
}

/// The value the tag header carries after one injection.
pub open spec fn lowprio_value(prev: Option<Seq<char>>) -> Seq<char> {
    match prev {
        Some(v) => v + ","@ + "lowprio"@,
        None => "lowprio"@,
    }
}

/// The whole header map after one injection.
pub open spec fn inject_lowprio(h: Seq<(Seq<char>, Seq<char>)>) -> Seq<(Seq<char>, Seq<char>)> {
    set_value(h, tags_header(), lowprio_value(first_value(h, tags_header())))
}

/// Appends the literal tag `lowprio` to the scheduler tag header, creating
/// the header when absent.
pub fn send_query_to_low_priority(headers: &mut Headers) -> (r: ActionState)
    ensures
        final(headers)@ == inject_lowprio(old(headers)@),
        old(headers).wf() ==> final(headers).wf(),
        r == ActionState::Applied,
{
    proof {
        reveal_strlit("x-trino-client-tags");
        assert(crate::headers::is_lower_name("x-trino-client-tags"@));
    }
    let prev = headers.get_first("x-trino-client-tags");
    let new_value: String = match prev {
        Some(v) => {
            let mut s = v;
            s.append(",");
            s.append("lowprio");
            s
        },
        None => "lowprio".to_owned(),
    };
    headers.set_replacing("x-trino-client-tags", new_value);
    ActionState::Applied
}

/// Injection touches only the tag header: afterwards it carries the old
/// value with one more tag appended, and every other name's first value is
/// unchanged.
pub proof fn lemma_inject_lowprio_effect(h: Seq<(Seq<char>, Seq<char>)>, m: Seq<char>)
    ensures
        first_value(inject_lowprio(h), tags_header()) == Some(
            lowprio_value(first_value(h, tags_header())),
        ),
        m != tags_header() ==> first_value(inject_lowprio(h), m) == first_value(h, m),
{
    crate::headers::lemma_set_value(
        h,
        tags_header(),
        lowprio_value(first_value(h, tags_header())),
        tags_header(),
    );
    crate::headers::lemma_set_value(
        h,
        tags_header(),
        lowprio_value(first_value(h, tags_header())),
        m,
    );
}

/// The header map after `n` successive injections.
pub open spec fn inject_lowprio_n(h: Seq<(Seq<char>, Seq<char>)>, n: nat) -> Seq<
    (Seq<char>, Seq<char>),
>
    decreases n,
{
    if n == 0 {
        h
    } else {
        inject_lowprio(inject_lowprio_n(h, (n - 1) as nat))
    }
}

/// The tag list after appending `n` more tags to `v`.
pub open spec fn appended_tags(v: Seq<char>, n: nat) -> Seq<char>
    decreases n,
{
    if n == 0 {
        v
    } else {
        appended_tags(v, (n - 1) as nat) + ","@ + "lowprio"@
    }
}

/// Applying the injection `n` times appends exactly `n` tags, one per
/// application, nothing removed: with a prior value the list gains `n`
/// elements, and from an absent header it holds the tag followed by `n - 1`
/// more.
pub proof fn lemma_inject_lowprio_count(h: Seq<(Seq<char>, Seq<char>)>, n: nat)
    requires
        n >= 1,
    ensures
        first_value(inject_lowprio_n(h, n), tags_header()) == Some(
            match first_value(h, tags_header()) {
                Some(v) => appended_tags(v, n),
                None => appended_tags("lowprio"@, (n - 1) as nat),
            },
        ),
    decreases n,
{
    if n == 1 {
        assert(inject_lowprio_n(h, 0) == h);
        assert(inject_lowprio_n(h, 1) == inject_lowprio(h));
        lemma_inject_lowprio_effect(h, tags_header());
        match first_value(h, tags_header()) {
            Some(v) => {
                assert(appended_tags(v, 1) == appended_tags(v, 0) + ","@ + "lowprio"@);
                assert(appended_tags(v, 0) == v);
            },
            None => {
                assert(appended_tags("lowprio"@, 0) == "lowprio"@);
            },
        }
    } else {
        lemma_inject_lowprio_count(h, (n - 1) as nat);
        lemma_inject_lowprio_effect(inject_lowprio_n(h, (n - 1) as nat), tags_header());
        assert(inject_lowprio_n(h, n) == inject_lowprio(inject_lowprio_n(h, (n - 1) as nat)));
        match first_value(h, tags_header()) {
            Some(v) => {
                assert(appended_tags(v, n) == appended_tags(v, (n - 1) as nat) + ","@
                    + "lowprio"@);
            },
            None => {
                assert(appended_tags("lowprio"@, (n - 1) as nat) == appended_tags(
                    "lowprio"@,
                    (n - 2) as nat,
                ) + ","@ + "lowprio"@);
            },
        }
    }
}

/// Injection is monotone: a second application appends a second tag to the
/// value the first one produced, whatever the map held before.
pub proof fn lemma_inject_lowprio_monotone(h: Seq<(Seq<char>, Seq<char>)>)
    ensures
        first_value(inject_lowprio(inject_lowprio(h)), tags_header()) == Some(
            lowprio_value(first_value(h, tags_header())) + ","@ + "lowprio"@,
        ),
{
    lemma_inject_lowprio_effect(h, tags_header());
    lemma_inject_lowprio_effect(inject_lowprio(h), tags_header());
}

} // verus!
