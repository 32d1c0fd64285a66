use crate::rules::EvalError;
use vstd::prelude::*;
use vstd::string::StringExecFns;

verus! {

/// Whether the SQL text parses under the MySQL-compatible dialect.
pub uninterp spec fn sql_ok(s: Seq<char>) -> bool;

/// The table references of the parsed text, in visit order; each reference
/// is its sequence of identifier parts, still unjoined.
pub uninterp spec fn sql_table_parts(s: Seq<char>) -> Seq<Seq<Seq<char>>>;

/// The canonical text of every expression node of the parsed text, in visit
/// order.
pub uninterp spec fn sql_exprs(s: Seq<char>) -> Seq<Seq<char>>;

/// The sub-query scopes of the parsed text: per scope, the identifier parts
/// of the relations named in that scope's own FROM clause, whether its own
/// projection holds a bare `*`, and whether it carries a LIMIT.
pub uninterp spec fn sql_scope_parts(s: Seq<char>) -> Seq<(Seq<Seq<Seq<char>>>, bool, bool)>;

#[verifier::external_type_specification]
#[verifier::external_body]
pub struct ExQuery(sqlparser::ast::Query);

#[verifier::external_type_specification]
#[verifier::external_body]
pub struct ExObjectName(sqlparser::ast::ObjectName);

#[verifier::external_type_specification]
#[verifier::external_body]
pub struct ExStatement(sqlparser::ast::Statement);

#[verifier::external_type_specification]
#[verifier::external_body]
pub struct ExSetExpr(sqlparser::ast::SetExpr);

#[verifier::external_type_specification]
#[verifier::external_body]
pub struct ExTableFactor(sqlparser::ast::TableFactor);

/// A summary of one sub-query scope with table references still in parts,
/// as the trusted traversal hands it out.
pub struct ScopeParts {
    pub tables: Vec<Vec<String>>,
    pub has_wildcard: bool,
    pub has_limit: bool,
}

/// A summary of one sub-query scope, with dotted table names.
#[derive(Debug)]
pub struct ScopeShape {
    pub tables: Vec<String>,
    pub has_wildcard: bool,
    pub has_limit: bool,
}

pub open spec fn str_views(v: Seq<String>) -> Seq<Seq<char>> {
    v.map_values(|t: String| t@)
}

pub open spec fn parts_view(v: Seq<Vec<String>>) -> Seq<Seq<Seq<char>>> {
    v.map_values(|p: Vec<String>| str_views(p@))
}

pub open spec fn scope_parts_view(s: ScopeParts) -> (Seq<Seq<Seq<char>>>, bool, bool) {
    (parts_view(s.tables@), s.has_wildcard, s.has_limit)
}

pub open spec fn scope_view(s: ScopeShape) -> (Seq<Seq<char>>, bool, bool) {
    (str_views(s.tables@), s.has_wildcard, s.has_limit)
}

pub open spec fn raw_views(v: Seq<ScopeParts>) -> Seq<(Seq<Seq<Seq<char>>>, bool, bool)> {
    v.map_values(|s: ScopeParts| scope_parts_view(s))
}

pub open spec fn shape_views(v: Seq<ScopeShape>) -> Seq<(Seq<Seq<char>>, bool, bool)> {
    v.map_values(|s: ScopeShape| scope_view(s))
}

/// The identifier parts joined by dots, as a fully qualified table name is
/// written.
pub open spec fn join_dotted(parts: Seq<Seq<char>>) -> Seq<char>
    decreases parts.len(),
{
    if parts.len() == 0 {
        Seq::empty()
    } else if parts.len() == 1 {
        parts[0]
    } else {
        join_dotted(parts.drop_last()) + seq!['.'] + parts.last()
    }
}

/// Each reference's parts joined into its dotted name.
pub open spec fn joined(ps: Seq<Seq<Seq<char>>>) -> Seq<Seq<char>> {
    ps.map_values(|p: Seq<Seq<char>>| join_dotted(p))
}

/// The dotted table names referenced by the SQL text, in visit order.
pub open spec fn sql_tables(s: Seq<char>) -> Seq<Seq<char>> {
    joined(sql_table_parts(s))
}

/// The sub-query scopes with their FROM relations as dotted names.
pub open spec fn sql_scopes(s: Seq<char>) -> Seq<(Seq<Seq<char>>, bool, bool)> {
    sql_scope_parts(s).map_values(
        |sc: (Seq<Seq<Seq<char>>>, bool, bool)| (joined(sc.0), sc.1, sc.2),
    )
}

pub fn join_dots(parts: &Vec<String>) -> (r: String)
    ensures
        r@ == join_dotted(str_views(parts@)),
{
    let mut out = String::new();
    let mut i: usize = 0;
    proof {
        assert(str_views(parts@).take(0) =~= Seq::<Seq<char>>::empty());
    }
    while i < parts.len()
        invariant
            0 <= i <= parts.len(),
            out@ == join_dotted(str_views(parts@).take(i as int)),
        decreases parts.len() - i,
    {
        let ghost pre = str_views(parts@).take(i as int);
        if i > 0 {
            out.append(".");
        }
        out.append(parts[i].as_str());
        proof {
            reveal_strlit(".");
            assert("."@ =~= seq!['.']);
            assert(str_views(parts@).take(i + 1).drop_last() =~= pre);
            assert(str_views(parts@).take(i + 1).last() == parts@[i as int]@);
            if i == 0 {
                assert(str_views(parts@).take(1).len() == 1);
            }
        }
        i = i + 1;
    }
    proof {
        assert(str_views(parts@).take(parts.len() as int) =~= str_views(parts@));
    }
    out
}

/// Every reference joined by the library's dot join.
pub fn join_all(parts: &Vec<Vec<String>>) -> (r: Vec<String>)
    ensures
        str_views(r@) == joined(parts_view(parts@)),
{
    let ghost model = joined(parts_view(parts@));
    let mut out: Vec<String> = Vec::new();
    let mut i: usize = 0;
    proof {
        assert(model.len() == parts@.len());
        assert(str_views(out@) =~= Seq::<Seq<char>>::empty());
        assert(model.take(0) =~= Seq::<Seq<char>>::empty());
    }
    while i < parts.len()
        invariant
            0 <= i <= parts.len(),
            model == joined(parts_view(parts@)),
            model.len() == parts@.len(),
            str_views(out@) == model.take(i as int),
        decreases parts.len() - i,
    {
        let ghost pre = model.take(i as int);
        let s = join_dots(&parts[i]);
        let ghost sv = s@;
        out.push(s);
        proof {
            assert(parts_view(parts@)[i as int] == str_views(parts@[i as int]@));
            assert(model[i as int] == join_dotted(parts_view(parts@)[i as int]));
            assert(sv == model[i as int]);
            assert(model.take(i + 1).drop_last() =~= pre);
            assert(model.take(i + 1).last() == model[i as int]);
            assert(str_views(out@) =~= pre.push(sv));
        }
        i = i + 1;
    }
    proof {
        assert(model.take(parts.len() as int) =~= model);
    }
    out
}

/// Relies on sqlparser's `ObjectName` shape: the identifier value of each
/// part, in order; a dialect-specific non-identifier part falls back to its
/// display form. Pure conversion, no joining.
#[verifier::external_body]
fn object_parts(name: &sqlparser::ast::ObjectName) -> Vec<String> {
    let mut parts: Vec<String> = Vec::new();
    for p in name.0.iter() {
        match p {
            sqlparser::ast::ObjectNamePart::Identifier(i) => parts.push(i.value.clone()),
            sqlparser::ast::ObjectNamePart::Function(f) => parts.push(f.to_string()),
        }
    }
    parts
}

/// Relies on sqlparser's `Parser::parse_sql` with the MySQL dialect and on
/// `ast::visit_relations`: returns the identifier parts of every table
/// reference of the parsed statements in visit order, or `None` exactly when
/// the text does not parse. The result depends on the text alone.
#[verifier::external_body]
fn sql_table_parts_of(sql: &str) -> (r: Option<Vec<Vec<String>>>)
    ensures
        r is Some <==> sql_ok(sql@),
        r is Some ==> parts_view(r.unwrap()@) == sql_table_parts(sql@),
{
    let ast = match sqlparser::parser::Parser::parse_sql(&sqlparser::dialect::MySqlDialect {}, sql) {
        Ok(a) => a,
        Err(_) => {
            return None;
        },
    };
    let mut out: Vec<Vec<String>> = Vec::new();
    let _ = sqlparser::ast::visit_relations(&ast, |name: &sqlparser::ast::ObjectName| {
        out.push(object_parts(name));
        core::ops::ControlFlow::<()>::Continue(())
    });
    Some(out)
}

/// Relies on sqlparser's `Parser::parse_sql` with the MySQL dialect, on
/// `ast::visit_expressions` and on the display form of `Expr`: returns the
/// canonical text of every expression node in visit order, or `None` exactly
/// when the text does not parse. The result depends on the text alone.
#[verifier::external_body]
fn sql_expr_texts(sql: &str) -> (r: Option<Vec<String>>)
    ensures
        r is Some <==> sql_ok(sql@),
        r is Some ==> str_views(r.unwrap()@) == sql_exprs(sql@),
{
    let ast = match sqlparser::parser::Parser::parse_sql(&sqlparser::dialect::MySqlDialect {}, sql) {
        Ok(a) => a,
        Err(_) => {
            return None;
        },
    };
    let mut out: Vec<String> = Vec::new();
    let _ = sqlparser::ast::visit_expressions(&ast, |e: &sqlparser::ast::Expr| {
        out.push(e.to_string());
        core::ops::ControlFlow::<()>::Continue(())
    });
    Some(out)
}

/// Relies on sqlparser's AST shape: whether the query's own projection holds
/// a bare `*`.
#[verifier::external_body]
fn query_wildcard(q: &sqlparser::ast::Query) -> bool {
    match q.body.as_ref() {
        sqlparser::ast::SetExpr::Select(sel) => sel.projection.iter().any(
            |item| matches!(item, sqlparser::ast::SelectItem::Wildcard(_)),
        ),
        _ => false,
    }
}

/// Relies on sqlparser's AST shape: whether the query carries a LIMIT.
#[verifier::external_body]
fn query_limit(q: &sqlparser::ast::Query) -> bool {
    matches!(
        &q.limit_clause,
        Some(sqlparser::ast::LimitClause::LimitOffset { limit: Some(_), .. })
            | Some(sqlparser::ast::LimitClause::OffsetCommaLimit { .. })
    )
}

/// Relies on sqlparser's `TableFactor` shape: the parts of each relation
/// this factor names directly in a FROM clause. A derived table names no
/// relation of its own; nested joins and the pivoting factors pass through
/// to the factor they wrap.
#[verifier::external_body]
fn from_factor_parts(f: &sqlparser::ast::TableFactor, out: &mut Vec<Vec<String>>) {
    match f {
        sqlparser::ast::TableFactor::Table { name, .. } => out.push(object_parts(name)),
        sqlparser::ast::TableFactor::NestedJoin { table_with_joins, .. } => {
            from_factor_parts(&table_with_joins.relation, out);
            for j in table_with_joins.joins.iter() {
                from_factor_parts(&j.relation, out);
            }
        },
        sqlparser::ast::TableFactor::Pivot { table, .. } => from_factor_parts(table, out),
        sqlparser::ast::TableFactor::Unpivot { table, .. } => from_factor_parts(table, out),
        sqlparser::ast::TableFactor::MatchRecognize { table, .. } => from_factor_parts(table, out),
        _ => {},
    }
}

/// Relies on sqlparser's AST shape: the relations named in the query's own
/// FROM clause (a query whose body is a set operation has none of its own).
#[verifier::external_body]
fn query_from_parts(q: &sqlparser::ast::Query) -> Vec<Vec<String>> {
    let mut out: Vec<Vec<String>> = Vec::new();
    if let sqlparser::ast::SetExpr::Select(sel) = q.body.as_ref() {
        for twj in sel.from.iter() {
            from_factor_parts(&twj.relation, &mut out);
            for j in twj.joins.iter() {
                from_factor_parts(&j.relation, &mut out);
            }
        }
    }
    out
}

/// Relies on sqlparser's AST shape: this query's own scope summary, then
/// recursively the scopes of its common table expressions and of the
/// sub-queries inside its body.
#[verifier::external_body]
fn query_scopes(q: &sqlparser::ast::Query, out: &mut Vec<ScopeParts>) {
    out.push(
        ScopeParts {
            tables: query_from_parts(q),
            has_wildcard: query_wildcard(q),
            has_limit: query_limit(q),
        },
    );
    if let Some(w) = &q.with {
        for cte in w.cte_tables.iter() {
            query_scopes(&cte.query, out);
        }
    }
    body_scopes(q.body.as_ref(), out);
}

/// Relies on sqlparser's `SetExpr` shape: the sub-queries nested in a query
/// body, through parenthesized queries, set-operation branches, and the
/// FROM factors of a select.
#[verifier::external_body]
fn body_scopes(body: &sqlparser::ast::SetExpr, out: &mut Vec<ScopeParts>) {
    match body {
        sqlparser::ast::SetExpr::Select(sel) => {
            for twj in sel.from.iter() {
                factor_scopes(&twj.relation, out);
                for j in twj.joins.iter() { factor_scopes(&j.relation, out); }
            }
        },
        sqlparser::ast::SetExpr::Query(q) => query_scopes(q, out),
        sqlparser::ast::SetExpr::SetOperation { left, right, .. } => {
            body_scopes(left, out);
            body_scopes(right, out);
        },
        _ => {},
    }
}

/// Relies on sqlparser's `TableFactor` shape: the sub-queries a FROM factor
/// holds — a derived table's query, and the factors wrapped by nested joins
/// and the pivoting factors.
#[verifier::external_body]
fn factor_scopes(f: &sqlparser::ast::TableFactor, out: &mut Vec<ScopeParts>) {
    match f {
        sqlparser::ast::TableFactor::Derived { subquery, .. } => query_scopes(subquery, out),
        sqlparser::ast::TableFactor::NestedJoin { table_with_joins, .. } => {
            factor_scopes(&table_with_joins.relation, out);
            for j in table_with_joins.joins.iter() {
                factor_scopes(&j.relation, out);
            }
        },
        sqlparser::ast::TableFactor::Pivot { table, .. } => factor_scopes(table, out),
        sqlparser::ast::TableFactor::Unpivot { table, .. } => factor_scopes(table, out),
        sqlparser::ast::TableFactor::MatchRecognize { table, .. } => factor_scopes(table, out),
        _ => {},
    }
}

/// Relies on sqlparser's AST shape: the scopes of each statement-level
/// query, recursively.
#[verifier::external_body]
fn top_scopes(ast: &Vec<sqlparser::ast::Statement>, out: &mut Vec<ScopeParts>) {
    for stmt in ast.iter() {
        if let sqlparser::ast::Statement::Query(q) = stmt {
            query_scopes(q, out);
        }
    }
}

/// Relies on sqlparser's `ast::visit_expressions`: the scopes of every
/// sub-query that occurs as an expression, anywhere in the statements,
/// recursively.
#[verifier::external_body]
fn expr_scopes(ast: &Vec<sqlparser::ast::Statement>, out: &mut Vec<ScopeParts>) {
    let _ = sqlparser::ast::visit_expressions(ast, |e: &sqlparser::ast::Expr| {
        match e {
            sqlparser::ast::Expr::Subquery(q) => query_scopes(q, out),
            sqlparser::ast::Expr::Exists { subquery, .. } => query_scopes(subquery, out),
            sqlparser::ast::Expr::InSubquery { subquery, .. } => query_scopes(subquery, out),
            _ => {},
        }
        core::ops::ControlFlow::<()>::Continue(())
    });
}

/// Relies on sqlparser's `Parser::parse_sql` with the MySQL dialect and the
/// traversals above: summarises every sub-query scope of the parsed
/// statements — statement-level queries, common table expressions, derived
/// tables, set-operation branches, and expression sub-queries, at any depth;
/// `None` exactly when the text does not parse. The result depends on the
/// text alone.
#[verifier::external_body]
fn sql_scope_parts_of(sql: &str) -> (r: Option<Vec<ScopeParts>>)
    ensures
        r is Some <==> sql_ok(sql@),
        r is Some ==> raw_views(r.unwrap()@) == sql_scope_parts(sql@),
{
    let ast = match sqlparser::parser::Parser::parse_sql(&sqlparser::dialect::MySqlDialect {}, sql) {
        Ok(a) => a,
        Err(_) => {
            return None;
        },
    };
    let mut out: Vec<ScopeParts> = Vec::new();
    top_scopes(&ast, &mut out);
    expr_scopes(&ast, &mut out);
    Some(out)
}

/// Whether some element of `v` reads as `x`.
pub fn holds_str(v: &Vec<String>, x: &str) -> (r: bool)
    ensures
        r == str_views(v@).contains(x@),
{
    let needle: String = x.to_owned();
    let mut i: usize = 0;
    while i < v.len()
        invariant
            0 <= i <= v.len(),
            needle@ == x@,
            forall|k: int| 0 <= k < i ==> str_views(v@)[k] != x@,
        decreases v.len() - i,
    {
        if v[i] == needle {
            proof {
                assert(str_views(v@)[i as int] == x@);
            }
            return true;
        }
        i = i + 1;
    }
    false
}

/// First-occurrence deduplication.
pub open spec fn dedup_first(s: Seq<Seq<char>>) -> Seq<Seq<char>>
    decreases s.len(),
{
    if s.len() == 0 {
        Seq::empty()
    } else {
        let prior = dedup_first(s.drop_last());
        if prior.contains(s.last()) {
            prior
        } else {
            prior.push(s.last())
        }
    }
}

/// Deduplication yields a set: no element occurs twice.
pub proof fn lemma_dedup_first_no_dups(s: Seq<Seq<char>>)
    ensures
        forall|i: int, j: int|
            0 <= i < j < dedup_first(s).len() ==> dedup_first(s)[i] != dedup_first(s)[j],
    decreases s.len(),
{
    if s.len() > 0 {
        lemma_dedup_first_no_dups(s.drop_last());
        let prior = dedup_first(s.drop_last());
        if !prior.contains(s.last()) {
            assert forall|i: int, j: int|
                0 <= i < j < dedup_first(s).len() implies dedup_first(s)[i] != dedup_first(
                s,
            )[j] by {
                if j == dedup_first(s).len() - 1 {
                    assert(prior[i] == dedup_first(s)[i]);
                    assert(!prior.contains(s.last()));
                }
            }
        }
    }
}

/// Deduplication keeps exactly the original contents.
pub proof fn lemma_dedup_first_contents(s: Seq<Seq<char>>, x: Seq<char>)
    ensures
        dedup_first(s).contains(x) == s.contains(x),
    decreases s.len(),
{
    if s.len() > 0 {
        lemma_dedup_first_contents(s.drop_last(), x);
        let prior = dedup_first(s.drop_last());
        assert(s.contains(x) == (s.drop_last().contains(x) || s.last() == x)) by {
            if s.contains(x) {
                let i = choose|i: int| 0 <= i < s.len() && s[i] == x;
                if i < s.len() - 1 {
                    assert(s.drop_last()[i] == x);
                }
            }
            if s.drop_last().contains(x) {
                let i = choose|i: int| 0 <= i < s.drop_last().len() && s.drop_last()[i] == x;
                assert(s[i] == x);
            }
            if s.last() == x {
                assert(s[s.len() - 1] == x);
            }
        }
        if !prior.contains(s.last()) {
            if prior.push(s.last()).contains(x) {
                let i = choose|i: int| 0 <= i < prior.len() + 1 && prior.push(s.last())[i] == x;
                if i < prior.len() {
                    assert(prior[i] == x);
                }
            }
            if prior.contains(x) {
                let i = choose|i: int| 0 <= i < prior.len() && prior[i] == x;
                assert(prior.push(s.last())[i] == x);
            }
            if s.last() == x {
                assert(prior.push(s.last()).last() == x);
            }
        }
    }
}

/// The dotted name of every table reference, joined in verified code from
/// the parts the parser hands out.
fn table_names_list(query: &str) -> (r: Result<Vec<String>, EvalError>)
    ensures
        r is Ok <==> sql_ok(query@),
        r is Err ==> r.unwrap_err() == EvalError::SqlParse,
        r is Ok ==> str_views(r.unwrap()@) == sql_tables(query@),
{
    match sql_table_parts_of(query) {
        Some(parts) => Ok(join_all(&parts)),
        None => Err(EvalError::SqlParse),
    }
}

/// The distinct dotted table names referenced by the SQL text, first
/// occurrences first. The result is a function of the text alone, so two
/// calls on the same text agree; an `Err` comes exactly when the text does
/// not parse.
pub fn extract_tables_from_query(query: &str) -> (r: Result<Vec<String>, EvalError>)
    ensures
        r is Ok <==> sql_ok(query@),
        r is Err ==> r.unwrap_err() == EvalError::SqlParse,
        r is Ok ==> str_views(r.unwrap()@) == dedup_first(sql_tables(query@)),
        r is Ok ==> forall|i: int, j: int|
            0 <= i < j < r.unwrap()@.len() ==> r.unwrap()@[i]@ != r.unwrap()@[j]@,
{
    let all = match table_names_list(query) {
        Ok(v) => v,
        Err(e) => {
            return Err(e);
        },
    };
    let mut out: Vec<String> = Vec::new();
    let mut i: usize = 0;
    proof {
        assert(str_views(all@).take(0) =~= Seq::<Seq<char>>::empty());
        assert(str_views(out@) =~= Seq::<Seq<char>>::empty());
    }
    while i < all.len()
        invariant
            0 <= i <= all.len(),
            str_views(out@) == dedup_first(str_views(all@).take(i as int)),
        decreases all.len() - i,
    {
        let ghost pre = str_views(all@).take(i as int);
        let present = holds_str(&out, all[i].as_str());
        if !present {
            out.push(all[i].clone());
        }
        proof {
            assert(str_views(all@).take(i + 1).drop_last() =~= pre);
            assert(str_views(all@).take(i + 1).last() == all@[i as int]@);
            if !present {
                assert(str_views(out@) =~= dedup_first(pre).push(all@[i as int]@));
            }
        }
        i = i + 1;
    }
    proof {
        assert(str_views(all@).take(all.len() as int) =~= str_views(all@));
        lemma_dedup_first_no_dups(str_views(all@));
        assert forall|a: int, b: int| 0 <= a < b < out@.len() implies out@[a]@ != out@[b]@ by {
            assert(str_views(out@)[a] == out@[a]@);
            assert(str_views(out@)[b] == out@[b]@);
        }
    }
    Ok(out)
}

/// Whether the text parses and references the table, through the joined
/// table list.
pub fn references_table(query: &str, table: &str) -> (r: Result<bool, EvalError>)
    ensures
        r is Ok <==> sql_ok(query@),
        r is Err ==> r.unwrap_err() == EvalError::SqlParse,
        r is Ok ==> r.unwrap() == sql_tables(query@).contains(table@),
{
    let tables = match table_names_list(query) {
        Ok(v) => v,
        Err(e) => {
            return Err(e);
        },
    };
    Ok(holds_str(&tables, table))
}

/// The canonical texts of every expression node, or `Err` when the text does
/// not parse.
pub fn expression_texts(query: &str) -> (r: Result<Vec<String>, EvalError>)
    ensures
        r is Ok <==> sql_ok(query@),
        r is Err ==> r.unwrap_err() == EvalError::SqlParse,
        r is Ok ==> str_views(r.unwrap()@) == sql_exprs(query@),
{
    match sql_expr_texts(query) {
        Some(v) => Ok(v),
        None => Err(EvalError::SqlParse),
    }
}

/// The sub-query scope summaries with dotted names, joined in verified
/// code, or `Err` when the text does not parse.
pub fn scope_shapes(query: &str) -> (r: Result<Vec<ScopeShape>, EvalError>)
    ensures
        r is Ok <==> sql_ok(query@),
        r is Err ==> r.unwrap_err() == EvalError::SqlParse,
        r is Ok ==> shape_views(r.unwrap()@) == sql_scopes(query@),
{
    let raw = match sql_scope_parts_of(query) {
        Some(v) => v,
        None => {
            return Err(EvalError::SqlParse);
        },
    };
    let ghost model = sql_scopes(query@);
    let mut out: Vec<ScopeShape> = Vec::new();
    let mut i: usize = 0;
    proof {
        assert(model.len() == raw@.len());
        assert(shape_views(out@) =~= Seq::<(Seq<Seq<char>>, bool, bool)>::empty());
        assert(model.take(0) =~= Seq::<(Seq<Seq<char>>, bool, bool)>::empty());
    }
    while i < raw.len()
        invariant
            0 <= i <= raw.len(),
            model == sql_scopes(query@),
            model.len() == raw@.len(),
            raw_views(raw@) == sql_scope_parts(query@),
            shape_views(out@) == model.take(i as int),
        decreases raw.len() - i,
    {
        let ghost pre = model.take(i as int);
        let tables = join_all(&raw[i].tables);
        let shape = ScopeShape {
            tables,
            has_wildcard: raw[i].has_wildcard,
            has_limit: raw[i].has_limit,
        };
        let ghost sv = scope_view(shape);
        out.push(shape);
        proof {
            assert(sql_scope_parts(query@)[i as int] == scope_parts_view(raw@[i as int]));
            assert(model[i as int] == (
                joined(sql_scope_parts(query@)[i as int].0),
                sql_scope_parts(query@)[i as int].1,
                sql_scope_parts(query@)[i as int].2,
            ));
            assert(sv == model[i as int]);
            assert(model.take(i + 1).drop_last() =~= pre);
            assert(model.take(i + 1).last() == model[i as int]);
            assert(shape_views(out@) =~= pre.push(sv));
        }
        i = i + 1;
    }
    proof {
        assert(model.take(raw.len() as int) =~= model);
    }
    Ok(out)
}

} // verus!
