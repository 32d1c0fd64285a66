use sqlparser::dialect::MySqlDialect;
use sqlparser::parser::Parser;

#[test]
fn filter_parse_emit_parse_is_fixed_point() {
    let filters = [
        "tenant_id = 42",
        "a + b * c = d",
        "name LIKE 'x%' AND id > 10",
        "NOT (a = 1 OR b = 2)",
    ];
    for text in filters {
        let e1 = Parser::new(&MySqlDialect {})
            .try_with_sql(text)
            .unwrap()
            .parse_expr()
            .unwrap();
        let emitted = e1.to_string();
        let e2 = Parser::new(&MySqlDialect {})
            .try_with_sql(&emitted)
            .unwrap()
            .parse_expr()
            .unwrap();
        assert_eq!(e1, e2);
        assert_eq!(emitted, e2.to_string());
    }
}

#[test]
fn statement_parse_emit_parse_is_fixed_point() {
    let q = "SELECT a, b FROM db.x WHERE tenant_id = 42 LIMIT 10";
    let s1 = Parser::parse_sql(&MySqlDialect {}, q).unwrap();
    let emitted = s1[0].to_string();
    let s2 = Parser::parse_sql(&MySqlDialect {}, &emitted).unwrap();
    assert_eq!(s1, s2);
    assert_eq!(emitted, s2[0].to_string());
}
