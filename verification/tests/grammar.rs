use logquery::aggregate::{complete_agg_function, multi_aggregate_operator};
use logquery::ast::{
    AggregateFunction, BinaryOp, ComparisonOp, Expr, InlineOperator, MultiAggregateOperator,
    NumberLiteral, Operator, Query, SortMode, SortOperator, Value,
};
use logquery::expr::{expr, var_list};
use logquery::inline::parse;
use logquery::keyword::Keyword;
use logquery::lexical::{ident, keyword, quoted_string};
use logquery::position::{Positioned, QueryPosition};
use logquery::query::{operator, query};
use logquery::source::Source;

fn number(count: &Option<Positioned<NumberLiteral>>) -> Option<f64> {
    count.as_ref().map(|c| c.value.text.parse::<f64>().unwrap())
}

fn limit_of(op: Operator) -> (Positioned<InlineOperator>, Option<Positioned<NumberLiteral>>) {
    match op {
        Operator::Inline(p) => {
            let count = match &p.value {
                InlineOperator::Limit { count } => count.clone(),
                _ => panic!("not a limit"),
            };
            (p, count)
        }
        _ => panic!("not an inline operator"),
    }
}

#[test]
fn parse_keyword_string() {
    let src = Source::new("abc");
    assert_eq!(keyword(&src, 0), Ok(("abc".to_string(), src.len())));
    let src = Source::new("one-two-three");
    assert_eq!(keyword(&src, 0), Ok(("one-two-three".to_string(), src.len())));
}

#[test]
fn parse_quoted_string() {
    let src = Source::new("\"hello\"");
    assert_eq!(quoted_string(&src, 0), Ok(("hello".to_string(), src.len())));
    let src = Source::new("'hello'");
    assert_eq!(quoted_string(&src, 0), Ok(("hello".to_string(), src.len())));
    let src = Source::new(r#""test = [*=*] * ""#);
    assert_eq!(quoted_string(&src, 0), Ok(("test = [*=*] * ".to_string(), src.len())));
    let src = Source::new("\"hello'");
    assert!(quoted_string(&src, 0).is_err());
}

#[test]
fn parse_expr() {
    let src = Source::new("a == b");
    assert_eq!(
        expr(&src, 0),
        Ok((
            Expr::Binary {
                op: BinaryOp::Comparison(ComparisonOp::Eq),
                left: Box::new(Expr::Column("a".to_string())),
                right: Box::new(Expr::Column("b".to_string())),
            },
            src.len()
        ))
    );
}

#[test]
fn parse_expr_value() {
    let src = Source::new("a <= \"b\"");
    assert_eq!(
        expr(&src, 0),
        Ok((
            Expr::Binary {
                op: BinaryOp::Comparison(ComparisonOp::Lte),
                left: Box::new(Expr::Column("a".to_string())),
                right: Box::new(Expr::Value(Value::Str("b".to_string()))),
            },
            src.len()
        ))
    );
}

#[test]
fn parse_expr_ident() {
    let src = Source::new("foo");
    assert_eq!(expr(&src, 0), Ok((Expr::Column("foo".to_string()), src.len())));
}

#[test]
fn parse_ident() {
    let src = Source::new("hello123");
    assert_eq!(ident(&src, 0), Ok(("hello123".to_string(), src.len())));
    let src = Source::new("x");
    assert_eq!(ident(&src, 0), Ok(("x".to_string(), src.len())));
    let src = Source::new("_x");
    assert_eq!(ident(&src, 0), Ok(("_x".to_string(), src.len())));
    let src = Source::new("5x");
    assert!(ident(&src, 0).is_err());
}

#[test]
fn parse_var_list() {
    let src = Source::new("a, b, def, g_55");
    assert_eq!(
        var_list(&src, 0),
        Ok((
            vec!["a".to_string(), "b".to_string(), "def".to_string(), "g_55".to_string()],
            src.len()
        ))
    );
}

#[test]
fn parse_parses() {
    let src = Source::new(r#"parse "[key=*]" as v"#);
    assert_eq!(
        parse(&src, 0),
        Ok((
            Positioned {
                start_pos: QueryPosition(0),
                end_pos: QueryPosition(20),
                value: InlineOperator::Parse {
                    pattern: Keyword::new_wildcard("[key=*]".to_string()),
                    fields: vec!["v".to_string()],
                    input_column: None,
                    no_drop: false
                }
            },
            src.len()
        ))
    );
    let src = Source::new(r#"parse "[key=*]" as v nodrop"#);
    assert_eq!(
        parse(&src, 0),
        Ok((
            Positioned {
                start_pos: QueryPosition(0),
                end_pos: QueryPosition(27),
                value: InlineOperator::Parse {
                    pattern: Keyword::new_wildcard("[key=*]".to_string()),
                    fields: vec!["v".to_string()],
                    input_column: None,
                    no_drop: true
                }
            },
            src.len()
        ))
    );
    let src = Source::new(r#"parse "[key=*][val=*]" as k,v nodrop"#);
    assert_eq!(
        parse(&src, 0),
        Ok((
            Positioned {
                start_pos: QueryPosition(0),
                end_pos: QueryPosition(36),
                value: InlineOperator::Parse {
                    pattern: Keyword::new_wildcard("[key=*][val=*]".to_string()),
                    fields: vec!["k".to_string(), "v".to_string()],
                    input_column: None,
                    no_drop: true
                }
            },
            src.len()
        ))
    );
}

#[test]
fn parse_operator() {
    let src = Source::new("  json");
    assert_eq!(
        operator(&src, 0),
        Ok((
            Operator::Inline(Positioned {
                start_pos: QueryPosition(2),
                end_pos: QueryPosition(6),
                value: InlineOperator::Json { input_column: None }
            }),
            src.len()
        ))
    );
    let src = Source::new(r#" parse "[key=*]" from field as v "#);
    assert_eq!(
        operator(&src, 0),
        Ok((
            Operator::Inline(Positioned {
                start_pos: QueryPosition(1),
                end_pos: QueryPosition(33),
                value: InlineOperator::Parse {
                    pattern: Keyword::new_wildcard("[key=*]".to_string()),
                    fields: vec!["v".to_string()],
                    input_column: Some(Expr::Column("field".to_string())),
                    no_drop: false
                },
            }),
            src.len()
        ))
    );
}

#[test]
fn parse_limit() {
    let src = Source::new(" limit");
    assert_eq!(
        operator(&src, 0),
        Ok((
            Operator::Inline(Positioned {
                start_pos: QueryPosition(1),
                end_pos: QueryPosition(6),
                value: InlineOperator::Limit { count: None }
            }),
            src.len()
        ))
    );

    let src = Source::new(" limit 5");
    let (op, rest) = operator(&src, 0).unwrap();
    assert_eq!(rest, src.len());
    let (p, count) = limit_of(op);
    assert_eq!((p.start_pos, p.end_pos), (QueryPosition(1), QueryPosition(8)));
    assert_eq!(number(&count), Some(5.0));
    let count = count.unwrap();
    assert_eq!((count.start_pos, count.end_pos), (QueryPosition(7), QueryPosition(8)));

    let src = Source::new(" limit -5");
    let (op, rest) = operator(&src, 0).unwrap();
    assert_eq!(rest, src.len());
    let (p, count) = limit_of(op);
    assert_eq!((p.start_pos, p.end_pos), (QueryPosition(1), QueryPosition(9)));
    assert_eq!(number(&count), Some(-5.0));
    let count = count.unwrap();
    assert_eq!((count.start_pos, count.end_pos), (QueryPosition(7), QueryPosition(9)));

    let src = Source::new(" limit 1e2");
    let (op, rest) = operator(&src, 0).unwrap();
    assert_eq!(rest, src.len());
    let (p, count) = limit_of(op);
    assert_eq!((p.start_pos, p.end_pos), (QueryPosition(1), QueryPosition(10)));
    assert_eq!(number(&count), Some(1e2));
    let count = count.unwrap();
    assert_eq!((count.start_pos, count.end_pos), (QueryPosition(7), QueryPosition(10)));
}

#[test]
fn parse_agg_operator() {
    let src = Source::new("count as renamed by x, y");
    assert_eq!(
        multi_aggregate_operator(&src, 0),
        Ok((
            Operator::MultiAggregate(MultiAggregateOperator {
                key_cols: vec![Expr::Column("x".to_string()), Expr::Column("y".to_string())],
                key_col_headers: vec!["x".to_string(), "y".to_string()],
                aggregate_functions: vec![(
                    "renamed".to_string(),
                    Positioned {
                        value: AggregateFunction::Count,
                        start_pos: QueryPosition(0),
                        end_pos: QueryPosition(5)
                    }
                )],
            }),
            src.len()
        ))
    );
}

#[test]
fn parse_percentile() {
    let src = Source::new("p50(x)");
    let (named, rest) = complete_agg_function(&src, 0).unwrap();
    assert_eq!(rest, src.len());
    assert_eq!(
        named,
        (
            "p50".to_string(),
            Positioned {
                value: AggregateFunction::Percentile {
                    column: Expr::Column("x".to_string()),
                    percentile: 50,
                    percentile_str: "50".to_string(),
                },
                start_pos: QueryPosition(0),
                end_pos: QueryPosition(6),
            }
        )
    );
    match named.1.value {
        AggregateFunction::Percentile { percentile, .. } => {
            assert_eq!(f64::from(percentile) / 100.0, 0.5)
        }
        _ => unreachable!(),
    }
}

#[test]
fn query_no_operators() {
    let src = Source::new(" * ");
    assert_eq!(query(&src, 0), Ok((Query { search: vec![], operators: vec![] }, src.len())));
    let src = Source::new(" filter ");
    assert_eq!(
        query(&src, 0),
        Ok((
            Query {
                search: vec![Keyword::new_wildcard("filter".to_string())],
                operators: vec![],
            },
            src.len()
        ))
    );
    let src = Source::new(" *abc* ");
    assert_eq!(
        query(&src, 0),
        Ok((
            Query { search: vec![Keyword::new_wildcard("abc".to_string())], operators: vec![] },
            src.len()
        ))
    );
    let src = Source::new(" abc def \"*ghi*\" ");
    assert_eq!(
        query(&src, 0),
        Ok((
            Query {
                search: vec![
                    Keyword::new_wildcard("abc".to_string()),
                    Keyword::new_wildcard("def".to_string()),
                    Keyword::new_exact("*ghi*".to_string()),
                ],
                operators: vec![],
            },
            src.len()
        ))
    );
}

#[test]
fn query_operators() {
    let query_str =
        r#"* | json from col | parse "!123*" as foo | count by foo, foo == 123 | sort by foo dsc "#;
    let src = Source::new(query_str);
    assert_eq!(
        query(&src, 0),
        Ok((
            Query {
                search: vec![],
                operators: vec![
                    Operator::Inline(Positioned {
                        start_pos: QueryPosition(4),
                        end_pos: QueryPosition(18),
                        value: InlineOperator::Json { input_column: Some("col".to_string()) }
                    }),
                    Operator::Inline(Positioned {
                        start_pos: QueryPosition(20),
                        end_pos: QueryPosition(41),
                        value: InlineOperator::Parse {
                            pattern: Keyword::new_wildcard("!123*".to_string()),
                            fields: vec!["foo".to_string()],
                            input_column: None,
                            no_drop: false
                        }
                    }),
                    Operator::MultiAggregate(MultiAggregateOperator {
                        key_col_headers: vec!["foo".to_string(), "foo == 123".to_string()],
                        key_cols: vec![
                            Expr::Column("foo".to_string()),
                            Expr::Binary {
                                op: BinaryOp::Comparison(ComparisonOp::Eq),
                                left: Box::new(Expr::Column("foo".to_string())),
                                right: Box::new(Expr::Value(Value::Int(123))),
                            },
                        ],
                        aggregate_functions: vec![(
                            "_count".to_string(),
                            Positioned {
                                value: AggregateFunction::Count {},
                                start_pos: QueryPosition(43),
                                end_pos: QueryPosition(48),
                            }
                        ),],
                    }),
                    Operator::Sort(SortOperator {
                        sort_cols: vec!["foo".to_string()],
                        direction: SortMode::Descending,
                    }),
                ],
            },
            src.len()
        ))
    );
}
