use logquery::aggregate::multi_aggregate_operator;
use logquery::ast::{
    AggregateFunction, Expr, InlineOperator, MultiAggregateOperator, Operator, Query, SortMode,
    SortOperator, UnaryOp,
};
use logquery::errors::{ParseError, SyntaxError, SyntaxErrors};
use logquery::keyword::Keyword;
use logquery::position::{Positioned, QueryPosition};
use logquery::query::{filter, filter_cond, operator, parse_query, query};
use logquery::source::Source;

fn error(kind: SyntaxErrors, start: usize, end: usize) -> SyntaxError {
    SyntaxError { kind, start: QueryPosition(start), end: QueryPosition(end) }
}

fn mismatch(at: usize) -> SyntaxError {
    error(SyntaxErrors::StartOfError, at, at)
}

#[test]
fn unknown_operator_is_reported() {
    assert_eq!(parse_query("| jsonn"), Err(error(SyntaxErrors::NotAnOperator, 2, 7)));
    assert_eq!(parse_query("* | jsonn from x"), Err(error(SyntaxErrors::NotAnOperator, 4, 9)));
    assert_eq!(parse_query("* | json | foo"), Err(error(SyntaxErrors::NotAnOperator, 11, 14)));
    assert_eq!(parse_query("* | "), Err(error(SyntaxErrors::NotAnOperator, 4, 4)));
    let src = Source::new(" jsonn");
    assert_eq!(
        operator(&src, 0),
        Err(ParseError::Failure {
            kind: SyntaxErrors::NotAnOperator,
            start: QueryPosition(1),
            end: QueryPosition(6)
        })
    );
}

#[test]
fn unknown_aggregate_is_reported() {
    assert_eq!(
        parse_query("* | count, foo"),
        Err(error(SyntaxErrors::NotAnAggregateOperator, 11, 14))
    );
    assert_eq!(
        parse_query("* | count, p100(x)"),
        Err(error(SyntaxErrors::NotAnAggregateOperator, 11, 15))
    );
}

#[test]
fn each_kind_of_error() {
    assert_eq!(
        parse_query("\"hello"),
        Err(error(SyntaxErrors::UnterminatedDoubleQuotedString, 0, 6))
    );
    assert_eq!(
        parse_query("abc 'hello"),
        Err(error(SyntaxErrors::UnterminatedSingleQuotedString, 4, 10))
    );
    assert_eq!(
        parse_query("* | where (a == b"),
        Err(error(SyntaxErrors::MissingParen, 10, 17))
    );
    assert_eq!(
        parse_query("* | count_distinct(a, b | sort"),
        Err(error(SyntaxErrors::MissingParen, 18, 24))
    );
    assert_eq!(parse_query("* | jsn"), Err(error(SyntaxErrors::NotAnOperator, 4, 7)));
    assert_eq!(
        parse_query("* | count as n, total(x)"),
        Err(error(SyntaxErrors::NotAnAggregateOperator, 16, 21))
    );
    assert_eq!(parse_query("abc )"), Err(mismatch(4)));
    assert_eq!(parse_query("* | json )"), Err(mismatch(9)));
    assert_eq!(parse_query("* | limit 5 6"), Err(mismatch(12)));
}

#[test]
fn error_positions_are_byte_offsets() {
    assert_eq!(
        parse_query("\"\u{e9}\" | j\u{e9}"),
        Err(error(SyntaxErrors::NotAnOperator, 7, 8))
    );
    assert_eq!(
        parse_query("'\u{1f600}"),
        Err(error(SyntaxErrors::UnterminatedSingleQuotedString, 0, 5))
    );
}

#[test]
fn spans_are_byte_offsets() {
    let q = parse_query("\"\u{e9}\" | json").unwrap();
    assert_eq!(q.search, vec![Keyword::new_exact("\u{e9}".to_string())]);
    assert_eq!(
        q.operators,
        vec![Operator::Inline(Positioned {
            start_pos: QueryPosition(7),
            end_pos: QueryPosition(11),
            value: InlineOperator::Json { input_column: None }
        })]
    );
}

#[test]
fn empty_queries() {
    let nothing = Query { search: vec![], operators: vec![] };
    assert_eq!(parse_query(""), Ok(nothing.clone()));
    assert_eq!(parse_query("   \t\n"), Ok(nothing.clone()));
    assert_eq!(parse_query("*"), Ok(nothing.clone()));
    assert_eq!(parse_query(" ** * "), Ok(nothing.clone()));
    assert_eq!(parse_query("\"\""), Ok(nothing));
}

#[test]
fn a_query_without_search_terms() {
    let q = parse_query("| json").unwrap();
    assert!(q.search.is_empty());
    assert_eq!(q.operators.len(), 1);
    let q = parse_query(" |limit 3| sort").unwrap();
    assert_eq!(q.operators.len(), 2);
}

#[test]
fn search_terms() {
    let src = Source::new("*a*b* 'x y'");
    assert_eq!(filter_cond(&src, 0), Ok((Keyword::new_wildcard("a*b".to_string()), 5)));
    assert_eq!(filter_cond(&src, 6), Ok((Keyword::new_exact("x y".to_string()), 11)));
    assert_eq!(
        filter(&src, 0),
        Ok((
            vec![
                Keyword::new_wildcard("a*b".to_string()),
                Keyword::new_exact("x y".to_string())
            ],
            11
        ))
    );
    let src = Source::new("a  \n b | c");
    assert_eq!(filter(&src, 0).map(|r| (r.0.len(), r.1)), Ok((2, 6)));
    let src = Source::new("\"test = [*=*] * \"");
    assert_eq!(
        filter(&src, 0),
        Ok((vec![Keyword::new_exact("test = [*=*] * ".to_string())], src.len()))
    );
    let src = Source::new("* '' a");
    assert_eq!(filter(&src, 0), Ok((vec![Keyword::new_wildcard("a".to_string())], 6)));
    let src = Source::new("|");
    assert_eq!(filter(&src, 0), Err(ParseError::Error { at: QueryPosition(0) }));
    assert_eq!(
        parse_query("error: 404 user@host /var/log"),
        Ok(Query {
            search: vec![
                Keyword::new_wildcard("error:".to_string()),
                Keyword::new_wildcard("404".to_string()),
                Keyword::new_wildcard("user@host".to_string()),
                Keyword::new_wildcard("/var/log".to_string()),
            ],
            operators: vec![]
        })
    );
}

#[test]
fn headers_are_the_text_as_written() {
    let text = "* | count, sum(x) as s by  a ,b   !=  'c d'  , ( !e )";
    let q = parse_query(text).unwrap();
    match &q.operators[0] {
        Operator::MultiAggregate(m) => {
            assert_eq!(m.key_col_headers, vec!["a", "b   !=  'c d'", "( !e )"]);
            assert_eq!(m.key_cols.len(), 3);
            assert_eq!(m.key_cols[0], Expr::Column("a".to_string()));
            assert_eq!(
                m.key_cols[2],
                Expr::Unary {
                    op: UnaryOp::Not,
                    operand: Box::new(Expr::Column("e".to_string()))
                }
            );
            for (header, key) in m.key_col_headers.iter().zip(m.key_cols.iter()) {
                let start = text.find(header.as_str()).unwrap();
                assert_eq!(text[start..start + header.len()].trim(), header);
                let alone = Source::new(header);
                assert_eq!(
                    logquery::expr::expr(&alone, 0),
                    Ok((key.clone(), alone.len()))
                );
            }
            assert_eq!(m.aggregate_functions.len(), 2);
            assert_eq!(m.aggregate_functions[0].0, "_count");
            assert_eq!(m.aggregate_functions[1].0, "s");
        }
        _ => panic!("not an aggregate"),
    }
}

#[test]
fn an_aggregate_without_keys() {
    let src = Source::new("avg(x), count_distinct");
    assert_eq!(
        multi_aggregate_operator(&src, 0).map(|r| r.1),
        Ok(src.len())
    );
    let src = Source::new("count by");
    assert_eq!(
        multi_aggregate_operator(&src, 0),
        Ok((
            Operator::MultiAggregate(MultiAggregateOperator {
                key_cols: vec![],
                key_col_headers: vec![],
                aggregate_functions: vec![(
                    "_count".to_string(),
                    Positioned {
                        start_pos: QueryPosition(0),
                        end_pos: QueryPosition(5),
                        value: AggregateFunction::Count
                    }
                )]
            }),
            6
        ))
    );
}

#[test]
fn a_line_break_before_an_operator() {
    let json = |start: usize, end: usize| {
        Operator::Inline(Positioned {
            start_pos: QueryPosition(start),
            end_pos: QueryPosition(end),
            value: InlineOperator::Json { input_column: None },
        })
    };
    assert_eq!(parse_query("* |\n json").unwrap().operators, vec![json(5, 9)]);
    assert_eq!(
        parse_query("* | json |\n json\n|\r\n\tjson").unwrap().operators,
        vec![json(4, 9), json(12, 17), json(21, 25)]
    );
    assert_eq!(
        parse_query("* | json |\n jsonn"),
        Err(error(SyntaxErrors::NotAnOperator, 12, 17))
    );
}

#[test]
fn a_backslash_at_the_end_of_a_quoted_term() {
    assert_eq!(
        parse_query("abc \"def\\"),
        Err(error(SyntaxErrors::UnterminatedDoubleQuotedString, 4, 9))
    );
    assert_eq!(
        parse_query("* | where a == 'b\\"),
        Err(error(SyntaxErrors::UnterminatedSingleQuotedString, 15, 18))
    );
}

#[test]
fn the_whole_text_is_taken() {
    for text in [
        "* | json from col | parse \"!123*\" as foo | count by foo, foo == 123 | sort by foo dsc ",
        "error | where status >= 500 | fields - a, b | limit 10",
        "a b c | total(x) as t | sort by t descending",
        "| p99(latency) as worst, avg(latency) by host",
    ] {
        let src = Source::new(text);
        let (q, next) = query(&src, 0).unwrap();
        assert_eq!(next, src.len());
        assert_eq!(parse_query(text), Ok(q));
    }
    assert_eq!(
        parse_query("a | sort by t descending").unwrap().operators,
        vec![Operator::Sort(SortOperator {
            sort_cols: vec!["t".to_string()],
            direction: SortMode::Descending
        })]
    );
}
