use logquery::aggregate::{
    aggregate_function, arg_list, average, complete_agg_function, count, count_distinct,
    default_output, p_nn, sum,
};
use logquery::ast::{
    AggregateFunction, BinaryOp, ComparisonOp, Expr, FieldMode, InlineOperator, NumberLiteral,
    Operator, SortMode, SortOperator, UnaryOp, Value,
};
use logquery::chars::{
    is_digit_char, is_ident, is_keyword, is_whitespace, not_escape_dq, not_escape_sq, starts_ident,
    CharClass,
};
use logquery::errors::{ParseError, SyntaxErrors};
use logquery::expr::{comp_op, e_ident, expr, sourced_expr, sourced_expr_list, unary_op, value};
use logquery::inline::{fields, fields_mode, inline_operator, json, limit, total, whre};
use logquery::lexical::{
    double_quoted_string, ident, keyword, number_literal, quoted_string, single_quoted_string,
    skip, tag, trimmed,
};
use logquery::position::{Positioned, QueryPosition};
use logquery::recovery::{
    alternative, did_you_mean, did_you_mean_aggregate, did_you_mean_operator, pct_fn,
    VALID_AGGREGATES, VALID_INLINE, VALID_OPERATORS,
};
use logquery::sort::{sort, sort_mode};
use logquery::source::Source;

fn col(name: &str) -> Expr {
    Expr::Column(name.to_string())
}

fn miss<T>(at: usize) -> Result<T, ParseError> {
    Err(ParseError::Error { at: QueryPosition(at) })
}

fn failure<T>(kind: SyntaxErrors, start: usize, end: usize) -> Result<T, ParseError> {
    Err(ParseError::Failure { kind, start: QueryPosition(start), end: QueryPosition(end) })
}

#[test]
fn character_classes() {
    assert!(is_ident('a') && is_ident('Z') && is_ident('5') && is_ident('_'));
    assert!(!is_ident('-') && !is_ident(' ') && !is_ident('('));
    assert!(starts_ident('a') && starts_ident('_') && !starts_ident('5'));
    for c in "-_:/.+@#$%^*aZ09".chars() {
        assert!(is_keyword(c));
    }
    for c in " |\"'()!=<>,".chars() {
        assert!(!is_keyword(c));
    }
    assert!(not_escape_sq('"') && !not_escape_sq('\'') && !not_escape_sq('\\'));
    assert!(not_escape_dq('\'') && !not_escape_dq('"') && !not_escape_dq('\\'));
    assert!(is_digit_char('0') && is_digit_char('9') && !is_digit_char('a'));
    assert!(!is_digit_char('\u{0130}'));
}

#[test]
fn letters_and_digits_are_the_ascii_ones() {
    // These share their low byte with 'A', '0' and '_'.
    for c in ['\u{0141}', '\u{2041}', '\u{2030}', '\u{0130}', '\u{205f}', '\u{00e9}'] {
        assert!(!is_ident(c), "{:?}", c);
        assert!(!starts_ident(c), "{:?}", c);
        assert!(!is_keyword(c), "{:?}", c);
        assert!(!is_digit_char(c), "{:?}", c);
    }
    for u in 0u32..0x3100 {
        if let Some(c) = char::from_u32(u) {
            let letter = c.is_ascii_alphabetic();
            let digit = c.is_ascii_digit();
            assert_eq!(is_ident(c), letter || digit || c == '_', "{:x}", u);
            assert_eq!(starts_ident(c), letter || c == '_', "{:x}", u);
            assert_eq!(is_keyword(c), letter || digit || "-_:/.+@#$%^*".contains(c), "{:x}", u);
            assert_eq!(is_digit_char(c), digit, "{:x}", u);
        }
    }
    let src = Source::new("a\u{0141}b");
    assert_eq!(ident(&src, 0), Ok(("a".to_string(), 1)));
    let src = Source::new("\u{2041}x");
    assert_eq!(ident(&src, 0), miss(0));
    let src = Source::new("9\u{2030}");
    assert_eq!(keyword(&src, 0), Ok(("9".to_string(), 1)));
}

#[test]
fn white_space_is_what_std_says() {
    for u in 0u32..0x3100 {
        if let Some(c) = char::from_u32(u) {
            assert_eq!(is_whitespace(c), c.is_whitespace(), "{:x}", u);
        }
    }
    assert!(CharClass::Whitespace.contains('\u{3000}'));
}

#[test]
fn source_positions_are_byte_offsets() {
    let src = Source::new("a\u{e9}\u{20ac}\u{1f600}b");
    assert_eq!(src.len(), 5);
    assert_eq!(src.char_at(2), '\u{20ac}');
    assert_eq!(src.position(0), QueryPosition(0));
    assert_eq!(src.position(1), QueryPosition(1));
    assert_eq!(src.position(2), QueryPosition(3));
    assert_eq!(src.position(3), QueryPosition(6));
    assert_eq!(src.position(4), QueryPosition(10));
    assert_eq!(src.position(5), QueryPosition(11));
    assert_eq!(src.slice(1, 4), "\u{e9}\u{20ac}\u{1f600}");
    assert_eq!(Source::new("").len(), 0);
}

#[test]
fn positioned_into_gives_the_value() {
    let p = Positioned { start_pos: QueryPosition(1), end_pos: QueryPosition(2), value: 7u8 };
    assert_eq!(*Positioned::into(&p), 7);
}

#[test]
fn skip_and_tag() {
    let src = Source::new("  \t\n x");
    assert_eq!(skip(&src, 0, CharClass::MultiSpace), 5);
    assert_eq!(skip(&src, 5, CharClass::MultiSpace), 5);
    assert_eq!(skip(&src, 6, CharClass::MultiSpace), 6);
    let src = Source::new("json from");
    assert_eq!(tag(&src, 0, "json"), Ok(((), 4)));
    assert_eq!(tag(&src, 5, "from"), Ok(((), 9)));
    assert_eq!(tag(&src, 5, "fromage"), miss(5));
    assert_eq!(tag(&src, 0, "jsonn"), miss(0));
    assert_eq!(tag(&src, 9, ""), Ok(((), 9)));
}

#[test]
fn trimmed_is_what_std_trims() {
    let text = " \u{a0}\t a b \u{205f}\n";
    let src = Source::new(text);
    assert_eq!(trimmed(&src, 0, src.len(), CharClass::Whitespace), text.trim());
    assert_eq!(trimmed(&src, 0, src.len(), CharClass::Whitespace), "a b");
    let src = Source::new("**a*b**");
    assert_eq!(trimmed(&src, 0, src.len(), CharClass::Star), "a*b");
    assert_eq!(trimmed(&src, 0, 2, CharClass::Star), "");
    assert_eq!(trimmed(&src, 2, 3, CharClass::Star), "a");
}

#[test]
fn quoted_string_escapes() {
    let src = Source::new(r#""a\"b" rest"#);
    assert_eq!(quoted_string(&src, 0), Ok((r#"a\"b"#.to_string(), 6)));
    let src = Source::new(r#"'it\'s'"#);
    assert_eq!(quoted_string(&src, 0), Ok((r#"it\'s"#.to_string(), 7)));
    let src = Source::new(r#""""#);
    assert_eq!(quoted_string(&src, 0), Ok((String::new(), 2)));
    let src = Source::new(r#""a'b""#);
    assert_eq!(double_quoted_string(&src, 0), Ok(("a'b".to_string(), 5)));
    assert_eq!(single_quoted_string(&src, 0), miss(0));
}

#[test]
fn unterminated_strings() {
    let src = Source::new("\"hello");
    assert_eq!(
        quoted_string(&src, 0),
        failure(SyntaxErrors::UnterminatedDoubleQuotedString, 0, 6)
    );
    let src = Source::new("x 'hello\\'");
    assert_eq!(
        quoted_string(&src, 2),
        failure(SyntaxErrors::UnterminatedSingleQuotedString, 2, 10)
    );
    let src = Source::new("\"hello'");
    assert_eq!(
        quoted_string(&src, 0),
        failure(SyntaxErrors::UnterminatedDoubleQuotedString, 0, 7)
    );
    let src = Source::new("\"");
    assert_eq!(
        quoted_string(&src, 0),
        failure(SyntaxErrors::UnterminatedDoubleQuotedString, 0, 1)
    );
    // A backslash as the last character leaves the string open, too.
    let src = Source::new("\"abc\\");
    assert_eq!(
        quoted_string(&src, 0),
        failure(SyntaxErrors::UnterminatedDoubleQuotedString, 0, 5)
    );
    let src = Source::new("'\\");
    assert_eq!(
        quoted_string(&src, 0),
        failure(SyntaxErrors::UnterminatedSingleQuotedString, 0, 2)
    );
    let src = Source::new("abc");
    assert_eq!(quoted_string(&src, 0), miss(0));
}

#[test]
fn number_literal_forms() {
    for (text, taken) in [
        ("5", 1),
        ("-5", 2),
        ("+5", 2),
        ("1e2", 3),
        ("1.5", 3),
        ("1.", 2),
        (".5", 2),
        ("1.5e-3", 6),
        ("1E+2", 4),
        ("1e", 1),
        ("1e+", 1),
        ("12abc", 2),
        ("1.2.3", 3),
    ] {
        let src = Source::new(text);
        let (number, next) = number_literal(&src, 0).unwrap();
        assert_eq!(next, taken, "{}", text);
        assert_eq!(number, NumberLiteral { text: text[..taken].to_string() });
        assert!(number.text.parse::<f64>().is_ok(), "{}", text);
    }
    for text in ["", "-", ".", "e5", "abc", "+.e1", " 5"] {
        let src = Source::new(text);
        assert_eq!(number_literal(&src, 0), miss(0), "{}", text);
    }
    let src = Source::new("1e2");
    let (number, _) = number_literal(&src, 0).unwrap();
    assert_eq!(number.text.parse::<f64>().unwrap(), 100.0);
}

#[test]
fn values() {
    let src = Source::new("  123  x");
    assert_eq!(value(&src, 0), Ok((Value::Int(123), 7)));
    let src = Source::new("'a b' ");
    assert_eq!(value(&src, 0), Ok((Value::Str("a b".to_string()), 6)));
    let src = Source::new("9223372036854775807");
    assert_eq!(value(&src, 0), Ok((Value::Int(i64::MAX), 19)));
    let src = Source::new("9223372036854775808");
    assert_eq!(value(&src, 0), Ok((Value::Decimal("9223372036854775808".to_string()), 19)));
    let src = Source::new("007");
    assert_eq!(value(&src, 0), Ok((Value::Int(7), 3)));
    let src = Source::new(" x");
    assert_eq!(value(&src, 0), miss(1));
    assert_eq!(Value::from_string("42".to_string()), Value::Int(42));
    assert_eq!(Value::from_string("4 2".to_string()), Value::Str("4 2".to_string()));
    assert_eq!(Value::from_string(String::new()), Value::Str(String::new()));
    assert_eq!(
        Value::from_string("99999999999999999999".to_string()),
        Value::Decimal("99999999999999999999".to_string())
    );
}

#[test]
fn comparison_and_unary_operators() {
    for (text, op) in [
        ("==", ComparisonOp::Eq),
        ("!=", ComparisonOp::Neq),
        (">", ComparisonOp::Gt),
        ("<", ComparisonOp::Lt),
        (">=", ComparisonOp::Gte),
        ("<=", ComparisonOp::Lte),
    ] {
        let padded = format!(" {}  ", text);
        let src = Source::new(&padded);
        assert_eq!(comp_op(&src, 0), Ok((op, src.len())));
    }
    let src = Source::new(" = ");
    assert_eq!(comp_op(&src, 0), miss(1));
    let src = Source::new(" ! x");
    assert_eq!(unary_op(&src, 0), Ok((UnaryOp::Not, 3)));
    let src = Source::new("x");
    assert_eq!(unary_op(&src, 0), miss(0));
}

#[test]
fn expressions() {
    let src = Source::new("!a");
    assert_eq!(
        expr(&src, 0),
        Ok((Expr::Unary { op: UnaryOp::Not, operand: Box::new(col("a")) }, 2))
    );
    let src = Source::new(" ( a >= 5 ) rest");
    assert_eq!(
        expr(&src, 0),
        Ok((
            Expr::Binary {
                op: BinaryOp::Comparison(ComparisonOp::Gte),
                left: Box::new(col("a")),
                right: Box::new(Expr::Value(Value::Int(5))),
            },
            12
        ))
    );
    let src = Source::new("(a == b) != ((c))");
    assert_eq!(
        expr(&src, 0),
        Ok((
            Expr::Binary {
                op: BinaryOp::Comparison(ComparisonOp::Neq),
                left: Box::new(Expr::Binary {
                    op: BinaryOp::Comparison(ComparisonOp::Eq),
                    left: Box::new(col("a")),
                    right: Box::new(col("b")),
                }),
                right: Box::new(col("c")),
            },
            17
        ))
    );
    // Only one comparison: the rest is left.
    let src = Source::new("a == b == c");
    assert_eq!(expr(&src, 0).map(|r| r.1), Ok(7));
    // An operator without a right operand is left, too.
    let src = Source::new("a == |");
    assert_eq!(expr(&src, 0), Ok((col("a"), 2)));
    let src = Source::new("== a");
    assert_eq!(expr(&src, 0), miss(0));
    let src = Source::new("");
    assert_eq!(expr(&src, 0), miss(0));
    let src = Source::new("()");
    assert_eq!(expr(&src, 0), miss(1));
    let src = Source::new("  x");
    assert_eq!(e_ident(&src, 0), Ok((col("x"), 3)));
}

#[test]
fn missing_parenthesis() {
    let src = Source::new("(a == b");
    assert_eq!(expr(&src, 0), failure(SyntaxErrors::MissingParen, 0, 7));
    let src = Source::new(" x == (y z");
    assert_eq!(expr(&src, 0), failure(SyntaxErrors::MissingParen, 6, 9));
    let src = Source::new("a == \"b");
    assert_eq!(expr(&src, 0), failure(SyntaxErrors::UnterminatedDoubleQuotedString, 5, 7));
}

#[test]
fn sourced_expressions_keep_their_text() {
    let src = Source::new("  foo   ==  123  , bar");
    assert_eq!(
        sourced_expr(&src, 0),
        Ok((
            (
                "foo   ==  123".to_string(),
                Expr::Binary {
                    op: BinaryOp::Comparison(ComparisonOp::Eq),
                    left: Box::new(col("foo")),
                    right: Box::new(Expr::Value(Value::Int(123))),
                }
            ),
            17
        ))
    );
    assert_eq!(
        sourced_expr_list(&src, 0).map(|r| (r.0.len(), r.0[1].clone(), r.1)),
        Ok((2, ("bar".to_string(), col("bar")), src.len()))
    );
    let src = Source::new("a, ");
    assert_eq!(sourced_expr_list(&src, 0).map(|r| (r.0.len(), r.1)), Ok((1, 1)));
}

#[test]
fn json_forms() {
    let src = Source::new("json from  col  |");
    assert_eq!(
        json(&src, 0),
        Ok((
            Positioned {
                start_pos: QueryPosition(0),
                end_pos: QueryPosition(16),
                value: InlineOperator::Json { input_column: Some("col".to_string()) }
            },
            16
        ))
    );
    let src = Source::new("json from |");
    assert_eq!(
        json(&src, 0).map(|r| (r.0.value, r.1)),
        Ok((InlineOperator::Json { input_column: None }, 5))
    );
    let src = Source::new("jso");
    assert_eq!(json(&src, 0), miss(0));
}

#[test]
fn where_forms() {
    let src = Source::new(" where a < 5 ");
    assert_eq!(
        whre(&src, 0),
        Ok((
            Positioned {
                start_pos: QueryPosition(1),
                end_pos: QueryPosition(13),
                value: InlineOperator::Where {
                    expr: Some(Positioned {
                        start_pos: QueryPosition(7),
                        end_pos: QueryPosition(13),
                        value: Expr::Binary {
                            op: BinaryOp::Comparison(ComparisonOp::Lt),
                            left: Box::new(col("a")),
                            right: Box::new(Expr::Value(Value::Int(5))),
                        }
                    })
                }
            },
            13
        ))
    );
    let src = Source::new("where");
    assert_eq!(
        whre(&src, 0).map(|r| (r.0.value, r.1)),
        Ok((InlineOperator::Where { expr: None }, 5))
    );
    let src = Source::new("where (a");
    assert_eq!(whre(&src, 0), failure(SyntaxErrors::MissingParen, 6, 8));
}

#[test]
fn limit_forms() {
    let src = Source::new("limit 10 |");
    let (p, next) = limit(&src, 0).unwrap();
    assert_eq!(next, 9);
    assert_eq!((p.start_pos, p.end_pos), (QueryPosition(0), QueryPosition(9)));
    assert_eq!(
        p.value,
        InlineOperator::Limit {
            count: Some(Positioned {
                start_pos: QueryPosition(6),
                end_pos: QueryPosition(8),
                value: NumberLiteral { text: "10".to_string() }
            })
        }
    );
    let src = Source::new("limit x");
    assert_eq!(
        limit(&src, 0).map(|r| (r.0.value, r.1)),
        Ok((InlineOperator::Limit { count: None }, 6))
    );
}

#[test]
fn total_forms() {
    let src = Source::new("total(x)");
    assert_eq!(
        total(&src, 0).map(|r| (r.0.value, r.1)),
        Ok((
            InlineOperator::Total { input_column: col("x"), output_column: "_total".to_string() },
            8
        ))
    );
    let src = Source::new(" total ( x ) as  sum_x ");
    assert_eq!(
        total(&src, 0),
        Ok((
            Positioned {
                start_pos: QueryPosition(1),
                end_pos: QueryPosition(23),
                value: InlineOperator::Total {
                    input_column: col("x"),
                    output_column: "sum_x".to_string()
                }
            },
            23
        ))
    );
    // Here a missing parenthesis is no failure: the rule does not match.
    let src = Source::new("total(x");
    assert_eq!(total(&src, 0), miss(7));
    let src = Source::new("total x");
    assert_eq!(total(&src, 0), miss(6));
}

#[test]
fn fields_forms() {
    for (word, mode) in [
        ("+", FieldMode::Only),
        ("only", FieldMode::Only),
        ("include", FieldMode::Only),
        ("-", FieldMode::Except),
        ("except", FieldMode::Except),
        ("drop", FieldMode::Except),
    ] {
        let src = Source::new(word);
        assert_eq!(fields_mode(&src, 0), Ok((mode, src.len())));
        let text = format!("fields {} a, b", word);
        let src = Source::new(&text);
        assert_eq!(
            fields(&src, 0).map(|r| (r.0.value, r.1)),
            Ok((
                InlineOperator::Fields { mode, fields: vec!["a".to_string(), "b".to_string()] },
                src.len()
            ))
        );
    }
    let src = Source::new("fields a");
    assert_eq!(
        fields(&src, 0).map(|r| r.0.value),
        Ok(InlineOperator::Fields { mode: FieldMode::Only, fields: vec!["a".to_string()] })
    );
    let src = Source::new("fields");
    assert_eq!(fields(&src, 0), miss(6));
    let src = Source::new("x");
    assert_eq!(fields_mode(&src, 0), miss(0));
}

#[test]
fn inline_operator_takes_the_first_that_matches() {
    let src = Source::new("where");
    assert_eq!(
        inline_operator(&src, 0).map(|r| r.1),
        Ok(5)
    );
    let src = Source::new("count");
    assert_eq!(inline_operator(&src, 0), miss(0));
    let src = Source::new("parse \"x");
    assert_eq!(
        inline_operator(&src, 0),
        failure(SyntaxErrors::UnterminatedDoubleQuotedString, 6, 8)
    );
}

#[test]
fn sort_forms() {
    for (word, mode) in [
        ("asc", SortMode::Ascending),
        ("ascending", SortMode::Ascending),
        ("desc", SortMode::Descending),
        ("dsc", SortMode::Descending),
        ("descending", SortMode::Descending),
    ] {
        let src = Source::new(word);
        assert_eq!(sort_mode(&src, 0), Ok((mode, src.len())));
        let text = format!("sort by a, b {}", word);
        let src = Source::new(&text);
        assert_eq!(
            sort(&src, 0),
            Ok((
                Operator::Sort(SortOperator {
                    sort_cols: vec!["a".to_string(), "b".to_string()],
                    direction: mode
                }),
                src.len()
            ))
        );
    }
    let src = Source::new(" sort ");
    assert_eq!(
        sort(&src, 0),
        Ok((
            Operator::Sort(SortOperator { sort_cols: vec![], direction: SortMode::Ascending }),
            6
        ))
    );
    let src = Source::new("sort x");
    assert_eq!(
        sort(&src, 0),
        Ok((
            Operator::Sort(SortOperator {
                sort_cols: vec!["x".to_string()],
                direction: SortMode::Ascending
            }),
            6
        ))
    );
    let src = Source::new("sor");
    assert_eq!(sort(&src, 0), miss(0));
    let src = Source::new("up");
    assert_eq!(sort_mode(&src, 0), miss(0));
}

#[test]
fn alternative_takes_the_first_word() {
    let src = Source::new("count_distinct(x)");
    assert_eq!(alternative(&src, 0, &["count", "count_distinct"]), Ok(((), 5)));
    assert_eq!(alternative(&src, 0, &["count_distinct", "count"]), Ok(((), 14)));
    assert_eq!(alternative(&src, 0, &["sum", "avg"]), miss(0));
    assert_eq!(alternative(&src, 0, &[]), miss(0));
    assert_eq!(alternative(&src, 6, &["sum", "distinct"]), Ok(((), 14)));
}

#[test]
fn operator_names() {
    assert_eq!(VALID_INLINE.len() + VALID_AGGREGATES.len(), VALID_OPERATORS.len());
    for (k, name) in VALID_INLINE.iter().chain(VALID_AGGREGATES.iter()).enumerate() {
        assert_eq!(VALID_OPERATORS[k], *name);
    }
    for name in VALID_OPERATORS {
        let src = Source::new(name);
        assert_eq!(did_you_mean_operator(&src, 0), Ok(((), src.len())), "{}", name);
        let text = format!("  {}(x)", name);
        let src = Source::new(&text);
        assert_eq!(did_you_mean_operator(&src, 0), Ok(((), 2 + name.len())), "{}", name);
        let text = format!("{}x", name);
        let src = Source::new(&text);
        assert_eq!(
            did_you_mean_operator(&src, 0),
            failure(SyntaxErrors::NotAnOperator, 0, text.len()),
            "{}",
            name
        );
    }
    for name in VALID_AGGREGATES {
        let src = Source::new(name);
        assert_eq!(did_you_mean_aggregate(&src, 0), Ok(((), src.len())), "{}", name);
    }
    for name in VALID_INLINE {
        let src = Source::new(name);
        assert_eq!(
            did_you_mean_aggregate(&src, 0),
            failure(SyntaxErrors::NotAnAggregateOperator, 0, name.len()),
            "{}",
            name
        );
    }
}

#[test]
fn did_you_mean_cases() {
    let src = Source::new(" jsonn x");
    assert_eq!(did_you_mean_operator(&src, 0), failure(SyntaxErrors::NotAnOperator, 1, 6));
    let src = Source::new("p50(x)");
    assert_eq!(did_you_mean_operator(&src, 0), Ok(((), 3)));
    assert_eq!(did_you_mean_aggregate(&src, 0), Ok(((), 3)));
    let src = Source::new("pct99");
    assert_eq!(did_you_mean_aggregate(&src, 0), Ok(((), 5)));
    let src = Source::new("percentile05 ");
    assert_eq!(did_you_mean_aggregate(&src, 0), Ok(((), 12)));
    let src = Source::new("p100(x)");
    assert_eq!(
        did_you_mean_aggregate(&src, 0),
        failure(SyntaxErrors::NotAnAggregateOperator, 0, 4)
    );
    let src = Source::new("p5(x)");
    assert_eq!(
        did_you_mean_aggregate(&src, 0),
        failure(SyntaxErrors::NotAnAggregateOperator, 0, 2)
    );
    let src = Source::new("(x)");
    assert_eq!(did_you_mean_operator(&src, 0), failure(SyntaxErrors::NotAnOperator, 0, 0));
    let src = Source::new("");
    assert_eq!(did_you_mean_operator(&src, 0), failure(SyntaxErrors::NotAnOperator, 0, 0));
    let src = Source::new("\njson");
    assert_eq!(did_you_mean_operator(&src, 0), Ok(((), 5)));
    let src = Source::new(" \r\n\t jsonn");
    assert_eq!(did_you_mean_operator(&src, 0), failure(SyntaxErrors::NotAnOperator, 5, 10));
    let src = Source::new("foo");
    assert_eq!(
        did_you_mean(&src, 0, &["foo", "bar"], SyntaxErrors::NotAnOperator),
        Ok(((), 3))
    );
    assert_eq!(
        did_you_mean(&src, 0, &["fo", "bar"], SyntaxErrors::MissingParen),
        failure(SyntaxErrors::MissingParen, 0, 3)
    );
}

#[test]
fn percentile_names() {
    let src = Source::new("p05(x)");
    assert_eq!(pct_fn(&src, 0), Ok(("05".to_string(), 3)));
    let src = Source::new("pct75");
    assert_eq!(pct_fn(&src, 0), Ok(("75".to_string(), 5)));
    let src = Source::new("percentile99(y)");
    assert_eq!(pct_fn(&src, 0), Ok(("99".to_string(), 12)));
    let src = Source::new("p100");
    assert_eq!(pct_fn(&src, 0), Ok(("10".to_string(), 3)));
    let src = Source::new("p5");
    assert_eq!(pct_fn(&src, 0), miss(1));
    let src = Source::new("pc50");
    assert_eq!(pct_fn(&src, 0), miss(1));
    let src = Source::new("q50");
    assert_eq!(pct_fn(&src, 0), miss(0));
    let src = Source::new("p\u{0130}\u{0130}(x)");
    assert_eq!(pct_fn(&src, 0), miss(1));
}

#[test]
fn percentiles() {
    let src = Source::new("p05(x)");
    let ((name, func), next) = complete_agg_function(&src, 0).unwrap();
    assert_eq!(next, 6);
    assert_eq!(name, "p05");
    assert_eq!(
        func.value,
        AggregateFunction::Percentile {
            percentile: 5,
            percentile_str: "05".to_string(),
            column: col("x")
        }
    );
    assert_eq!(f64::from(5u8) / 100.0, ".05".parse::<f64>().unwrap());

    let src = Source::new(" percentile99( y ) as top ");
    let ((name, func), next) = complete_agg_function(&src, 0).unwrap();
    assert_eq!(next, src.len());
    assert_eq!(name, "top");
    assert_eq!((func.start_pos, func.end_pos), (QueryPosition(1), QueryPosition(18)));
    assert_eq!(
        func.value,
        AggregateFunction::Percentile {
            percentile: 99,
            percentile_str: "99".to_string(),
            column: col("y")
        }
    );
    assert_eq!(f64::from(99u8) / 100.0, ".99".parse::<f64>().unwrap());

    let src = Source::new("p100(x)");
    assert_eq!(
        complete_agg_function(&src, 0),
        failure(SyntaxErrors::NotAnAggregateOperator, 0, 4)
    );
    let src = Source::new("p5(x)");
    assert!(complete_agg_function(&src, 0).is_err());
    let src = Source::new("p999(x)");
    assert_eq!(
        complete_agg_function(&src, 0),
        failure(SyntaxErrors::NotAnAggregateOperator, 0, 4)
    );
    let src = Source::new("p50 (x)");
    assert_eq!(p_nn(&src, 0), miss(3));
    let src = Source::new("p50(x");
    assert_eq!(p_nn(&src, 0), miss(5));
}

#[test]
fn every_hundredth_is_the_fraction_as_written() {
    for n in 0u8..100 {
        let text = format!("p{:02}(x)", n);
        let src = Source::new(&text);
        let (func, _) = p_nn(&src, 0).unwrap();
        match func.value {
            AggregateFunction::Percentile { percentile, percentile_str, .. } => {
                assert_eq!(percentile, n);
                assert_eq!(
                    f64::from(percentile) / 100.0,
                    format!(".{}", percentile_str).parse::<f64>().unwrap()
                );
            }
            _ => unreachable!(),
        }
    }
}

#[test]
fn aggregate_functions() {
    let src = Source::new("count");
    assert_eq!(
        count(&src, 0),
        Ok((
            Positioned {
                start_pos: QueryPosition(0),
                end_pos: QueryPosition(5),
                value: AggregateFunction::Count
            },
            5
        ))
    );
    let src = Source::new(" sum( x ) ");
    assert_eq!(
        sum(&src, 0),
        Ok((
            Positioned {
                start_pos: QueryPosition(1),
                end_pos: QueryPosition(10),
                value: AggregateFunction::Sum { column: col("x") }
            },
            10
        ))
    );
    for text in ["avg(x)", "average(x)"] {
        let src = Source::new(text);
        assert_eq!(
            average(&src, 0).map(|r| (r.0.value, r.1)),
            Ok((AggregateFunction::Average { column: col("x") }, src.len()))
        );
        assert_eq!(
            aggregate_function(&src, 0).map(|r| r.0.value),
            Ok(AggregateFunction::Average { column: col("x") })
        );
    }
    let src = Source::new("count_distinct");
    assert_eq!(
        count_distinct(&src, 0).map(|r| (r.0.value, r.1)),
        Ok((AggregateFunction::CountDistinct { column: None }, 14))
    );
    let src = Source::new("count_distinct(a, b == 1)");
    let (func, next) = aggregate_function(&src, 0).unwrap();
    assert_eq!(next, src.len());
    assert_eq!(
        func.value,
        AggregateFunction::CountDistinct {
            column: Some(Positioned {
                start_pos: QueryPosition(14),
                end_pos: QueryPosition(25),
                value: vec![
                    col("a"),
                    Expr::Binary {
                        op: BinaryOp::Comparison(ComparisonOp::Eq),
                        left: Box::new(col("b")),
                        right: Box::new(Expr::Value(Value::Int(1))),
                    }
                ]
            })
        }
    );
    let src = Source::new("count_distinct(a");
    assert_eq!(aggregate_function(&src, 0), failure(SyntaxErrors::MissingParen, 14, 16));
    let src = Source::new("sum x");
    assert_eq!(sum(&src, 0), miss(4));
    assert_eq!(aggregate_function(&src, 0), miss(0));
    let src = Source::new("total(x)");
    assert_eq!(
        aggregate_function(&src, 0),
        failure(SyntaxErrors::NotAnAggregateOperator, 0, 5)
    );
}

#[test]
fn argument_lists() {
    let src = Source::new(" ( ) x");
    assert_eq!(
        arg_list(&src, 0),
        Ok((
            Positioned { start_pos: QueryPosition(1), end_pos: QueryPosition(4), value: vec![] },
            4
        ))
    );
    let src = Source::new("(a , b,c)");
    assert_eq!(
        arg_list(&src, 0).map(|r| (r.0.value, r.1)),
        Ok((vec![col("a"), col("b"), col("c")], 9))
    );
    let src = Source::new("(a, )");
    assert_eq!(arg_list(&src, 0), failure(SyntaxErrors::MissingParen, 0, 2));
    let src = Source::new("a");
    assert_eq!(arg_list(&src, 0), miss(0));
}

#[test]
fn default_output_names() {
    let named = |text: &str| {
        let src = Source::new(text);
        let (func, _) = aggregate_function(&src, 0).unwrap();
        default_output(&func)
    };
    assert_eq!(named("count"), "_count");
    assert_eq!(named("sum(x)"), "_sum");
    assert_eq!(named("avg(x)"), "_average");
    assert_eq!(named("average(x)"), "_average");
    assert_eq!(named("count_distinct(x)"), "_countDistinct");
    assert_eq!(named("pct07(x)"), "p07");
    assert_eq!(named("percentile50(x)"), "p50");
}
