//! The syntax tree of a query, and the mathematical value of each node.

use vstd::prelude::*;
use crate::chars::{digit_value, is_digit_char, spec_is_digit_char};
use crate::keyword::{Keyword, KeywordView};
use crate::position::Positioned;

verus! {

/// A literal in an expression.
#[derive(Debug, PartialEq, Eq, Clone)]
pub enum Value {
    /// A quoted string, as written between its quotes.
    Str(String),
    /// A run of digits that fits a signed 64-bit integer.
    Int(i64),
    /// A run of digits too large for `Int`, kept as written.
    Decimal(String),
}

/// The value of a [`Value`].
pub enum ValueView {
    Str(Seq<char>),
    Int(i64),
    Decimal(Seq<char>),
}

impl DeepView for Value {
    type V = ValueView;

    open spec fn deep_view(&self) -> ValueView {
        match self {
            Value::Str(s) => ValueView::Str(s@),
            Value::Int(n) => ValueView::Int(*n),
            Value::Decimal(s) => ValueView::Decimal(s@),
        }
    }
}

/// The number that a run of decimal digits stands for.
pub open spec fn decimal_value(t: Seq<char>) -> nat
    decreases t.len(),
{
    if t.len() == 0 {
        0
    } else {
        (10 * decimal_value(t.drop_last()) + digit_value(t.last())) as nat
    }
}

/// Every character is a decimal digit.
pub open spec fn all_digits(t: Seq<char>) -> bool {
    forall|k: int| 0 <= k < t.len() ==> spec_is_digit_char(#[trigger] t[k])
}

/// The literal that a text stands for: a run of digits is a number, an
/// `Int` where it fits and a `Decimal` where it does not; any other text is
/// a string.
pub open spec fn literal_of(t: Seq<char>) -> ValueView {
    if t.len() > 0 && all_digits(t) {
        if decimal_value(t) <= i64::MAX {
            ValueView::Int(decimal_value(t) as i64)
        } else {
            ValueView::Decimal(t)
        }
    } else {
        ValueView::Str(t)
    }
}

impl Value {
    /// Reads a literal from its text.
    pub fn from_string(text: String) -> (v: Value)
        ensures
            v.deep_view() == literal_of(text@),
    {
        let mut acc: u64 = 0;
        let mut fits = true;
        let mut digits = true;
        for c in it: text.as_str().chars()
            invariant
                it.seq() == text@,
                digits == all_digits(text@.take(it.index())),
                digits && fits ==> acc == decimal_value(text@.take(it.index())) && acc
                    <= i64::MAX,
                digits && !fits ==> decimal_value(text@.take(it.index())) > i64::MAX,
        {
            proof {
                let before = text@.take(it.index());
                let after = text@.take(it.index() + 1);
                assert(after.drop_last() =~= before);
                assert(after.last() == c);
                if all_digits(after) {
                    assert forall|k: int| 0 <= k < before.len() implies spec_is_digit_char(
                        #[trigger] before[k],
                    ) by {
                        assert(before[k] == after[k]);
                    }
                }
                if all_digits(before) && spec_is_digit_char(c) {
                    assert forall|k: int| 0 <= k < after.len() implies spec_is_digit_char(
                        #[trigger] after[k],
                    ) by {
                        if k < before.len() {
                            assert(after[k] == before[k]);
                        }
                    }
                }
            }
            if !is_digit_char(c) {
                digits = false;
            } else if fits {
                let d: u64 = ((c as u32) - 48) as u64;
                let wide: u128 = (acc as u128) * 10 + (d as u128);
                if wide > 9223372036854775807u128 {
                    fits = false;
                } else {
                    acc = wide as u64;
                }
            }
        }
        proof {
            assert(text@.take(text@.len() as int) =~= text@);
        }
        if text.as_str().is_empty() || !digits {
            Value::Str(text)
        } else if fits {
            Value::Int(acc as i64)
        } else {
            Value::Decimal(text)
        }
    }
}

/// The comparison that a binary expression makes.
#[derive(Debug, PartialEq, Eq, Clone, Copy)]
pub enum ComparisonOp {
    Eq,
    Neq,
    Gt,
    Lt,
    Gte,
    Lte,
}

impl DeepView for ComparisonOp {
    type V = ComparisonOp;

    open spec fn deep_view(&self) -> ComparisonOp {
        *self
    }
}

/// The operator of a binary expression.
#[derive(Debug, PartialEq, Eq, Clone, Copy)]
pub enum BinaryOp {
    Comparison(ComparisonOp),
}

impl DeepView for BinaryOp {
    type V = BinaryOp;

    open spec fn deep_view(&self) -> BinaryOp {
        *self
    }
}

/// The operator of a unary expression.
#[derive(Debug, PartialEq, Eq, Clone, Copy)]
pub enum UnaryOp {
    Not,
}

impl DeepView for UnaryOp {
    type V = UnaryOp;

    open spec fn deep_view(&self) -> UnaryOp {
        *self
    }
}

/// An expression over the columns of a record.
#[derive(Debug, PartialEq, Eq)]
pub enum Expr {
    Column(String),
    Unary { op: UnaryOp, operand: Box<Expr> },
    Binary { op: BinaryOp, left: Box<Expr>, right: Box<Expr> },
    Value(Value),
}

/// The value of an [`Expr`].
pub enum ExprView {
    Column(Seq<char>),
    Unary { op: UnaryOp, operand: Box<ExprView> },
    Binary { op: BinaryOp, left: Box<ExprView>, right: Box<ExprView> },
    Value(ValueView),
}

/// The mathematical value of an expression.
pub open spec fn expr_view(e: Expr) -> ExprView
    decreases e,
{
    match e {
        Expr::Column(name) => ExprView::Column(name@),
        Expr::Unary { op, operand } => ExprView::Unary {
            op,
            operand: Box::new(expr_view(*operand)),
        },
        Expr::Binary { op, left, right } => ExprView::Binary {
            op,
            left: Box::new(expr_view(*left)),
            right: Box::new(expr_view(*right)),
        },
        Expr::Value(v) => ExprView::Value(v.deep_view()),
    }
}

impl DeepView for Expr {
    type V = ExprView;

    open spec fn deep_view(&self) -> ExprView {
        expr_view(*self)
    }
}

impl Clone for Expr {
    /// A copy with the same value.
    fn clone(&self) -> (res: Self)
        ensures
            res.deep_view() == self.deep_view(),
        decreases self,
    {
        match self {
            Expr::Column(name) => Expr::Column(name.clone()),
            Expr::Unary { op, operand } => Expr::Unary {
                op: *op,
                operand: Box::new((&**operand).clone()),
            },
            Expr::Binary { op, left, right } => Expr::Binary {
                op: *op,
                left: Box::new((&**left).clone()),
                right: Box::new((&**right).clone()),
            },
            Expr::Value(v) => Expr::Value(
                match v {
                    Value::Str(s) => Value::Str(s.clone()),
                    Value::Int(n) => Value::Int(*n),
                    Value::Decimal(s) => Value::Decimal(s.clone()),
                },
            ),
        }
    }
}

/// Which fields a `fields` operator keeps.
#[derive(Debug, PartialEq, Eq, Clone, Copy)]
pub enum FieldMode {
    Only,
    Except,
}

impl DeepView for FieldMode {
    type V = FieldMode;

    open spec fn deep_view(&self) -> FieldMode {
        *self
    }
}

/// The direction of a sort.
#[derive(Debug, PartialEq, Eq, Clone, Copy)]
pub enum SortMode {
    Ascending,
    Descending,
}

impl DeepView for SortMode {
    type V = SortMode;

    open spec fn deep_view(&self) -> SortMode {
        *self
    }
}

/// A number as it is written in a query: an optional sign, digits with an
/// optional fraction, and an optional exponent.
#[derive(Debug, PartialEq, Eq, Clone)]
pub struct NumberLiteral {
    pub text: String,
}

/// The value of a [`NumberLiteral`].
pub struct NumberLiteralView {
    pub text: Seq<char>,
}

impl DeepView for NumberLiteral {
    type V = NumberLiteralView;

    open spec fn deep_view(&self) -> NumberLiteralView {
        NumberLiteralView { text: self.text@ }
    }
}

/// An operator that works on one record at a time.
#[derive(Debug, PartialEq, Clone)]
pub enum InlineOperator {
    Json { input_column: Option<String> },
    Parse { pattern: Keyword, fields: Vec<String>, input_column: Option<Expr>, no_drop: bool },
    Fields { mode: FieldMode, fields: Vec<String> },
    Where { expr: Option<Positioned<Expr>> },
    /// The count is kept as it was written. Whether it is a sane limit is
    /// for the next phase to say.
    Limit { count: Option<Positioned<NumberLiteral>> },
    Total { input_column: Expr, output_column: String },
}

/// The value of an [`InlineOperator`].
pub enum InlineOperatorView {
    Json { input_column: Option<Seq<char>> },
    Parse {
        pattern: KeywordView,
        fields: Seq<Seq<char>>,
        input_column: Option<ExprView>,
        no_drop: bool,
    },
    Fields { mode: FieldMode, fields: Seq<Seq<char>> },
    Where { expr: Option<Positioned<ExprView>> },
    Limit { count: Option<Positioned<NumberLiteralView>> },
    Total { input_column: ExprView, output_column: Seq<char> },
}

impl DeepView for InlineOperator {
    type V = InlineOperatorView;

    open spec fn deep_view(&self) -> InlineOperatorView {
        match self {
            InlineOperator::Json { input_column } => InlineOperatorView::Json {
                input_column: input_column.deep_view(),
            },
            InlineOperator::Parse { pattern, fields, input_column, no_drop } => {
                InlineOperatorView::Parse {
                    pattern: pattern.deep_view(),
                    fields: fields.deep_view(),
                    input_column: input_column.deep_view(),
                    no_drop: *no_drop,
                }
            },
            InlineOperator::Fields { mode, fields } => InlineOperatorView::Fields {
                mode: *mode,
                fields: fields.deep_view(),
            },
            InlineOperator::Where { expr } => InlineOperatorView::Where { expr: expr.deep_view() },
            InlineOperator::Limit { count } => InlineOperatorView::Limit {
                count: count.deep_view(),
            },
            InlineOperator::Total { input_column, output_column } => InlineOperatorView::Total {
                input_column: input_column.deep_view(),
                output_column: output_column@,
            },
        }
    }
}

impl InlineOperatorView {
    /// No span inside the operator ends before it starts.
    pub open spec fn wf(self) -> bool {
        match self {
            InlineOperatorView::Where { expr: Some(e) } => e.wf(),
            InlineOperatorView::Limit { count: Some(c) } => c.wf(),
            _ => true,
        }
    }
}

/// A function that sums up the records of a group.
#[derive(Debug, PartialEq, Clone)]
pub enum AggregateFunction {
    Count,
    Sum { column: Expr },
    Average { column: Expr },
    /// `percentile` counts hundredths: `p05` asks for the fraction 0.05 and
    /// holds 5 here. `percentile_str` holds the two digits as written.
    Percentile { percentile: u8, percentile_str: String, column: Expr },
    CountDistinct { column: Option<Positioned<Vec<Expr>>> },
}

/// The value of an [`AggregateFunction`].
pub enum AggregateFunctionView {
    Count,
    Sum { column: ExprView },
    Average { column: ExprView },
    Percentile { percentile: u8, percentile_str: Seq<char>, column: ExprView },
    CountDistinct { column: Option<Positioned<Seq<ExprView>>> },
}

impl DeepView for AggregateFunction {
    type V = AggregateFunctionView;

    open spec fn deep_view(&self) -> AggregateFunctionView {
        match self {
            AggregateFunction::Count => AggregateFunctionView::Count,
            AggregateFunction::Sum { column } => AggregateFunctionView::Sum {
                column: column.deep_view(),
            },
            AggregateFunction::Average { column } => AggregateFunctionView::Average {
                column: column.deep_view(),
            },
            AggregateFunction::Percentile { percentile, percentile_str, column } => {
                AggregateFunctionView::Percentile {
                    percentile: *percentile,
                    percentile_str: percentile_str@,
                    column: column.deep_view(),
                }
            },
            AggregateFunction::CountDistinct { column } => AggregateFunctionView::CountDistinct {
                column: column.deep_view(),
            },
        }
    }
}

impl AggregateFunctionView {
    /// No span inside the function ends before it starts.
    pub open spec fn wf(self) -> bool {
        match self {
            AggregateFunctionView::CountDistinct { column: Some(c) } => c.wf(),
            _ => true,
        }
    }
}

/// The aggregate functions of one stage, each with the name of its output
/// column, and the keys to group by, each with its header.
#[derive(Debug, PartialEq, Clone)]
pub struct MultiAggregateOperator {
    pub key_cols: Vec<Expr>,
    pub key_col_headers: Vec<String>,
    pub aggregate_functions: Vec<(String, Positioned<AggregateFunction>)>,
}

/// The value of a [`MultiAggregateOperator`].
pub struct MultiAggregateOperatorView {
    pub key_cols: Seq<ExprView>,
    pub key_col_headers: Seq<Seq<char>>,
    pub aggregate_functions: Seq<(Seq<char>, Positioned<AggregateFunctionView>)>,
}

impl DeepView for MultiAggregateOperator {
    type V = MultiAggregateOperatorView;

    open spec fn deep_view(&self) -> MultiAggregateOperatorView {
        MultiAggregateOperatorView {
            key_cols: self.key_cols.deep_view(),
            key_col_headers: self.key_col_headers.deep_view(),
            aggregate_functions: self.aggregate_functions.deep_view(),
        }
    }
}

impl MultiAggregateOperatorView {
    /// Each key has its header, and no span of an aggregate function ends
    /// before it starts.
    pub open spec fn wf(self) -> bool {
        &&& self.key_cols.len() == self.key_col_headers.len()
        &&& forall|k: int|
            0 <= k < self.aggregate_functions.len() ==> (#[trigger] self.aggregate_functions[k]).1.wf()
                && self.aggregate_functions[k].1.value.wf()
    }
}

/// The columns to sort by, and the direction.
#[derive(Debug, PartialEq, Clone)]
pub struct SortOperator {
    pub sort_cols: Vec<String>,
    pub direction: SortMode,
}

/// The value of a [`SortOperator`].
pub struct SortOperatorView {
    pub sort_cols: Seq<Seq<char>>,
    pub direction: SortMode,
}

impl DeepView for SortOperator {
    type V = SortOperatorView;

    open spec fn deep_view(&self) -> SortOperatorView {
        SortOperatorView { sort_cols: self.sort_cols.deep_view(), direction: self.direction }
    }
}

/// A stage of the pipeline.
#[derive(Debug, PartialEq, Clone)]
pub enum Operator {
    Inline(Positioned<InlineOperator>),
    MultiAggregate(MultiAggregateOperator),
    Sort(SortOperator),
}

/// The value of an [`Operator`].
pub enum OperatorView {
    Inline(Positioned<InlineOperatorView>),
    MultiAggregate(MultiAggregateOperatorView),
    Sort(SortOperatorView),
}

impl DeepView for Operator {
    type V = OperatorView;

    open spec fn deep_view(&self) -> OperatorView {
        match self {
            Operator::Inline(op) => OperatorView::Inline(op.deep_view()),
            Operator::MultiAggregate(op) => OperatorView::MultiAggregate(op.deep_view()),
            Operator::Sort(op) => OperatorView::Sort(op.deep_view()),
        }
    }
}

impl OperatorView {
    /// No span inside the operator ends before it starts.
    pub open spec fn wf(self) -> bool {
        match self {
            OperatorView::Inline(op) => op.wf() && op.value.wf(),
            OperatorView::MultiAggregate(op) => op.wf(),
            OperatorView::Sort(_) => true,
        }
    }
}

/// A parsed query: the search terms, then the stages of the pipeline.
#[derive(Debug, PartialEq, Clone)]
pub struct Query {
    pub search: Vec<Keyword>,
    pub operators: Vec<Operator>,
}

/// The value of a [`Query`].
pub struct QueryView {
    pub search: Seq<KeywordView>,
    pub operators: Seq<OperatorView>,
}

impl DeepView for Query {
    type V = QueryView;

    open spec fn deep_view(&self) -> QueryView {
        QueryView { search: self.search.deep_view(), operators: self.operators.deep_view() }
    }
}

impl QueryView {
    /// No span inside the query ends before it starts.
    pub open spec fn wf(self) -> bool {
        forall|k: int| 0 <= k < self.operators.len() ==> (#[trigger] self.operators[k]).wf()
    }
}

} // verus!
