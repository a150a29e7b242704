//! The small language of conditions and expressions.
//!
//! A condition is `true`, `false`, or `left op right` with `op` one of
//! `==`, `!=`, `<`, `<=`, `>`, `>=`. An expression is a single term or
//! `left op right` with `op` one of `+`, `-`, `*`. The parts are separated
//! by single spaces; the right part runs to the end of the text and may
//! hold spaces. A term that is JSON text is a literal; any other term names
//! a field of the record.

use vstd::prelude::*;
use vstd::string::StringExecFns;
use crate::json::json_parse;
use crate::text::{chars_of, find_char, find_from, lex_le, lex_le_chars, same_text, text_of};
use crate::value::{DataValue, Json};

verus! {

/// Model of a term: a literal value or the name of a field.
pub enum Term {
    Literal(Json),
    Field(Seq<char>),
}

/// A term of a condition or an expression.
#[derive(Debug, PartialEq)]
pub enum Operand {
    Literal(DataValue),
    Field(String),
}

impl View for Operand {
    type V = Term;

    open spec fn view(&self) -> Term {
        match self {
            Operand::Literal(v) => Term::Literal(v@),
            Operand::Field(name) => Term::Field(name@),
        }
    }
}

/// The comparisons of a condition.
#[derive(Clone, Copy, Debug, PartialEq, Eq, Structural)]
pub enum Comparison {
    Equal,
    NotEqual,
    Less,
    LessOrEqual,
    Greater,
    GreaterOrEqual,
}

/// The operators of an expression.
#[derive(Clone, Copy, Debug, PartialEq, Eq, Structural)]
pub enum Arithmetic {
    Add,
    Subtract,
    Multiply,
}

/// Model of a condition.
pub enum ConditionModel {
    Always,
    Never,
    Compare(Term, Comparison, Term),
}

/// A condition on a record's payload.
#[derive(Debug, PartialEq)]
pub enum Condition {
    Always,
    Never,
    Compare(Operand, Comparison, Operand),
}

impl View for Condition {
    type V = ConditionModel;

    open spec fn view(&self) -> ConditionModel {
        match self {
            Condition::Always => ConditionModel::Always,
            Condition::Never => ConditionModel::Never,
            Condition::Compare(left, op, right) => ConditionModel::Compare(left@, *op, right@),
        }
    }
}

/// Model of an expression.
pub enum ExpressionModel {
    Single(Term),
    Binary(Term, Arithmetic, Term),
}

/// An expression over a record's payload.
#[derive(Debug, PartialEq)]
pub enum Expression {
    Single(Operand),
    Binary(Operand, Arithmetic, Operand),
}

impl View for Expression {
    type V = ExpressionModel;

    open spec fn view(&self) -> ExpressionModel {
        match self {
            Expression::Single(t) => ExpressionModel::Single(t@),
            Expression::Binary(left, op, right) => ExpressionModel::Binary(left@, *op, right@),
        }
    }
}

/// The text before the first space and the text after it, if there is a
/// space.
pub open spec fn split_at_space(s: Seq<char>) -> Option<(Seq<char>, Seq<char>)> {
    let at = find_from(s, ' ', 0);
    if at < s.len() {
        Some((s.subrange(0, at), s.subrange(at + 1, s.len() as int)))
    } else {
        None
    }
}

/// The term that a text denotes: a literal where it is JSON, else a field.
pub open spec fn parse_term(t: Seq<char>) -> Term {
    match json_parse(t) {
        Some(v) => Term::Literal(v),
        None => Term::Field(t),
    }
}

/// The comparison that a text denotes.
pub open spec fn parse_comparison(t: Seq<char>) -> Option<Comparison> {
    if t == "=="@ {
        Some(Comparison::Equal)
    } else if t == "!="@ {
        Some(Comparison::NotEqual)
    } else if t == "<"@ {
        Some(Comparison::Less)
    } else if t == "<="@ {
        Some(Comparison::LessOrEqual)
    } else if t == ">"@ {
        Some(Comparison::Greater)
    } else if t == ">="@ {
        Some(Comparison::GreaterOrEqual)
    } else {
        None
    }
}

/// The operator that a text denotes.
pub open spec fn parse_arithmetic(t: Seq<char>) -> Option<Arithmetic> {
    if t == "+"@ {
        Some(Arithmetic::Add)
    } else if t == "-"@ {
        Some(Arithmetic::Subtract)
    } else if t == "*"@ {
        Some(Arithmetic::Multiply)
    } else {
        None
    }
}

/// The condition that a text denotes, if it denotes one.
pub open spec fn parse_condition(s: Seq<char>) -> Option<ConditionModel> {
    match split_at_space(s) {
        None => if s == "true"@ {
            Some(ConditionModel::Always)
        } else if s == "false"@ {
            Some(ConditionModel::Never)
        } else {
            None
        },
        Some((left, rest)) => match split_at_space(rest) {
            None => None,
            Some((op, right)) => match parse_comparison(op) {
                Some(c) => Some(ConditionModel::Compare(parse_term(left), c, parse_term(right))),
                None => None,
            },
        },
    }
}

/// The expression that a text denotes, if it denotes one. A text that is
/// JSON as a whole is a literal.
pub open spec fn parse_expression(s: Seq<char>) -> Option<ExpressionModel> {
    match json_parse(s) {
        Some(v) => Some(ExpressionModel::Single(Term::Literal(v))),
        None => match split_at_space(s) {
            None => Some(ExpressionModel::Single(Term::Field(s))),
            Some((left, rest)) => match split_at_space(rest) {
                None => None,
                Some((op, right)) => match parse_arithmetic(op) {
                    Some(a) => Some(ExpressionModel::Binary(parse_term(left), a, parse_term(right))),
                    None => None,
                },
            },
        },
    }
}

/// What an order comparison says, given whether the left side is less than
/// the right and whether the two are equal.
pub open spec fn ordered(op: Comparison, less: bool, equal: bool) -> bool {
    match op {
        Comparison::Equal => equal,
        Comparison::NotEqual => !equal,
        Comparison::Less => less,
        Comparison::LessOrEqual => less || equal,
        Comparison::Greater => !less && !equal,
        Comparison::GreaterOrEqual => !less,
    }
}

/// Whether the comparison holds of two values. Equality is sameness of
/// values. Order is defined between two integers and between two strings
/// (by code point); between any others no order comparison holds.
pub open spec fn compare(a: Json, op: Comparison, b: Json) -> bool {
    match op {
        Comparison::Equal => a == b,
        Comparison::NotEqual => a != b,
        _ => match (a, b) {
            (Json::Number(x), Json::Number(y)) => ordered(op, x < y, x == y),
            (Json::String(x), Json::String(y)) => ordered(op, lex_le(x, y) && x != y, x == y),
            _ => false,
        },
    }
}

/// What the operator makes of two values: integer arithmetic on two
/// integers where the result is a 64-bit signed integer, concatenation for
/// `+` on two strings, and nothing otherwise.
pub open spec fn combine(a: Json, op: Arithmetic, b: Json) -> Option<Json> {
    match (a, b) {
        (Json::Number(x), Json::Number(y)) => {
            let r = match op {
                Arithmetic::Add => x + y,
                Arithmetic::Subtract => x - y,
                Arithmetic::Multiply => x * y,
            };
            if i64::MIN <= r <= i64::MAX {
                Some(Json::Number(r))
            } else {
                None
            }
        },
        (Json::String(x), Json::String(y)) => if op == Arithmetic::Add {
            Some(Json::String(x + y))
        } else {
            None
        },
        _ => None,
    }
}

impl Term {
    /// The value of the term in a payload; a field that the payload lacks
    /// has none.
    pub open spec fn eval(self, data: Json) -> Option<Json> {
        match self {
            Term::Literal(v) => Some(v),
            Term::Field(name) => data.field(name),
        }
    }
}

impl ConditionModel {
    /// Whether the condition holds of a payload. A comparison with a
    /// missing field does not hold.
    pub open spec fn holds(self, data: Json) -> bool {
        match self {
            ConditionModel::Always => true,
            ConditionModel::Never => false,
            ConditionModel::Compare(left, op, right) => match (left.eval(data), right.eval(data)) {
                (Some(a), Some(b)) => compare(a, op, b),
                _ => false,
            },
        }
    }
}

impl ExpressionModel {
    /// The value of the expression in a payload, if it has one.
    pub open spec fn eval(self, data: Json) -> Option<Json> {
        match self {
            ExpressionModel::Single(t) => t.eval(data),
            ExpressionModel::Binary(left, op, right) => match (left.eval(data), right.eval(data)) {
                (Some(a), Some(b)) => combine(a, op, b),
                _ => None,
            },
        }
    }
}

/// Whether the condition written in `text` holds of a payload; a text that
/// is no condition holds of none.
pub open spec fn condition_holds(text: Seq<char>, data: Json) -> bool {
    match parse_condition(text) {
        Some(c) => c.holds(data),
        None => false,
    }
}

/// The value in a payload of the expression written in `text`, if the text
/// is an expression and has a value.
pub open spec fn expression_value(text: Seq<char>, data: Json) -> Option<Json> {
    match parse_expression(text) {
        Some(e) => e.eval(data),
        None => None,
    }
}

/// Splits a text at its first space.
fn split(s: &Vec<char>) -> (r: Option<(String, Vec<char>)>)
    ensures
        match r {
            Some((left, rest)) => split_at_space(s@) == Some((left@, rest@)),
            None => split_at_space(s@) is None,
        },
{
    let at = find_char(s, ' ', 0);
    if at < s.len() {
        let left = text_of(s, 0, at);
        let mut rest: Vec<char> = Vec::new();
        let mut i: usize = at + 1;
        while i < s.len()
            invariant
                at + 1 <= i <= s.len(),
                rest@ == s@.subrange(at + 1, i as int),
            decreases s.len() - i,
        {
            rest.push(s[i]);
            assert(s@.subrange(at + 1, i + 1) =~= s@.subrange(at + 1, i as int).push(s@[i as int]));
            i += 1;
        }
        Some((left, rest))
    } else {
        None
    }
}

impl Operand {
    /// Reads a term: a literal where the text is JSON, else a field name.
    pub fn parse(text: String) -> (r: Operand)
        ensures
            r@ == parse_term(text@),
    {
        match DataValue::from_json_text(text.as_str()) {
            Some(v) => Operand::Literal(v),
            None => Operand::Field(text),
        }
    }

    /// The value of the term in a payload, if it has one.
    pub fn eval<'a>(&'a self, data: &'a DataValue) -> (r: Option<&'a DataValue>)
        ensures
            match r {
                Some(v) => self@.eval(data@) == Some(v@),
                None => self@.eval(data@) is None,
            },
    {
        match self {
            Operand::Literal(v) => Some(v),
            Operand::Field(name) => data.get(name.as_str()),
        }
    }
}

impl Comparison {
    /// Reads a comparison.
    pub fn parse(text: &str) -> (r: Option<Comparison>)
        ensures
            r == parse_comparison(text@),
    {
        if same_text(text, "==") {
            Some(Comparison::Equal)
        } else if same_text(text, "!=") {
            Some(Comparison::NotEqual)
        } else if same_text(text, "<") {
            Some(Comparison::Less)
        } else if same_text(text, "<=") {
            Some(Comparison::LessOrEqual)
        } else if same_text(text, ">") {
            Some(Comparison::Greater)
        } else if same_text(text, ">=") {
            Some(Comparison::GreaterOrEqual)
        } else {
            None
        }
    }

    /// Decides the comparison of two values.
    pub fn holds(self, a: &DataValue, b: &DataValue) -> (r: bool)
        ensures
            r == compare(a@, self, b@),
    {
        match self {
            Comparison::Equal => a.same(b),
            Comparison::NotEqual => !a.same(b),
            _ => match (a, b) {
                (DataValue::Number(x), DataValue::Number(y)) => self.decide(*x < *y, *x == *y),
                (DataValue::String(x), DataValue::String(y)) => {
                    let equal = same_text(x.as_str(), y.as_str());
                    let xs = chars_of(x.as_str());
                    let ys = chars_of(y.as_str());
                    let less = lex_le_chars(&xs, &ys) && !equal;
                    self.decide(less, equal)
                },
                _ => false,
            },
        }
    }

    /// What the comparison says of two things of which the first is less
    /// than the second, or equal to it, or neither.
    pub fn decide(self, less: bool, equal: bool) -> (r: bool)
        ensures
            r == ordered(self, less, equal),
    {
        match self {
            Comparison::Equal => equal,
            Comparison::NotEqual => !equal,
            Comparison::Less => less,
            Comparison::LessOrEqual => less || equal,
            Comparison::Greater => !less && !equal,
            Comparison::GreaterOrEqual => !less,
        }
    }
}

impl Arithmetic {
    /// Reads an operator.
    pub fn parse(text: &str) -> (r: Option<Arithmetic>)
        ensures
            r == parse_arithmetic(text@),
    {
        if same_text(text, "+") {
            Some(Arithmetic::Add)
        } else if same_text(text, "-") {
            Some(Arithmetic::Subtract)
        } else if same_text(text, "*") {
            Some(Arithmetic::Multiply)
        } else {
            None
        }
    }

    /// Applies the operator to two values.
    pub fn apply(self, a: &DataValue, b: &DataValue) -> (r: Option<DataValue>)
        ensures
            match r {
                Some(v) => combine(a@, self, b@) == Some(v@),
                None => combine(a@, self, b@) is None,
            },
    {
        match (a, b) {
            (DataValue::Number(x), DataValue::Number(y)) => {
                let r = match self {
                    Arithmetic::Add => x.checked_add(*y),
                    Arithmetic::Subtract => x.checked_sub(*y),
                    Arithmetic::Multiply => x.checked_mul(*y),
                };
                match r {
                    Some(n) => Some(DataValue::Number(n)),
                    None => None,
                }
            },
            (DataValue::String(x), DataValue::String(y)) => match self {
                Arithmetic::Add => Some(DataValue::String(x.clone().concat(y.as_str()))),
                _ => None,
            },
            _ => None,
        }
    }
}

impl Condition {
    /// Reads a condition; nothing where the text is none.
    pub fn parse(text: &str) -> (r: Option<Condition>)
        ensures
            match r {
                Some(c) => parse_condition(text@) == Some(c@),
                None => parse_condition(text@) is None,
            },
    {
        let chars = chars_of(text);
        match split(&chars) {
            None => if same_text(text, "true") {
                Some(Condition::Always)
            } else if same_text(text, "false") {
                Some(Condition::Never)
            } else {
                None
            },
            Some((left, rest)) => match split(&rest) {
                None => None,
                Some((op, right)) => {
                    let right = text_of(&right, 0, right.len());
                    assert(right@ =~= split_at_space(rest@).unwrap().1);
                    match Comparison::parse(op.as_str()) {
                        Some(c) => Some(Condition::Compare(Operand::parse(left), c, Operand::parse(right))),
                        None => None,
                    }
                },
            },
        }
    }

    /// Decides the condition on a payload.
    pub fn holds(&self, data: &DataValue) -> (r: bool)
        ensures
            r == self@.holds(data@),
    {
        match self {
            Condition::Always => true,
            Condition::Never => false,
            Condition::Compare(left, op, right) => match (left.eval(data), right.eval(data)) {
                (Some(a), Some(b)) => op.holds(a, b),
                _ => false,
            },
        }
    }
}

impl Expression {
    /// Reads an expression; nothing where the text is none.
    pub fn parse(text: &str) -> (r: Option<Expression>)
        ensures
            match r {
                Some(e) => parse_expression(text@) == Some(e@),
                None => parse_expression(text@) is None,
            },
    {
        match DataValue::from_json_text(text) {
            Some(v) => Some(Expression::Single(Operand::Literal(v))),
            None => {
                let chars = chars_of(text);
                match split(&chars) {
                    None => Some(Expression::Single(Operand::Field(text.to_owned()))),
                    Some((left, rest)) => match split(&rest) {
                        None => None,
                        Some((op, right)) => {
                            let right = text_of(&right, 0, right.len());
                            assert(right@ =~= split_at_space(rest@).unwrap().1);
                            match Arithmetic::parse(op.as_str()) {
                                Some(a) => Some(
                                    Expression::Binary(Operand::parse(left), a, Operand::parse(right)),
                                ),
                                None => None,
                            }
                        },
                    },
                }
            },
        }
    }

    /// Evaluates the expression on a payload.
    pub fn eval(&self, data: &DataValue) -> (r: Option<DataValue>)
        ensures
            match r {
                Some(v) => self@.eval(data@) == Some(v@),
                None => self@.eval(data@) is None,
            },
    {
        match self {
            Expression::Single(t) => match t.eval(data) {
                Some(v) => Some(v.duplicate()),
                None => None,
            },
            Expression::Binary(left, op, right) => match (left.eval(data), right.eval(data)) {
                (Some(a), Some(b)) => op.apply(a, b),
                _ => None,
            },
        }
    }
}

} // verus!
