use vstd::prelude::*;

use crate::diagnostic::{DiagnosticHolder, UnitView};
use crate::parser::{same_tree, Expression};

verus! {

/// The semantic type of a bound node.
#[derive(Clone, Copy, Debug, PartialEq, Eq, Structural)]
pub enum BoundType {
    Unidentified,
    String,
    Bool,
    Number,
}

pub open spec fn type_text(t: BoundType) -> Seq<char> {
    match t {
        BoundType::Unidentified => "unidentified"@,
        BoundType::String => "string"@,
        BoundType::Bool => "bool"@,
        BoundType::Number => "number"@,
    }
}

impl BoundType {
    /// The name of the type as diagnostics show it.
    pub fn to_string(&self) -> (r: String)
        ensures
            r@ == type_text(*self),
    {
        match self {
            BoundType::Unidentified => String::from_str("unidentified"),
            BoundType::String => String::from_str("string"),
            BoundType::Bool => String::from_str("bool"),
            BoundType::Number => String::from_str("number"),
        }
    }
}

/// The typed syntax tree. Leaves keep their literal text; an operand is
/// `None` where the untyped operand was missing.
#[derive(Debug, PartialEq)]
pub enum BoundExpression {
    Literal(String),
    Identifier(String),
    Bool(String),
    Number(String),
    Identity(Box<Option<BoundExpression>>),
    Negation(Box<Option<BoundExpression>>),
    LogicalNot(Box<Option<BoundExpression>>),
    LogicalAnd(Box<Option<BoundExpression>>, Box<Option<BoundExpression>>),
    LogicalOr(Box<Option<BoundExpression>>, Box<Option<BoundExpression>>),
    Addition(Box<Option<BoundExpression>>, Box<Option<BoundExpression>>),
    Subtraction(Box<Option<BoundExpression>>, Box<Option<BoundExpression>>),
    Multiplication(Box<Option<BoundExpression>>, Box<Option<BoundExpression>>),
    Division(Box<Option<BoundExpression>>, Box<Option<BoundExpression>>),
    Remainder(Box<Option<BoundExpression>>, Box<Option<BoundExpression>>),
    Equal(Box<Option<BoundExpression>>, Box<Option<BoundExpression>>),
    NotEqual(Box<Option<BoundExpression>>, Box<Option<BoundExpression>>),
    Parenthesis(Box<Option<BoundExpression>>),
}

/// The type of a node: prefix operators and parentheses pass their
/// operand's type on; a missing node is `Unidentified`.
pub open spec fn type_of(b: Option<BoundExpression>) -> BoundType
    decreases b,
{
    match b {
        None => BoundType::Unidentified,
        Some(e) => match e {
            BoundExpression::Literal(_) => BoundType::String,
            BoundExpression::Identifier(_) => BoundType::Unidentified,
            BoundExpression::Bool(_) => BoundType::Bool,
            BoundExpression::Number(_) => BoundType::Number,
            BoundExpression::Identity(x) => type_of(*x),
            BoundExpression::Negation(x) => type_of(*x),
            BoundExpression::LogicalNot(x) => type_of(*x),
            BoundExpression::LogicalAnd(_, _) => BoundType::Bool,
            BoundExpression::LogicalOr(_, _) => BoundType::Bool,
            BoundExpression::Addition(_, _) => BoundType::Number,
            BoundExpression::Subtraction(_, _) => BoundType::Number,
            BoundExpression::Multiplication(_, _) => BoundType::Number,
            BoundExpression::Division(_, _) => BoundType::Number,
            BoundExpression::Remainder(_, _) => BoundType::Number,
            BoundExpression::Equal(_, _) => BoundType::Bool,
            BoundExpression::NotEqual(_, _) => BoundType::Bool,
            BoundExpression::Parenthesis(x) => type_of(*x),
        },
    }
}

/// The type of an operand slot; `Unidentified` when it is empty.
pub fn type_of_operand(b: &Option<BoundExpression>) -> (r: BoundType)
    ensures
        r == type_of(*b),
    decreases b, 1nat,
{
    match b {
        None => BoundType::Unidentified,
        Some(e) => e.get_type(),
    }
}

impl BoundExpression {
    pub fn get_type(&self) -> (r: BoundType)
        ensures
            r == type_of(Some(*self)),
        decreases self, 0nat,
    {
        match self {
            BoundExpression::Literal(_) => BoundType::String,
            BoundExpression::Identifier(_) => BoundType::Unidentified,
            BoundExpression::Bool(_) => BoundType::Bool,
            BoundExpression::Number(_) => BoundType::Number,
            BoundExpression::Identity(x) => type_of_operand(x),
            BoundExpression::Negation(x) => type_of_operand(x),
            BoundExpression::LogicalNot(x) => type_of_operand(x),
            BoundExpression::LogicalAnd(_, _) => BoundType::Bool,
            BoundExpression::LogicalOr(_, _) => BoundType::Bool,
            BoundExpression::Addition(_, _) => BoundType::Number,
            BoundExpression::Subtraction(_, _) => BoundType::Number,
            BoundExpression::Multiplication(_, _) => BoundType::Number,
            BoundExpression::Division(_, _) => BoundType::Number,
            BoundExpression::Remainder(_, _) => BoundType::Number,
            BoundExpression::Equal(_, _) => BoundType::Bool,
            BoundExpression::NotEqual(_, _) => BoundType::Bool,
            BoundExpression::Parenthesis(x) => type_of_operand(x),
        }
    }
}

pub open spec fn unary_message(operation: Seq<char>, t: BoundType) -> Seq<char> {
    "Cannot apply "@ + operation + " on type \""@ + type_text(t) + "\""@
}

pub open spec fn binary_message(operation: Seq<char>, l: BoundType, r: BoundType) -> Seq<char> {
    "Cannot apply "@ + operation + " on type \""@ + type_text(l) + "\" and \""@ + type_text(r)
        + "\""@
}

/// The error of a prefix operator whose operand is not of type `expected`.
pub open spec fn unary_check(operation: Seq<char>, t: BoundType, expected: BoundType) -> Seq<
    UnitView,
> {
    if t != expected {
        seq![UnitView::Error(unary_message(operation, t))]
    } else {
        Seq::empty()
    }
}

/// The error of an infix operator whose operands are not both of type `expected`.
pub open spec fn binary_check(
    operation: Seq<char>,
    l: BoundType,
    r: BoundType,
    expected: BoundType,
) -> Seq<UnitView> {
    if l != expected || r != expected {
        seq![UnitView::Error(binary_message(operation, l, r))]
    } else {
        Seq::empty()
    }
}

/// The error of a comparison with an operand of no known type.
pub open spec fn comparison_check(operation: Seq<char>, l: BoundType, r: BoundType) -> Seq<
    UnitView,
> {
    if l == BoundType::Unidentified || r == BoundType::Unidentified {
        seq![UnitView::Error(binary_message(operation, l, r))]
    } else {
        Seq::empty()
    }
}

/// The number of nodes of a tree, missing ones counted too.
pub open spec fn tree_size(e: Option<Expression>) -> nat
    decreases e,
{
    match e {
        None => 1,
        Some(x) => match x {
            Expression::Positive(o) => 1 + tree_size(*o),
            Expression::Negative(o) => 1 + tree_size(*o),
            Expression::NOT(o) => 1 + tree_size(*o),
            Expression::Parenthesis(o) => 1 + tree_size(*o),
            Expression::AND(l, r) => 1 + tree_size(*l) + tree_size(*r),
            Expression::OR(l, r) => 1 + tree_size(*l) + tree_size(*r),
            Expression::Addition(l, r) => 1 + tree_size(*l) + tree_size(*r),
            Expression::Subtraction(l, r) => 1 + tree_size(*l) + tree_size(*r),
            Expression::Multiplication(l, r) => 1 + tree_size(*l) + tree_size(*r),
            Expression::Division(l, r) => 1 + tree_size(*l) + tree_size(*r),
            Expression::Remainder(l, r) => 1 + tree_size(*l) + tree_size(*r),
            Expression::Equal(l, r) => 1 + tree_size(*l) + tree_size(*r),
            Expression::NotEqual(l, r) => 1 + tree_size(*l) + tree_size(*r),
            _ => 1,
        },
    }
}

/// The bound tree of `e` and the type errors found in it, bottom-up, left to right.
pub open spec fn bind_tree(e: Option<Expression>) -> (Option<BoundExpression>, Seq<UnitView>)
    decreases e,
{
    match e {
        None => (None, Seq::empty()),
        Some(x) => match x {
            Expression::Literal(t) => (Some(BoundExpression::Literal(t.literal)), Seq::empty()),
            Expression::Identifier(t) => (
                Some(BoundExpression::Identifier(t.literal)),
                Seq::empty(),
            ),
            Expression::Bool(t) => (Some(BoundExpression::Bool(t.literal)), Seq::empty()),
            Expression::Number(t) => (Some(BoundExpression::Number(t.literal)), Seq::empty()),
            Expression::Positive(o) => {
                let (b, d) = bind_tree(*o);
                (
                    Some(BoundExpression::Identity(Box::new(b))),
                    d + unary_check("positive"@, type_of(b), BoundType::Number),
                )
            },
            Expression::Negative(o) => {
                let (b, d) = bind_tree(*o);
                (
                    Some(BoundExpression::Negation(Box::new(b))),
                    d + unary_check("negative"@, type_of(b), BoundType::Number),
                )
            },
            Expression::NOT(o) => {
                let (b, d) = bind_tree(*o);
                (
                    Some(BoundExpression::LogicalNot(Box::new(b))),
                    d + unary_check("logical NOT"@, type_of(b), BoundType::Bool),
                )
            },
            Expression::AND(l, r) => {
                let (bl, dl) = bind_tree(*l);
                let (br, dr) = bind_tree(*r);
                (
                    Some(BoundExpression::LogicalAnd(Box::new(bl), Box::new(br))),
                    dl + dr + binary_check("logical AND"@, type_of(bl), type_of(br), BoundType::Bool),
                )
            },
            Expression::OR(l, r) => {
                let (bl, dl) = bind_tree(*l);
                let (br, dr) = bind_tree(*r);
                (
                    Some(BoundExpression::LogicalOr(Box::new(bl), Box::new(br))),
                    dl + dr + binary_check("logical OR"@, type_of(bl), type_of(br), BoundType::Bool),
                )
            },
            Expression::Addition(l, r) => {
                let (bl, dl) = bind_tree(*l);
                let (br, dr) = bind_tree(*r);
                (
                    Some(BoundExpression::Addition(Box::new(bl), Box::new(br))),
                    dl + dr + binary_check("addition"@, type_of(bl), type_of(br), BoundType::Number),
                )
            },
            Expression::Subtraction(l, r) => {
                let (bl, dl) = bind_tree(*l);
                let (br, dr) = bind_tree(*r);
                (
                    Some(BoundExpression::Subtraction(Box::new(bl), Box::new(br))),
                    dl + dr + binary_check(
                        "subtraction"@,
                        type_of(bl),
                        type_of(br),
                        BoundType::Number,
                    ),
                )
            },
            Expression::Multiplication(l, r) => {
                let (bl, dl) = bind_tree(*l);
                let (br, dr) = bind_tree(*r);
                (
                    Some(BoundExpression::Multiplication(Box::new(bl), Box::new(br))),
                    dl + dr + binary_check(
                        "multiplication"@,
                        type_of(bl),
                        type_of(br),
                        BoundType::Number,
                    ),
                )
            },
            Expression::Division(l, r) => {
                let (bl, dl) = bind_tree(*l);
                let (br, dr) = bind_tree(*r);
                (
                    Some(BoundExpression::Division(Box::new(bl), Box::new(br))),
                    dl + dr + binary_check("division"@, type_of(bl), type_of(br), BoundType::Number),
                )
            },
            Expression::Remainder(l, r) => {
                let (bl, dl) = bind_tree(*l);
                let (br, dr) = bind_tree(*r);
                (
                    Some(BoundExpression::Remainder(Box::new(bl), Box::new(br))),
                    dl + dr + binary_check(
                        "remainder"@,
                        type_of(bl),
                        type_of(br),
                        BoundType::Number,
                    ),
                )
            },
            Expression::Equal(l, r) => {
                let (bl, dl) = bind_tree(*l);
                let (br, dr) = bind_tree(*r);
                (
                    Some(BoundExpression::Equal(Box::new(bl), Box::new(br))),
                    dl + dr + comparison_check("equality"@, type_of(bl), type_of(br)),
                )
            },
            Expression::NotEqual(l, r) => {
                let (bl, dl) = bind_tree(*l);
                let (br, dr) = bind_tree(*r);
                (
                    Some(BoundExpression::NotEqual(Box::new(bl), Box::new(br))),
                    dl + dr + comparison_check("inequality"@, type_of(bl), type_of(br)),
                )
            },
            Expression::Parenthesis(o) => {
                let (b, d) = bind_tree(*o);
                (Some(BoundExpression::Parenthesis(Box::new(b))), d)
            },
        },
    }
}


fn unary_error(operation: &str, t: BoundType) -> (r: String)
    ensures
        r@ == unary_message(operation@, t),
{
    let mut m = String::from_str("Cannot apply ");
    m.append(operation);
    m.append(" on type \"");
    let name = t.to_string();
    m.append(name.as_str());
    m.append("\"");
    m
}

fn binary_error(operation: &str, l: BoundType, r: BoundType) -> (m: String)
    ensures
        m@ == binary_message(operation@, l, r),
{
    let mut m = String::from_str("Cannot apply ");
    m.append(operation);
    m.append(" on type \"");
    let left = l.to_string();
    m.append(left.as_str());
    m.append("\" and \"");
    let right = r.to_string();
    m.append(right.as_str());
    m.append("\"");
    m
}

/// Reports a prefix operator applied to an operand not of type `expected`.
fn check_unary(operation: &str, t: BoundType, expected: BoundType, holder: &mut DiagnosticHolder)
    ensures
        final(holder)@ == old(holder)@ + unary_check(operation@, t, expected),
{
    if t != expected {
        let m = unary_error(operation, t);
        holder.error(m.as_str());
        assert(holder@ =~= old(holder)@ + unary_check(operation@, t, expected));
    } else {
        assert(holder@ =~= old(holder)@ + unary_check(operation@, t, expected));
    }
}

/// Reports an infix operator applied to operands not both of type `expected`.
fn check_binary(
    operation: &str,
    l: BoundType,
    r: BoundType,
    expected: BoundType,
    holder: &mut DiagnosticHolder,
)
    ensures
        final(holder)@ == old(holder)@ + binary_check(operation@, l, r, expected),
{
    if l != expected || r != expected {
        let m = binary_error(operation, l, r);
        holder.error(m.as_str());
        assert(holder@ =~= old(holder)@ + binary_check(operation@, l, r, expected));
    } else {
        assert(holder@ =~= old(holder)@ + binary_check(operation@, l, r, expected));
    }
}

/// Reports a comparison with an operand of no known type.
fn check_comparison(operation: &str, l: BoundType, r: BoundType, holder: &mut DiagnosticHolder)
    ensures
        final(holder)@ == old(holder)@ + comparison_check(operation@, l, r),
{
    if l == BoundType::Unidentified || r == BoundType::Unidentified {
        let m = binary_error(operation, l, r);
        holder.error(m.as_str());
        assert(holder@ =~= old(holder)@ + comparison_check(operation@, l, r));
    } else {
        assert(holder@ =~= old(holder)@ + comparison_check(operation@, l, r));
    }
}

/// Resolves the type of each node of an untyped tree and checks operators
/// against the types of their operands.
pub struct Binder {}

impl Binder {
    pub fn new() -> (r: Self) {
        Binder {  }
    }

    /// Binds `expression`, or returns `None` at once when `holder` already
    /// reports a failure.
    pub fn bind_expression(&self, expression: Option<Expression>, holder: &mut DiagnosticHolder) -> (r:
        Option<BoundExpression>)
        ensures
            old(holder)@.len() > 0 ==> r == None::<BoundExpression> && final(holder)@ == old(
                holder,
            )@,
            old(holder)@.len() == 0 ==> r == bind_tree(expression).0 && final(holder)@ == bind_tree(
                expression,
            ).1,
    {
        if !holder.success() {
            return None;
        }
        let r = self.bind(expression, holder);
        assert(holder@ =~= bind_tree(expression).1);
        r
    }

    fn bind(&self, expression: Option<Expression>, holder: &mut DiagnosticHolder) -> (r: Option<
        BoundExpression,
    >)
        ensures
            r == bind_tree(expression).0,
            final(holder)@ == old(holder)@ + bind_tree(expression).1,
        decreases tree_size(expression), 2nat,
    {
        assert(holder@ + Seq::<UnitView>::empty() =~= holder@);
        match expression {
            None => None,
            Some(e) => match e {
                Expression::Literal(t) => Some(BoundExpression::Literal(t.literal)),
                Expression::Identifier(t) => Some(BoundExpression::Identifier(t.literal)),
                Expression::Bool(t) => Some(BoundExpression::Bool(t.literal)),
                Expression::Number(t) => Some(BoundExpression::Number(t.literal)),
                Expression::Positive(o) => self.bind_positive(o, holder),
                Expression::Negative(o) => self.bind_negative(o, holder),
                Expression::NOT(o) => self.bind_not(o, holder),
                Expression::Parenthesis(o) => self.bind_parenthesis(o, holder),
                Expression::AND(l, r) => self.bind_and(l, r, holder),
                Expression::OR(l, r) => self.bind_or(l, r, holder),
                Expression::Addition(l, r) => self.bind_addition(l, r, holder),
                Expression::Subtraction(l, r) => self.bind_subtraction(l, r, holder),
                Expression::Multiplication(l, r) => self.bind_multiplication(l, r, holder),
                Expression::Division(l, r) => self.bind_division(l, r, holder),
                Expression::Remainder(l, r) => self.bind_remainder(l, r, holder),
                Expression::Equal(l, r) => self.bind_equal(l, r, holder),
                Expression::NotEqual(l, r) => self.bind_not_equal(l, r, holder),
            },
        }
    }

    fn bind_positive(&self, operand: Box<Option<Expression>>, holder: &mut DiagnosticHolder) -> (r:
        Option<BoundExpression>)
        ensures
            r == bind_tree(Some(Expression::Positive(operand))).0,
            final(holder)@ == old(holder)@ + bind_tree(Some(Expression::Positive(operand))).1,
        decreases tree_size(Some(Expression::Positive(operand))), 1nat,
    {
        let ghost h0 = holder@;
        let b = self.bind(*operand, holder);
        let t = type_of_operand(&b);
        check_unary("positive", t, BoundType::Number, holder);
        assert(holder@ =~= h0 + bind_tree(Some(Expression::Positive(operand))).1);
        Some(BoundExpression::Identity(Box::new(b)))
    }

    fn bind_negative(&self, operand: Box<Option<Expression>>, holder: &mut DiagnosticHolder) -> (r:
        Option<BoundExpression>)
        ensures
            r == bind_tree(Some(Expression::Negative(operand))).0,
            final(holder)@ == old(holder)@ + bind_tree(Some(Expression::Negative(operand))).1,
        decreases tree_size(Some(Expression::Negative(operand))), 1nat,
    {
        let ghost h0 = holder@;
        let b = self.bind(*operand, holder);
        let t = type_of_operand(&b);
        check_unary("negative", t, BoundType::Number, holder);
        assert(holder@ =~= h0 + bind_tree(Some(Expression::Negative(operand))).1);
        Some(BoundExpression::Negation(Box::new(b)))
    }

    fn bind_not(&self, operand: Box<Option<Expression>>, holder: &mut DiagnosticHolder) -> (r:
        Option<BoundExpression>)
        ensures
            r == bind_tree(Some(Expression::NOT(operand))).0,
            final(holder)@ == old(holder)@ + bind_tree(Some(Expression::NOT(operand))).1,
        decreases tree_size(Some(Expression::NOT(operand))), 1nat,
    {
        let ghost h0 = holder@;
        let b = self.bind(*operand, holder);
        let t = type_of_operand(&b);
        check_unary("logical NOT", t, BoundType::Bool, holder);
        assert(holder@ =~= h0 + bind_tree(Some(Expression::NOT(operand))).1);
        Some(BoundExpression::LogicalNot(Box::new(b)))
    }

    fn bind_parenthesis(&self, operand: Box<Option<Expression>>, holder: &mut DiagnosticHolder) -> (r:
        Option<BoundExpression>)
        ensures
            r == bind_tree(Some(Expression::Parenthesis(operand))).0,
            final(holder)@ == old(holder)@ + bind_tree(Some(Expression::Parenthesis(operand))).1,
        decreases tree_size(Some(Expression::Parenthesis(operand))), 1nat,
    {
        let ghost h0 = holder@;
        let b = self.bind(*operand, holder);
        let _t = type_of_operand(&b);
        assert(holder@ =~= h0 + bind_tree(Some(Expression::Parenthesis(operand))).1);
        Some(BoundExpression::Parenthesis(Box::new(b)))
    }

    fn bind_and(
        &self,
        left: Box<Option<Expression>>,
        right: Box<Option<Expression>>,
        holder: &mut DiagnosticHolder,
    ) -> (r: Option<BoundExpression>)
        ensures
            r == bind_tree(Some(Expression::AND(left, right))).0,
            final(holder)@ == old(holder)@ + bind_tree(Some(Expression::AND(left, right))).1,
        decreases tree_size(Some(Expression::AND(left, right))), 1nat,
    {
        let ghost h0 = holder@;
        let bl = self.bind(*left, holder);
        let br = self.bind(*right, holder);
        let tl = type_of_operand(&bl);
        let tr = type_of_operand(&br);
        check_binary("logical AND", tl, tr, BoundType::Bool, holder);
        assert(holder@ =~= h0 + bind_tree(Some(Expression::AND(left, right))).1);
        Some(BoundExpression::LogicalAnd(Box::new(bl), Box::new(br)))
    }

    fn bind_or(
        &self,
        left: Box<Option<Expression>>,
        right: Box<Option<Expression>>,
        holder: &mut DiagnosticHolder,
    ) -> (r: Option<BoundExpression>)
        ensures
            r == bind_tree(Some(Expression::OR(left, right))).0,
            final(holder)@ == old(holder)@ + bind_tree(Some(Expression::OR(left, right))).1,
        decreases tree_size(Some(Expression::OR(left, right))), 1nat,
    {
        let ghost h0 = holder@;
        let bl = self.bind(*left, holder);
        let br = self.bind(*right, holder);
        let tl = type_of_operand(&bl);
        let tr = type_of_operand(&br);
        check_binary("logical OR", tl, tr, BoundType::Bool, holder);
        assert(holder@ =~= h0 + bind_tree(Some(Expression::OR(left, right))).1);
        Some(BoundExpression::LogicalOr(Box::new(bl), Box::new(br)))
    }

    fn bind_addition(
        &self,
        left: Box<Option<Expression>>,
        right: Box<Option<Expression>>,
        holder: &mut DiagnosticHolder,
    ) -> (r: Option<BoundExpression>)
        ensures
            r == bind_tree(Some(Expression::Addition(left, right))).0,
            final(holder)@ == old(holder)@ + bind_tree(Some(Expression::Addition(left, right))).1,
        decreases tree_size(Some(Expression::Addition(left, right))), 1nat,
    {
        let ghost h0 = holder@;
        let bl = self.bind(*left, holder);
        let br = self.bind(*right, holder);
        let tl = type_of_operand(&bl);
        let tr = type_of_operand(&br);
        check_binary("addition", tl, tr, BoundType::Number, holder);
        assert(holder@ =~= h0 + bind_tree(Some(Expression::Addition(left, right))).1);
        Some(BoundExpression::Addition(Box::new(bl), Box::new(br)))
    }

    fn bind_subtraction(
        &self,
        left: Box<Option<Expression>>,
        right: Box<Option<Expression>>,
        holder: &mut DiagnosticHolder,
    ) -> (r: Option<BoundExpression>)
        ensures
            r == bind_tree(Some(Expression::Subtraction(left, right))).0,
            final(holder)@ == old(holder)@ + bind_tree(Some(Expression::Subtraction(left, right))).1,
        decreases tree_size(Some(Expression::Subtraction(left, right))), 1nat,
    {
        let ghost h0 = holder@;
        let bl = self.bind(*left, holder);
        let br = self.bind(*right, holder);
        let tl = type_of_operand(&bl);
        let tr = type_of_operand(&br);
        check_binary("subtraction", tl, tr, BoundType::Number, holder);
        assert(holder@ =~= h0 + bind_tree(Some(Expression::Subtraction(left, right))).1);
        Some(BoundExpression::Subtraction(Box::new(bl), Box::new(br)))
    }

    fn bind_multiplication(
        &self,
        left: Box<Option<Expression>>,
        right: Box<Option<Expression>>,
        holder: &mut DiagnosticHolder,
    ) -> (r: Option<BoundExpression>)
        ensures
            r == bind_tree(Some(Expression::Multiplication(left, right))).0,
            final(holder)@ == old(holder)@ + bind_tree(Some(Expression::Multiplication(left, right))).1,
        decreases tree_size(Some(Expression::Multiplication(left, right))), 1nat,
    {
        let ghost h0 = holder@;
        let bl = self.bind(*left, holder);
        let br = self.bind(*right, holder);
        let tl = type_of_operand(&bl);
        let tr = type_of_operand(&br);
        check_binary("multiplication", tl, tr, BoundType::Number, holder);
        assert(holder@ =~= h0 + bind_tree(Some(Expression::Multiplication(left, right))).1);
        Some(BoundExpression::Multiplication(Box::new(bl), Box::new(br)))
    }

    fn bind_division(
        &self,
        left: Box<Option<Expression>>,
        right: Box<Option<Expression>>,
        holder: &mut DiagnosticHolder,
    ) -> (r: Option<BoundExpression>)
        ensures
            r == bind_tree(Some(Expression::Division(left, right))).0,
            final(holder)@ == old(holder)@ + bind_tree(Some(Expression::Division(left, right))).1,
        decreases tree_size(Some(Expression::Division(left, right))), 1nat,
    {
        let ghost h0 = holder@;
        let bl = self.bind(*left, holder);
        let br = self.bind(*right, holder);
        let tl = type_of_operand(&bl);
        let tr = type_of_operand(&br);
        check_binary("division", tl, tr, BoundType::Number, holder);
        assert(holder@ =~= h0 + bind_tree(Some(Expression::Division(left, right))).1);
        Some(BoundExpression::Division(Box::new(bl), Box::new(br)))
    }

    fn bind_remainder(
        &self,
        left: Box<Option<Expression>>,
        right: Box<Option<Expression>>,
        holder: &mut DiagnosticHolder,
    ) -> (r: Option<BoundExpression>)
        ensures
            r == bind_tree(Some(Expression::Remainder(left, right))).0,
            final(holder)@ == old(holder)@ + bind_tree(Some(Expression::Remainder(left, right))).1,
        decreases tree_size(Some(Expression::Remainder(left, right))), 1nat,
    {
        let ghost h0 = holder@;
        let bl = self.bind(*left, holder);
        let br = self.bind(*right, holder);
        let tl = type_of_operand(&bl);
        let tr = type_of_operand(&br);
        check_binary("remainder", tl, tr, BoundType::Number, holder);
        assert(holder@ =~= h0 + bind_tree(Some(Expression::Remainder(left, right))).1);
        Some(BoundExpression::Remainder(Box::new(bl), Box::new(br)))
    }

    fn bind_equal(
        &self,
        left: Box<Option<Expression>>,
        right: Box<Option<Expression>>,
        holder: &mut DiagnosticHolder,
    ) -> (r: Option<BoundExpression>)
        ensures
            r == bind_tree(Some(Expression::Equal(left, right))).0,
            final(holder)@ == old(holder)@ + bind_tree(Some(Expression::Equal(left, right))).1,
        decreases tree_size(Some(Expression::Equal(left, right))), 1nat,
    {
        let ghost h0 = holder@;
        let bl = self.bind(*left, holder);
        let br = self.bind(*right, holder);
        let tl = type_of_operand(&bl);
        let tr = type_of_operand(&br);
        check_comparison("equality", tl, tr, holder);
        assert(holder@ =~= h0 + bind_tree(Some(Expression::Equal(left, right))).1);
        Some(BoundExpression::Equal(Box::new(bl), Box::new(br)))
    }

    fn bind_not_equal(
        &self,
        left: Box<Option<Expression>>,
        right: Box<Option<Expression>>,
        holder: &mut DiagnosticHolder,
    ) -> (r: Option<BoundExpression>)
        ensures
            r == bind_tree(Some(Expression::NotEqual(left, right))).0,
            final(holder)@ == old(holder)@ + bind_tree(Some(Expression::NotEqual(left, right))).1,
        decreases tree_size(Some(Expression::NotEqual(left, right))), 1nat,
    {
        let ghost h0 = holder@;
        let bl = self.bind(*left, holder);
        let br = self.bind(*right, holder);
        let tl = type_of_operand(&bl);
        let tr = type_of_operand(&br);
        check_comparison("inequality", tl, tr, holder);
        assert(holder@ =~= h0 + bind_tree(Some(Expression::NotEqual(left, right))).1);
        Some(BoundExpression::NotEqual(Box::new(bl), Box::new(br)))
    }
}

/// Mixing a boolean and a number under `||` or `&&` fails binding with exactly
/// one error, which names the left operand's type, then the right one's.
pub proof fn lemma_logic_on_number_and_bool(l: Option<Expression>, r: Option<Expression>)
    requires
        bind_tree(l).1.len() == 0,
        bind_tree(r).1.len() == 0,
        (type_of(bind_tree(l).0) == BoundType::Number && type_of(bind_tree(r).0) == BoundType::Bool)
            || (type_of(bind_tree(l).0) == BoundType::Bool && type_of(bind_tree(r).0)
            == BoundType::Number),
    ensures
        bind_tree(Some(Expression::OR(Box::new(l), Box::new(r)))).1 == seq![
            UnitView::Error(
                binary_message(
                    "logical OR"@,
                    type_of(bind_tree(l).0),
                    type_of(bind_tree(r).0),
                ),
            ),
        ],
        bind_tree(Some(Expression::AND(Box::new(l), Box::new(r)))).1 == seq![
            UnitView::Error(
                binary_message(
                    "logical AND"@,
                    type_of(bind_tree(l).0),
                    type_of(bind_tree(r).0),
                ),
            ),
        ],
{
    let tl = type_of(bind_tree(l).0);
    let tr = type_of(bind_tree(r).0);
    assert(bind_tree(l).1 + bind_tree(r).1 + binary_check("logical OR"@, tl, tr, BoundType::Bool)
        =~= binary_check("logical OR"@, tl, tr, BoundType::Bool));
    assert(bind_tree(l).1 + bind_tree(r).1 + binary_check("logical AND"@, tl, tr, BoundType::Bool)
        =~= binary_check("logical AND"@, tl, tr, BoundType::Bool));
}


/// The two bound trees have the same shape and the same texts at their leaves.
pub open spec fn same_bound(a: Option<BoundExpression>, b: Option<BoundExpression>) -> bool
    decreases a,
{
    match (a, b) {
        (None, None) => true,
        (Some(x), Some(y)) => match (x, y) {
            (BoundExpression::Literal(s), BoundExpression::Literal(t)) => s@ == t@,
            (BoundExpression::Identifier(s), BoundExpression::Identifier(t)) => s@ == t@,
            (BoundExpression::Bool(s), BoundExpression::Bool(t)) => s@ == t@,
            (BoundExpression::Number(s), BoundExpression::Number(t)) => s@ == t@,
            (BoundExpression::Identity(p), BoundExpression::Identity(q)) => same_bound(*p, *q),
            (BoundExpression::Negation(p), BoundExpression::Negation(q)) => same_bound(*p, *q),
            (BoundExpression::LogicalNot(p), BoundExpression::LogicalNot(q)) => same_bound(*p, *q),
            (BoundExpression::Parenthesis(p), BoundExpression::Parenthesis(q)) => same_bound(*p, *q),
            (BoundExpression::LogicalAnd(l1, r1), BoundExpression::LogicalAnd(l2, r2)) => same_bound(
                *l1,
                *l2,
            ) && same_bound(*r1, *r2),
            (BoundExpression::LogicalOr(l1, r1), BoundExpression::LogicalOr(l2, r2)) => same_bound(
                *l1,
                *l2,
            ) && same_bound(*r1, *r2),
            (BoundExpression::Addition(l1, r1), BoundExpression::Addition(l2, r2)) => same_bound(
                *l1,
                *l2,
            ) && same_bound(*r1, *r2),
            (BoundExpression::Subtraction(l1, r1), BoundExpression::Subtraction(l2, r2)) => same_bound(
                *l1,
                *l2,
            ) && same_bound(*r1, *r2),
            (BoundExpression::Multiplication(l1, r1), BoundExpression::Multiplication(l2, r2)) => same_bound(
                *l1,
                *l2,
            ) && same_bound(*r1, *r2),
            (BoundExpression::Division(l1, r1), BoundExpression::Division(l2, r2)) => same_bound(
                *l1,
                *l2,
            ) && same_bound(*r1, *r2),
            (BoundExpression::Remainder(l1, r1), BoundExpression::Remainder(l2, r2)) => same_bound(
                *l1,
                *l2,
            ) && same_bound(*r1, *r2),
            (BoundExpression::Equal(l1, r1), BoundExpression::Equal(l2, r2)) => same_bound(
                *l1,
                *l2,
            ) && same_bound(*r1, *r2),
            (BoundExpression::NotEqual(l1, r1), BoundExpression::NotEqual(l2, r2)) => same_bound(
                *l1,
                *l2,
            ) && same_bound(*r1, *r2),
            _ => false,
        },
        _ => false,
    }
}

/// Bound trees alike in shape and texts have the same type.
pub proof fn lemma_same_bound_type(a: Option<BoundExpression>, b: Option<BoundExpression>)
    requires
        same_bound(a, b),
    ensures
        type_of(a) == type_of(b),
    decreases a,
{
    match (a, b) {
        (Some(x), Some(y)) => match (x, y) {
            (BoundExpression::Identity(p), BoundExpression::Identity(q)) => lemma_same_bound_type(*p, *q),
            (BoundExpression::Negation(p), BoundExpression::Negation(q)) => lemma_same_bound_type(*p, *q),
            (BoundExpression::LogicalNot(p), BoundExpression::LogicalNot(q)) => lemma_same_bound_type(
                *p,
                *q,
            ),
            (BoundExpression::Parenthesis(p), BoundExpression::Parenthesis(q)) => lemma_same_bound_type(
                *p,
                *q,
            ),
            _ => {},
        },
        _ => {},
    }
}

/// Binding looks at shapes and texts only: trees alike in those bind alike,
/// with the same diagnostics.
#[verifier::rlimit(100)]
#[verifier::spinoff_prover]
pub proof fn lemma_bind_views(e1: Option<Expression>, e2: Option<Expression>)
    requires
        same_tree(e1, e2),
    ensures
        same_bound(bind_tree(e1).0, bind_tree(e2).0),
        bind_tree(e1).1 == bind_tree(e2).1,
    decreases e1,
{
    match (e1, e2) {
        (Some(x), Some(y)) => match (x, y) {
                (Expression::Positive(p), Expression::Positive(q)) => {
                    lemma_bind_views(*p, *q);
                    lemma_same_bound_type(bind_tree(*p).0, bind_tree(*q).0);
                },
                (Expression::Negative(p), Expression::Negative(q)) => {
                    lemma_bind_views(*p, *q);
                    lemma_same_bound_type(bind_tree(*p).0, bind_tree(*q).0);
                },
                (Expression::NOT(p), Expression::NOT(q)) => {
                    lemma_bind_views(*p, *q);
                    lemma_same_bound_type(bind_tree(*p).0, bind_tree(*q).0);
                },
                (Expression::Parenthesis(p), Expression::Parenthesis(q)) => {
                    lemma_bind_views(*p, *q);
                    lemma_same_bound_type(bind_tree(*p).0, bind_tree(*q).0);
                },
                (Expression::AND(l1, r1), Expression::AND(l2, r2)) => {
                    lemma_bind_views(*l1, *l2);
                    lemma_bind_views(*r1, *r2);
                    lemma_same_bound_type(bind_tree(*l1).0, bind_tree(*l2).0);
                    lemma_same_bound_type(bind_tree(*r1).0, bind_tree(*r2).0);
                },
                (Expression::OR(l1, r1), Expression::OR(l2, r2)) => {
                    lemma_bind_views(*l1, *l2);
                    lemma_bind_views(*r1, *r2);
                    lemma_same_bound_type(bind_tree(*l1).0, bind_tree(*l2).0);
                    lemma_same_bound_type(bind_tree(*r1).0, bind_tree(*r2).0);
                },
                (Expression::Addition(l1, r1), Expression::Addition(l2, r2)) => {
                    lemma_bind_views(*l1, *l2);
                    lemma_bind_views(*r1, *r2);
                    lemma_same_bound_type(bind_tree(*l1).0, bind_tree(*l2).0);
                    lemma_same_bound_type(bind_tree(*r1).0, bind_tree(*r2).0);
                },
                (Expression::Subtraction(l1, r1), Expression::Subtraction(l2, r2)) => {
                    lemma_bind_views(*l1, *l2);
                    lemma_bind_views(*r1, *r2);
                    lemma_same_bound_type(bind_tree(*l1).0, bind_tree(*l2).0);
                    lemma_same_bound_type(bind_tree(*r1).0, bind_tree(*r2).0);
                },
                (Expression::Multiplication(l1, r1), Expression::Multiplication(l2, r2)) => {
                    lemma_bind_views(*l1, *l2);
                    lemma_bind_views(*r1, *r2);
                    lemma_same_bound_type(bind_tree(*l1).0, bind_tree(*l2).0);
                    lemma_same_bound_type(bind_tree(*r1).0, bind_tree(*r2).0);
                },
                (Expression::Division(l1, r1), Expression::Division(l2, r2)) => {
                    lemma_bind_views(*l1, *l2);
                    lemma_bind_views(*r1, *r2);
                    lemma_same_bound_type(bind_tree(*l1).0, bind_tree(*l2).0);
                    lemma_same_bound_type(bind_tree(*r1).0, bind_tree(*r2).0);
                },
                (Expression::Remainder(l1, r1), Expression::Remainder(l2, r2)) => {
                    lemma_bind_views(*l1, *l2);
                    lemma_bind_views(*r1, *r2);
                    lemma_same_bound_type(bind_tree(*l1).0, bind_tree(*l2).0);
                    lemma_same_bound_type(bind_tree(*r1).0, bind_tree(*r2).0);
                },
                (Expression::Equal(l1, r1), Expression::Equal(l2, r2)) => {
                    lemma_bind_views(*l1, *l2);
                    lemma_bind_views(*r1, *r2);
                    lemma_same_bound_type(bind_tree(*l1).0, bind_tree(*l2).0);
                    lemma_same_bound_type(bind_tree(*r1).0, bind_tree(*r2).0);
                },
                (Expression::NotEqual(l1, r1), Expression::NotEqual(l2, r2)) => {
                    lemma_bind_views(*l1, *l2);
                    lemma_bind_views(*r1, *r2);
                    lemma_same_bound_type(bind_tree(*l1).0, bind_tree(*l2).0);
                    lemma_same_bound_type(bind_tree(*r1).0, bind_tree(*r2).0);
                },
            _ => {},
        },
        _ => {},
    }
}

} // verus!
