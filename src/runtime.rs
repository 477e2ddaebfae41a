use vstd::prelude::*;

use crate::binder::{lemma_same_bound_type, same_bound, type_of, type_of_operand, BoundExpression, BoundType};
use crate::diagnostic::DiagnosticHolder;
use crate::utils::to_string;

verus! {

/// The binary arithmetic operations that numbers must provide.
#[derive(Clone, Copy, Debug, PartialEq, Eq, Structural)]
pub enum Operator {
    Add,
    Subtract,
    Multiply,
    Divide,
    Remainder,
}

/// A runtime value. Numbers are of the number type `N` that the caller
/// evaluates with; `Error` is what evaluation yields once a diagnostic exists.
#[derive(Debug, PartialEq)]
pub enum Value<N> {
    String(String),
    Bool(bool),
    Number(N),
    Error,
}

/// The type that a value of each kind has in the bound tree.
pub open spec fn value_type<N>(v: Value<N>) -> Option<BoundType> {
    match v {
        Value::String(_) => Some(BoundType::String),
        Value::Bool(_) => Some(BoundType::Bool),
        Value::Number(_) => Some(BoundType::Number),
        Value::Error => None,
    }
}

/// `d` is the display string of `v`, numbers shown by `show`.
pub open spec fn displays<N, S: Fn(N) -> String>(v: Value<N>, d: String, show: S) -> bool {
    match v {
        Value::String(s) => d@ == s@,
        Value::Bool(b) => d@ == (if b {
            "true"@
        } else {
            "false"@
        }),
        Value::Number(n) => show.ensures((n,), d),
        Value::Error => d@ == "<Error>"@,
    }
}

/// A tree that binding accepted: no identifier, no missing operand, and each
/// operator applied to operands of the type it asks for.
pub open spec fn well_typed(b: Option<BoundExpression>) -> bool
    decreases b,
{
    match b {
        None => false,
        Some(e) => match e {
            BoundExpression::Literal(_) => true,
            BoundExpression::Identifier(_) => false,
            BoundExpression::Bool(_) => true,
            BoundExpression::Number(_) => true,
            BoundExpression::Identity(x) => well_typed(*x) && type_of(*x) == BoundType::Number,
            BoundExpression::Negation(x) => well_typed(*x) && type_of(*x) == BoundType::Number,
            BoundExpression::LogicalNot(x) => well_typed(*x) && type_of(*x) == BoundType::Bool,
            BoundExpression::LogicalAnd(l, r) => well_typed(*l) && well_typed(*r) && type_of(*l)
                == BoundType::Bool && type_of(*r) == BoundType::Bool,
            BoundExpression::LogicalOr(l, r) => well_typed(*l) && well_typed(*r) && type_of(*l)
                == BoundType::Bool && type_of(*r) == BoundType::Bool,
            BoundExpression::Addition(l, r) => well_typed(*l) && well_typed(*r) && type_of(*l)
                == BoundType::Number && type_of(*r) == BoundType::Number,
            BoundExpression::Subtraction(l, r) => well_typed(*l) && well_typed(*r) && type_of(*l)
                == BoundType::Number && type_of(*r) == BoundType::Number,
            BoundExpression::Multiplication(l, r) => well_typed(*l) && well_typed(*r) && type_of(
                *l,
            ) == BoundType::Number && type_of(*r) == BoundType::Number,
            BoundExpression::Division(l, r) => well_typed(*l) && well_typed(*r) && type_of(*l)
                == BoundType::Number && type_of(*r) == BoundType::Number,
            BoundExpression::Remainder(l, r) => well_typed(*l) && well_typed(*r) && type_of(*l)
                == BoundType::Number && type_of(*r) == BoundType::Number,
            BoundExpression::Equal(l, r) => well_typed(*l) && well_typed(*r),
            BoundExpression::NotEqual(l, r) => well_typed(*l) && well_typed(*r),
            BoundExpression::Parenthesis(x) => well_typed(*x),
        },
    }
}

/// The number of nodes of a bound tree, missing ones counted too.
pub open spec fn bound_size(b: Option<BoundExpression>) -> nat
    decreases b,
{
    match b {
        None => 1,
        Some(e) => match e {
            BoundExpression::Identity(x) => 1 + bound_size(*x),
            BoundExpression::Negation(x) => 1 + bound_size(*x),
            BoundExpression::LogicalNot(x) => 1 + bound_size(*x),
            BoundExpression::Parenthesis(x) => 1 + bound_size(*x),
            BoundExpression::LogicalAnd(l, r) => 1 + bound_size(*l) + bound_size(*r),
            BoundExpression::LogicalOr(l, r) => 1 + bound_size(*l) + bound_size(*r),
            BoundExpression::Addition(l, r) => 1 + bound_size(*l) + bound_size(*r),
            BoundExpression::Subtraction(l, r) => 1 + bound_size(*l) + bound_size(*r),
            BoundExpression::Multiplication(l, r) => 1 + bound_size(*l) + bound_size(*r),
            BoundExpression::Division(l, r) => 1 + bound_size(*l) + bound_size(*r),
            BoundExpression::Remainder(l, r) => 1 + bound_size(*l) + bound_size(*r),
            BoundExpression::Equal(l, r) => 1 + bound_size(*l) + bound_size(*r),
            BoundExpression::NotEqual(l, r) => 1 + bound_size(*l) + bound_size(*r),
            _ => 1,
        },
    }
}

/// Conjunction or disjunction of two booleans.
pub open spec fn logic(conjunction: bool, a: bool, c: bool) -> bool {
    if conjunction {
        a && c
    } else {
        a || c
    }
}

/// `v` is a result of evaluating `b`, where numbers are read, negated,
/// combined and shown by the given operations.
pub open spec fn evaluates_to<N, P, G, A, S>(
    b: Option<BoundExpression>,
    v: Value<N>,
    parse: P,
    negate: G,
    apply: A,
    show: S,
) -> bool where P: Fn(String) -> N, G: Fn(N) -> N, A: Fn(Operator, N, N) -> N, S: Fn(N) -> String
    decreases bound_size(b), 1nat,
{
    match b {
        None => false,
        Some(e) => match e {
            BoundExpression::Literal(s) => v == Value::<N>::String(s),
            BoundExpression::Identifier(_) => false,
            BoundExpression::Bool(s) => v == Value::<N>::Bool(s@ == "true"@),
            BoundExpression::Number(s) => v is Number && parse.ensures((s,), v->Number_0),
            BoundExpression::Identity(x) => evaluates_to(*x, v, parse, negate, apply, show),
            BoundExpression::Negation(x) => exists|a: N, n: N|
                #![trigger negate.ensures((a,), n)]
                evaluates_to(*x, Value::Number(a), parse, negate, apply, show) && negate.ensures(
                    (a,),
                    n,
                ) && v == Value::Number(n),
            BoundExpression::LogicalNot(x) => v is Bool && evaluates_to(
                *x,
                Value::<N>::Bool(!v->Bool_0),
                parse,
                negate,
                apply,
                show,
            ),
            BoundExpression::LogicalAnd(l, r) => exists|a: bool, c: bool|
                #![trigger logic(true, a, c)]
                evaluates_to(*l, Value::<N>::Bool(a), parse, negate, apply, show) && evaluates_to(
                    *r,
                    Value::<N>::Bool(c),
                    parse,
                    negate,
                    apply,
                    show,
                ) && v == Value::<N>::Bool(logic(true, a, c)),
            BoundExpression::LogicalOr(l, r) => exists|a: bool, c: bool|
                #![trigger logic(false, a, c)]
                evaluates_to(*l, Value::<N>::Bool(a), parse, negate, apply, show) && evaluates_to(
                    *r,
                    Value::<N>::Bool(c),
                    parse,
                    negate,
                    apply,
                    show,
                ) && v == Value::<N>::Bool(logic(false, a, c)),
            BoundExpression::Addition(l, r) => arithmetic_to(
                *l,
                *r,
                Operator::Add,
                v,
                parse,
                negate,
                apply,
                show,
            ),
            BoundExpression::Subtraction(l, r) => arithmetic_to(
                *l,
                *r,
                Operator::Subtract,
                v,
                parse,
                negate,
                apply,
                show,
            ),
            BoundExpression::Multiplication(l, r) => arithmetic_to(
                *l,
                *r,
                Operator::Multiply,
                v,
                parse,
                negate,
                apply,
                show,
            ),
            BoundExpression::Division(l, r) => arithmetic_to(
                *l,
                *r,
                Operator::Divide,
                v,
                parse,
                negate,
                apply,
                show,
            ),
            BoundExpression::Remainder(l, r) => arithmetic_to(
                *l,
                *r,
                Operator::Remainder,
                v,
                parse,
                negate,
                apply,
                show,
            ),
            BoundExpression::Equal(l, r) => comparison_to(
                *l,
                *r,
                true,
                v,
                parse,
                negate,
                apply,
                show,
            ),
            BoundExpression::NotEqual(l, r) => comparison_to(
                *l,
                *r,
                false,
                v,
                parse,
                negate,
                apply,
                show,
            ),
            BoundExpression::Parenthesis(x) => evaluates_to(*x, v, parse, negate, apply, show),
        },
    }
}

/// `v` is `op` applied to results of evaluating `l` and `r`, both numbers.
pub open spec fn arithmetic_to<N, P, G, A, S>(
    l: Option<BoundExpression>,
    r: Option<BoundExpression>,
    op: Operator,
    v: Value<N>,
    parse: P,
    negate: G,
    apply: A,
    show: S,
) -> bool where P: Fn(String) -> N, G: Fn(N) -> N, A: Fn(Operator, N, N) -> N, S: Fn(N) -> String
    decreases bound_size(l) + bound_size(r), 0nat,
{
    exists|a: N, c: N, n: N|
        #![trigger apply.ensures((op, a, c), n)]
        evaluates_to(l, Value::Number(a), parse, negate, apply, show) && evaluates_to(
            r,
            Value::Number(c),
            parse,
            negate,
            apply,
            show,
        ) && apply.ensures((op, a, c), n) && v == Value::Number(n)
}

/// `v` tells whether the display strings of results of evaluating `l` and
/// `r` are equal (`equal`) or differ (`!equal`).
pub open spec fn comparison_to<N, P, G, A, S>(
    l: Option<BoundExpression>,
    r: Option<BoundExpression>,
    equal: bool,
    v: Value<N>,
    parse: P,
    negate: G,
    apply: A,
    show: S,
) -> bool where P: Fn(String) -> N, G: Fn(N) -> N, A: Fn(Operator, N, N) -> N, S: Fn(N) -> String
    decreases bound_size(l) + bound_size(r), 0nat,
{
    exists|a: Value<N>, c: Value<N>, da: String, dc: String|
        #![trigger displays(a, da, show), displays(c, dc, show)]
        evaluates_to(l, a, parse, negate, apply, show) && evaluates_to(
            r,
            c,
            parse,
            negate,
            apply,
            show,
        ) && displays(a, da, show) && displays(c, dc, show) && v == Value::<N>::Bool(
            (da@ == dc@) == equal,
        )
}


/// `parse`, `negate`, `apply` and `show` accept every argument.
pub open spec fn total_operations<N, P, G, A, S>(parse: P, negate: G, apply: A, show: S) -> bool
    where
        P: Fn(String) -> N,
        G: Fn(N) -> N,
        A: Fn(Operator, N, N) -> N,
        S: Fn(N) -> String,
{
    &&& forall|s: String| parse.requires((s,))
    &&& forall|a: N| negate.requires((a,))
    &&& forall|op: Operator, a: N, c: N| apply.requires((op, a, c))
    &&& forall|a: N| show.requires((a,))
}

/// Tells whether a bound tree can be evaluated.
pub fn is_well_typed(b: &Option<BoundExpression>) -> (r: bool)
    ensures
        r == well_typed(*b),
    decreases *b,
{
    match b {
        None => false,
        Some(e) => match e {
            BoundExpression::Literal(_) => true,
            BoundExpression::Identifier(_) => false,
            BoundExpression::Bool(_) => true,
            BoundExpression::Number(_) => true,
            BoundExpression::Identity(x) | BoundExpression::Negation(x) => is_well_typed(x)
                && type_of_operand(x) == BoundType::Number,
            BoundExpression::LogicalNot(x) => is_well_typed(x) && type_of_operand(x)
                == BoundType::Bool,
            BoundExpression::LogicalAnd(l, r) | BoundExpression::LogicalOr(l, r) => is_well_typed(l)
                && is_well_typed(r) && type_of_operand(l) == BoundType::Bool && type_of_operand(r)
                == BoundType::Bool,
            BoundExpression::Equal(l, r) | BoundExpression::NotEqual(l, r) => is_well_typed(l)
                && is_well_typed(r),
            BoundExpression::Parenthesis(x) => is_well_typed(x),
            BoundExpression::Addition(l, r)
            | BoundExpression::Subtraction(l, r)
            | BoundExpression::Multiplication(l, r)
            | BoundExpression::Division(l, r)
            | BoundExpression::Remainder(l, r) => is_well_typed(l) && is_well_typed(r)
                && type_of_operand(l) == BoundType::Number && type_of_operand(r)
                == BoundType::Number,
        },
    }
}

/// Reduces a bound tree to one runtime value.
pub struct Evaluator {
    root_expression: BoundExpression,
}

impl View for Evaluator {
    type V = BoundExpression;

    closed spec fn view(&self) -> BoundExpression {
        self.root_expression
    }
}

impl Evaluator {
    pub fn new(root_expression: BoundExpression) -> (r: Self)
        ensures
            r@ == root_expression,
    {
        Evaluator { root_expression }
    }

    /// Evaluates the tree; once `holder` holds a diagnostic, yields `Value::Error`
    /// without looking at the tree.
    pub fn eval<N: Copy, P, G, A, S>(
        &self,
        holder: &DiagnosticHolder,
        parse: &P,
        negate: &G,
        apply: &A,
        show: &S,
    ) -> (r: Value<N>)
    where
        P: Fn(String) -> N,
        G: Fn(N) -> N,
        A: Fn(Operator, N, N) -> N,
        S: Fn(N) -> String,
        requires
            holder@.len() == 0 ==> well_typed(Some(self@)),
            total_operations(*parse, *negate, *apply, *show),
        ensures
            holder@.len() > 0 ==> r == Value::<N>::Error,
            holder@.len() == 0 ==> evaluates_to(Some(self@), r, *parse, *negate, *apply, *show),
    {
        if holder.success() {
            self.eval_expression(&self.root_expression, parse, negate, apply, show)
        } else {
            Value::Error
        }
    }

    fn eval_operand<N: Copy, P, G, A, S>(
        &self,
        operand: &Option<BoundExpression>,
        parse: &P,
        negate: &G,
        apply: &A,
        show: &S,
    ) -> (r: Value<N>)
    where
        P: Fn(String) -> N,
        G: Fn(N) -> N,
        A: Fn(Operator, N, N) -> N,
        S: Fn(N) -> String,
        requires
            well_typed(*operand),
            total_operations(*parse, *negate, *apply, *show),
        ensures
            evaluates_to(*operand, r, *parse, *negate, *apply, *show),
            value_type(r) == Some(type_of(*operand)),
        decreases bound_size(*operand), 2nat,
    {
        match operand {
            Some(e) => self.eval_expression(e, parse, negate, apply, show),
            None => Value::Error,
        }
    }

    fn eval_arithmetic<N: Copy, P, G, A, S>(
        &self,
        op: Operator,
        left: &Option<BoundExpression>,
        right: &Option<BoundExpression>,
        parse: &P,
        negate: &G,
        apply: &A,
        show: &S,
    ) -> (r: Value<N>)
    where
        P: Fn(String) -> N,
        G: Fn(N) -> N,
        A: Fn(Operator, N, N) -> N,
        S: Fn(N) -> String,
        requires
            well_typed(*left),
            well_typed(*right),
            type_of(*left) == BoundType::Number,
            type_of(*right) == BoundType::Number,
            total_operations(*parse, *negate, *apply, *show),
        ensures
            arithmetic_to(*left, *right, op, r, *parse, *negate, *apply, *show),
            r is Number,
        decreases bound_size(*left) + bound_size(*right), 0nat,
    {
        let a = self.eval_operand(left, parse, negate, apply, show);
        let c = self.eval_operand(right, parse, negate, apply, show);
        match (a, c) {
            (Value::Number(a), Value::Number(c)) => {
                let n = apply(op, a, c);
                assert(evaluates_to(*left, Value::Number(a), *parse, *negate, *apply, *show));
                assert(evaluates_to(*right, Value::Number(c), *parse, *negate, *apply, *show));
                assert((*apply).ensures((op, a, c), n));
                Value::Number(n)
            },
            _ => Value::Error,
        }
    }

    fn eval_logic<N: Copy, P, G, A, S>(
        &self,
        conjunction: bool,
        left: &Option<BoundExpression>,
        right: &Option<BoundExpression>,
        parse: &P,
        negate: &G,
        apply: &A,
        show: &S,
    ) -> (r: Value<N>)
    where
        P: Fn(String) -> N,
        G: Fn(N) -> N,
        A: Fn(Operator, N, N) -> N,
        S: Fn(N) -> String,
        requires
            well_typed(*left),
            well_typed(*right),
            type_of(*left) == BoundType::Bool,
            type_of(*right) == BoundType::Bool,
            total_operations(*parse, *negate, *apply, *show),
        ensures
            exists|a: bool, c: bool|
                #![trigger logic(conjunction, a, c)]
                evaluates_to(*left, Value::<N>::Bool(a), *parse, *negate, *apply, *show)
                    && evaluates_to(*right, Value::<N>::Bool(c), *parse, *negate, *apply, *show)
                    && r == Value::<N>::Bool(logic(conjunction, a, c)),
        decreases bound_size(*left) + bound_size(*right), 0nat,
    {
        let a = self.eval_operand(left, parse, negate, apply, show);
        let c = self.eval_operand(right, parse, negate, apply, show);
        match (a, c) {
            (Value::Bool(a), Value::Bool(c)) => {
                assert(evaluates_to(*left, Value::<N>::Bool(a), *parse, *negate, *apply, *show));
                assert(evaluates_to(*right, Value::<N>::Bool(c), *parse, *negate, *apply, *show));
                assert(logic(conjunction, a, c) == if conjunction { a && c } else { a || c });
                if conjunction {
                    Value::Bool(a && c)
                } else {
                    Value::Bool(a || c)
                }
            },
            _ => Value::Error,
        }
    }

    fn eval_comparison<N: Copy, P, G, A, S>(
        &self,
        equal: bool,
        left: &Option<BoundExpression>,
        right: &Option<BoundExpression>,
        parse: &P,
        negate: &G,
        apply: &A,
        show: &S,
    ) -> (r: Value<N>)
    where
        P: Fn(String) -> N,
        G: Fn(N) -> N,
        A: Fn(Operator, N, N) -> N,
        S: Fn(N) -> String,
        requires
            well_typed(*left),
            well_typed(*right),
            total_operations(*parse, *negate, *apply, *show),
        ensures
            comparison_to(*left, *right, equal, r, *parse, *negate, *apply, *show),
        decreases bound_size(*left) + bound_size(*right), 0nat,
    {
        let a = self.eval_operand(left, parse, negate, apply, show);
        let c = self.eval_operand(right, parse, negate, apply, show);
        let da = to_string(&a, show);
        let dc = to_string(&c, show);
        let same = da == dc;
        assert(evaluates_to(*left, a, *parse, *negate, *apply, *show));
        assert(evaluates_to(*right, c, *parse, *negate, *apply, *show));
        assert(displays(a, da, *show) && displays(c, dc, *show));
        Value::Bool(same == equal)
    }

    fn eval_expression<N: Copy, P, G, A, S>(
        &self,
        expression: &BoundExpression,
        parse: &P,
        negate: &G,
        apply: &A,
        show: &S,
    ) -> (r: Value<N>)
    where
        P: Fn(String) -> N,
        G: Fn(N) -> N,
        A: Fn(Operator, N, N) -> N,
        S: Fn(N) -> String,
        requires
            well_typed(Some(*expression)),
            total_operations(*parse, *negate, *apply, *show),
        ensures
            evaluates_to(Some(*expression), r, *parse, *negate, *apply, *show),
            value_type(r) == Some(type_of(Some(*expression))),
        decreases bound_size(Some(*expression)), 1nat,
    {
        match expression {
            BoundExpression::Literal(s) => Value::String(s.clone()),
            BoundExpression::Identifier(_) => Value::Error,
            BoundExpression::Bool(s) => {
                let t = String::from_str("true");
                Value::Bool(*s == t)
            },
            BoundExpression::Number(s) => Value::Number(parse(s.clone())),
            BoundExpression::Identity(x) => self.eval_operand(x, parse, negate, apply, show),
            BoundExpression::Parenthesis(x) => self.eval_operand(x, parse, negate, apply, show),
            BoundExpression::Negation(x) => {
                let v = self.eval_operand(x, parse, negate, apply, show);
                match v {
                    Value::Number(a) => {
                        let n = negate(a);
                        assert((*negate).ensures((a,), n));
                        Value::Number(n)
                    },
                    _ => v,
                }
            },
            BoundExpression::LogicalNot(x) => {
                let v = self.eval_operand(x, parse, negate, apply, show);
                match v {
                    Value::Bool(a) => {
                        assert(evaluates_to(**x, Value::<N>::Bool(!!a), *parse, *negate, *apply, *show));
                        Value::Bool(!a)
                    },
                    _ => v,
                }
            },
            BoundExpression::LogicalAnd(l, r) => self.eval_logic(true, l, r, parse, negate, apply, show),
            BoundExpression::LogicalOr(l, r) => self.eval_logic(false, l, r, parse, negate, apply, show),
            BoundExpression::Addition(l, r) => self.eval_arithmetic(
                Operator::Add,
                l,
                r,
                parse,
                negate,
                apply,
                show,
            ),
            BoundExpression::Subtraction(l, r) => self.eval_arithmetic(
                Operator::Subtract,
                l,
                r,
                parse,
                negate,
                apply,
                show,
            ),
            BoundExpression::Multiplication(l, r) => self.eval_arithmetic(
                Operator::Multiply,
                l,
                r,
                parse,
                negate,
                apply,
                show,
            ),
            BoundExpression::Division(l, r) => self.eval_arithmetic(
                Operator::Divide,
                l,
                r,
                parse,
                negate,
                apply,
                show,
            ),
            BoundExpression::Remainder(l, r) => self.eval_arithmetic(
                Operator::Remainder,
                l,
                r,
                parse,
                negate,
                apply,
                show,
            ),
            BoundExpression::Equal(l, r) => self.eval_comparison(true, l, r, parse, negate, apply, show),
            BoundExpression::NotEqual(l, r) => self.eval_comparison(
                false,
                l,
                r,
                parse,
                negate,
                apply,
                show,
            ),
        }
    }
}


/// The operations give one result for each argument, and a number read
/// from a literal depends on the literal's text alone.
pub open spec fn deterministic_operations<N, P, G, A, S>(
    parse: P,
    negate: G,
    apply: A,
    show: S,
) -> bool where P: Fn(String) -> N, G: Fn(N) -> N, A: Fn(Operator, N, N) -> N, S: Fn(N) -> String {
    &&& forall|s1: String, s2: String, n1: N, n2: N|
        #![trigger parse.ensures((s1,), n1), parse.ensures((s2,), n2)]
        s1@ == s2@ && parse.ensures((s1,), n1) && parse.ensures((s2,), n2) ==> n1 == n2
    &&& forall|a: N, n1: N, n2: N|
        #![trigger negate.ensures((a,), n1), negate.ensures((a,), n2)]
        negate.ensures((a,), n1) && negate.ensures((a,), n2) ==> n1 == n2
    &&& forall|op: Operator, a: N, c: N, n1: N, n2: N|
        #![trigger apply.ensures((op, a, c), n1), apply.ensures((op, a, c), n2)]
        apply.ensures((op, a, c), n1) && apply.ensures((op, a, c), n2) ==> n1 == n2
    &&& forall|a: N, d1: String, d2: String|
        #![trigger show.ensures((a,), d1), show.ensures((a,), d2)]
        show.ensures((a,), d1) && show.ensures((a,), d2) ==> d1@ == d2@
}

/// Two values alike: strings with the same text, or equal values.
pub open spec fn same_value<N>(a: Value<N>, b: Value<N>) -> bool {
    match (a, b) {
        (Value::String(s), Value::String(t)) => s@ == t@,
        (Value::String(_), _) => false,
        (_, Value::String(_)) => false,
        _ => a == b,
    }
}

proof fn lemma_displays_views<N, P, G, A, S>(
    a: Value<N>,
    b: Value<N>,
    da: String,
    db: String,
    parse: P,
    negate: G,
    apply: A,
    show: S,
) where P: Fn(String) -> N, G: Fn(N) -> N, A: Fn(Operator, N, N) -> N, S: Fn(N) -> String
    requires
        deterministic_operations(parse, negate, apply, show),
        same_value(a, b),
        displays(a, da, show),
        displays(b, db, show),
    ensures
        da@ == db@,
{
}

proof fn lemma_arithmetic_views<N, P, G, A, S>(
    l1: Option<BoundExpression>,
    r1: Option<BoundExpression>,
    l2: Option<BoundExpression>,
    r2: Option<BoundExpression>,
    op: Operator,
    v1: Value<N>,
    v2: Value<N>,
    parse: P,
    negate: G,
    apply: A,
    show: S,
) where P: Fn(String) -> N, G: Fn(N) -> N, A: Fn(Operator, N, N) -> N, S: Fn(N) -> String
    requires
        deterministic_operations(parse, negate, apply, show),
        same_bound(l1, l2),
        same_bound(r1, r2),
        arithmetic_to(l1, r1, op, v1, parse, negate, apply, show),
        arithmetic_to(l2, r2, op, v2, parse, negate, apply, show),
    ensures
        same_value(v1, v2),
    decreases bound_size(l1) + bound_size(r1), 0nat,
{
    let (a1, c1, n1) = choose|a: N, c: N, n: N|
        #![trigger apply.ensures((op, a, c), n)]
        evaluates_to(l1, Value::Number(a), parse, negate, apply, show) && evaluates_to(r1, Value::Number(c), parse, negate, apply, show)
            && apply.ensures((op, a, c), n) && v1 == Value::Number(n);
    let (a2, c2, n2) = choose|a: N, c: N, n: N|
        #![trigger apply.ensures((op, a, c), n)]
        evaluates_to(l2, Value::Number(a), parse, negate, apply, show) && evaluates_to(r2, Value::Number(c), parse, negate, apply, show)
            && apply.ensures((op, a, c), n) && v2 == Value::Number(n);
    lemma_eval_views(l1, l2, Value::Number(a1), Value::Number(a2), parse, negate, apply, show);
    lemma_eval_views(r1, r2, Value::Number(c1), Value::Number(c2), parse, negate, apply, show);
}

proof fn lemma_comparison_views<N, P, G, A, S>(
    l1: Option<BoundExpression>,
    r1: Option<BoundExpression>,
    l2: Option<BoundExpression>,
    r2: Option<BoundExpression>,
    equal: bool,
    v1: Value<N>,
    v2: Value<N>,
    parse: P,
    negate: G,
    apply: A,
    show: S,
) where P: Fn(String) -> N, G: Fn(N) -> N, A: Fn(Operator, N, N) -> N, S: Fn(N) -> String
    requires
        deterministic_operations(parse, negate, apply, show),
        same_bound(l1, l2),
        same_bound(r1, r2),
        comparison_to(l1, r1, equal, v1, parse, negate, apply, show),
        comparison_to(l2, r2, equal, v2, parse, negate, apply, show),
    ensures
        same_value(v1, v2),
    decreases bound_size(l1) + bound_size(r1), 0nat,
{
    let (a1, c1, da1, dc1) = choose|a: Value<N>, c: Value<N>, da: String, dc: String|
        #![trigger displays(a, da, show), displays(c, dc, show)]
        evaluates_to(l1, a, parse, negate, apply, show) && evaluates_to(r1, c, parse, negate, apply, show) && displays(a, da, show)
            && displays(c, dc, show) && v1 == Value::<N>::Bool((da@ == dc@) == equal);
    let (a2, c2, da2, dc2) = choose|a: Value<N>, c: Value<N>, da: String, dc: String|
        #![trigger displays(a, da, show), displays(c, dc, show)]
        evaluates_to(l2, a, parse, negate, apply, show) && evaluates_to(r2, c, parse, negate, apply, show) && displays(a, da, show)
            && displays(c, dc, show) && v2 == Value::<N>::Bool((da@ == dc@) == equal);
    lemma_eval_views(l1, l2, a1, a2, parse, negate, apply, show);
    lemma_eval_views(r1, r2, c1, c2, parse, negate, apply, show);
    lemma_displays_views(a1, a2, da1, da2, parse, negate, apply, show);
    lemma_displays_views(c1, c2, dc1, dc2, parse, negate, apply, show);
}

/// Bound trees alike in shape and texts are both evaluable or both not.
pub proof fn lemma_same_bound_well_typed(a: Option<BoundExpression>, b: Option<BoundExpression>)
    requires
        same_bound(a, b),
    ensures
        well_typed(a) == well_typed(b),
    decreases a,
{
    match (a, b) {
        (Some(x), Some(y)) => match (x, y) {
            (BoundExpression::Identity(p), BoundExpression::Identity(q))
            | (BoundExpression::Negation(p), BoundExpression::Negation(q))
            | (BoundExpression::LogicalNot(p), BoundExpression::LogicalNot(q))
            | (BoundExpression::Parenthesis(p), BoundExpression::Parenthesis(q)) => {
                lemma_same_bound_well_typed(*p, *q);
                lemma_same_bound_type(*p, *q);
            },
            (BoundExpression::LogicalAnd(l1, r1), BoundExpression::LogicalAnd(l2, r2))
            | (BoundExpression::LogicalOr(l1, r1), BoundExpression::LogicalOr(l2, r2))
            | (BoundExpression::Addition(l1, r1), BoundExpression::Addition(l2, r2))
            | (BoundExpression::Subtraction(l1, r1), BoundExpression::Subtraction(l2, r2))
            | (BoundExpression::Multiplication(l1, r1), BoundExpression::Multiplication(l2, r2))
            | (BoundExpression::Division(l1, r1), BoundExpression::Division(l2, r2))
            | (BoundExpression::Remainder(l1, r1), BoundExpression::Remainder(l2, r2))
            | (BoundExpression::Equal(l1, r1), BoundExpression::Equal(l2, r2))
            | (BoundExpression::NotEqual(l1, r1), BoundExpression::NotEqual(l2, r2)) => {
                lemma_same_bound_well_typed(*l1, *l2);
                lemma_same_bound_well_typed(*r1, *r2);
                lemma_same_bound_type(*l1, *l2);
                lemma_same_bound_type(*r1, *r2);
            },
            _ => {},
        },
        _ => {},
    }
}

/// Evaluation looks at shapes and texts only: with deterministic operations,
/// bound trees alike in those evaluate to values alike.
pub proof fn lemma_eval_views<N, P, G, A, S>(
    b1: Option<BoundExpression>,
    b2: Option<BoundExpression>,
    v1: Value<N>,
    v2: Value<N>,
    parse: P,
    negate: G,
    apply: A,
    show: S,
) where P: Fn(String) -> N, G: Fn(N) -> N, A: Fn(Operator, N, N) -> N, S: Fn(N) -> String
    requires
        deterministic_operations(parse, negate, apply, show),
        same_bound(b1, b2),
        evaluates_to(b1, v1, parse, negate, apply, show),
        evaluates_to(b2, v2, parse, negate, apply, show),
    ensures
        same_value(v1, v2),
    decreases bound_size(b1), 1nat,
{
    match (b1, b2) {
        (Some(x), Some(y)) => match (x, y) {
            (BoundExpression::Identity(p), BoundExpression::Identity(q)) => {
                lemma_eval_views(*p, *q, v1, v2, parse, negate, apply, show);
            },
            (BoundExpression::Parenthesis(p), BoundExpression::Parenthesis(q)) => {
                lemma_eval_views(*p, *q, v1, v2, parse, negate, apply, show);
            },
            (BoundExpression::Negation(p), BoundExpression::Negation(q)) => {
                let (a1, n1) = choose|a: N, n: N|
                    #![trigger negate.ensures((a,), n)]
                    evaluates_to(*p, Value::Number(a), parse, negate, apply, show) && negate.ensures((a,), n) && v1
                        == Value::Number(n);
                let (a2, n2) = choose|a: N, n: N|
                    #![trigger negate.ensures((a,), n)]
                    evaluates_to(*q, Value::Number(a), parse, negate, apply, show) && negate.ensures((a,), n) && v2
                        == Value::Number(n);
                lemma_eval_views(*p, *q, Value::Number(a1), Value::Number(a2), parse, negate, apply, show);
            },
            (BoundExpression::LogicalNot(p), BoundExpression::LogicalNot(q)) => {
                lemma_eval_views(
                    *p,
                    *q,
                    Value::<N>::Bool(!v1->Bool_0),
                    Value::<N>::Bool(!v2->Bool_0),
                    parse, negate, apply, show,
                );
            },
            (BoundExpression::LogicalAnd(l1, r1), BoundExpression::LogicalAnd(l2, r2)) => {
                lemma_logic_views(*l1, *r1, *l2, *r2, true, v1, v2, parse, negate, apply, show);
            },
            (BoundExpression::LogicalOr(l1, r1), BoundExpression::LogicalOr(l2, r2)) => {
                lemma_logic_views(*l1, *r1, *l2, *r2, false, v1, v2, parse, negate, apply, show);
            },
            (BoundExpression::Addition(l1, r1), BoundExpression::Addition(l2, r2)) => {
                lemma_arithmetic_views(*l1, *r1, *l2, *r2, Operator::Add, v1, v2, parse, negate, apply, show);
            },
            (BoundExpression::Subtraction(l1, r1), BoundExpression::Subtraction(l2, r2)) => {
                lemma_arithmetic_views(*l1, *r1, *l2, *r2, Operator::Subtract, v1, v2, parse, negate, apply, show);
            },
            (BoundExpression::Multiplication(l1, r1), BoundExpression::Multiplication(l2, r2)) => {
                lemma_arithmetic_views(*l1, *r1, *l2, *r2, Operator::Multiply, v1, v2, parse, negate, apply, show);
            },
            (BoundExpression::Division(l1, r1), BoundExpression::Division(l2, r2)) => {
                lemma_arithmetic_views(*l1, *r1, *l2, *r2, Operator::Divide, v1, v2, parse, negate, apply, show);
            },
            (BoundExpression::Remainder(l1, r1), BoundExpression::Remainder(l2, r2)) => {
                lemma_arithmetic_views(*l1, *r1, *l2, *r2, Operator::Remainder, v1, v2, parse, negate, apply, show);
            },
            (BoundExpression::Equal(l1, r1), BoundExpression::Equal(l2, r2)) => {
                lemma_comparison_views(*l1, *r1, *l2, *r2, true, v1, v2, parse, negate, apply, show);
            },
            (BoundExpression::NotEqual(l1, r1), BoundExpression::NotEqual(l2, r2)) => {
                lemma_comparison_views(*l1, *r1, *l2, *r2, false, v1, v2, parse, negate, apply, show);
            },
            _ => {},
        },
        _ => {},
    }
}

proof fn lemma_logic_views<N, P, G, A, S>(
    l1: Option<BoundExpression>,
    r1: Option<BoundExpression>,
    l2: Option<BoundExpression>,
    r2: Option<BoundExpression>,
    conjunction: bool,
    v1: Value<N>,
    v2: Value<N>,
    parse: P,
    negate: G,
    apply: A,
    show: S,
) where P: Fn(String) -> N, G: Fn(N) -> N, A: Fn(Operator, N, N) -> N, S: Fn(N) -> String
    requires
        deterministic_operations(parse, negate, apply, show),
        same_bound(l1, l2),
        same_bound(r1, r2),
        exists|a: bool, c: bool|
            #![trigger logic(conjunction, a, c)]
            evaluates_to(l1, Value::<N>::Bool(a), parse, negate, apply, show) && evaluates_to(r1, Value::<N>::Bool(c), parse, negate, apply, show)
                && v1 == Value::<N>::Bool(logic(conjunction, a, c)),
        exists|a: bool, c: bool|
            #![trigger logic(conjunction, a, c)]
            evaluates_to(l2, Value::<N>::Bool(a), parse, negate, apply, show) && evaluates_to(r2, Value::<N>::Bool(c), parse, negate, apply, show)
                && v2 == Value::<N>::Bool(logic(conjunction, a, c)),
    ensures
        same_value(v1, v2),
    decreases bound_size(l1) + bound_size(r1), 0nat,
{
    let (a1, c1) = choose|a: bool, c: bool|
        #![trigger logic(conjunction, a, c)]
        evaluates_to(l1, Value::<N>::Bool(a), parse, negate, apply, show) && evaluates_to(r1, Value::<N>::Bool(c), parse, negate, apply, show)
            && v1 == Value::<N>::Bool(logic(conjunction, a, c));
    let (a2, c2) = choose|a: bool, c: bool|
        #![trigger logic(conjunction, a, c)]
        evaluates_to(l2, Value::<N>::Bool(a), parse, negate, apply, show) && evaluates_to(r2, Value::<N>::Bool(c), parse, negate, apply, show)
            && v2 == Value::<N>::Bool(logic(conjunction, a, c));
    lemma_eval_views(l1, l2, Value::<N>::Bool(a1), Value::<N>::Bool(a2), parse, negate, apply, show);
    lemma_eval_views(r1, r2, Value::<N>::Bool(c1), Value::<N>::Bool(c2), parse, negate, apply, show);
}

} // verus!
