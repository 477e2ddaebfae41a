use vstd::prelude::*;

use crate::diagnostic::{DiagnosticHolder, UnitView};
use crate::lexer::{binary_precedence_of, token_views, unary_precedence_of, Token, Type};

verus! {

/// The untyped syntax tree. An operand is `None` where a syntax error left it out.
#[derive(Debug, PartialEq)]
pub enum Expression {
    Identifier(Box<Token>),
    Literal(Box<Token>),
    Bool(Box<Token>),
    Number(Box<Token>),
    Positive(Box<Option<Expression>>),
    Negative(Box<Option<Expression>>),
    NOT(Box<Option<Expression>>),
    AND(Box<Option<Expression>>, Box<Option<Expression>>),
    OR(Box<Option<Expression>>, Box<Option<Expression>>),
    Addition(Box<Option<Expression>>, Box<Option<Expression>>),
    Subtraction(Box<Option<Expression>>, Box<Option<Expression>>),
    Multiplication(Box<Option<Expression>>, Box<Option<Expression>>),
    Division(Box<Option<Expression>>, Box<Option<Expression>>),
    Remainder(Box<Option<Expression>>, Box<Option<Expression>>),
    Equal(Box<Option<Expression>>, Box<Option<Expression>>),
    NotEqual(Box<Option<Expression>>, Box<Option<Expression>>),
    Parenthesis(Box<Option<Expression>>),
}

/// The result of parsing: the root expression, if any.
#[derive(Debug)]
pub struct Tree {
    pub root_expression: Option<Expression>,
}

/// The prefix node that token kind `t` builds around `operand`.
pub open spec fn unary_node(t: Type, operand: Option<Expression>) -> Option<Expression> {
    match t {
        Type::Plus => Some(Expression::Positive(Box::new(operand))),
        Type::Minus => Some(Expression::Negative(Box::new(operand))),
        Type::Bang => Some(Expression::NOT(Box::new(operand))),
        _ => None,
    }
}

/// The infix node that token kind `t` builds from `left` and `right`.
pub open spec fn binary_node(t: Type, left: Option<Expression>, right: Option<Expression>) -> Option<
    Expression,
> {
    let (l, r) = (Box::new(left), Box::new(right));
    match t {
        Type::DoubleAmpersand => Some(Expression::AND(l, r)),
        Type::DoublePipe => Some(Expression::OR(l, r)),
        Type::Plus => Some(Expression::Addition(l, r)),
        Type::Minus => Some(Expression::Subtraction(l, r)),
        Type::Star => Some(Expression::Multiplication(l, r)),
        Type::Slash => Some(Expression::Division(l, r)),
        Type::Percent => Some(Expression::Remainder(l, r)),
        Type::DoubleEqual => Some(Expression::Equal(l, r)),
        Type::BangEqual => Some(Expression::NotEqual(l, r)),
        _ => None,
    }
}

/// `p` if it lies in `lo..=hi`, else `lo`.
pub open spec fn clamp(p: int, lo: int, hi: int) -> int {
    if lo <= p <= hi {
        p
    } else {
        lo
    }
}

pub open spec fn unknown_message(t: Token) -> Seq<char> {
    "Unknown expression: "@ + t.literal@
}

/// Parses one expression from `pos` whose infix operators all bind more
/// strongly than `min`: the tree, where parsing stopped, and the diagnostics.
pub open spec fn parse_expr(ts: Seq<Token>, pos: int, min: nat) -> (
    Option<Expression>,
    int,
    Seq<UnitView>,
)
    decreases ts.len() - pos, 2nat,
{
    if pos < 0 || pos >= ts.len() {
        (None, pos, Seq::empty())
    } else {
        let t = ts[pos].token_type;
        let up = unary_precedence_of(t);
        let (left, p_left, e1) = if up != 0 && up >= min {
            let (operand, p, e) = parse_expr(ts, pos + 1, up);
            (unary_node(t, operand), p, e)
        } else {
            parse_primary(ts, pos)
        };
        let (r, p_rest, e2) = parse_infix(ts, clamp(p_left, pos, ts.len() as int), min, left);
        (r, p_rest, e1 + e2)
    }
}

/// Parses a literal, an identifier or a parenthesized expression at `pos`.
pub open spec fn parse_primary(ts: Seq<Token>, pos: int) -> (
    Option<Expression>,
    int,
    Seq<UnitView>,
)
    decreases ts.len() - pos, 1nat,
{
    if pos < 0 || pos >= ts.len() {
        (None, pos, Seq::empty())
    } else {
        let tok = ts[pos];
        match tok.token_type {
            Type::OpenParenthesis => {
                let (inner, p, e) = parse_expr(ts, pos + 1, 0);
                let q = clamp(p, pos + 1, ts.len() as int);
                let close = if q < ts.len() && ts[q].token_type == Type::CloseParenthesis {
                    q + 1
                } else {
                    q
                };
                (Some(Expression::Parenthesis(Box::new(inner))), close, e)
            },
            Type::Number => (Some(Expression::Number(Box::new(tok))), pos + 1, Seq::empty()),
            Type::Literal => (Some(Expression::Literal(Box::new(tok))), pos + 1, Seq::empty()),
            Type::Identifier => if tok.literal@ == "true"@ || tok.literal@ == "false"@ {
                (Some(Expression::Bool(Box::new(tok))), pos + 1, Seq::empty())
            } else {
                (Some(Expression::Identifier(Box::new(tok))), pos + 1, Seq::empty())
            },
            _ => (None, pos, seq![UnitView::Error(unknown_message(tok))]),
        }
    }
}

/// Folds infix operators binding more strongly than `min`, from `pos`, onto
/// `left`, to the left.
pub open spec fn parse_infix(ts: Seq<Token>, pos: int, min: nat, left: Option<Expression>) -> (
    Option<Expression>,
    int,
    Seq<UnitView>,
)
    decreases ts.len() - pos, 0nat,
{
    if 0 <= pos < ts.len() && binary_precedence_of(ts[pos].token_type) > min {
        let t = ts[pos].token_type;
        let (right, p, e) = parse_expr(ts, pos + 1, binary_precedence_of(t));
        let (r, p_rest, e2) = parse_infix(
            ts,
            clamp(p, pos + 1, ts.len() as int),
            min,
            binary_node(t, left, right),
        );
        (r, p_rest, e + e2)
    } else {
        (left, pos, Seq::empty())
    }
}

/// Turns a token sequence into a syntax tree by precedence climbing.
pub struct Parser {
    position: usize,
    tokens: Vec<Token>,
}

impl View for Parser {
    type V = (Seq<Token>, int);

    closed spec fn view(&self) -> (Seq<Token>, int) {
        (self.tokens@, self.position as int)
    }
}

impl Parser {
    pub fn new(tokens: Vec<Token>) -> (r: Self)
        ensures
            r@ == (tokens@, 0int),
    {
        Parser { position: 0, tokens }
    }

    /// The kind of the token `offset` places ahead, if there is one.
    fn peek(&self, offset: usize) -> (r: Option<Type>)
        ensures
            r == (if self.position + offset < self.tokens@.len() {
                Some(self.tokens@[self.position + offset].token_type)
            } else {
                None
            }),
    {
        let n = self.tokens.len();
        if self.position < n && offset < n - self.position {
            Some(self.tokens[self.position + offset].token_type)
        } else {
            None
        }
    }

    /// Consumes the current token if it is of kind `t`.
    fn accept(&mut self, t: Type) -> (r: bool)
        ensures
            final(self).tokens@ == old(self).tokens@,
            r == (old(self).position < old(self).tokens@.len() && old(
                self,
            ).tokens@[old(self).position as int].token_type == t),
            final(self).position == old(self).position + if r {
                1int
            } else {
                0int
            },
    {
        let _ = self.tokens.len();
        match self.peek(0) {
            Some(k) => if k == t {
                self.position = self.position + 1;
                true
            } else {
                false
            },
            None => false,
        }
    }

    /// Parses the whole token sequence from the current position.
    pub fn parse(&mut self, holder: &mut DiagnosticHolder) -> (r: Tree)
        ensures
            r.root_expression == parse_expr(old(self)@.0, old(self)@.1, 0).0,
            final(holder)@ == old(holder)@ + parse_expr(old(self)@.0, old(self)@.1, 0).2,
            final(self)@.0 == old(self)@.0,
    {
        Tree { root_expression: self.parse_expression(0, holder) }
    }

    fn parse_expression(&mut self, parent_precedence: usize, holder: &mut DiagnosticHolder) -> (r:
        Option<Expression>)
        ensures
            final(self).tokens@ == old(self).tokens@,
            r == parse_expr(old(self).tokens@, old(self).position as int, parent_precedence as nat).0,
            final(self).position == parse_expr(
                old(self).tokens@,
                old(self).position as int,
                parent_precedence as nat,
            ).1,
            final(holder)@ == old(holder)@ + parse_expr(
                old(self).tokens@,
                old(self).position as int,
                parent_precedence as nat,
            ).2,
            old(self).position <= final(self).position,
            old(self).position <= old(self).tokens@.len() ==> final(self).position
                <= old(self).tokens@.len(),
        decreases old(self).tokens@.len() - old(self).position, 2nat,
    {
        let ghost ts = self.tokens@;
        let ghost pos = self.position as int;
        let ghost min = parent_precedence as nat;
        let ghost h0 = holder@;
        let n = self.tokens.len();
        if self.position >= n {
            assert(h0 + Seq::<UnitView>::empty() =~= h0);
            return None;
        }
        let t = self.tokens[self.position].token_type;
        let precedence = t.unary_precedence();
        let mut left = if precedence != 0 && precedence >= parent_precedence {
            self.position = self.position + 1;
            let operand = self.parse_expression(precedence, holder);
            match t {
                Type::Plus => Some(Expression::Positive(Box::new(operand))),
                Type::Minus => Some(Expression::Negative(Box::new(operand))),
                _ => Some(Expression::NOT(Box::new(operand))),
            }
        } else {
            self.parse_literal_expression(holder)
        };
        let ghost p_left = self.position as int;
        let ghost h1 = holder@;
        let ghost up = unary_precedence_of(t);
        let ghost first = if up != 0 && up >= min {
            let (operand, p, e) = parse_expr(ts, pos + 1, up);
            (unary_node(t, operand), p, e)
        } else {
            parse_primary(ts, pos)
        };
        assert(left == first.0 && p_left == first.1 && h1 == h0 + first.2);
        let ghost goal = parse_infix(ts, p_left, min, left);
        assert(clamp(p_left, pos, n as int) == p_left);
        assert(goal.2 + Seq::<UnitView>::empty() =~= goal.2);
        assert(parse_expr(ts, pos, min) == (goal.0, goal.1, first.2 + goal.2));
        loop
            invariant
                h1 == h0 + first.2,
                parse_expr(ts, pos, min) == (goal.0, goal.1, first.2 + goal.2),
                self.tokens@ == ts,
                n == ts.len(),
                pos <= p_left <= self.position <= n,
                pos == old(self).position,
                ts == old(self).tokens@,
                min == parent_precedence as nat,
                parse_infix(ts, self.position as int, min, left).0 == goal.0,
                parse_infix(ts, self.position as int, min, left).1 == goal.1,
                holder@ + parse_infix(ts, self.position as int, min, left).2 == h1 + goal.2,
            ensures
                self.tokens@ == ts,
                pos <= self.position <= n,
                left == goal.0,
                self.position == goal.1,
                holder@ == h1 + goal.2,
                h1 == h0 + first.2,
                parse_expr(ts, pos, min) == (goal.0, goal.1, first.2 + goal.2),
            decreases n - self.position,
        {
            if self.position >= n {
                assert(parse_infix(ts, self.position as int, min, left) == (
                    left,
                    self.position as int,
                    Seq::<UnitView>::empty(),
                ));
                assert(holder@ + Seq::<UnitView>::empty() =~= holder@);
                break;
            }
            let t = self.tokens[self.position].token_type;
            let precedence = t.binary_precedence();
            if precedence == 0 || precedence <= parent_precedence {
                assert(parse_infix(ts, self.position as int, min, left) == (
                    left,
                    self.position as int,
                    Seq::<UnitView>::empty(),
                ));
                assert(holder@ + Seq::<UnitView>::empty() =~= holder@);
                break;
            }
            let ghost p = self.position as int;
            assert(t == ts[p].token_type);
            let ghost hb = holder@;
            let ghost old_left = left;
            self.position = self.position + 1;
            let right = self.parse_expression(precedence, holder);
            left = match t {
                Type::DoubleAmpersand => Some(Expression::AND(Box::new(left), Box::new(right))),
                Type::DoublePipe => Some(Expression::OR(Box::new(left), Box::new(right))),
                Type::Plus => Some(Expression::Addition(Box::new(left), Box::new(right))),
                Type::Minus => Some(Expression::Subtraction(Box::new(left), Box::new(right))),
                Type::Star => Some(Expression::Multiplication(Box::new(left), Box::new(right))),
                Type::Slash => Some(Expression::Division(Box::new(left), Box::new(right))),
                Type::Percent => Some(Expression::Remainder(Box::new(left), Box::new(right))),
                Type::DoubleEqual => Some(Expression::Equal(Box::new(left), Box::new(right))),
                _ => Some(Expression::NotEqual(Box::new(left), Box::new(right))),
            };
            assert(left == binary_node(t, old_left, right));
            let ghost sub = parse_expr(ts, p + 1, precedence as nat);
            let ghost e = sub.2;
            let ghost rest = parse_infix(ts, self.position as int, min, left);
            assert(clamp(sub.1, p + 1, n as int) == self.position as int);
            assert(binary_precedence_of(ts[p].token_type) > min);
            assert(parse_infix(ts, p, min, old_left) == (rest.0, rest.1, e + rest.2));
            assert(holder@ + rest.2 =~= hb + parse_infix(ts, p, min, old_left).2);
        }
        assert(holder@ =~= h0 + (first.2 + goal.2));
        left
    }

    /// Parses a literal, an identifier or a parenthesized expression.
    fn parse_literal_expression(&mut self, holder: &mut DiagnosticHolder) -> (r: Option<
        Expression,
    >)
        ensures
            final(self).tokens@ == old(self).tokens@,
            r == parse_primary(old(self).tokens@, old(self).position as int).0,
            final(self).position == parse_primary(old(self).tokens@, old(self).position as int).1,
            final(holder)@ == old(holder)@ + parse_primary(
                old(self).tokens@,
                old(self).position as int,
            ).2,
            old(self).position <= final(self).position,
            old(self).position <= old(self).tokens@.len() ==> final(self).position
                <= old(self).tokens@.len(),
        decreases old(self).tokens@.len() - old(self).position, 1nat,
    {
        let ghost h0 = holder@;
        assert(h0 + Seq::<UnitView>::empty() =~= h0);
        let n = self.tokens.len();
        if self.position >= n {
            return None;
        }
        let pos = self.position;
        match self.tokens[pos].token_type {
            Type::OpenParenthesis => {
                self.position = pos + 1;
                let expression = self.parse_expression(0, holder);
                let _ = self.accept(Type::CloseParenthesis);
                Some(Expression::Parenthesis(Box::new(expression)))
            },
            Type::Number => {
                self.position = pos + 1;
                Some(Expression::Number(Box::new(self.tokens[pos].clone())))
            },
            Type::Literal => {
                self.position = pos + 1;
                Some(Expression::Literal(Box::new(self.tokens[pos].clone())))
            },
            Type::Identifier => {
                self.position = pos + 1;
                let token = self.tokens[pos].clone();
                let yes = String::from_str("true");
                let no = String::from_str("false");
                if token.literal == yes || token.literal == no {
                    Some(Expression::Bool(Box::new(token)))
                } else {
                    Some(Expression::Identifier(Box::new(token)))
                }
            },
            _ => {
                let message = String::from_str("Unknown expression: ").concat(
                    self.tokens[pos].literal.as_str(),
                );
                holder.error(message.as_str());
                None
            },
        }
    }
}


/// The two trees have the same shape and the same token texts and kinds at
/// their leaves.
pub open spec fn same_tree(a: Option<Expression>, b: Option<Expression>) -> bool
    decreases a,
{
    match (a, b) {
        (None, None) => true,
        (Some(x), Some(y)) => match (x, y) {
            (Expression::Identifier(s), Expression::Identifier(t)) => (*s)@ == (*t)@,
            (Expression::Literal(s), Expression::Literal(t)) => (*s)@ == (*t)@,
            (Expression::Bool(s), Expression::Bool(t)) => (*s)@ == (*t)@,
            (Expression::Number(s), Expression::Number(t)) => (*s)@ == (*t)@,
            (Expression::Positive(p), Expression::Positive(q)) => same_tree(*p, *q),
            (Expression::Negative(p), Expression::Negative(q)) => same_tree(*p, *q),
            (Expression::NOT(p), Expression::NOT(q)) => same_tree(*p, *q),
            (Expression::Parenthesis(p), Expression::Parenthesis(q)) => same_tree(*p, *q),
            (Expression::AND(l1, r1), Expression::AND(l2, r2)) => same_tree(*l1, *l2) && same_tree(
                *r1,
                *r2,
            ),
            (Expression::OR(l1, r1), Expression::OR(l2, r2)) => same_tree(*l1, *l2) && same_tree(
                *r1,
                *r2,
            ),
            (Expression::Addition(l1, r1), Expression::Addition(l2, r2)) => same_tree(*l1, *l2) && same_tree(
                *r1,
                *r2,
            ),
            (Expression::Subtraction(l1, r1), Expression::Subtraction(l2, r2)) => same_tree(*l1, *l2) && same_tree(
                *r1,
                *r2,
            ),
            (Expression::Multiplication(l1, r1), Expression::Multiplication(l2, r2)) => same_tree(*l1, *l2) && same_tree(
                *r1,
                *r2,
            ),
            (Expression::Division(l1, r1), Expression::Division(l2, r2)) => same_tree(*l1, *l2) && same_tree(
                *r1,
                *r2,
            ),
            (Expression::Remainder(l1, r1), Expression::Remainder(l2, r2)) => same_tree(*l1, *l2) && same_tree(
                *r1,
                *r2,
            ),
            (Expression::Equal(l1, r1), Expression::Equal(l2, r2)) => same_tree(*l1, *l2) && same_tree(
                *r1,
                *r2,
            ),
            (Expression::NotEqual(l1, r1), Expression::NotEqual(l2, r2)) => same_tree(*l1, *l2) && same_tree(
                *r1,
                *r2,
            ),
            _ => false,
        },
        _ => false,
    }
}

/// Parsing looks at the kinds and texts of tokens only: token sequences
/// alike in those parse alike.
pub proof fn lemma_parse_expr_views(ts1: Seq<Token>, ts2: Seq<Token>, pos: int, min: nat)
    requires
        token_views(ts1) == token_views(ts2),
    ensures
        same_tree(parse_expr(ts1, pos, min).0, parse_expr(ts2, pos, min).0),
        parse_expr(ts1, pos, min).1 == parse_expr(ts2, pos, min).1,
        parse_expr(ts1, pos, min).2 == parse_expr(ts2, pos, min).2,
    decreases ts1.len() - pos, 2nat,
{
    assert(ts1.len() == token_views(ts1).len() && ts2.len() == token_views(ts2).len());
    if 0 <= pos < ts1.len() {
        assert(ts1[pos]@ == token_views(ts1)[pos] && ts2[pos]@ == token_views(ts2)[pos]);
        let t = ts1[pos].token_type;
        let up = unary_precedence_of(t);
        let n = ts1.len() as int;
        if up != 0 && up >= min {
            lemma_parse_expr_views(ts1, ts2, pos + 1, up);
            let (o1, p_left, _e1) = parse_expr(ts1, pos + 1, up);
            let (o2, _p_rest, _e2) = parse_expr(ts2, pos + 1, up);
            assert(same_tree(unary_node(t, o1), unary_node(t, o2)));
            lemma_parse_infix_views(ts1, ts2, clamp(p_left, pos, n), min, unary_node(t, o1), unary_node(t, o2));
        } else {
            lemma_parse_primary_views(ts1, ts2, pos);
            let (l1, p_left, _e1) = parse_primary(ts1, pos);
            let (l2, _p_rest, _e2) = parse_primary(ts2, pos);
            lemma_parse_infix_views(ts1, ts2, clamp(p_left, pos, n), min, l1, l2);
        }
    }
}

pub proof fn lemma_parse_primary_views(ts1: Seq<Token>, ts2: Seq<Token>, pos: int)
    requires
        token_views(ts1) == token_views(ts2),
    ensures
        same_tree(parse_primary(ts1, pos).0, parse_primary(ts2, pos).0),
        parse_primary(ts1, pos).1 == parse_primary(ts2, pos).1,
        parse_primary(ts1, pos).2 == parse_primary(ts2, pos).2,
    decreases ts1.len() - pos, 1nat,
{
    assert(ts1.len() == token_views(ts1).len() && ts2.len() == token_views(ts2).len());
    if 0 <= pos < ts1.len() {
        assert(ts1[pos]@ == token_views(ts1)[pos] && ts2[pos]@ == token_views(ts2)[pos]);
        if ts1[pos].token_type == Type::OpenParenthesis {
            lemma_parse_expr_views(ts1, ts2, pos + 1, 0);
            let q = clamp(parse_expr(ts1, pos + 1, 0).1, pos + 1, ts1.len() as int);
            if 0 <= q < ts1.len() {
                assert(ts1[q]@ == token_views(ts1)[q] && ts2[q]@ == token_views(ts2)[q]);
            }
        }
    }
}

pub proof fn lemma_parse_infix_views(
    ts1: Seq<Token>,
    ts2: Seq<Token>,
    pos: int,
    min: nat,
    left1: Option<Expression>,
    left2: Option<Expression>,
)
    requires
        token_views(ts1) == token_views(ts2),
        same_tree(left1, left2),
    ensures
        same_tree(parse_infix(ts1, pos, min, left1).0, parse_infix(ts2, pos, min, left2).0),
        parse_infix(ts1, pos, min, left1).1 == parse_infix(ts2, pos, min, left2).1,
        parse_infix(ts1, pos, min, left1).2 == parse_infix(ts2, pos, min, left2).2,
    decreases ts1.len() - pos, 0nat,
{
    assert(ts1.len() == token_views(ts1).len() && ts2.len() == token_views(ts2).len());
    if 0 <= pos < ts1.len() {
        assert(ts1[pos]@ == token_views(ts1)[pos] && ts2[pos]@ == token_views(ts2)[pos]);
        let t = ts1[pos].token_type;
        if binary_precedence_of(t) > min {
            let bp = binary_precedence_of(t);
            lemma_parse_expr_views(ts1, ts2, pos + 1, bp);
            let (r1, p, _e1) = parse_expr(ts1, pos + 1, bp);
            let (r2, _p_rest, _e2) = parse_expr(ts2, pos + 1, bp);
            assert(same_tree(binary_node(t, left1, r1), binary_node(t, left2, r2)));
            lemma_parse_infix_views(
                ts1,
                ts2,
                clamp(p, pos + 1, ts1.len() as int),
                min,
                binary_node(t, left1, r1),
                binary_node(t, left2, r2),
            );
        }
    }
}

} // verus!
