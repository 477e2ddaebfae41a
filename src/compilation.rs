use vstd::prelude::*;

use crate::binder::{bind_tree, lemma_bind_views, same_bound, Binder, BoundExpression};
use crate::diagnostic::{DiagnosticHolder, UnitView};
use crate::lexer::{graphemes_of, lex_from, token_views, Lexer, Token, Type};
use crate::parser::{lemma_parse_expr_views, parse_expr, Parser, Tree};
use crate::runtime::{
    deterministic_operations, evaluates_to, is_well_typed, lemma_eval_views,
    lemma_same_bound_well_typed, same_value, total_operations, well_typed, Evaluator, Operator, Value,
};

verus! {

/// The tokens and the lexical diagnostics of a source text.
pub open spec fn lexed(source: Seq<char>) -> (Seq<(Seq<char>, Type)>, Seq<UnitView>) {
    lex_from(graphemes_of(source), 0)
}

/// What evaluation yields for a bound tree once the log `diagnostics` is
/// final: the error value while the log is not empty or the tree cannot be
/// evaluated, else a result of evaluating the tree.
pub open spec fn outcome<N, P, G, A, S>(
    diagnostics: Seq<UnitView>,
    bound: Option<BoundExpression>,
    r: Value<N>,
    parse: P,
    negate: G,
    apply: A,
    show: S,
) -> bool where P: Fn(String) -> N, G: Fn(N) -> N, A: Fn(Operator, N, N) -> N, S: Fn(N) -> String {
    if diagnostics.len() == 0 && well_typed(bound) {
        evaluates_to(bound, r, parse, negate, apply, show)
    } else {
        r == Value::<N>::Error
    }
}

/// The diagnostics after binding, given those that lexing and parsing left.
pub open spec fn after_binding(before: Seq<UnitView>, tree: Option<crate::parser::Expression>) -> Seq<
    UnitView,
> {
    if before.len() == 0 {
        bind_tree(tree).1
    } else {
        before
    }
}

/// The bound tree, given the diagnostics that lexing and parsing left.
pub open spec fn bound_after(before: Seq<UnitView>, tree: Option<crate::parser::Expression>) -> Option<
    BoundExpression,
> {
    if before.len() == 0 {
        bind_tree(tree).0
    } else {
        None
    }
}

/// The diagnostics after a run on `source` that began with the log `start`
/// and lexed the source into `ts`.
pub open spec fn run_diagnostics(start: Seq<UnitView>, source: Seq<char>, ts: Seq<Token>) -> Seq<
    UnitView,
> {
    after_binding(start + lexed(source).1 + parse_expr(ts, 0, 0).2, parse_expr(ts, 0, 0).0)
}

/// The bound tree of such a run.
pub open spec fn run_bound(start: Seq<UnitView>, source: Seq<char>, ts: Seq<Token>) -> Option<
    BoundExpression,
> {
    bound_after(start + lexed(source).1 + parse_expr(ts, 0, 0).2, parse_expr(ts, 0, 0).0)
}

/// Running the same source twice, each time with a fresh log, gives the
/// same diagnostics; with deterministic number operations, the two results
/// are alike too (equal, strings compared by their text).
pub proof fn lemma_fresh_runs_agree<N, P, G, A, S>(
    source: Seq<char>,
    ts1: Seq<Token>,
    ts2: Seq<Token>,
    v1: Value<N>,
    v2: Value<N>,
    parse: P,
    negate: G,
    apply: A,
    show: S,
) where P: Fn(String) -> N, G: Fn(N) -> N, A: Fn(Operator, N, N) -> N, S: Fn(N) -> String
    requires
        token_views(ts1) == lexed(source).0,
        token_views(ts2) == lexed(source).0,
        deterministic_operations(parse, negate, apply, show),
        outcome(
            run_diagnostics(Seq::empty(), source, ts1),
            run_bound(Seq::empty(), source, ts1),
            v1,
            parse,
            negate,
            apply,
            show,
        ),
        outcome(
            run_diagnostics(Seq::empty(), source, ts2),
            run_bound(Seq::empty(), source, ts2),
            v2,
            parse,
            negate,
            apply,
            show,
        ),
    ensures
        run_diagnostics(Seq::empty(), source, ts1) == run_diagnostics(Seq::empty(), source, ts2),
        same_value(v1, v2),
{
    lemma_parse_expr_views(ts1, ts2, 0, 0);
    let tree1 = parse_expr(ts1, 0, 0).0;
    let tree2 = parse_expr(ts2, 0, 0).0;
    lemma_bind_views(tree1, tree2);
    let b1 = run_bound(Seq::empty(), source, ts1);
    let b2 = run_bound(Seq::empty(), source, ts2);
    assert(same_bound(b1, b2));
    lemma_same_bound_well_typed(b1, b2);
    if run_diagnostics(Seq::empty(), source, ts1).len() == 0 && well_typed(b1) {
        lemma_eval_views(b1, b2, v1, v2, parse, negate, apply, show);
    }
}

/// One request: a source text and the diagnostics log of its run.
pub struct Compilation {
    pub source: String,
    pub holder: DiagnosticHolder,
}

impl View for Compilation {
    type V = Seq<char>;

    open spec fn view(&self) -> Seq<char> {
        self.source@
    }
}

impl Compilation {
    pub fn new(source: String) -> (r: Self)
        ensures
            r@ == source@,
            r.holder@ == Seq::<UnitView>::empty(),
    {
        Compilation { source, holder: DiagnosticHolder::new() }
    }

    /// Lexes and parses the source.
    pub fn lex_parse(&mut self) -> (r: Tree)
        ensures
            final(self)@ == old(self)@,
            exists|ts: Seq<Token>|
                #![trigger token_views(ts)]
                token_views(ts) == lexed(old(self)@).0 && r.root_expression == parse_expr(
                    ts,
                    0,
                    0,
                ).0 && final(self).holder@ == old(self).holder@ + lexed(old(self)@).1 + parse_expr(
                    ts,
                    0,
                    0,
                ).2,
    {
        let source = self.source.clone();
        let mut lexer = Lexer::new(source);
        let tokens = lexer.lex(&mut self.holder);
        let ghost ts = tokens@;
        let mut parser = Parser::new(tokens);
        let tree = parser.parse(&mut self.holder);
        assert(token_views(ts) == lexed(old(self)@).0);
        tree
    }

    /// Binds a parsed tree, unless the log already holds a diagnostic.
    pub fn bind_tree(&mut self, tree: Tree) -> (r: Option<BoundExpression>)
        ensures
            final(self)@ == old(self)@,
            r == bound_after(old(self).holder@, tree.root_expression),
            final(self).holder@ == after_binding(old(self).holder@, tree.root_expression),
    {
        let binder = Binder::new();
        binder.bind_expression(tree.root_expression, &mut self.holder)
    }

    /// Evaluates a bound tree: the error value once the log holds a
    /// diagnostic, or when there is no tree that can be evaluated.
    pub fn eval_expression<N: Copy, P, G, A, S>(
        &mut self,
        bound_expression: Option<BoundExpression>,
        parse: &P,
        negate: &G,
        apply: &A,
        show: &S,
    ) -> (r: Value<N>) where
        P: Fn(String) -> N,
        G: Fn(N) -> N,
        A: Fn(Operator, N, N) -> N,
        S: Fn(N) -> String,

        requires
            total_operations(*parse, *negate, *apply, *show),
        ensures
            final(self)@ == old(self)@,
            final(self).holder@ == old(self).holder@,
            outcome(old(self).holder@, bound_expression, r, *parse, *negate, *apply, *show),
    {
        if !self.holder.success() || !is_well_typed(&bound_expression) {
            return Value::Error;
        }
        match bound_expression {
            Some(root) => {
                let evaluator = Evaluator::new(root);
                evaluator.eval(&self.holder, parse, negate, apply, show)
            },
            None => Value::Error,
        }
    }

    /// Runs the whole pipeline on the source: lexing, parsing, binding and
    /// evaluation.
    pub fn eval<N: Copy, P, G, A, S>(&mut self, parse: &P, negate: &G, apply: &A, show: &S) -> (r:
        Value<N>) where
        P: Fn(String) -> N,
        G: Fn(N) -> N,
        A: Fn(Operator, N, N) -> N,
        S: Fn(N) -> String,

        requires
            total_operations(*parse, *negate, *apply, *show),
        ensures
            final(self)@ == old(self)@,
            exists|ts: Seq<Token>|
                #![trigger token_views(ts)]
                token_views(ts) == lexed(old(self)@).0 && final(self).holder@ == run_diagnostics(
                    old(self).holder@,
                    old(self)@,
                    ts,
                ) && outcome(
                    final(self).holder@,
                    run_bound(old(self).holder@, old(self)@, ts),
                    r,
                    *parse,
                    *negate,
                    *apply,
                    *show,
                ),
    {
        let tree = self.lex_parse();
        let bound_expression = self.bind_tree(tree);
        self.eval_expression(bound_expression, parse, negate, apply, show)
    }
}

} // verus!
