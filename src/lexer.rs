use vstd::prelude::*;
use vstd::string::*;

use crate::diagnostic::{DiagnosticHolder, UnitView};

verus! {

/// The grapheme clusters (extended) of a text, in order.
pub uninterp spec fn graphemes_of(s: Seq<char>) -> Seq<Seq<char>>;

/// Relies on `UnicodeSegmentation::graphemes(s, true)` of unicode-segmentation:
/// the extended grapheme clusters of `s`, in order, each copied into a `String`.
#[verifier::external_body]
fn graphemes(s: &str) -> (r: Vec<String>)
    ensures
        segment_views(r@) == graphemes_of(s@),
{
    unicode_segmentation::UnicodeSegmentation::graphemes(s, true).map(|g| g.to_string()).collect()
}

/// The texts of a sequence of segments.
pub open spec fn segment_views(v: Seq<String>) -> Seq<Seq<char>> {
    v.map_values(|s: String| s@)
}

/// The kinds of token.
#[derive(Clone, Copy, Debug, PartialEq, Eq, Structural)]
pub enum Type {
    Identifier,
    Literal,
    Number,
    Plus,
    Minus,
    Star,
    Slash,
    Percent,
    Bang,
    OpenParenthesis,
    CloseParenthesis,
    Arrow,
    Tilde,
    VerticalBar,
    DoubleColon,
    DoubleAmpersand,
    DoublePipe,
    DoubleEqual,
    BangEqual,
}

pub open spec fn unary_precedence_of(t: Type) -> nat {
    match t {
        Type::Plus | Type::Minus | Type::Bang => 5,
        _ => 0,
    }
}

pub open spec fn binary_precedence_of(t: Type) -> nat {
    match t {
        Type::Star | Type::Slash | Type::Percent => 4,
        Type::Plus | Type::Minus => 3,
        Type::DoubleAmpersand | Type::DoublePipe => 2,
        Type::DoubleEqual | Type::BangEqual => 1,
        _ => 0,
    }
}

impl Type {
    /// Prefix binding strength; 0 for a token that is no prefix operator.
    pub fn unary_precedence(&self) -> (r: usize)
        ensures
            r == unary_precedence_of(*self),
    {
        match self {
            Type::Plus | Type::Minus | Type::Bang => 5,
            _ => 0,
        }
    }

    /// Infix binding strength; 0 for a token that is no infix operator.
    pub fn binary_precedence(&self) -> (r: usize)
        ensures
            r == binary_precedence_of(*self),
    {
        match self {
            Type::Star | Type::Slash | Type::Percent => 4,
            Type::Plus | Type::Minus => 3,
            Type::DoubleAmpersand | Type::DoublePipe => 2,
            Type::DoubleEqual | Type::BangEqual => 1,
            _ => 0,
        }
    }
}

/// A token: its text and its kind.
#[derive(Debug, PartialEq)]
pub struct Token {
    pub literal: String,
    pub token_type: Type,
}

impl View for Token {
    type V = (Seq<char>, Type);

    open spec fn view(&self) -> (Seq<char>, Type) {
        (self.literal@, self.token_type)
    }
}

impl Clone for Token {
    fn clone(&self) -> (r: Self)
        ensures
            r == *self,
    {
        Token { literal: self.literal.clone(), token_type: self.token_type }
    }
}

impl Token {
    pub fn new(literal: &str, token_type: Type) -> (r: Self)
        ensures
            r@ == (literal@, token_type),
    {
        Token { literal: literal.to_owned(), token_type }
    }
}

pub open spec fn token_views(ts: Seq<Token>) -> Seq<(Seq<char>, Type)> {
    ts.map_values(|t: Token| t@)
}

pub open spec fn is_space_char(c: char) -> bool {
    c == ' ' || c == '\t' || c == '\n' || c == '\r'
}

/// A grapheme made of spaces, tabs and line breaks only.
pub open spec fn is_space(g: Seq<char>) -> bool {
    g.len() > 0 && forall|i: int| 0 <= i < g.len() ==> is_space_char(#[trigger] g[i])
}

pub open spec fn is_digit(g: Seq<char>) -> bool {
    g.len() == 1 && '0' <= g[0] && g[0] <= '9'
}

/// The grapheme at `i` is the single character `c`.
pub open spec fn is_at(gs: Seq<Seq<char>>, i: int, c: char) -> bool {
    0 <= i < gs.len() && gs[i] == seq![c]
}

/// The graphemes `gs[start..end]` joined into one text.
pub open spec fn join(gs: Seq<Seq<char>>, start: int, end: int) -> Seq<char>
    decreases end - start,
{
    if end <= start {
        Seq::empty()
    } else {
        join(gs, start, end - 1) + gs[end - 1]
    }
}

/// How many graphemes from `i` on come before the next `"`.
pub open spec fn quote_len(gs: Seq<Seq<char>>, i: int) -> nat
    decreases gs.len() - i,
{
    if 0 <= i < gs.len() && gs[i] != seq!['"'] {
        1 + quote_len(gs, i + 1)
    } else {
        0
    }
}

/// How many digits and dots follow one another from `i` on.
pub open spec fn number_len(gs: Seq<Seq<char>>, i: int) -> nat
    decreases gs.len() - i,
{
    if 0 <= i < gs.len() && (is_digit(gs[i]) || gs[i] == seq!['.']) {
        1 + number_len(gs, i + 1)
    } else {
        0
    }
}

/// How many graphemes that are not whitespace follow one another from `i` on.
pub open spec fn word_len(gs: Seq<Seq<char>>, i: int) -> nat
    decreases gs.len() - i,
{
    if 0 <= i < gs.len() && !is_space(gs[i]) {
        1 + word_len(gs, i + 1)
    } else {
        0
    }
}

/// How many dots `gs[start..end]` holds.
pub open spec fn dot_count(gs: Seq<Seq<char>>, start: int, end: int) -> nat
    decreases end - start,
{
    if end <= start {
        0
    } else {
        dot_count(gs, start, end - 1) + if gs[end - 1] == seq!['.'] {
            1nat
        } else {
            0nat
        }
    }
}

pub open spec fn dot_message() -> Seq<char> {
    "Unknown number scheme, only one dot is allowed for float numbers."@
}

/// One error for each dot after the first one of a number.
pub open spec fn dot_errors(dots: nat) -> Seq<UnitView> {
    if dots <= 1 {
        Seq::empty()
    } else {
        Seq::new((dots - 1) as nat, |_i: int| UnitView::Error(dot_message()))
    }
}

/// A token that spans graphemes `start..end`.
pub open spec fn span_token(gs: Seq<Seq<char>>, start: int, end: int, t: Type) -> Option<
    (Seq<char>, Type),
> {
    Some((join(gs, start, end), t))
}

/// A token with a fixed text.
pub open spec fn fixed(text: Seq<char>, t: Type) -> Option<(Seq<char>, Type)> {
    Some((text, t))
}

/// The identifier that starts at `pos` and runs up to the next whitespace.
pub open spec fn word_step(gs: Seq<Seq<char>>, pos: int) -> (
    Option<(Seq<char>, Type)>,
    Seq<UnitView>,
    int,
) {
    let end = pos + 1 + word_len(gs, pos + 1);
    (span_token(gs, pos, end, Type::Identifier), Seq::empty(), end)
}

/// One scanning step at `pos < gs.len()`: the token it emits, if any, the
/// diagnostics it reports, and where the next step starts.
pub open spec fn lex_step(gs: Seq<Seq<char>>, pos: int) -> (
    Option<(Seq<char>, Type)>,
    Seq<UnitView>,
    int,
) {
    let g = gs[pos];
    let none = Seq::<UnitView>::empty();
    if g == seq!['+'] {
        (fixed("+"@, Type::Plus), none, pos + 1)
    } else if g == seq!['-'] {
        if is_at(gs, pos + 1, '>') {
            (fixed("->"@, Type::Arrow), none, pos + 2)
        } else {
            (fixed("-"@, Type::Minus), none, pos + 1)
        }
    } else if g == seq!['*'] {
        (fixed("*"@, Type::Star), none, pos + 1)
    } else if g == seq!['/'] {
        (fixed("/"@, Type::Slash), none, pos + 1)
    } else if g == seq!['%'] {
        (fixed("%"@, Type::Percent), none, pos + 1)
    } else if g == seq!['!'] {
        if is_at(gs, pos + 1, '=') {
            (fixed("!="@, Type::BangEqual), none, pos + 2)
        } else {
            (fixed("!"@, Type::Bang), none, pos + 1)
        }
    } else if g == seq!['('] {
        (fixed("("@, Type::OpenParenthesis), none, pos + 1)
    } else if g == seq![')'] {
        (fixed(")"@, Type::CloseParenthesis), none, pos + 1)
    } else if g == seq![':'] {
        if is_at(gs, pos + 1, ':') {
            (fixed("::"@, Type::DoubleColon), none, pos + 2)
        } else {
            (None, none, pos + 1)
        }
    } else if g == seq!['~'] {
        (fixed("~"@, Type::Tilde), none, pos + 1)
    } else if g == seq!['|'] {
        if is_at(gs, pos + 1, '|') {
            (fixed("||"@, Type::DoublePipe), none, pos + 2)
        } else {
            (fixed("|"@, Type::VerticalBar), none, pos + 1)
        }
    } else if g == seq!['&'] && is_at(gs, pos + 1, '&') {
        (fixed("&&"@, Type::DoubleAmpersand), none, pos + 2)
    } else if g == seq!['='] && is_at(gs, pos + 1, '=') {
        (fixed("=="@, Type::DoubleEqual), none, pos + 2)
    } else if g == seq!['"'] {
        let close = pos + 1 + quote_len(gs, pos + 1);
        (
            span_token(gs, pos + 1, close, Type::Literal),
            none,
            if close < gs.len() {
                close + 1
            } else {
                close
            },
        )
    } else if is_digit(g) {
        let end = pos + 1 + number_len(gs, pos + 1);
        (span_token(gs, pos, end, Type::Number), dot_errors(dot_count(gs, pos, end)), end)
    } else if is_space(g) {
        (None, none, pos + 1)
    } else {
        word_step(gs, pos)
    }
}

proof fn lemma_runs_bounded(gs: Seq<Seq<char>>, i: int)
    requires
        0 <= i <= gs.len(),
    ensures
        quote_len(gs, i) <= gs.len() - i,
        number_len(gs, i) <= gs.len() - i,
        word_len(gs, i) <= gs.len() - i,
    decreases gs.len() - i,
{
    if i < gs.len() {
        lemma_runs_bounded(gs, i + 1);
    }
}

/// Each scanning step moves forward and stays within the input.
pub proof fn lemma_step_advances(gs: Seq<Seq<char>>, pos: int)
    requires
        0 <= pos < gs.len(),
    ensures
        pos < lex_step(gs, pos).2 <= gs.len(),
{
    lemma_runs_bounded(gs, pos + 1);
}

/// The tokens, and the diagnostics, of lexing `gs` from `pos` to the end.
pub open spec fn lex_from(gs: Seq<Seq<char>>, pos: int) -> (Seq<(Seq<char>, Type)>, Seq<UnitView>)
    decreases gs.len() - pos,
{
    if pos < 0 || pos >= gs.len() {
        (Seq::empty(), Seq::empty())
    } else {
        let (token, errors, next) = lex_step(gs, pos);
        proof {
            lemma_step_advances(gs, pos);
        }
        let (rest, rest_errors) = lex_from(gs, next);
        (
            match token {
                Some(t) => seq![t] + rest,
                None => rest,
            },
            errors + rest_errors,
        )
    }
}

/// Turns source text into tokens, one grapheme cluster at a time.
pub struct Lexer {
    position: usize,
    source: String,
}

impl View for Lexer {
    type V = (Seq<char>, int);

    closed spec fn view(&self) -> (Seq<char>, int) {
        (self.source@, self.position as int)
    }
}


pub open spec fn token_option_view(t: Option<Token>) -> Option<(Seq<char>, Type)> {
    match t {
        Some(t) => Some(t@),
        None => None,
    }
}

/// The segment at `i` is the single character `c`.
fn segment_is(segments: &Vec<String>, i: usize, c: char) -> (r: bool)
    ensures
        r == is_at(segment_views(segments@), i as int, c),
{
    if i < segments.len() {
        let g = segments[i].as_str();
        if g.unicode_len() == 1 {
            let d = g.get_char(0);
            if d == c {
                assert(g@ =~= seq![c]);
                true
            } else {
                assert(g@[0] != seq![c][0]);
                false
            }
        } else {
            assert(g@.len() != seq![c].len());
            false
        }
    } else {
        false
    }
}

fn segment_is_digit(segments: &Vec<String>, i: usize) -> (r: bool)
    requires
        i < segments@.len(),
    ensures
        r == is_digit(segment_views(segments@)[i as int]),
{
    let g = segments[i].as_str();
    if g.unicode_len() == 1 {
        let d = g.get_char(0);
        '0' <= d && d <= '9'
    } else {
        false
    }
}

fn segment_is_space(segments: &Vec<String>, i: usize) -> (r: bool)
    requires
        i < segments@.len(),
    ensures
        r == is_space(segment_views(segments@)[i as int]),
{
    let g = segments[i].as_str();
    assert(segment_views(segments@)[i as int] == g@);
    let len = g.unicode_len();
    if len == 0 {
        return false;
    }
    let mut k: usize = 0;
    while k < len
        invariant
            len == g@.len(),
            segment_views(segments@)[i as int] == g@,
            k <= len,
            forall|j: int| 0 <= j < k ==> is_space_char(#[trigger] g@[j]),
        decreases len - k,
    {
        let c = g.get_char(k);
        if !(c == ' ' || c == '\t' || c == '\n' || c == '\r') {
            assert(!is_space_char(g@[k as int]));
            return false;
        }
        k = k + 1;
    }
    true
}

/// The segments `start..end` joined into one `String`.
fn join_segments(segments: &Vec<String>, start: usize, end: usize) -> (r: String)
    requires
        start <= end <= segments@.len(),
    ensures
        r@ == join(segment_views(segments@), start as int, end as int),
{
    let mut r = String::new();
    let mut k = start;
    while k < end
        invariant
            start <= k <= end <= segments@.len(),
            r@ == join(segment_views(segments@), start as int, k as int),
        decreases end - k,
    {
        r.append(segments[k].as_str());
        k = k + 1;
    }
    r
}

impl Lexer {
    pub fn new(source: String) -> (r: Self)
        ensures
            r@ == (source@, 0int),
    {
        Lexer { position: 0, source }
    }

    /// The segment `offset` places after the current one is the single character `c`.
    fn offset(&self, segments: &Vec<String>, offset: usize, c: char) -> (r: bool)
        requires
            self.position < segments@.len(),
            offset <= 1,
        ensures
            r == is_at(segment_views(segments@), self.position + offset, c),
    {
        let n = segments.len();
        if offset < n - self.position {
            segment_is(segments, self.position + offset, c)
        } else {
            false
        }
    }

    /// One scanning step at the current position, as `lex_step` describes it.
    fn scan(&self, segments: &Vec<String>, holder: &mut DiagnosticHolder) -> (r: (
        Option<Token>,
        usize,
    ))
        requires
            self.position < segments@.len(),
        ensures
            token_option_view(r.0) == lex_step(segment_views(segments@), self.position as int).0,
            r.1 == lex_step(segment_views(segments@), self.position as int).2,
            final(holder)@ == old(holder)@ + lex_step(
                segment_views(segments@),
                self.position as int,
            ).1,
    {
        let ghost gs = segment_views(segments@);
        let pos = self.position;
        let n = segments.len();
        assert(old(holder)@ + Seq::<UnitView>::empty() =~= old(holder)@);
        if segment_is(segments, pos, '+') {
            (Some(Token::new("+", Type::Plus)), pos + 1)
        } else if segment_is(segments, pos, '-') {
            if self.offset(segments, 1, '>') {
                (Some(Token::new("->", Type::Arrow)), pos + 2)
            } else {
                (Some(Token::new("-", Type::Minus)), pos + 1)
            }
        } else if segment_is(segments, pos, '*') {
            (Some(Token::new("*", Type::Star)), pos + 1)
        } else if segment_is(segments, pos, '/') {
            (Some(Token::new("/", Type::Slash)), pos + 1)
        } else if segment_is(segments, pos, '%') {
            (Some(Token::new("%", Type::Percent)), pos + 1)
        } else if segment_is(segments, pos, '!') {
            if self.offset(segments, 1, '=') {
                (Some(Token::new("!=", Type::BangEqual)), pos + 2)
            } else {
                (Some(Token::new("!", Type::Bang)), pos + 1)
            }
        } else if segment_is(segments, pos, '(') {
            (Some(Token::new("(", Type::OpenParenthesis)), pos + 1)
        } else if segment_is(segments, pos, ')') {
            (Some(Token::new(")", Type::CloseParenthesis)), pos + 1)
        } else if segment_is(segments, pos, ':') {
            if self.offset(segments, 1, ':') {
                (Some(Token::new("::", Type::DoubleColon)), pos + 2)
            } else {
                (None, pos + 1)
            }
        } else if segment_is(segments, pos, '~') {
            (Some(Token::new("~", Type::Tilde)), pos + 1)
        } else if segment_is(segments, pos, '|') {
            if self.offset(segments, 1, '|') {
                (Some(Token::new("||", Type::DoublePipe)), pos + 2)
            } else {
                (Some(Token::new("|", Type::VerticalBar)), pos + 1)
            }
        } else if segment_is(segments, pos, '&') && self.offset(segments, 1, '&') {
            (Some(Token::new("&&", Type::DoubleAmpersand)), pos + 2)
        } else if segment_is(segments, pos, '=') && self.offset(segments, 1, '=') {
            (Some(Token::new("==", Type::DoubleEqual)), pos + 2)
        } else if segment_is(segments, pos, '"') {
            let start = pos + 1;
            let mut end = start;
            while end < n && !segment_is(segments, end, '"')
                invariant
                    gs == segment_views(segments@),
                    n == segments@.len(),
                    start <= end <= n,
                    quote_len(gs, start as int) == (end - start) + quote_len(gs, end as int),
                decreases n - end,
            {
                end = end + 1;
            }
            let literal = join_segments(segments, start, end);
            let next = if end < n {
                end + 1
            } else {
                end
            };
            (Some(Token { literal, token_type: Type::Literal }), next)
        } else if segment_is_digit(segments, pos) {
            let mut end = pos;
            let mut float = false;
            while end < n && (segment_is_digit(segments, end) || segment_is(segments, end, '.'))
                invariant
                    gs == segment_views(segments@),
                    n == segments@.len(),
                    pos < n,
                    is_digit(gs[pos as int]),
                    pos <= end <= n,
                    number_len(gs, pos as int) == (end - pos) + number_len(gs, end as int),
                    float == (dot_count(gs, pos as int, end as int) >= 1),
                    holder@ == old(holder)@ + dot_errors(dot_count(gs, pos as int, end as int)),
                decreases n - end,
            {
                if segment_is(segments, end, '.') {
                    if float {
                        holder.error(
                            "Unknown number scheme, only one dot is allowed for float numbers.",
                        );
                        assert(dot_errors(dot_count(gs, pos as int, end as int)).push(
                            UnitView::Error(dot_message()),
                        ) =~= dot_errors(dot_count(gs, pos as int, end as int) + 1));
                    } else {
                        float = true;
                    }
                }
                end = end + 1;
            }
            let literal = join_segments(segments, pos, end);
            (Some(Token { literal, token_type: Type::Number }), end)
        } else if segment_is_space(segments, pos) {
            (None, pos + 1)
        } else {
            let mut end = pos;
            while end < n && !segment_is_space(segments, end)
                invariant
                    gs == segment_views(segments@),
                    n == segments@.len(),
                    pos < n,
                    !is_space(gs[pos as int]),
                    pos <= end <= n,
                    word_len(gs, pos as int) == (end - pos) + word_len(gs, end as int),
                decreases n - end,
            {
                end = end + 1;
            }
            let literal = join_segments(segments, pos, end);
            (Some(Token { literal, token_type: Type::Identifier }), end)
        }
    }

    /// Lexes already segmented text from the current position to its end.
    pub fn lex_segments(&mut self, segments: &Vec<String>, holder: &mut DiagnosticHolder) -> (r:
        Vec<Token>)
        ensures
            token_views(r@) == lex_from(segment_views(segments@), old(self)@.1).0,
            final(holder)@ == old(holder)@ + lex_from(segment_views(segments@), old(self)@.1).1,
            final(self)@.0 == old(self)@.0,
    {
        let ghost gs = segment_views(segments@);
        let ghost start = self.position as int;
        let mut tokens: Vec<Token> = Vec::new();
        let n = segments.len();
        assert(token_views(tokens@) + lex_from(gs, start).0 =~= lex_from(gs, start).0);
        while self.position < n
            invariant
                gs == segment_views(segments@),
                n == segments@.len(),
                self.source@ == old(self).source@,
                token_views(tokens@) + lex_from(gs, self.position as int).0 == lex_from(gs, start).0,
                holder@ + lex_from(gs, self.position as int).1 == old(holder)@ + lex_from(gs, start).1,
            decreases n - self.position,
        {
            let ghost pos = self.position as int;
            let ghost before = holder@;
            proof {
                lemma_step_advances(gs, pos);
            }
            let (token, next) = self.scan(segments, holder);
            let ghost step = lex_step(gs, pos);
            let ghost rest = lex_from(gs, next as int);
            assert(holder@ + rest.1 =~= before + lex_from(gs, pos).1);
            match token {
                Some(t) => {
                    let ghost old_tokens = tokens@;
                    tokens.push(t);
                    assert(token_views(tokens@) =~= token_views(old_tokens).push(t@));
                    assert(token_views(tokens@) + rest.0 =~= token_views(old_tokens) + lex_from(gs, pos).0);
                },
                None => {},
            }
            self.position = next;
        }
        assert(token_views(tokens@) + lex_from(gs, self.position as int).0 =~= token_views(tokens@));
        assert(holder@ + lex_from(gs, self.position as int).1 =~= holder@);
        tokens
    }

    /// Turns the whole source, from the current position on, into tokens.
    pub fn lex(&mut self, holder: &mut DiagnosticHolder) -> (r: Vec<Token>)
        ensures
            token_views(r@) == lex_from(graphemes_of(old(self)@.0), old(self)@.1).0,
            final(holder)@ == old(holder)@ + lex_from(graphemes_of(old(self)@.0), old(self)@.1).1,
            final(self)@.0 == old(self)@.0,
    {
        let segments = graphemes(self.source.as_str());
        self.lex_segments(&segments, holder)
    }
}

} // verus!
