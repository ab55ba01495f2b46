//! The parser: precedence-climbing recursive descent with single-token
//! lookahead over the token vector the tokenizer produced.
//!
//! The grammar, lowest to highest binding power:
//!
//! ```text
//! expression := term (('+' | '-') term)*        left-associative
//! term       := factor (('*' | '/') factor)*    left-associative
//! factor     := primary ('^' factor)?           right-associative
//! primary    := NUMBER
//!             | CONSTANT-NAME
//!             | '(' expression ')'
//!             | '-' term
//!             | FUNCTION-NAME '(' arguments ')'
//! arguments  := (expression (',' expression)*)?
//! ```
//!
//! An identifier followed by `(` resolves case-insensitively against the
//! function registry, any other identifier resolves case-sensitively against
//! the constant table; a name that resolves to neither is an error.  The
//! argument-list policy is strict: after each argument only `,` or `)` may
//! follow, so a stray trailing comma is rejected.  Arity is checked as soon
//! as an argument list is complete.  Parsing succeeds only when the `End`
//! token directly follows the top-level expression.
//!
//! `Parser::parse` carries a full functional contract: its result — the tree
//! on success, the error value on failure — equals the mathematical parser
//! `sp_parse` applied to the token sequence.

use vstd::prelude::*;

use crate::constants::Constant;
use crate::functions::Function;
use crate::lexer::{views, Operator, Token, TokenView};

verus! {

/// An abstract syntax tree node.  Binary and unary nodes own their children;
/// a function call holds the registry entry's tag and its arguments in
/// order.  Numeric literals keep their digit text.
#[derive(Debug, PartialEq)]
pub enum Expression {
    Binary(Operator, Box<Expression>, Box<Expression>),
    Unary(Operator, Box<Expression>),
    Number(String),
    Function(Function, Vec<Expression>),
    Constant(Constant),
}

/// The mathematical shape of an expression tree: each node carries the
/// sequence of its children.  A binary node has exactly two, a unary node
/// exactly one.
pub enum ExprView {
    Binary(Operator, Seq<ExprView>),
    Unary(Operator, Seq<ExprView>),
    Number(Seq<char>),
    Function(Function, Seq<ExprView>),
    Constant(Constant),
}

impl Expression {
    /// The view of a tree: the same shape over sequences.
    pub open spec fn to_view(self) -> ExprView
        decreases self, 1int,
    {
        match self {
            Expression::Binary(op, a, b) => ExprView::Binary(
                op,
                seq![(*a).to_view(), (*b).to_view()],
            ),
            Expression::Unary(op, a) => ExprView::Unary(op, seq![(*a).to_view()]),
            Expression::Number(s) => ExprView::Number(s@),
            Expression::Function(f, args) => ExprView::Function(f, expr_views(args@)),
            Expression::Constant(c) => ExprView::Constant(c),
        }
    }
}

/// The views of an argument sequence, in order.
pub open spec fn expr_views(es: Seq<Expression>) -> Seq<ExprView>
    decreases es, 0int,
{
    if es.len() == 0 {
        Seq::<ExprView>::empty()
    } else {
        seq![es[0].to_view()] + expr_views(es.drop_first())
    }
}

/// What the parser was looking for when it met an unexpected token.
#[derive(Debug, PartialEq, Eq, Clone, Copy, Structural)]
pub enum Expected {
    /// The start of a primary expression: a number, a name, `(` or `-`.
    Primary,
    /// The `)` that closes a parenthesized group.
    RightParen,
    /// The `,` or `)` that continues or closes an argument list.
    ArgumentEnd,
}

/// A structured parse failure.  Parsing aborts on the first one; no partial
/// tree is returned.
#[derive(Debug, PartialEq)]
pub enum ParseError {
    /// The next token cannot continue the grammar here.  Running out of
    /// input surfaces as `found: Token::End`.
    UnexpectedToken { expected: Expected, found: Token },
    /// An identifier that names neither a registry function nor a table
    /// constant.
    UnknownName { name: String },
    /// An argument list whose length violates the function's arity class.
    ArityMismatch { function: Function, count: usize },
    /// A complete expression was parsed but input remains before `End`.
    TrailingTokens { found: Token },
}

/// The mathematical shape of a parse failure.
pub enum ParseErrorView {
    UnexpectedToken { expected: Expected, found: TokenView },
    UnknownName { name: Seq<char> },
    ArityMismatch { function: Function, count: int },
    TrailingTokens { found: TokenView },
}

impl ParseError {
    /// The view of a parse failure.
    pub open spec fn to_view(self) -> ParseErrorView {
        match self {
            ParseError::UnexpectedToken { expected, found } => ParseErrorView::UnexpectedToken {
                expected,
                found: found@,
            },
            ParseError::UnknownName { name } => ParseErrorView::UnknownName { name: name@ },
            ParseError::ArityMismatch { function, count } => ParseErrorView::ArityMismatch {
                function,
                count: count as int,
            },
            ParseError::TrailingTokens { found } => ParseErrorView::TrailingTokens {
                found: found@,
            },
        }
    }
}

/// The token at position `i`, with `End` standing in for an exhausted
/// sequence, so that lookahead is total.
pub open spec fn sp_peek(t: Seq<TokenView>, i: int) -> TokenView {
    if 0 <= i < t.len() {
        t[i]
    } else {
        TokenView::End
    }
}

/// Parses one primary at `i`: a number, a resolved name, a parenthesized
/// group, or a prefix minus applied to a term.  On success, the node and the
/// position after it.
pub open spec fn sp_primary(t: Seq<TokenView>, i: int) -> Result<(ExprView, int), ParseErrorView>
    decreases t.len() - i, 0int,
{
    match sp_peek(t, i) {
        TokenView::Number(lexeme) => Ok((ExprView::Number(lexeme), i + 1)),
        TokenView::Identifier(name) => if sp_peek(t, i + 1) is LeftParen {
            match Function::spec_from_name(name) {
                Some(f) => match sp_arguments(t, i + 2) {
                    Ok((args, j)) => if f.spec_arity_ok(args.len() as int) {
                        Ok((ExprView::Function(f, args), j))
                    } else {
                        Err(ParseErrorView::ArityMismatch { function: f, count: args.len() as int })
                    },
                    Err(e) => Err(e),
                },
                None => Err(ParseErrorView::UnknownName { name }),
            }
        } else {
            match Constant::spec_from_name(name) {
                Some(c) => Ok((ExprView::Constant(c), i + 1)),
                None => Err(ParseErrorView::UnknownName { name }),
            }
        },
        TokenView::LeftParen => match sp_expression(t, i + 1) {
            Ok((e, j)) => if sp_peek(t, j) is RightParen {
                Ok((e, j + 1))
            } else {
                Err(ParseErrorView::UnexpectedToken {
                    expected: Expected::RightParen,
                    found: sp_peek(t, j),
                })
            },
            Err(e) => Err(e),
        },
        TokenView::Dash => match sp_term(t, i + 1) {
            Ok((e, j)) => Ok((ExprView::Unary(Operator::Negative, seq![e]), j)),
            Err(e) => Err(e),
        },
        _ => Err(ParseErrorView::UnexpectedToken {
            expected: Expected::Primary,
            found: sp_peek(t, i),
        }),
    }
}

/// Parses a factor at `i`: a primary, optionally raised to a factor.  The
/// right operand recurses at factor level, so `^` is right-associative.
pub open spec fn sp_factor(t: Seq<TokenView>, i: int) -> Result<(ExprView, int), ParseErrorView>
    decreases t.len() - i, 1int,
{
    match sp_primary(t, i) {
        Ok((e, j)) => if i < j <= t.len() {
            if sp_peek(t, j) is Caret {
                match sp_factor(t, j + 1) {
                    Ok((r, k)) => Ok((ExprView::Binary(Operator::Power, seq![e, r]), k)),
                    Err(er) => Err(er),
                }
            } else {
                Ok((e, j))
            }
        } else {
            arbitrary()
        },
        Err(e) => Err(e),
    }
}

/// Parses a term at `i`: factors joined by `*` or `/`, folded to the left.
pub open spec fn sp_term(t: Seq<TokenView>, i: int) -> Result<(ExprView, int), ParseErrorView>
    decreases t.len() - i, 2int,
{
    match sp_factor(t, i) {
        Ok((e, j)) => if i < j <= t.len() {
            sp_term_more(t, e, j)
        } else {
            arbitrary()
        },
        Err(e) => Err(e),
    }
}

/// Continues a term whose left part is `acc`: while the next token is `*` or
/// `/`, takes one more factor and folds it onto the left.
pub open spec fn sp_term_more(t: Seq<TokenView>, acc: ExprView, i: int) -> Result<
    (ExprView, int),
    ParseErrorView,
>
    decreases t.len() - i, 5int,
{
    let nx = sp_peek(t, i);
    if nx is Star || nx is Slash {
        let op = if nx is Star {
            Operator::Multiply
        } else {
            Operator::Divide
        };
        match sp_factor(t, i + 1) {
            Ok((e2, j)) => if i < j <= t.len() {
                sp_term_more(t, ExprView::Binary(op, seq![acc, e2]), j)
            } else {
                arbitrary()
            },
            Err(e) => Err(e),
        }
    } else {
        Ok((acc, i))
    }
}

/// Parses an expression at `i`: terms joined by `+` or `-`, folded to the
/// left.
pub open spec fn sp_expression(t: Seq<TokenView>, i: int) -> Result<
    (ExprView, int),
    ParseErrorView,
>
    decreases t.len() - i, 3int,
{
    match sp_term(t, i) {
        Ok((e, j)) => if i < j <= t.len() {
            sp_expression_more(t, e, j)
        } else {
            arbitrary()
        },
        Err(e) => Err(e),
    }
}

/// Continues an expression whose left part is `acc`: while the next token is
/// `+` or `-`, takes one more term and folds it onto the left.
pub open spec fn sp_expression_more(t: Seq<TokenView>, acc: ExprView, i: int) -> Result<
    (ExprView, int),
    ParseErrorView,
>
    decreases t.len() - i, 6int,
{
    let nx = sp_peek(t, i);
    if nx is Plus || nx is Dash {
        let op = if nx is Plus {
            Operator::Add
        } else {
            Operator::Subtract
        };
        match sp_term(t, i + 1) {
            Ok((e2, j)) => if i < j <= t.len() {
                sp_expression_more(t, ExprView::Binary(op, seq![acc, e2]), j)
            } else {
                arbitrary()
            },
            Err(e) => Err(e),
        }
    } else {
        Ok((acc, i))
    }
}

/// Parses an argument list at `i`, which is just after the opening `(`:
/// either `)` at once (no arguments), or expressions separated by `,` until
/// `)`.  After each argument only `,` or `)` may follow.  On success, the
/// arguments and the position after the closing `)`.
pub open spec fn sp_arguments(t: Seq<TokenView>, i: int) -> Result<
    (Seq<ExprView>, int),
    ParseErrorView,
>
    decreases t.len() - i, 4int,
{
    if sp_peek(t, i) is RightParen {
        Ok((Seq::<ExprView>::empty(), i + 1))
    } else {
        match sp_expression(t, i) {
            Ok((e, j)) => if i < j <= t.len() {
                sp_args_more(t, seq![e], j)
            } else {
                arbitrary()
            },
            Err(er) => Err(er),
        }
    }
}

/// Continues an argument list whose arguments so far are `acc`: `)` closes
/// the list, `,` demands one more expression, anything else is an error.
pub open spec fn sp_args_more(t: Seq<TokenView>, acc: Seq<ExprView>, i: int) -> Result<
    (Seq<ExprView>, int),
    ParseErrorView,
>
    decreases t.len() - i, 5int,
{
    match sp_peek(t, i) {
        TokenView::RightParen => Ok((acc, i + 1)),
        TokenView::Comma => match sp_expression(t, i + 1) {
            Ok((e, j)) => if i < j <= t.len() {
                sp_args_more(t, acc.push(e), j)
            } else {
                arbitrary()
            },
            Err(er) => Err(er),
        },
        _ => Err(ParseErrorView::UnexpectedToken {
            expected: Expected::ArgumentEnd,
            found: sp_peek(t, i),
        }),
    }
}

/// Parses a whole token sequence from position `i`: one expression, which
/// the `End` token must directly follow.
pub open spec fn sp_parse(t: Seq<TokenView>, i: int) -> Result<ExprView, ParseErrorView> {
    match sp_expression(t, i) {
        Ok((e, j)) => if sp_peek(t, j) is End {
            Ok(e)
        } else {
            Err(ParseErrorView::TrailingTokens { found: sp_peek(t, j) })
        },
        Err(e) => Err(e),
    }
}

proof fn lemma_expr_views_len(es: Seq<Expression>)
    ensures
        expr_views(es).len() == es.len(),
    decreases es.len(),
{
    if es.len() > 0 {
        lemma_expr_views_len(es.drop_first());
    }
}

proof fn lemma_expr_views_push(es: Seq<Expression>, e: Expression)
    ensures
        expr_views(es.push(e)) == expr_views(es).push(e.to_view()),
    decreases es.len(),
{
    if es.len() == 0 {
        assert(es.push(e)[0] == e);
        assert(es.push(e).drop_first() =~= Seq::<Expression>::empty());
        assert(expr_views(es.push(e).drop_first()) =~= Seq::<ExprView>::empty());
        assert(expr_views(es) =~= Seq::<ExprView>::empty());
        assert(expr_views(es.push(e)) =~= expr_views(es).push(e.to_view()));
    } else {
        assert(es.push(e)[0] == es[0]);
        assert(es.push(e).drop_first() =~= es.drop_first().push(e));
        lemma_expr_views_push(es.drop_first(), e);
        assert(expr_views(es.push(e)) =~= expr_views(es).push(e.to_view()));
    }
}

/// The parser state: the token vector and a cursor that only moves forward.
pub struct Parser {
    tokens: Vec<Token>,
    pos: usize,
}

impl Parser {
    /// The token sequence being parsed.
    pub closed spec fn toks(self) -> Seq<TokenView> {
        views(self.tokens@)
    }

    /// How many tokens are already consumed.
    pub closed spec fn cursor(self) -> int {
        self.pos as int
    }

    /// The cursor never passes the end of the token vector.
    pub closed spec fn wf(self) -> bool {
        self.pos <= self.tokens@.len()
    }

    /// A parser over `tokens`, at the first token.
    pub fn new(tokens: Vec<Token>) -> (p: Parser)
        ensures
            p.wf(),
            p.cursor() == 0,
            p.toks() == views(tokens@),
    {
        Parser { tokens, pos: 0 }
    }

    /// The current token, cloned, with `End` standing in for an exhausted
    /// vector.
    fn peek_token(&self) -> (r: Token)
        ensures
            r@ == sp_peek(self.toks(), self.cursor()),
    {
        if self.pos < self.tokens.len() {
            self.tokens[self.pos].clone()
        } else {
            Token::End
        }
    }

    /// Whether the current token is `(`.
    fn peek_is_lparen(&self) -> (b: bool)
        ensures
            b == (sp_peek(self.toks(), self.cursor()) is LeftParen),
    {
        if self.pos < self.tokens.len() {
            matches!(&self.tokens[self.pos], Token::LeftParen)
        } else {
            false
        }
    }

    /// Whether the current token is `)`.
    fn peek_is_rparen(&self) -> (b: bool)
        ensures
            b == (sp_peek(self.toks(), self.cursor()) is RightParen),
    {
        if self.pos < self.tokens.len() {
            matches!(&self.tokens[self.pos], Token::RightParen)
        } else {
            false
        }
    }

    /// Whether the current token is `,`.
    fn peek_is_comma(&self) -> (b: bool)
        ensures
            b == (sp_peek(self.toks(), self.cursor()) is Comma),
    {
        if self.pos < self.tokens.len() {
            matches!(&self.tokens[self.pos], Token::Comma)
        } else {
            false
        }
    }

    /// Whether the current token is `^`.
    fn peek_is_caret(&self) -> (b: bool)
        ensures
            b == (sp_peek(self.toks(), self.cursor()) is Caret),
    {
        if self.pos < self.tokens.len() {
            matches!(&self.tokens[self.pos], Token::Caret)
        } else {
            false
        }
    }

    /// Whether the current token is `End`.
    fn peek_is_end(&self) -> (b: bool)
        ensures
            b == (sp_peek(self.toks(), self.cursor()) is End),
    {
        if self.pos < self.tokens.len() {
            matches!(&self.tokens[self.pos], Token::End)
        } else {
            true
        }
    }

    /// Whether the current token is `+`.
    fn peek_is_plus(&self) -> (b: bool)
        ensures
            b == (sp_peek(self.toks(), self.cursor()) is Plus),
    {
        if self.pos < self.tokens.len() {
            matches!(&self.tokens[self.pos], Token::Plus)
        } else {
            false
        }
    }

    /// Whether the current token is `+` or `-`.
    fn peek_is_addop(&self) -> (b: bool)
        ensures
            b == (sp_peek(self.toks(), self.cursor()) is Plus || sp_peek(
                self.toks(),
                self.cursor(),
            ) is Dash),
    {
        if self.pos < self.tokens.len() {
            matches!(&self.tokens[self.pos], Token::Plus | Token::Dash)
        } else {
            false
        }
    }

    /// Whether the current token is `*`.
    fn peek_is_star(&self) -> (b: bool)
        ensures
            b == (sp_peek(self.toks(), self.cursor()) is Star),
    {
        if self.pos < self.tokens.len() {
            matches!(&self.tokens[self.pos], Token::Star)
        } else {
            false
        }
    }

    /// Whether the current token is `*` or `/`.
    fn peek_is_mulop(&self) -> (b: bool)
        ensures
            b == (sp_peek(self.toks(), self.cursor()) is Star || sp_peek(
                self.toks(),
                self.cursor(),
            ) is Slash),
    {
        if self.pos < self.tokens.len() {
            matches!(&self.tokens[self.pos], Token::Star | Token::Slash)
        } else {
            false
        }
    }

    /// Parses the whole input: one expression that the `End` token must
    /// directly follow.  The result — tree or error — equals `sp_parse` of
    /// the token sequence at the starting cursor.
    pub fn parse(&mut self) -> (r: Result<Expression, ParseError>)
        requires
            old(self).wf(),
        ensures
            final(self).wf(),
            final(self).toks() == old(self).toks(),
            match r {
                Ok(e) => sp_parse(old(self).toks(), old(self).cursor()) == Ok::<
                    ExprView,
                    ParseErrorView,
                >(e.to_view()),
                Err(pe) => sp_parse(old(self).toks(), old(self).cursor()) == Err::<
                    ExprView,
                    ParseErrorView,
                >(pe.to_view()),
            },
        decreases self.toks().len() - self.cursor(), 7int,
    {
        match self.parse_expression() {
            Ok(e) => {
                if self.peek_is_end() {
                    if self.pos < self.tokens.len() {
                        self.pos = self.pos + 1;
                    }
                    Ok(e)
                } else {
                    Err(ParseError::TrailingTokens { found: self.peek_token() })
                }
            },
            Err(er) => Err(er),
        }
    }

    /// Parses one expression: terms joined by `+` or `-`, folded to the
    /// left.
    #[verifier::loop_isolation(false)]
    fn parse_expression(&mut self) -> (r: Result<Expression, ParseError>)
        requires
            old(self).wf(),
        ensures
            final(self).wf(),
            final(self).toks() == old(self).toks(),
            match r {
                Ok(e) => sp_expression(old(self).toks(), old(self).cursor()) == Ok::<
                    (ExprView, int),
                    ParseErrorView,
                >((e.to_view(), final(self).cursor())) && old(self).cursor() < final(self).cursor()
                    <= final(self).toks().len(),
                Err(pe) => sp_expression(old(self).toks(), old(self).cursor()) == Err::<
                    (ExprView, int),
                    ParseErrorView,
                >(pe.to_view()),
            },
        decreases self.toks().len() - self.cursor(), 3int,
    {
        let ghost t = self.toks();
        let ghost i0 = self.cursor();
        let mut expr = match self.parse_term() {
            Ok(e) => e,
            Err(er) => {
                return Err(er);
            },
        };
        while self.peek_is_addop()
            invariant
                self.wf(),
                self.toks() == t,
                i0 < self.cursor() <= t.len(),
                sp_expression(t, i0) == sp_expression_more(t, expr.to_view(), self.cursor()),
            decreases t.len() - self.cursor(),
        {
            let ghost accv = expr.to_view();
            let ghost p = self.cursor();
            let op = if self.peek_is_plus() {
                Operator::Add
            } else {
                Operator::Subtract
            };
            proof {
                assert(self.pos < self.tokens.len());
            }
            self.pos = self.pos + 1;
            match self.parse_term() {
                Ok(e2) => {
                    proof {
                        assert(sp_expression_more(t, accv, p) == sp_expression_more(
                            t,
                            ExprView::Binary(op, seq![accv, e2.to_view()]),
                            self.cursor(),
                        ));
                    }
                    expr = Expression::Binary(op, Box::new(expr), Box::new(e2));
                },
                Err(er) => {
                    return Err(er);
                },
            }
        }
        Ok(expr)
    }

    /// Parses one term: factors joined by `*` or `/`, folded to the left.
    #[verifier::loop_isolation(false)]
    fn parse_term(&mut self) -> (r: Result<Expression, ParseError>)
        requires
            old(self).wf(),
        ensures
            final(self).wf(),
            final(self).toks() == old(self).toks(),
            match r {
                Ok(e) => sp_term(old(self).toks(), old(self).cursor()) == Ok::<
                    (ExprView, int),
                    ParseErrorView,
                >((e.to_view(), final(self).cursor())) && old(self).cursor() < final(self).cursor()
                    <= final(self).toks().len(),
                Err(pe) => sp_term(old(self).toks(), old(self).cursor()) == Err::<
                    (ExprView, int),
                    ParseErrorView,
                >(pe.to_view()),
            },
        decreases self.toks().len() - self.cursor(), 2int,
    {
        let ghost t = self.toks();
        let ghost i0 = self.cursor();
        let mut expr = match self.parse_factor() {
            Ok(e) => e,
            Err(er) => {
                return Err(er);
            },
        };
        while self.peek_is_mulop()
            invariant
                self.wf(),
                self.toks() == t,
                i0 < self.cursor() <= t.len(),
                sp_term(t, i0) == sp_term_more(t, expr.to_view(), self.cursor()),
            decreases t.len() - self.cursor(),
        {
            let ghost accv = expr.to_view();
            let ghost p = self.cursor();
            let op = if self.peek_is_star() {
                Operator::Multiply
            } else {
                Operator::Divide
            };
            proof {
                assert(self.pos < self.tokens.len());
            }
            self.pos = self.pos + 1;
            match self.parse_factor() {
                Ok(e2) => {
                    proof {
                        assert(sp_term_more(t, accv, p) == sp_term_more(
                            t,
                            ExprView::Binary(op, seq![accv, e2.to_view()]),
                            self.cursor(),
                        ));
                    }
                    expr = Expression::Binary(op, Box::new(expr), Box::new(e2));
                },
                Err(er) => {
                    return Err(er);
                },
            }
        }
        Ok(expr)
    }

    /// Parses one factor: a primary, optionally raised to a factor, so that
    /// `^` associates to the right.
    fn parse_factor(&mut self) -> (r: Result<Expression, ParseError>)
        requires
            old(self).wf(),
        ensures
            final(self).wf(),
            final(self).toks() == old(self).toks(),
            match r {
                Ok(e) => sp_factor(old(self).toks(), old(self).cursor()) == Ok::<
                    (ExprView, int),
                    ParseErrorView,
                >((e.to_view(), final(self).cursor())) && old(self).cursor() < final(self).cursor()
                    <= final(self).toks().len(),
                Err(pe) => sp_factor(old(self).toks(), old(self).cursor()) == Err::<
                    (ExprView, int),
                    ParseErrorView,
                >(pe.to_view()),
            },
        decreases self.toks().len() - self.cursor(), 1int,
    {
        let e = match self.parse_primary() {
            Ok(e) => e,
            Err(er) => {
                return Err(er);
            },
        };
        if self.peek_is_caret() {
            proof {
                assert(self.pos < self.tokens.len());
            }
            self.pos = self.pos + 1;
            match self.parse_factor() {
                Ok(r2) => Ok(Expression::Binary(Operator::Power, Box::new(e), Box::new(r2))),
                Err(er) => Err(er),
            }
        } else {
            Ok(e)
        }
    }

    /// Parses one primary: a number, a name resolved against the registry
    /// (if `(` follows) or the constant table (otherwise), a parenthesized
    /// group, or a prefix minus applied to a term.
    fn parse_primary(&mut self) -> (r: Result<Expression, ParseError>)
        requires
            old(self).wf(),
        ensures
            final(self).wf(),
            final(self).toks() == old(self).toks(),
            match r {
                Ok(e) => sp_primary(old(self).toks(), old(self).cursor()) == Ok::<
                    (ExprView, int),
                    ParseErrorView,
                >((e.to_view(), final(self).cursor())) && old(self).cursor() < final(self).cursor()
                    <= final(self).toks().len(),
                Err(pe) => sp_primary(old(self).toks(), old(self).cursor()) == Err::<
                    (ExprView, int),
                    ParseErrorView,
                >(pe.to_view()),
            },
        decreases self.toks().len() - self.cursor(), 0int,
    {
        let ghost t = self.toks();
        let ghost i0 = self.cursor();
        if self.pos >= self.tokens.len() {
            return Err(
                ParseError::UnexpectedToken { expected: Expected::Primary, found: Token::End },
            );
        }
        let tok = self.tokens[self.pos].clone();
        proof {
            assert(tok@ == sp_peek(t, i0));
        }
        match tok {
            Token::Number(lexeme) => {
                self.pos = self.pos + 1;
                Ok(Expression::Number(lexeme))
            },
            Token::Identifier(name) => {
                self.pos = self.pos + 1;
                if self.peek_is_lparen() {
                    match Function::from_name(name.as_str()) {
                        Some(f) => {
                            self.pos = self.pos + 1;
                            match self.parse_args() {
                                Ok(args) => {
                                    proof {
                                        lemma_expr_views_len(args@);
                                    }
                                    let count = args.len();
                                    if f.arity_ok(count) {
                                        Ok(Expression::Function(f, args))
                                    } else {
                                        Err(ParseError::ArityMismatch { function: f, count })
                                    }
                                },
                                Err(er) => Err(er),
                            }
                        },
                        None => Err(ParseError::UnknownName { name }),
                    }
                } else {
                    match Constant::from_name(name.as_str()) {
                        Some(c) => Ok(Expression::Constant(c)),
                        None => Err(ParseError::UnknownName { name }),
                    }
                }
            },
            Token::LeftParen => {
                self.pos = self.pos + 1;
                match self.parse_expression() {
                    Ok(e) => {
                        if self.peek_is_rparen() {
                            self.pos = self.pos + 1;
                            Ok(e)
                        } else {
                            Err(
                                ParseError::UnexpectedToken {
                                    expected: Expected::RightParen,
                                    found: self.peek_token(),
                                },
                            )
                        }
                    },
                    Err(er) => Err(er),
                }
            },
            Token::Dash => {
                self.pos = self.pos + 1;
                match self.parse_term() {
                    Ok(e) => Ok(Expression::Unary(Operator::Negative, Box::new(e))),
                    Err(er) => Err(er),
                }
            },
            other => Err(
                ParseError::UnexpectedToken { expected: Expected::Primary, found: other },
            ),
        }
    }

    /// Parses an argument list, the opening `(` already consumed: either `)`
    /// at once, or expressions separated by `,` until `)`.
    #[verifier::loop_isolation(false)]
    fn parse_args(&mut self) -> (r: Result<Vec<Expression>, ParseError>)
        requires
            old(self).wf(),
        ensures
            final(self).wf(),
            final(self).toks() == old(self).toks(),
            match r {
                Ok(args) => sp_arguments(old(self).toks(), old(self).cursor()) == Ok::<
                    (Seq<ExprView>, int),
                    ParseErrorView,
                >((expr_views(args@), final(self).cursor())) && old(self).cursor() < final(self).cursor()
                    <= final(self).toks().len(),
                Err(pe) => sp_arguments(old(self).toks(), old(self).cursor()) == Err::<
                    (Seq<ExprView>, int),
                    ParseErrorView,
                >(pe.to_view()),
            },
        decreases self.toks().len() - self.cursor(), 4int,
    {
        let ghost t = self.toks();
        let ghost i0 = self.cursor();
        if self.peek_is_rparen() {
            proof {
                assert(self.pos < self.tokens.len());
            }
            self.pos = self.pos + 1;
            let args: Vec<Expression> = Vec::new();
            proof {
                assert(expr_views(args@) =~= Seq::<ExprView>::empty());
            }
            return Ok(args);
        }
        let mut args: Vec<Expression> = Vec::new();
        match self.parse_expression() {
            Ok(e) => {
                proof {
                    lemma_expr_views_push(args@, e);
                    assert(expr_views(Seq::<Expression>::empty()) =~= Seq::<ExprView>::empty());
                    assert(expr_views(args@.push(e)) =~= seq![e.to_view()]);
                }
                args.push(e);
            },
            Err(er) => {
                return Err(er);
            },
        }
        loop
            invariant
                self.wf(),
                self.toks() == t,
                i0 < self.cursor() <= t.len(),
                sp_arguments(t, i0) == sp_args_more(t, expr_views(args@), self.cursor()),
            decreases t.len() - self.cursor(),
        {
            if self.peek_is_rparen() {
                proof {
                    assert(self.pos < self.tokens.len());
                }
                self.pos = self.pos + 1;
                return Ok(args);
            } else if self.peek_is_comma() {
                proof {
                    assert(self.pos < self.tokens.len());
                }
                self.pos = self.pos + 1;
                match self.parse_expression() {
                    Ok(e) => {
                        proof {
                            lemma_expr_views_push(args@, e);
                        }
                        args.push(e);
                    },
                    Err(er) => {
                        return Err(er);
                    },
                }
            } else {
                return Err(
                    ParseError::UnexpectedToken {
                        expected: Expected::ArgumentEnd,
                        found: self.peek_token(),
                    },
                );
            }
        }
    }
}

} // verus!