//! The tokenizer: a single left-to-right scan over the characters of the
//! source string, with one character of lookahead and no backtracking.
//!
//! `Lexer::lex` is total: whitespace and unrecognized characters are skipped,
//! every other character contributes to exactly one token, and the result
//! always ends with exactly one `End` marker.  Its contract states that the
//! produced tokens equal `spec_lex` of the input characters.

use vstd::prelude::*;
use vstd::string::StrSliceExecFns;

verus! {

/// One lexical unit: a punctuation character, an operator character, a
/// numeric literal (kept as its digit text), an alphabetic name, or the
/// end-of-input marker.  Identifiers are classified as function or constant
/// names later, by the parser; the tokenizer does not know the registry.
#[derive(Debug, PartialEq)]
pub enum Token {
    Plus,
    Dash,
    Star,
    Slash,
    Caret,
    LeftParen,
    RightParen,
    Comma,
    Number(String),
    Identifier(String),
    End,
}

/// The mathematical shape of a token: lexemes are character sequences.
pub enum TokenView {
    Plus,
    Dash,
    Star,
    Slash,
    Caret,
    LeftParen,
    RightParen,
    Comma,
    Number(Seq<char>),
    Identifier(Seq<char>),
    End,
}

impl View for Token {
    type V = TokenView;

    open spec fn view(&self) -> TokenView {
        match self {
            Token::Plus => TokenView::Plus,
            Token::Dash => TokenView::Dash,
            Token::Star => TokenView::Star,
            Token::Slash => TokenView::Slash,
            Token::Caret => TokenView::Caret,
            Token::LeftParen => TokenView::LeftParen,
            Token::RightParen => TokenView::RightParen,
            Token::Comma => TokenView::Comma,
            Token::Number(s) => TokenView::Number(s@),
            Token::Identifier(s) => TokenView::Identifier(s@),
            Token::End => TokenView::End,
        }
    }
}

impl Clone for Token {
    fn clone(&self) -> (res: Token)
        ensures
            res@ == self@,
    {
        match self {
            Token::Plus => Token::Plus,
            Token::Dash => Token::Dash,
            Token::Star => Token::Star,
            Token::Slash => Token::Slash,
            Token::Caret => Token::Caret,
            Token::LeftParen => Token::LeftParen,
            Token::RightParen => Token::RightParen,
            Token::Comma => Token::Comma,
            Token::Number(s) => Token::Number(s.clone()),
            Token::Identifier(s) => Token::Identifier(s.clone()),
            Token::End => Token::End,
        }
    }
}

/// An arithmetic operation of the expression language.  The binary ones are
/// derived deterministically from single-character tokens; `Negative` is
/// synthesized by the parser when a minus sign occurs in prefix position.
#[derive(Debug, PartialEq, Eq, Clone, Copy, Structural)]
pub enum Operator {
    Add,
    Multiply,
    Divide,
    Subtract,
    Power,
    Negative,
}

impl Operator {
    /// The binary operator a token stands for, if any.  No token maps to
    /// `Negative`.
    pub open spec fn spec_from_token(t: TokenView) -> Option<Operator> {
        match t {
            TokenView::Plus => Some(Operator::Add),
            TokenView::Dash => Some(Operator::Subtract),
            TokenView::Star => Some(Operator::Multiply),
            TokenView::Slash => Some(Operator::Divide),
            TokenView::Caret => Some(Operator::Power),
            _ => None,
        }
    }

    /// Converts an operator token to its operator.
    pub fn from_token(t: &Token) -> (r: Option<Operator>)
        ensures
            r == Operator::spec_from_token(t@),
    {
        match t {
            Token::Plus => Some(Operator::Add),
            Token::Dash => Some(Operator::Subtract),
            Token::Star => Some(Operator::Multiply),
            Token::Slash => Some(Operator::Divide),
            Token::Caret => Some(Operator::Power),
            _ => None,
        }
    }
}

/// The views of a token vector, in order.
pub open spec fn views(ts: Seq<Token>) -> Seq<TokenView> {
    ts.map_values(|t: Token| t@)
}

/// An ASCII decimal digit.
pub open spec fn is_digit(c: char) -> bool {
    48 <= c as u32 && c as u32 <= 57
}

/// An ASCII letter, either case.
pub open spec fn is_alpha(c: char) -> bool {
    (65 <= c as u32 && c as u32 <= 90) || (97 <= c as u32 && c as u32 <= 122)
}

/// A character that is a complete token by itself.
pub open spec fn is_single(c: char) -> bool {
    c == '+' || c == '-' || c == '*' || c == '/' || c == '^' || c == '(' || c == ')' || c == ','
}

/// The token of a single-character lexeme.
pub open spec fn single_token(c: char) -> TokenView {
    if c == '+' {
        TokenView::Plus
    } else if c == '-' {
        TokenView::Dash
    } else if c == '*' {
        TokenView::Star
    } else if c == '/' {
        TokenView::Slash
    } else if c == '^' {
        TokenView::Caret
    } else if c == '(' {
        TokenView::LeftParen
    } else if c == ')' {
        TokenView::RightParen
    } else {
        TokenView::Comma
    }
}

/// How many characters a numeric literal takes from `s`, greedily: digits,
/// and at most one decimal point in the whole literal (`has_dot` says whether
/// one was already taken).  A second point ends the literal without being
/// consumed.
pub open spec fn num_take(s: Seq<char>, has_dot: bool) -> nat
    decreases s.len(),
{
    if s.len() == 0 {
        0
    } else if is_digit(s[0]) {
        1 + num_take(s.drop_first(), has_dot)
    } else if s[0] == '.' && !has_dot {
        1 + num_take(s.drop_first(), true)
    } else {
        0
    }
}

/// How many characters an identifier takes from `s`: a greedy run of letters.
pub open spec fn ident_take(s: Seq<char>) -> nat
    decreases s.len(),
{
    if s.len() == 0 {
        0
    } else if is_alpha(s[0]) {
        1 + ident_take(s.drop_first())
    } else {
        0
    }
}

pub proof fn lemma_num_take_le(s: Seq<char>, has_dot: bool)
    ensures
        num_take(s, has_dot) <= s.len(),
    decreases s.len(),
{
    if s.len() > 0 {
        if is_digit(s[0]) {
            lemma_num_take_le(s.drop_first(), has_dot);
        } else if s[0] == '.' && !has_dot {
            lemma_num_take_le(s.drop_first(), true);
        }
    }
}

pub proof fn lemma_ident_take_le(s: Seq<char>)
    ensures
        ident_take(s) <= s.len(),
    decreases s.len(),
{
    if s.len() > 0 && is_alpha(s[0]) {
        lemma_ident_take_le(s.drop_first());
    }
}

/// The token sequence of a character sequence.  Whitespace and unrecognized
/// characters produce no token; a single `End` closes the sequence.
pub open spec fn spec_lex(s: Seq<char>) -> Seq<TokenView>
    decreases s.len(),
{
    if s.len() == 0 {
        seq![TokenView::End]
    } else if is_single(s[0]) {
        seq![single_token(s[0])] + spec_lex(s.drop_first())
    } else if is_digit(s[0]) {
        let k = num_take(s.drop_first(), false);
        proof {
            lemma_num_take_le(s.drop_first(), false);
        }
        seq![TokenView::Number(s.take(1 + k as int))] + spec_lex(s.skip(1 + k as int))
    } else if is_alpha(s[0]) {
        let k = ident_take(s.drop_first());
        proof {
            lemma_ident_take_le(s.drop_first());
        }
        seq![TokenView::Identifier(s.take(1 + k as int))] + spec_lex(s.skip(1 + k as int))
    } else {
        spec_lex(s.drop_first())
    }
}

/// The digit text of a well-formed numeric literal: it starts with a digit
/// and the scanner, restarted on it, would take all of it.
pub open spec fn wf_number_lexeme(s: Seq<char>) -> bool {
    s.len() > 0 && is_digit(s[0]) && num_take(s.drop_first(), false) == s.len() - 1
}

/// The text of a well-formed identifier: a nonempty run of letters.
pub open spec fn wf_ident_lexeme(s: Seq<char>) -> bool {
    s.len() > 0 && is_alpha(s[0]) && ident_take(s.drop_first()) == s.len() - 1
}

/// A token the tokenizer itself could have produced.
pub open spec fn wf_token_view(t: TokenView) -> bool {
    match t {
        TokenView::Number(s) => wf_number_lexeme(s),
        TokenView::Identifier(s) => wf_ident_lexeme(s),
        _ => true,
    }
}

/// An operator or punctuation token: one whose source text is a single fixed
/// character.
pub open spec fn is_punct(t: TokenView) -> bool {
    match t {
        TokenView::Plus => true,
        TokenView::Dash => true,
        TokenView::Star => true,
        TokenView::Slash => true,
        TokenView::Caret => true,
        TokenView::LeftParen => true,
        TokenView::RightParen => true,
        TokenView::Comma => true,
        _ => false,
    }
}

/// The source text of a token.  `End` marks exhaustion of the input and has
/// no text of its own.
pub open spec fn render_v(t: TokenView) -> Seq<char> {
    match t {
        TokenView::Plus => seq!['+'],
        TokenView::Dash => seq!['-'],
        TokenView::Star => seq!['*'],
        TokenView::Slash => seq!['/'],
        TokenView::Caret => seq!['^'],
        TokenView::LeftParen => seq!['('],
        TokenView::RightParen => seq![')'],
        TokenView::Comma => seq![','],
        TokenView::Number(s) => s,
        TokenView::Identifier(s) => s,
        TokenView::End => Seq::<char>::empty(),
    }
}

/// The rendering of a whole token sequence: the tokens' source texts joined
/// by single spaces.
pub open spec fn render_tokens(ts: Seq<TokenView>) -> Seq<char>
    decreases ts.len(),
{
    if ts.len() == 0 {
        Seq::<char>::empty()
    } else if ts.len() == 1 {
        render_v(ts[0])
    } else {
        render_v(ts[0]) + seq![' '] + render_tokens(ts.drop_first())
    }
}

/// An ASCII decimal digit, decided executably.
fn digit(c: char) -> (b: bool)
    ensures
        b == is_digit(c),
{
    48 <= c as u32 && c as u32 <= 57
}

/// An ASCII letter, decided executably.
fn alpha(c: char) -> (b: bool)
    ensures
        b == is_alpha(c),
{
    (65 <= c as u32 && c as u32 <= 90) || (97 <= c as u32 && c as u32 <= 122)
}

/// Whether the character at `j` continues a numeric literal whose dot state
/// is `has_dot`.
fn continues_number(source: &str, j: usize, n: usize, has_dot: bool) -> (b: bool)
    requires
        n == source@.len(),
    ensures
        b == (j < source@.len() && (is_digit(source@[j as int]) || (source@[j as int] == '.'
            && !has_dot))),
{
    if j < n {
        let c = source.get_char(j);
        digit(c) || (c == '.' && !has_dot)
    } else {
        false
    }
}

/// Whether the character at `j` continues an identifier.
fn continues_ident(source: &str, j: usize, n: usize) -> (b: bool)
    requires
        n == source@.len(),
    ensures
        b == (j < source@.len() && is_alpha(source@[j as int])),
{
    if j < n {
        alpha(source.get_char(j))
    } else {
        false
    }
}

/// Extends a token vector by one token whose lexing step is already known.
proof fn lemma_lex_step(toks: Seq<Token>, t: Token, s: Seq<char>, i: int, j: int)
    requires
        0 <= i < j <= s.len(),
        views(toks) + spec_lex(s.skip(i)) == spec_lex(s),
        spec_lex(s.skip(i)) == seq![t@] + spec_lex(s.skip(j)),
    ensures
        views(toks.push(t)) + spec_lex(s.skip(j)) == spec_lex(s),
{
    assert(views(toks.push(t)) =~= views(toks).push(t@));
    assert(views(toks).push(t@) + spec_lex(s.skip(j)) =~= views(toks) + (seq![t@] + spec_lex(
        s.skip(j),
    )));
}

/// The tokenizer.  It holds no state: lexing is a single function of the
/// source string.
pub struct Lexer {}

impl Lexer {
    /// Scans `source` once, left to right, and returns its tokens, closed by
    /// exactly one `End`.  Total: whitespace and unrecognized characters are
    /// skipped and every input yields a token vector.
    pub fn lex(source: &str) -> (r: Vec<Token>)
        ensures
            views(r@) == spec_lex(source@),
    {
        let n = source.unicode_len();
        let mut tokens: Vec<Token> = Vec::new();
        let mut i: usize = 0;
        proof {
            assert(views(tokens@) =~= Seq::<TokenView>::empty());
            assert(source@.skip(0) =~= source@);
            assert(views(tokens@) + spec_lex(source@.skip(0)) =~= spec_lex(source@));
        }
        while i < n
            invariant
                n == source@.len(),
                i <= n,
                views(tokens@) + spec_lex(source@.skip(i as int)) == spec_lex(source@),
            decreases n - i,
        {
            let ghost s = source@;
            let ghost pre = source@.skip(i as int);
            proof {
                assert(pre[0] == s[i as int]);
                assert(pre.drop_first() =~= s.skip(i as int + 1));
            }
            let c = source.get_char(i);
            if c == '+' || c == '-' || c == '*' || c == '/' || c == '^' || c == '(' || c == ')'
                || c == ',' {
                let t = if c == '+' {
                    Token::Plus
                } else if c == '-' {
                    Token::Dash
                } else if c == '*' {
                    Token::Star
                } else if c == '/' {
                    Token::Slash
                } else if c == '^' {
                    Token::Caret
                } else if c == '(' {
                    Token::LeftParen
                } else if c == ')' {
                    Token::RightParen
                } else {
                    Token::Comma
                };
                proof {
                    assert(spec_lex(pre) == seq![t@] + spec_lex(s.skip(i as int + 1)));
                    lemma_lex_step(tokens@, t, s, i as int, i as int + 1);
                }
                tokens.push(t);
                i = i + 1;
            } else if digit(c) {
                let start = i;
                let mut j = i + 1;
                let mut has_dot = false;
                while continues_number(source, j, n, has_dot)
                    invariant
                        n == s.len(),
                        s == source@,
                        start < n,
                        start + 1 <= j <= n,
                        num_take(s.skip(start as int + 1), false) == (j - start - 1) + num_take(
                            s.skip(j as int),
                            has_dot,
                        ),
                    decreases n - j,
                {
                    let ghost jo = j as int;
                    proof {
                        assert(s.skip(jo)[0] == s[jo]);
                        assert(s.skip(jo).drop_first() =~= s.skip(jo + 1));
                    }
                    let cj = source.get_char(j);
                    if cj == '.' {
                        has_dot = true;
                    }
                    j = j + 1;
                }
                proof {
                    if j < n {
                        assert(s.skip(j as int)[0] == s[j as int]);
                    }
                    assert(num_take(s.skip(j as int), has_dot) == 0);
                    assert(num_take(s.skip(start as int + 1), false) == j - start - 1);
                }
                let lexeme = source.substring_char(start, j).to_owned();
                let t = Token::Number(lexeme);
                proof {
                    let k = num_take(pre.drop_first(), false);
                    assert(pre.drop_first() =~= s.skip(start as int + 1));
                    assert(k == j - start - 1);
                    assert(pre.take(1 + k as int) =~= s.subrange(start as int, j as int));
                    assert(pre.skip(1 + k as int) =~= s.skip(j as int));
                    assert(spec_lex(pre) == seq![t@] + spec_lex(s.skip(j as int)));
                    lemma_lex_step(tokens@, t, s, i as int, j as int);
                }
                tokens.push(t);
                i = j;
            } else if alpha(c) {
                let start = i;
                let mut j = i + 1;
                while continues_ident(source, j, n)
                    invariant
                        n == s.len(),
                        s == source@,
                        start < n,
                        start + 1 <= j <= n,
                        ident_take(s.skip(start as int + 1)) == (j - start - 1) + ident_take(
                            s.skip(j as int),
                        ),
                    decreases n - j,
                {
                    let ghost jo = j as int;
                    proof {
                        assert(s.skip(jo)[0] == s[jo]);
                        assert(s.skip(jo).drop_first() =~= s.skip(jo + 1));
                    }
                    j = j + 1;
                }
                proof {
                    if j < n {
                        assert(s.skip(j as int)[0] == s[j as int]);
                    }
                    assert(ident_take(s.skip(j as int)) == 0);
                    assert(ident_take(s.skip(start as int + 1)) == j - start - 1);
                }
                let lexeme = source.substring_char(start, j).to_owned();
                let t = Token::Identifier(lexeme);
                proof {
                    let k = ident_take(pre.drop_first());
                    assert(pre.drop_first() =~= s.skip(start as int + 1));
                    assert(k == j - start - 1);
                    assert(pre.take(1 + k as int) =~= s.subrange(start as int, j as int));
                    assert(pre.skip(1 + k as int) =~= s.skip(j as int));
                    assert(spec_lex(pre) == seq![t@] + spec_lex(s.skip(j as int)));
                    lemma_lex_step(tokens@, t, s, i as int, j as int);
                }
                tokens.push(t);
                i = j;
            } else {
                proof {
                    assert(spec_lex(pre) == spec_lex(s.skip(i as int + 1)));
                }
                i = i + 1;
            }
        }
        proof {
            assert(source@.skip(i as int) =~= Seq::<char>::empty());
            assert(spec_lex(source@.skip(i as int)) == seq![TokenView::End]);
        }
        tokens.push(Token::End);
        proof {
            assert(views(tokens@) =~= spec_lex(source@));
        }
        tokens
    }
}

impl Token {
    /// The token's source text: the operator or punctuation character, the
    /// literal's digit text, the identifier's name, or nothing for `End`.
    pub fn render(&self) -> (r: String)
        ensures
            r@ == render_v(self@),
    {
        match self {
            Token::Plus => {
                let r = "+".to_owned();
                proof {
                    reveal_strlit("+");
                    assert(r@ =~= seq!['+']);
                }
                r
            },
            Token::Dash => {
                let r = "-".to_owned();
                proof {
                    reveal_strlit("-");
                    assert(r@ =~= seq!['-']);
                }
                r
            },
            Token::Star => {
                let r = "*".to_owned();
                proof {
                    reveal_strlit("*");
                    assert(r@ =~= seq!['*']);
                }
                r
            },
            Token::Slash => {
                let r = "/".to_owned();
                proof {
                    reveal_strlit("/");
                    assert(r@ =~= seq!['/']);
                }
                r
            },
            Token::Caret => {
                let r = "^".to_owned();
                proof {
                    reveal_strlit("^");
                    assert(r@ =~= seq!['^']);
                }
                r
            },
            Token::LeftParen => {
                let r = "(".to_owned();
                proof {
                    reveal_strlit("(");
                    assert(r@ =~= seq!['(']);
                }
                r
            },
            Token::RightParen => {
                let r = ")".to_owned();
                proof {
                    reveal_strlit(")");
                    assert(r@ =~= seq![')']);
                }
                r
            },
            Token::Comma => {
                let r = ",".to_owned();
                proof {
                    reveal_strlit(",");
                    assert(r@ =~= seq![',']);
                }
                r
            },
            Token::Number(s) => s.clone(),
            Token::Identifier(s) => s.clone(),
            Token::End => String::new(),
        }
    }
}

/// A numeric scan that consumes all of `s` also consumes exactly `s` out of
/// `s + rest` when `rest` opens with a character that stops the scan.
proof fn lemma_num_take_append(s: Seq<char>, rest: Seq<char>, has_dot: bool)
    requires
        num_take(s, has_dot) == s.len(),
        rest.len() == 0 || (!is_digit(rest[0]) && rest[0] != '.'),
    ensures
        num_take(s + rest, has_dot) == s.len(),
    decreases s.len(),
{
    if s.len() == 0 {
        assert(s + rest =~= rest);
    } else {
        assert((s + rest)[0] == s[0]);
        assert((s + rest).drop_first() =~= s.drop_first() + rest);
        if is_digit(s[0]) {
            lemma_num_take_append(s.drop_first(), rest, has_dot);
        } else {
            lemma_num_take_append(s.drop_first(), rest, true);
        }
    }
}

/// The identifier analogue of `lemma_num_take_append`.
proof fn lemma_ident_take_append(s: Seq<char>, rest: Seq<char>)
    requires
        ident_take(s) == s.len(),
        rest.len() == 0 || !is_alpha(rest[0]),
    ensures
        ident_take(s + rest) == s.len(),
    decreases s.len(),
{
    if s.len() == 0 {
        assert(s + rest =~= rest);
    } else {
        assert((s + rest)[0] == s[0]);
        assert((s + rest).drop_first() =~= s.drop_first() + rest);
        lemma_ident_take_append(s.drop_first(), rest);
    }
}

/// Restarting the numeric scan on exactly the characters it took consumes
/// all of them again.
proof fn lemma_num_take_prefix(s: Seq<char>, has_dot: bool)
    ensures
        num_take(s.take(num_take(s, has_dot) as int), has_dot) == num_take(s, has_dot),
    decreases s.len(),
{
    let k = num_take(s, has_dot) as int;
    lemma_num_take_le(s, has_dot);
    if k > 0 {
        let p = s.take(k);
        assert(p[0] == s[0]);
        assert(p.drop_first() =~= s.drop_first().take(k - 1));
        if is_digit(s[0]) {
            lemma_num_take_prefix(s.drop_first(), has_dot);
        } else {
            lemma_num_take_prefix(s.drop_first(), true);
        }
    } else {
        assert(s.take(0) =~= Seq::<char>::empty());
    }
}

/// The identifier analogue of `lemma_num_take_prefix`.
proof fn lemma_ident_take_prefix(s: Seq<char>)
    ensures
        ident_take(s.take(ident_take(s) as int)) == ident_take(s),
    decreases s.len(),
{
    let k = ident_take(s) as int;
    lemma_ident_take_le(s);
    if k > 0 {
        let p = s.take(k);
        assert(p[0] == s[0]);
        assert(p.drop_first() =~= s.drop_first().take(k - 1));
        lemma_ident_take_prefix(s.drop_first());
    } else {
        assert(s.take(0) =~= Seq::<char>::empty());
    }
}

/// Every token the tokenizer produces is well formed, every token before the
/// last is not `End`, and the last one is `End`.
pub proof fn lemma_spec_lex_wf(s: Seq<char>)
    ensures
        spec_lex(s).len() >= 1,
        spec_lex(s).last() == TokenView::End,
        forall|i: int|
            0 <= i < spec_lex(s).len() ==> wf_token_view(#[trigger] spec_lex(s)[i]),
        forall|i: int| 0 <= i < spec_lex(s).len() - 1 ==> spec_lex(s)[i] != TokenView::End,
    decreases s.len(),
{
    if s.len() == 0 {
    } else if is_single(s[0]) {
        lemma_spec_lex_wf(s.drop_first());
    } else if is_digit(s[0]) {
        let k = num_take(s.drop_first(), false);
        lemma_num_take_le(s.drop_first(), false);
        let lexeme = s.take(1 + k as int);
        assert(lexeme[0] == s[0]);
        assert(lexeme.drop_first() =~= s.drop_first().take(k as int));
        lemma_num_take_prefix(s.drop_first(), false);
        assert(wf_number_lexeme(lexeme));
        lemma_spec_lex_wf(s.skip(1 + k as int));
    } else if is_alpha(s[0]) {
        let k = ident_take(s.drop_first());
        lemma_ident_take_le(s.drop_first());
        let lexeme = s.take(1 + k as int);
        assert(lexeme[0] == s[0]);
        assert(lexeme.drop_first() =~= s.drop_first().take(k as int));
        lemma_ident_take_prefix(s.drop_first());
        assert(wf_ident_lexeme(lexeme));
        lemma_spec_lex_wf(s.skip(1 + k as int));
    } else {
        lemma_spec_lex_wf(s.drop_first());
    }
}

/// Lexing the source text of one well-formed token, followed by input that
/// opens with a space, yields that token and then the lexing of the rest.
proof fn lemma_lex_render_then(t: TokenView, rest: Seq<char>)
    requires
        wf_token_view(t),
        t != TokenView::End,
        rest.len() == 0 || rest[0] == ' ',
    ensures
        spec_lex(render_v(t) + rest) == seq![t] + spec_lex(rest),
{
    let r = render_v(t);
    let w = r + rest;
    if is_punct(t) {
        assert(w[0] == r[0]);
        assert(w.drop_first() =~= rest);
        assert(single_token(w[0]) == t);
        assert(spec_lex(w) == seq![t] + spec_lex(rest));
    } else {
        match t {
            TokenView::Number(lexeme) => {
                assert(w[0] == lexeme[0]);
                assert(w.drop_first() =~= lexeme.drop_first() + rest);
                lemma_num_take_append(lexeme.drop_first(), rest, false);
                let k = num_take(w.drop_first(), false);
                assert(k == lexeme.len() - 1);
                assert(w.take(1 + k as int) =~= lexeme);
                assert(w.skip(1 + k as int) =~= rest);
                assert(spec_lex(w) == seq![t] + spec_lex(rest));
            },
            TokenView::Identifier(name) => {
                assert(w[0] == name[0]);
                assert(w.drop_first() =~= name.drop_first() + rest);
                lemma_ident_take_append(name.drop_first(), rest);
                let k = ident_take(w.drop_first());
                assert(k == name.len() - 1);
                assert(w.take(1 + k as int) =~= name);
                assert(w.skip(1 + k as int) =~= rest);
                assert(spec_lex(w) == seq![t] + spec_lex(rest));
            },
            _ => {
                assert(false);
            },
        }
    }
}

/// Rendering one well-formed token and lexing the text back gives exactly
/// that token, closed by `End`.
pub proof fn lemma_lex_render_token(t: TokenView)
    requires
        wf_token_view(t),
        t != TokenView::End,
    ensures
        spec_lex(render_v(t)) == seq![t, TokenView::End],
{
    lemma_lex_render_then(t, Seq::<char>::empty());
    assert(render_v(t) + Seq::<char>::empty() =~= render_v(t));
    assert(seq![t] + spec_lex(Seq::<char>::empty()) =~= seq![t, TokenView::End]);
}

/// Round trip for operator and punctuation tokens: the token's source text,
/// lexed again, reproduces the same token.
pub proof fn lemma_punct_render_roundtrip(t: TokenView)
    requires
        is_punct(t),
    ensures
        spec_lex(render_v(t)) == seq![t, TokenView::End],
{
    lemma_lex_render_token(t);
}

/// Re-lexing is the identity on renderings: lexing the space-joined source
/// texts of any well-formed tokens (none of them `End`) reproduces exactly
/// that token sequence, closed by a single `End`.
pub proof fn lemma_relex_rendering(ts: Seq<TokenView>)
    requires
        forall|i: int|
            0 <= i < ts.len() ==> wf_token_view(#[trigger] ts[i]) && ts[i] != TokenView::End,
    ensures
        spec_lex(render_tokens(ts)) == ts + seq![TokenView::End],
    decreases ts.len(),
{
    if ts.len() == 0 {
        assert(ts + seq![TokenView::End] =~= seq![TokenView::End]);
    } else if ts.len() == 1 {
        lemma_lex_render_token(ts[0]);
        assert(ts + seq![TokenView::End] =~= seq![ts[0], TokenView::End]);
    } else {
        let rest = seq![' '] + render_tokens(ts.drop_first());
        assert(render_tokens(ts) =~= render_v(ts[0]) + rest);
        lemma_lex_render_then(ts[0], rest);
        assert(rest.drop_first() =~= render_tokens(ts.drop_first()));
        assert(spec_lex(rest) == spec_lex(render_tokens(ts.drop_first())));
        lemma_relex_rendering(ts.drop_first());
        assert(seq![ts[0]] + (ts.drop_first() + seq![TokenView::End]) =~= ts + seq![
            TokenView::End,
        ]);
    }
}

/// Re-lexing, applied to the tokenizer's own work: rendering every token a
/// source string lexed to (the closing `End` aside) and lexing that text
/// again reproduces the very same token sequence.
pub proof fn lemma_relex_of_lex(s: Seq<char>)
    ensures
        spec_lex(render_tokens(spec_lex(s).drop_last())) == spec_lex(s),
{
    lemma_spec_lex_wf(s);
    let ts = spec_lex(s).drop_last();
    assert forall|i: int| 0 <= i < ts.len() implies wf_token_view(#[trigger] ts[i]) && ts[i]
        != TokenView::End by {
        assert(ts[i] == spec_lex(s)[i]);
    }
    lemma_relex_rendering(ts);
    assert(ts + seq![TokenView::End] =~= spec_lex(s));
}

} // verus!
