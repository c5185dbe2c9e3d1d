//! The parser of the configuration language.
//!
//! A file is a sequence of parenthesized statements. `()` is the empty
//! statement; `(bind k1 + k2 + ... (stmt))` binds the keys `k1`, `k2`, ...
//! to the inner statement. A key is a single letter or an identifier,
//! optionally written after a `'`.
use vstd::prelude::*;
use crate::ast::{BindStmt, Body, Expr, Name, Stmt};
use crate::text::{decimal, usize_text};
use crate::lexer::{lex_from, lemma_next_advances, Lexer, LexerIterContext, Token, TokenKind, TokenView};

verus! {

/// A parse error as values.
pub ghost struct ErrorView {
    pub line: int,
    pub span: Option<(int, int)>,
    pub message: Seq<char>,
}

/// Where the parse failed and why.
#[derive(Debug, PartialEq, Eq)]
pub struct ParseError {
    line: usize,
    span: Option<(usize, usize)>,
    message: String,
}

impl View for ParseError {
    type V = ErrorView;

    closed spec fn view(&self) -> ErrorView {
        ErrorView {
            line: self.line as int,
            span: match self.span {
                Some((start, end)) => Some((start as int, end as int)),
                None => None,
            },
            message: self.message@,
        }
    }
}

impl ParseError {
    /// The line the error is on.
    pub fn line(&self) -> (r: usize)
        ensures
            r == self@.line,
    {
        self.line
    }

    /// The span of the offending token; `None` where the text ended early.
    pub fn span(&self) -> (r: Option<(usize, usize)>)
        ensures
            match r {
                Some((start, end)) => self@.span == Some((start as int, end as int)),
                None => self@.span is None,
            },
    {
        self.span
    }

    /// What went wrong.
    pub fn message(&self) -> (r: &str)
        ensures
            r@ == self@.message,
    {
        self.message.as_str()
    }

    /// The error as one line of text, with its line and span.
    pub fn to_text(&self) -> (r: String)
        ensures
            r@ == error_text(self@),
    {
        proof {
            reveal_strlit("L#");
            reveal_strlit(" ");
            reveal_strlit(":");
            reveal_strlit(" - ");
        }
        let mut text = String::from_str("L#");
        let line = usize_text(self.line);
        text.append(line.as_str());
        match self.span {
            Some((start, end)) => {
                let start = usize_text(start);
                let end = usize_text(end);
                text.append(" ");
                text.append(start.as_str());
                text.append(":");
                text.append(end.as_str());
            },
            None => {},
        }
        text.append(" - ");
        text.append(self.message.as_str());
        text
    }
}

/// The error as one line of text: `L#line start:end - message`, or
/// `L#line - message` where there is no span.
pub open spec fn error_text(e: ErrorView) -> Seq<char> {
    let head = seq!['L', '#'] + decimal(e.line);
    match e.span {
        Some((start, end)) => head + seq![' '] + decimal(start) + seq![':'] + decimal(end) + seq![
            ' ',
            '-',
            ' ',
        ] + e.message,
        None => head + seq![' ', '-', ' '] + e.message,
    }
}

pub open spec fn open_message() -> Seq<char> {
    "expected open paren `(` to parse statement"@
}

pub open spec fn close_message() -> Seq<char> {
    "expected a closing paren `)` for statement"@
}

pub open spec fn stmt_message() -> Seq<char> {
    "expected `bind` or `)` to start a statement"@
}

pub open spec fn name_message() -> Seq<char> {
    "expected a key name"@
}

pub open spec fn bind_message() -> Seq<char> {
    "unexpected token while parsing bind statement, expected a `+` or start of another block"@
}

/// The error for a text that ended where `message` expected more.
pub open spec fn eof_error(eof_line: int, message: Seq<char>) -> ErrorView {
    ErrorView { line: eof_line, span: None, message: "unexpected EOF "@ + message }
}

/// The error for an unexpected token.
pub open spec fn token_error(t: TokenView, message: Seq<char>) -> ErrorView {
    ErrorView { line: t.line, span: Some((t.start, t.end)), message }
}

/// A statement as values: the names bound and the inner statement.
pub ghost enum StmtShape {
    Bind(Seq<Seq<char>>, Box<StmtShape>),
    Empty,
}

/// Whether `e` is the name `name`.
pub open spec fn is_name(e: Expr, name: Seq<char>) -> bool {
    e matches Expr::Name(n) && n.name@ == name
}

/// Whether the statement `s` has the shape `shape`.
pub open spec fn stmt_matches(s: Stmt, shape: StmtShape) -> bool
    decreases shape,
{
    match shape {
        StmtShape::Empty => s is Empty,
        StmtShape::Bind(names, inner) => match s {
            Stmt::Bind(b) => {
                &&& b.exprs@.len() == names.len()
                &&& forall|i: int| 0 <= i < names.len() ==> is_name(#[trigger] b.exprs@[i], names[i])
                &&& stmt_matches(b.stmt, *inner)
            },
            _ => false,
        },
    }
}

pub open spec fn is_key_name(kind: TokenKind) -> bool {
    kind == TokenKind::Char || kind == TokenKind::Identifier
}

/// The key name at `i`, and the index after it.
pub open spec fn expr_at(toks: Seq<TokenView>, eof_line: int, i: int) -> Result<
    (Seq<char>, int),
    ErrorView,
> {
    if i < 0 || i >= toks.len() {
        Err(eof_error(eof_line, name_message()))
    } else if is_key_name(toks[i].kind) {
        Ok((toks[i].literal, i + 1))
    } else if toks[i].kind == TokenKind::Tick {
        if i + 1 >= toks.len() {
            Err(eof_error(eof_line, name_message()))
        } else if is_key_name(toks[i + 1].kind) {
            Ok((toks[i + 1].literal, i + 2))
        } else {
            Err(token_error(toks[i + 1], name_message()))
        }
    } else {
        Err(token_error(toks[i], name_message()))
    }
}

/// `prefix` put before the names of a parsed bind tail.
pub open spec fn with_names(prefix: Seq<Seq<char>>, r: Result<(Seq<Seq<char>>, StmtShape, int), ErrorView>) -> Result<
    (Seq<Seq<char>>, StmtShape, int),
    ErrorView,
> {
    match r {
        Ok((names, stmt, k)) => Ok((prefix + names, stmt, k)),
        Err(e) => Err(e),
    }
}

/// The statement that starts at `i`, and the index after it.
pub open spec fn stmt_at(toks: Seq<TokenView>, eof_line: int, i: int) -> Result<
    (StmtShape, int),
    ErrorView,
>
    decreases toks.len() - i, 0int,
{
    if i < 0 || i >= toks.len() {
        Err(eof_error(eof_line, open_message()))
    } else if toks[i].kind != TokenKind::LeftParen {
        Err(token_error(toks[i], open_message()))
    } else if i + 1 >= toks.len() {
        Err(eof_error(eof_line, Seq::empty()))
    } else if toks[i + 1].kind == TokenKind::RightParen {
        Ok((StmtShape::Empty, i + 2))
    } else if toks[i + 1].kind == TokenKind::Bind {
        match bind_at(toks, eof_line, i + 2) {
            Ok((names, inner, j)) => if j < i + 2 || j >= toks.len() {
                Err(eof_error(eof_line, close_message()))
            } else if toks[j].kind != TokenKind::RightParen {
                Err(token_error(toks[j], close_message()))
            } else {
                Ok((StmtShape::Bind(names, Box::new(inner)), j + 1))
            },
            Err(e) => Err(e),
        }
    } else {
        Err(token_error(toks[i + 1], stmt_message()))
    }
}

/// The keys of a bind statement from `i` on, separated by `+`, then its
/// inner statement; with the index after them.
pub open spec fn bind_at(toks: Seq<TokenView>, eof_line: int, i: int) -> Result<
    (Seq<Seq<char>>, StmtShape, int),
    ErrorView,
>
    decreases toks.len() - i, 1int,
{
    if i < 0 || i >= toks.len() {
        Err(eof_error(eof_line, open_message()))
    } else {
        match expr_at(toks, eof_line, i) {
            Err(e) => Err(e),
            Ok((name, j)) => if j >= toks.len() || toks[j].kind == TokenKind::LeftParen {
                with_names(
                    seq![name],
                    match stmt_at(toks, eof_line, j) {
                        Ok((s, k)) => Ok((Seq::empty(), s, k)),
                        Err(e) => Err(e),
                    },
                )
            } else if toks[j].kind == TokenKind::Plus {
                with_names(seq![name], bind_at(toks, eof_line, j + 1))
            } else {
                Err(token_error(toks[j], bind_message()))
            },
        }
    }
}

/// The statements from `i` to the end.
pub open spec fn body_from(toks: Seq<TokenView>, eof_line: int, i: int) -> Result<
    Seq<StmtShape>,
    ErrorView,
>
    decreases toks.len() - i,
{
    if i < 0 || i >= toks.len() {
        Ok(Seq::empty())
    } else {
        match stmt_at(toks, eof_line, i) {
            Err(e) => Err(e),
            Ok((s, j)) => if j > i {
                match body_from(toks, eof_line, j) {
                    Ok(rest) => Ok(seq![s] + rest),
                    Err(e) => Err(e),
                }
            } else {
                Ok(seq![s])
            },
        }
    }
}

/// The views of tokens.
pub open spec fn views(ts: Seq<Token>) -> Seq<TokenView> {
    ts.map_values(|t: Token| t@)
}

/// The whole text parsed as a body of statements.
pub open spec fn parse_text(chars: Seq<char>) -> Result<Seq<StmtShape>, ErrorView> {
    let (toks, eof_line) = lex_from(chars, 0, 1);
    body_from(toks, eof_line, 0)
}

/// Parses the tokens of a text into statements.
pub struct Parser {
    tokens: Vec<Token>,
    pos: usize,
    eof_line: usize,
}

/// The statements of `shapes` put before the statements of `r`.
pub open spec fn with_stmts(shapes: Seq<StmtShape>, r: Result<Seq<StmtShape>, ErrorView>) -> Result<
    Seq<StmtShape>,
    ErrorView,
> {
    match r {
        Ok(rest) => Ok(shapes + rest),
        Err(e) => Err(e),
    }
}

impl Parser {
    /// The tokens of the text.
    pub closed spec fn toks(&self) -> Seq<TokenView> {
        views(self.tokens@)
    }

    /// The line count at the end of the text.
    pub closed spec fn spec_eof_line(&self) -> int {
        self.eof_line as int
    }

    /// The index of the next token to read.
    pub closed spec fn position(&self) -> int {
        self.pos as int
    }

    pub closed spec fn wf(&self) -> bool {
        self.pos <= self.tokens@.len()
    }

    /// A parser over the tokens of the lexer's text, at its start.
    pub fn new(lexer: &Lexer) -> (r: Parser)
        requires
            lexer.wf(),
        ensures
            r.wf(),
            r.toks() == lex_from(lexer.text(), 0, 1).0,
            r.spec_eof_line() == lex_from(lexer.text(), 0, 1).1,
            r.position() == 0,
    {
        let ghost text = lexer.text();
        let ghost total = lex_from(text, 0, 1);
        let mut iter = lexer.iter();
        let mut tokens: Vec<Token> = Vec::new();
        loop
            invariant_except_break
                views(tokens@) + lex_from(text, iter.spec_current(), iter.spec_line()).0 == total.0,
                lex_from(text, iter.spec_current(), iter.spec_line()).1 == total.1,
            invariant
                iter.wf(),
                iter.text() == text,
            ensures
                views(tokens@) == total.0,
                iter.spec_line() == total.1,
            decreases text.len() - iter.spec_current(),
        {
            let ghost cur = iter.spec_current();
            let ghost line = iter.spec_line();
            proof {
                lemma_next_advances(text, cur, line);
            }
            match iter.next() {
                Some(t) => {
                    proof {
                        let rest = lex_from(text, iter.spec_current(), iter.spec_line());
                        assert(lex_from(text, cur, line).0 == seq![t@] + rest.0);
                        assert(views(tokens@.push(t)) =~= views(tokens@).push(t@));
                        assert(views(tokens@).push(t@) + rest.0 =~= views(tokens@) + (seq![t@]
                            + rest.0));
                    }
                    tokens.push(t);
                },
                None => {
                    assert(views(tokens@) + Seq::<TokenView>::empty() =~= views(tokens@));
                    break;
                },
            }
        }
        let eof_line = iter.line();
        Parser { tokens, pos: 0, eof_line }
    }

    /// The next token, without taking it.
    fn peek(&self) -> (r: Option<&Token>)
        requires
            self.wf(),
        ensures
            match r {
                Some(t) => self.position() < self.toks().len() && t@ == self.toks()[self.position()],
                None => self.position() >= self.toks().len(),
            },
    {
        if self.pos < self.tokens.len() {
            Some(&self.tokens[self.pos])
        } else {
            None
        }
    }

    /// Whether every token has been read.
    fn eof(&self) -> (r: bool)
        requires
            self.wf(),
        ensures
            r == (self.position() >= self.toks().len()),
    {
        self.pos >= self.tokens.len()
    }

    /// Takes the next token.
    fn advance(&mut self)
        requires
            old(self).position() < old(self).toks().len(),
        ensures
            final(self).wf(),
            final(self).toks() == old(self).toks(),
            final(self).spec_eof_line() == old(self).spec_eof_line(),
            final(self).position() == old(self).position() + 1,
    {
        if self.pos < self.tokens.len() {
            self.pos = self.pos + 1;
        }
    }

    /// The error for a text that ended where `message` expected more.
    fn eof_err(&self, message: &str) -> (r: ParseError)
        ensures
            r@ == eof_error(self.spec_eof_line(), message@),
    {
        let mut text = String::from_str("unexpected EOF ");
        text.append(message);
        ParseError { line: self.eof_line, span: None, message: text }
    }

    /// The error for the unexpected token `t`.
    fn token_err(t: &Token, message: &str) -> (r: ParseError)
        ensures
            r@ == token_error(t@, message@),
    {
        let (start, end) = t.span();
        ParseError { line: t.line(), span: Some((start, end)), message: String::from_str(message) }
    }

    /// Takes the next token where it is of `kind`; fails with `message`
    /// otherwise.
    fn check_next(&mut self, kind: TokenKind, message: &str) -> (r: Result<(), ParseError>)
        requires
            old(self).wf(),
        ensures
            final(self).wf(),
            final(self).toks() == old(self).toks(),
            final(self).spec_eof_line() == old(self).spec_eof_line(),
            final(self).position() >= old(self).position(),
            ({
                let i = old(self).position();
                let toks = old(self).toks();
                if i >= toks.len() {
                    r matches Err(e) && e@ == eof_error(old(self).spec_eof_line(), message@)
                } else if toks[i].kind != kind {
                    r matches Err(e) && e@ == token_error(toks[i], message@)
                } else {
                    r is Ok && final(self).position() == i + 1
                }
            }),
    {
        match self.peek() {
            None => Err(self.eof_err(message)),
            Some(t) => {
                if t.kind() != kind {
                    Err(Self::token_err(t, message))
                } else {
                    self.advance();
                    Ok(())
                }
            },
        }
    }

    /// A key name, written as a letter or an identifier, optionally after a
    /// `'`.
    fn parse_expr(&mut self) -> (r: Result<Expr, ParseError>)
        requires
            old(self).wf(),
        ensures
            final(self).wf(),
            final(self).toks() == old(self).toks(),
            final(self).spec_eof_line() == old(self).spec_eof_line(),
            final(self).position() >= old(self).position(),
            match expr_at(old(self).toks(), old(self).spec_eof_line(), old(self).position()) {
                Ok((name, j)) => r matches Ok(e) && is_name(e, name) && final(self).position() == j,
                Err(err) => r matches Err(e) && e@ == err,
            },
    {
        let message = "expected a key name";
        match self.peek() {
            None => Err(self.eof_err(message)),
            Some(t) => {
                let kind = t.kind();
                if kind == TokenKind::Char || kind == TokenKind::Identifier {
                    let name = String::from_str(t.literal());
                    self.advance();
                    Ok(Expr::Name(Name { name }))
                } else if kind == TokenKind::Tick {
                    self.advance();
                    match self.peek() {
                        None => Err(self.eof_err(message)),
                        Some(t) => {
                            let kind = t.kind();
                            if kind == TokenKind::Char || kind == TokenKind::Identifier {
                                let name = String::from_str(t.literal());
                                self.advance();
                                Ok(Expr::Name(Name { name }))
                            } else {
                                Err(Self::token_err(t, message))
                            }
                        },
                    }
                } else {
                    Err(Self::token_err(t, message))
                }
            },
        }
    }

    /// One parenthesized statement.
    fn parse_stmt(&mut self) -> (r: Result<Stmt, ParseError>)
        requires
            old(self).wf(),
        ensures
            final(self).wf(),
            final(self).toks() == old(self).toks(),
            final(self).spec_eof_line() == old(self).spec_eof_line(),
            final(self).position() >= old(self).position(),
            match stmt_at(old(self).toks(), old(self).spec_eof_line(), old(self).position()) {
                Ok((shape, j)) => r matches Ok(s) && stmt_matches(s, shape) && final(self).position()
                    == j,
                Err(err) => r matches Err(e) && e@ == err,
            },
        decreases old(self).toks().len() - old(self).position(), 0int,
    {
        match self.check_next(TokenKind::LeftParen, "expected open paren `(` to parse statement") {
            Err(e) => {
                return Err(e);
            },
            Ok(()) => {},
        }
        let kind = match self.peek() {
            None => {
                proof {
                reveal_strlit("");
            }
            return Err(self.eof_err(""));
            },
            Some(t) => t.kind(),
        };
        if kind == TokenKind::RightParen {
            self.advance();
            return Ok(Stmt::Empty);
        }
        if kind != TokenKind::Bind {
            let t = self.peek().unwrap();
            return Err(Self::token_err(t, "expected `bind` or `)` to start a statement"));
        }
        self.advance();
        let bind = match self.parse_bind_stmt() {
            Err(e) => {
                return Err(e);
            },
            Ok(bind) => bind,
        };
        match self.check_next(TokenKind::RightParen, "expected a closing paren `)` for statement") {
            Err(e) => Err(e),
            Ok(()) => Ok(Stmt::Bind(Box::new(bind))),
        }
    }

    /// The keys of a bind statement, separated by `+`, then its inner
    /// statement.
    fn parse_bind_stmt(&mut self) -> (r: Result<BindStmt, ParseError>)
        requires
            old(self).wf(),
        ensures
            final(self).wf(),
            final(self).toks() == old(self).toks(),
            final(self).spec_eof_line() == old(self).spec_eof_line(),
            final(self).position() >= old(self).position(),
            match bind_at(old(self).toks(), old(self).spec_eof_line(), old(self).position()) {
                Ok((names, shape, k)) => r matches Ok(b) && b.exprs@.len() == names.len() && (forall|
                    i: int,
                | 0 <= i < names.len() ==> is_name(#[trigger] b.exprs@[i], names[i])) && stmt_matches(
                    b.stmt,
                    shape,
                ) && final(self).position() == k,
                Err(err) => r matches Err(e) && e@ == err,
            },
        decreases old(self).toks().len() - old(self).position(), 1int,
    {
        if self.eof() {
            return Err(self.eof_err("expected open paren `(` to parse statement"));
        }
        let expr = match self.parse_expr() {
            Err(e) => {
                return Err(e);
            },
            Ok(expr) => expr,
        };
        let kind = match self.peek() {
            None => TokenKind::LeftParen,
            Some(t) => t.kind(),
        };
        if kind == TokenKind::LeftParen {
            match self.parse_stmt() {
                Err(e) => Err(e),
                Ok(stmt) => {
                    let exprs = vec![expr];
                    Ok(BindStmt { exprs, stmt })
                },
            }
        } else if kind == TokenKind::Plus {
            self.advance();
            match self.parse_bind_stmt() {
                Err(e) => Err(e),
                Ok(rest) => {
                    let mut exprs = rest.exprs;
                    exprs.insert(0, expr);
                    Ok(BindStmt { exprs, stmt: rest.stmt })
                },
            }
        } else {
            let t = self.peek().unwrap();
            Err(
                Self::token_err(
                    t,
                    "unexpected token while parsing bind statement, expected a `+` or start of another block",
                ),
            )
        }
    }

    /// Every statement up to the end of the text.
    pub fn parse(&mut self) -> (r: Result<Body, ParseError>)
        requires
            old(self).wf(),
        ensures
            final(self).wf(),
            match body_from(old(self).toks(), old(self).spec_eof_line(), old(self).position()) {
                Ok(shapes) => r matches Ok(body) && body.stmts@.len() == shapes.len() && forall|i: int|
                    0 <= i < shapes.len() ==> stmt_matches(#[trigger] body.stmts@[i], shapes[i]),
                Err(err) => r matches Err(e) && e@ == err,
            },
    {
        let ghost toks = self.toks();
        let ghost eof_line = self.spec_eof_line();
        let ghost goal = body_from(toks, eof_line, self.position());
        let ghost mut shapes: Seq<StmtShape> = Seq::empty();
        let mut stmts: Vec<Stmt> = Vec::new();
        let mut failure: Option<ParseError> = None;
        while failure.is_none() && !self.eof()
            invariant
                self.wf(),
                self.toks() == toks,
                self.spec_eof_line() == eof_line,
                stmts@.len() == shapes.len(),
                forall|i: int| 0 <= i < shapes.len() ==> stmt_matches(#[trigger] stmts@[i], shapes[i]),
                match failure {
                    None => goal == with_stmts(shapes, body_from(toks, eof_line, self.position())),
                    Some(e) => goal == Err::<Seq<StmtShape>, ErrorView>(e@),
                },
            decreases (if failure is None { 1 + toks.len() - self.position() } else { 0 }),
        {
            let ghost i = self.position();
            match self.parse_stmt() {
                Ok(stmt) => {
                    proof {
                        let (shape, j) = stmt_at(toks, eof_line, i)->Ok_0;
                        assert(with_stmts(shapes, body_from(toks, eof_line, i)) == with_stmts(
                            shapes.push(shape),
                            body_from(toks, eof_line, j),
                        )) by {
                            match body_from(toks, eof_line, j) {
                                Ok(rest) => {
                                    assert(shapes + (seq![shape] + rest) =~= shapes.push(shape) + rest);
                                },
                                Err(e) => {},
                            }
                        }
                        shapes = shapes.push(shape);
                    }
                    stmts.push(stmt);
                },
                Err(e) => {
                    failure = Some(e);
                },
            }
        }
        match failure {
            Some(e) => Err(e),
            None => {
                assert(shapes + Seq::<StmtShape>::empty() =~= shapes);
                Ok(Body { stmts })
            },
        }
    }
}

} // verus!
