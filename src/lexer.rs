//! The lexer of the configuration language.
//!
//! Positions and spans count characters from the start of the text; lines
//! count from 1. Whitespace, newlines and `//` comments separate tokens and
//! are never yielded.
use vstd::prelude::*;

verus! {

/// The kinds of token.
#[derive(Debug, Clone, Copy, PartialEq, Eq, Structural)]
pub enum TokenKind {
    Dot,
    Comma,
    Plus,
    Star,
    Minus,
    Equal,
    EqualEqual,
    NotEqual,
    Greater,
    Less,
    GreaterThen,
    LessThen,
    Bang,
    LeftParen,
    RightParen,
    LeftBrace,
    RightBrace,
    /// A single `'`.
    Tick,
    /// Spaces and carriage returns; only the lexer sees these.
    WhiteSpace,
    /// A `//` comment up to the end of its line; only the lexer sees these.
    Comment,
    /// Only the lexer sees these.
    NewLine,
    String,
    /// A single letter or underscore.
    Char,
    Number,
    Identifier,
    Bind,
    Shift,
    Alt,
    Unknown,
}

/// The classes of character that a token can run over.
#[derive(Debug, Clone, Copy, PartialEq, Eq, Structural)]
pub enum CharClass {
    /// Spaces and carriage returns.
    Blank,
    /// Decimal digits.
    Digit,
    /// ASCII letters and underscores.
    Word,
    /// Anything but a newline.
    Line,
}

pub open spec fn in_class(class: CharClass, c: char) -> bool {
    match class {
        CharClass::Blank => c == ' ' || c == '\r',
        CharClass::Digit => '0' <= c && c <= '9',
        CharClass::Word => ('a' <= c && c <= 'z') || ('A' <= c && c <= 'Z') || c == '_',
        CharClass::Line => c != '\n',
    }
}

/// How many characters from `pos` on are in `class`, up to the first that is
/// not.
pub open spec fn class_run(chars: Seq<char>, pos: int, class: CharClass) -> int
    decreases chars.len() - pos,
{
    if pos < 0 || pos >= chars.len() || !in_class(class, chars[pos]) {
        0
    } else {
        1 + class_run(chars, pos + 1, class)
    }
}

/// The kind of a word: a keyword, a single character, or an identifier.
pub open spec fn word_kind(word: Seq<char>) -> TokenKind {
    if word.len() == 1 {
        TokenKind::Char
    } else if word == seq!['b', 'i', 'n', 'd'] {
        TokenKind::Bind
    } else if word == seq!['s', 'h', 'i', 'f', 't'] {
        TokenKind::Shift
    } else if word == seq!['a', 'l', 't'] {
        TokenKind::Alt
    } else {
        TokenKind::Identifier
    }
}

/// The length and kind of the token that starts at `pos`, where
/// `0 <= pos < chars.len()`.
pub open spec fn token_at(chars: Seq<char>, pos: int) -> (int, TokenKind) {
    let c = chars[pos];
    let has_next = pos + 1 < chars.len();
    if c == '.' {
        (1, TokenKind::Dot)
    } else if c == ',' {
        (1, TokenKind::Comma)
    } else if c == '+' {
        (1, TokenKind::Plus)
    } else if c == '-' {
        (1, TokenKind::Minus)
    } else if c == '*' {
        (1, TokenKind::Star)
    } else if c == '\n' {
        (1, TokenKind::NewLine)
    } else if c == '{' {
        (1, TokenKind::LeftBrace)
    } else if c == '}' {
        (1, TokenKind::RightBrace)
    } else if c == '(' {
        (1, TokenKind::LeftParen)
    } else if c == ')' {
        (1, TokenKind::RightParen)
    } else if c == '\'' {
        (1, TokenKind::Tick)
    } else if in_class(CharClass::Blank, c) {
        (class_run(chars, pos, CharClass::Blank), TokenKind::WhiteSpace)
    } else if c == '/' {
        if has_next && chars[pos + 1] == '/' {
            (2 + class_run(chars, pos + 2, CharClass::Line), TokenKind::Comment)
        } else {
            (1, TokenKind::Unknown)
        }
    } else if c == '=' {
        if has_next && chars[pos + 1] == '=' {
            (2, TokenKind::EqualEqual)
        } else {
            (1, TokenKind::Equal)
        }
    } else if c == '!' {
        if has_next && chars[pos + 1] == '=' {
            (2, TokenKind::NotEqual)
        } else {
            (1, TokenKind::Bang)
        }
    } else if in_class(CharClass::Digit, c) {
        (class_run(chars, pos, CharClass::Digit), TokenKind::Number)
    } else if in_class(CharClass::Word, c) {
        let n = class_run(chars, pos, CharClass::Word);
        (n, word_kind(chars.subrange(pos, pos + n)))
    } else {
        (1, TokenKind::Unknown)
    }
}

/// A token as values.
pub ghost struct TokenView {
    pub literal: Seq<char>,
    pub line: int,
    pub start: int,
    pub end: int,
    pub kind: TokenKind,
}

/// The next token yielded from `pos` on, where the line count is `line`, with
/// the position and line count after it.
pub open spec fn next_from(chars: Seq<char>, pos: int, line: int) -> (Option<TokenView>, int, int)
    decreases chars.len() - pos,
{
    if pos < 0 || pos >= chars.len() {
        (None, pos, line)
    } else {
        let (size, kind) = token_at(chars, pos);
        if size <= 0 || pos + size > chars.len() {
            (None, pos, line)
        } else if kind == TokenKind::NewLine {
            next_from(chars, pos + size, line + 1)
        } else if kind == TokenKind::WhiteSpace || kind == TokenKind::Comment {
            next_from(chars, pos + size, line)
        } else {
            (
                Some(
                    TokenView {
                        literal: chars.subrange(pos, pos + size),
                        line,
                        start: pos,
                        end: pos + size,
                        kind,
                    },
                ),
                pos + size,
                line,
            )
        }
    }
}

/// Every token yielded from `pos` on, where the line count is `line`, and
/// the line count once the text is used up.
pub open spec fn lex_from(chars: Seq<char>, pos: int, line: int) -> (Seq<TokenView>, int)
    decreases chars.len() - pos,
{
    let (t, next, next_line) = next_from(chars, pos, line);
    match t {
        Some(token) => if pos < next <= chars.len() {
            let (rest, last_line) = lex_from(chars, next, next_line);
            (seq![token] + rest, last_line)
        } else {
            (seq![token], next_line)
        },
        None => (Seq::empty(), next_line),
    }
}

/// A token is yielded only past `pos`, and never past the end of the text.
pub proof fn lemma_next_advances(chars: Seq<char>, pos: int, line: int)
    ensures
        next_from(chars, pos, line).0 is Some ==> pos < next_from(chars, pos, line).1
            <= chars.len(),
    decreases chars.len() - pos,
{
    if 0 <= pos < chars.len() {
        let (size, kind) = token_at(chars, pos);
        if size > 0 && pos + size <= chars.len() {
            if kind == TokenKind::NewLine {
                lemma_next_advances(chars, pos + size, line + 1);
            } else if kind == TokenKind::WhiteSpace || kind == TokenKind::Comment {
                lemma_next_advances(chars, pos + size, line);
            }
        }
    }
}

/// A token: its text, the line it is on, its span and its kind.
#[derive(Debug)]
pub struct Token {
    literal: String,
    line: usize,
    start: usize,
    end: usize,
    kind: TokenKind,
}

impl View for Token {
    type V = TokenView;

    closed spec fn view(&self) -> TokenView {
        TokenView {
            literal: self.literal@,
            line: self.line as int,
            start: self.start as int,
            end: self.end as int,
            kind: self.kind,
        }
    }
}

impl Token {
    pub fn new(literal: String, line: usize, start: usize, end: usize, kind: TokenKind) -> (r:
        Token)
        ensures
            r@ == (TokenView {
                literal: literal@,
                line: line as int,
                start: start as int,
                end: end as int,
                kind,
            }),
    {
        Token { literal, line, start, end, kind }
    }

    /// The token's kind.
    pub fn kind(&self) -> (r: TokenKind)
        ensures
            r == self@.kind,
    {
        self.kind
    }

    /// The line the token is on.
    pub fn line(&self) -> (r: usize)
        ensures
            r == self@.line,
    {
        self.line
    }

    /// Where the token starts and where it ends.
    pub fn span(&self) -> (r: (usize, usize))
        ensures
            r.0 == self@.start,
            r.1 == self@.end,
    {
        (self.start, self.end)
    }

    /// The token's text.
    pub fn literal(&self) -> (r: &str)
        ensures
            r@ == self@.literal,
    {
        self.literal.as_str()
    }
}

impl CharClass {
    /// Whether `c` is in the class.
    pub fn holds(self, c: char) -> (r: bool)
        ensures
            r == in_class(self, c),
    {
        match self {
            CharClass::Blank => c == ' ' || c == '\r',
            CharClass::Digit => '0' <= c && c <= '9',
            CharClass::Word => ('a' <= c && c <= 'z') || ('A' <= c && c <= 'Z') || c == '_',
            CharClass::Line => c != '\n',
        }
    }
}

/// The number of characters from `pos` on that are in `class`.
fn count_run(chars: &Vec<char>, pos: usize, class: CharClass) -> (r: usize)
    requires
        pos <= chars.len(),
    ensures
        r == class_run(chars@, pos as int, class),
        pos < chars@.len() && in_class(class, chars@[pos as int]) ==> r >= 1,
        pos + r <= chars@.len(),
{
    let mut j: usize = pos;
    while j < chars.len() && class.holds(chars[j])
        invariant
            pos <= j <= chars@.len(),
            class_run(chars@, pos as int, class) == (j - pos) + class_run(chars@, j as int, class),
        decreases chars@.len() - j,
    {
        j = j + 1;
    }
    j - pos
}

/// The kind of the word of `n` characters at `pos`.
fn kind_of_word(chars: &Vec<char>, pos: usize, n: usize) -> (r: TokenKind)
    requires
        pos + n <= chars.len(),
    ensures
        r == word_kind(chars@.subrange(pos as int, pos + n)),
{
    let ghost word = chars@.subrange(pos as int, pos + n);
    if n == 1 {
        return TokenKind::Char;
    }
    if n == 4 && chars[pos] == 'b' && chars[pos + 1] == 'i' && chars[pos + 2] == 'n' && chars[pos
        + 3] == 'd' {
        assert(word =~= seq!['b', 'i', 'n', 'd']);
        return TokenKind::Bind;
    }
    assert(word != seq!['b', 'i', 'n', 'd']) by {
        if n == 4 && word == seq!['b', 'i', 'n', 'd'] {
            assert(word[0] == 'b' && word[1] == 'i' && word[2] == 'n' && word[3] == 'd');
        }
    }
    if n == 5 && chars[pos] == 's' && chars[pos + 1] == 'h' && chars[pos + 2] == 'i' && chars[pos
        + 3] == 'f' && chars[pos + 4] == 't' {
        assert(word =~= seq!['s', 'h', 'i', 'f', 't']);
        return TokenKind::Shift;
    }
    assert(word != seq!['s', 'h', 'i', 'f', 't']) by {
        if n == 5 && word == seq!['s', 'h', 'i', 'f', 't'] {
            assert(word[0] == 's' && word[1] == 'h' && word[2] == 'i' && word[3] == 'f' && word[4]
                == 't');
        }
    }
    if n == 3 && chars[pos] == 'a' && chars[pos + 1] == 'l' && chars[pos + 2] == 't' {
        assert(word =~= seq!['a', 'l', 't']);
        return TokenKind::Alt;
    }
    assert(word != seq!['a', 'l', 't']) by {
        if n == 3 && word == seq!['a', 'l', 't'] {
            assert(word[0] == 'a' && word[1] == 'l' && word[2] == 't');
        }
    }
    TokenKind::Identifier
}

/// The text of a configuration file, ready to be split into tokens.
#[derive(Debug)]
pub struct Lexer {
    content: String,
    chars: Vec<char>,
}

impl Lexer {
    /// The characters of the text.
    pub closed spec fn text(&self) -> Seq<char> {
        self.content@
    }

    pub closed spec fn wf(&self) -> bool {
        self.chars@ == self.content@ && self.content@.len() < usize::MAX
    }

    /// A lexer over `content`.
    pub fn new(content: String) -> (r: Lexer)
        requires
            content@.len() < usize::MAX,
        ensures
            r.wf(),
            r.text() == content@,
    {
        let n = content.as_str().unicode_len();
        let mut chars: Vec<char> = Vec::with_capacity(n);
        let mut i: usize = 0;
        while i < n
            invariant
                n == content@.len(),
                i <= n,
                chars@ == content@.take(i as int),
            decreases n - i,
        {
            chars.push(content.as_str().get_char(i));
            assert(content@.take(i + 1) =~= content@.take(i as int).push(content@[i as int]));
            i = i + 1;
        }
        assert(content@.take(i as int) =~= content@);
        Lexer { content, chars }
    }

    /// The tokens of the text, from its start.
    pub fn iter(&self) -> (r: LexerIter<'_>)
        requires
            self.wf(),
        ensures
            r.wf(),
            r.text() == self.text(),
            r.spec_current() == 0,
            r.spec_line() == 1,
    {
        LexerIter { lexer: self, current: 0, line: 1 }
    }
}

/// What a source of tokens tells of where it stands.
pub trait LexerIterContext {
    /// The line the source is at.
    fn line(&self) -> usize;

    /// The position the source is at.
    fn current(&self) -> usize;
}

/// Yields the tokens of a text one by one.
#[derive(Debug)]
pub struct LexerIter<'a> {
    lexer: &'a Lexer,
    current: usize,
    line: usize,
}

impl<'a> LexerIter<'a> {
    /// The characters of the text.
    pub closed spec fn text(&self) -> Seq<char> {
        self.lexer.text()
    }

    /// The position of the next character to read.
    pub closed spec fn spec_current(&self) -> int {
        self.current as int
    }

    /// The line of the next character to read.
    pub closed spec fn spec_line(&self) -> int {
        self.line as int
    }

    pub closed spec fn wf(&self) -> bool {
        &&& self.lexer.wf()
        &&& self.current <= self.lexer.chars@.len()
        &&& 1 <= self.line <= self.current + 1
    }

    /// The length and kind of the token at `pos`, or `None` at the end of the
    /// text.
    pub fn next_token_from_string(chars: &Vec<char>, pos: usize) -> (r: Option<(usize, TokenKind)>)
        ensures
            pos >= chars@.len() ==> r is None,
            pos < chars@.len() ==> (r matches Some((size, kind)) && (size as int, kind) == token_at(
                chars@,
                pos as int,
            ) && 1 <= size && pos + size <= chars@.len()),
    {
        if pos >= chars.len() {
            return None;
        }
        let c = chars[pos];
        let has_next = pos + 1 < chars.len();
        let r = if c == '.' {
            (1, TokenKind::Dot)
        } else if c == ',' {
            (1, TokenKind::Comma)
        } else if c == '+' {
            (1, TokenKind::Plus)
        } else if c == '-' {
            (1, TokenKind::Minus)
        } else if c == '*' {
            (1, TokenKind::Star)
        } else if c == '\n' {
            (1, TokenKind::NewLine)
        } else if c == '{' {
            (1, TokenKind::LeftBrace)
        } else if c == '}' {
            (1, TokenKind::RightBrace)
        } else if c == '(' {
            (1, TokenKind::LeftParen)
        } else if c == ')' {
            (1, TokenKind::RightParen)
        } else if c == '\'' {
            (1, TokenKind::Tick)
        } else if CharClass::Blank.holds(c) {
            (count_run(chars, pos, CharClass::Blank), TokenKind::WhiteSpace)
        } else if c == '/' {
            if has_next && chars[pos + 1] == '/' {
                (2 + count_run(chars, pos + 2, CharClass::Line), TokenKind::Comment)
            } else {
                (1, TokenKind::Unknown)
            }
        } else if c == '=' {
            if has_next && chars[pos + 1] == '=' {
                (2, TokenKind::EqualEqual)
            } else {
                (1, TokenKind::Equal)
            }
        } else if c == '!' {
            if has_next && chars[pos + 1] == '=' {
                (2, TokenKind::NotEqual)
            } else {
                (1, TokenKind::Bang)
            }
        } else if CharClass::Digit.holds(c) {
            (count_run(chars, pos, CharClass::Digit), TokenKind::Number)
        } else if CharClass::Word.holds(c) {
            let n = count_run(chars, pos, CharClass::Word);
            (n, kind_of_word(chars, pos, n))
        } else {
            (1, TokenKind::Unknown)
        };
        Some(r)
    }

    /// The next token, skipping whitespace, newlines and comments; `None` once
    /// the text is used up.
    pub fn next(&mut self) -> (r: Option<Token>)
        requires
            old(self).wf(),
        ensures
            final(self).wf(),
            final(self).text() == old(self).text(),
            ({
                let (t, pos, line) = next_from(old(self).text(), old(self).spec_current(), old(self).spec_line());
                &&& (match r {
                    Some(token) => t == Some(token@),
                    None => t is None,
                })
                &&& final(self).spec_current() == pos
                &&& final(self).spec_line() == line
            }),
    {
        let ghost chars = self.text();
        let ghost goal = next_from(chars, self.spec_current(), self.spec_line());
        let mut found: Option<Token> = None;
        while found.is_none() && self.current < self.lexer.chars.len()
            invariant
                self.wf(),
                chars == self.text(),
                match found {
                    Some(token) => goal == (Some(token@), self.spec_current(), self.spec_line()),
                    None => next_from(chars, self.spec_current(), self.spec_line()) == goal,
                },
            decreases self.lexer.chars@.len() - self.current,
        {
            if let Some((size, kind)) = Self::next_token_from_string(&self.lexer.chars, self.current) {
                let start = self.current;
                let end = start + size;
                self.current = end;
                if kind == TokenKind::NewLine {
                    self.line = self.line + 1;
                } else if kind != TokenKind::WhiteSpace && kind != TokenKind::Comment {
                    let literal = self.lexer.content.as_str().substring_char(start, end).to_owned();
                    found = Some(Token { literal, line: self.line, start, end, kind });
                }
            }
        }
        found
    }
}

impl<'a> LexerIterContext for LexerIter<'a> {
    fn line(&self) -> (r: usize)
        ensures
            r == self.spec_line(),
    {
        self.line
    }

    fn current(&self) -> (r: usize)
        ensures
            r == self.spec_current(),
    {
        self.current
    }
}

} // verus!
