//! The syntax tree of the configuration language.
//!
//! ```text
//! Stmt    = Bind(Expr*, Stmt) | Expr | Empty
//! Expr    = Name | Binary | Literal | Assign | Reference
//! Literal = String | Pixels | Number | Char
//! ```
use vstd::prelude::*;
use crate::text::{char_text, decimal, i32_text, u32_text};

verus! {

/// An operator applied to two expressions.
#[derive(Debug, PartialEq, Eq)]
pub struct Binary {
    pub left: Expr,
    pub operator: String,
    pub right: Expr,
}

/// A reference to a named value.
#[derive(Debug, PartialEq, Eq)]
pub struct Reference {
    pub name: String,
}

/// A literal value.
#[derive(Debug, PartialEq, Eq)]
pub enum Literal {
    String(String),
    Pixels(u32),
    Number(i32),
    Char(char),
}

impl Literal {
    pub fn is_string(&self) -> (r: bool)
        ensures
            r == self is String,
    {
        matches!(self, Literal::String(_))
    }

    pub fn is_pixels(&self) -> (r: bool)
        ensures
            r == self is Pixels,
    {
        matches!(self, Literal::Pixels(_))
    }

    pub fn is_number(&self) -> (r: bool)
        ensures
            r == self is Number,
    {
        matches!(self, Literal::Number(_))
    }

    pub fn is_char(&self) -> (r: bool)
        ensures
            r == self is Char,
    {
        matches!(self, Literal::Char(_))
    }

    /// The literal as written: a string in double quotes, pixels with a `px`
    /// suffix, a number in decimal, a character as itself.
    pub fn to_text(&self) -> (r: String)
        ensures
            r@ == literal_text(*self),
    {
        proof {
            reveal_strlit("\"");
            reveal_strlit("px");
        }
        match self {
            Literal::String(s) => {
                let mut text = String::from_str("\"");
                text.append(s.as_str());
                text.append("\"");
                text
            },
            Literal::Pixels(p) => {
                let mut text = u32_text(*p);
                text.append("px");
                text
            },
            Literal::Number(n) => i32_text(*n),
            Literal::Char(c) => char_text(*c),
        }
    }
}

/// A value given a name.
#[derive(Debug, PartialEq, Eq)]
pub struct Assign {
    pub name: String,
    pub value: Expr,
}

/// A name, such as a key.
#[derive(Debug, PartialEq, Eq)]
pub struct Name {
    pub name: String,
}

/// An expression.
#[derive(Debug, PartialEq, Eq)]
pub enum Expr {
    Name(Name),
    Binary(Box<Binary>),
    Literal(Literal),
    Assign(Box<Assign>),
    Reference(Reference),
}

/// The text of a literal.
pub open spec fn literal_text(l: Literal) -> Seq<char> {
    match l {
        Literal::String(s) => seq!['"'] + s@ + seq!['"'],
        Literal::Pixels(p) => decimal(p as int) + seq!['p', 'x'],
        Literal::Number(n) => decimal(n as int),
        Literal::Char(c) => seq![c],
    }
}

/// The text of an expression, in prefix form: `'name` for a name,
/// `(op left right)` for a binary expression, `(assign name value)` for an
/// assignment and `'!name` for a reference.
pub open spec fn expr_text(e: Expr) -> Seq<char>
    decreases e,
{
    match e {
        Expr::Name(n) => seq!['\''] + n.name@,
        Expr::Binary(b) => seq!['('] + b.operator@ + seq![' '] + expr_text(b.left) + seq![' ']
            + expr_text(b.right) + seq![')'],
        Expr::Literal(l) => literal_text(l),
        Expr::Assign(a) => seq!['(', 'a', 's', 's', 'i', 'g', 'n', ' '] + a.name@ + seq![' ']
            + expr_text(a.value) + seq![')'],
        Expr::Reference(r) => seq!['\'', '!'] + r.name@,
    }
}

impl Expr {
    pub fn is_literal(&self) -> (r: bool)
        ensures
            r == self is Literal,
    {
        matches!(self, Expr::Literal(_))
    }

    pub fn is_assignment(&self) -> (r: bool)
        ensures
            r == self is Assign,
    {
        matches!(self, Expr::Assign(_))
    }

    pub fn is_binary(&self) -> (r: bool)
        ensures
            r == self is Binary,
    {
        matches!(self, Expr::Binary(_))
    }

    pub fn is_reference(&self) -> (r: bool)
        ensures
            r == self is Reference,
    {
        matches!(self, Expr::Reference(_))
    }

    /// The expression as text, in prefix form.
    pub fn to_text(&self) -> (r: String)
        ensures
            r@ == expr_text(*self),
        decreases self,
    {
        proof {
            reveal_strlit("'");
            reveal_strlit("(");
            reveal_strlit(" ");
            reveal_strlit(")");
            reveal_strlit("(assign ");
            reveal_strlit("'!");
        }
        match self {
            Expr::Name(n) => {
                let mut text = String::from_str("'");
                text.append(n.name.as_str());
                text
            },
            Expr::Binary(b) => {
                let left = b.left.to_text();
                let right = b.right.to_text();
                let mut text = String::from_str("(");
                text.append(b.operator.as_str());
                text.append(" ");
                text.append(left.as_str());
                text.append(" ");
                text.append(right.as_str());
                text.append(")");
                text
            },
            Expr::Literal(l) => l.to_text(),
            Expr::Assign(a) => {
                let value = a.value.to_text();
                let mut text = String::from_str("(assign ");
                text.append(a.name.as_str());
                text.append(" ");
                text.append(value.as_str());
                text.append(")");
                text
            },
            Expr::Reference(r) => {
                let mut text = String::from_str("'!");
                text.append(r.name.as_str());
                text
            },
        }
    }
}

/// A statement that binds the keys of `exprs` to `stmt`.
#[derive(Debug, PartialEq, Eq)]
pub struct BindStmt {
    pub exprs: Vec<Expr>,
    pub stmt: Stmt,
}

/// A statement.
#[derive(Debug, PartialEq, Eq)]
pub enum Stmt {
    Bind(Box<BindStmt>),
    Expr(Expr),
    /// `()`.
    Empty,
}

/// The statements of a file, without enclosing parentheses.
#[derive(Debug, PartialEq, Eq)]
pub struct Body {
    pub stmts: Vec<Stmt>,
}

} // verus!
