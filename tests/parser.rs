use flow::ast::{BindStmt, Binary, Body, Expr, Literal, Name, Stmt};
use flow::lexer::{Lexer, Token, TokenKind};
use flow::parser::Parser;

#[test]
fn test_print_visitor() {
    let operator = Token::new("*".to_string(), 1, 0, 0, TokenKind::Star);
    let ast = Expr::Binary(Box::new(Binary {
        left: Expr::Literal(Literal::Number(55)),
        operator: operator.literal().to_string(),
        right: Expr::Literal(Literal::Number(77)),
    }));
    assert_eq!(ast.to_text(), "(* 55 77)")
}

#[test]
fn test_ast_display() {
    let ast = Expr::Binary(Box::new(Binary {
        left: Expr::Literal(Literal::Number(55)),
        operator: "*".to_string(),
        right: Expr::Literal(Literal::Number(77)),
    }));
    assert_eq!(ast.to_text(), "(* 55 77)")
}

#[test]
fn test_ast_empty_stmt() {
    let lexer = Lexer::new("()".to_string());
    let mut parser = Parser::new(&lexer);
    assert_eq!(
        parser.parse(),
        Ok(Body {
            stmts: vec![Stmt::Empty]
        })
    );
}

#[test]
fn test_ast_bind_stmt() {
    let lexer = Lexer::new("(bind x + 'z ())".to_string());
    let mut parser = Parser::new(&lexer);

    assert_eq!(
        parser.parse(),
        Ok(Body {
            stmts: vec![Stmt::Bind(Box::new(BindStmt {
                exprs: vec![
                    Expr::Name(Name {
                        name: "x".to_string()
                    }),
                    Expr::Name(Name {
                        name: "z".to_string()
                    })
                ],
                stmt: Stmt::Empty
            }))]
        })
    );
}

#[test]
fn literals_and_other_exprs_render() {
    assert_eq!(Literal::Pixels(12).to_text(), "12px");
    assert_eq!(Literal::Number(-40).to_text(), "-40");
    assert_eq!(Literal::Char('q').to_text(), "q");
    assert_eq!(Literal::String("hi".to_string()).to_text(), "\"hi\"");
    let name = Expr::Name(Name { name: "k".to_string() });
    assert_eq!(name.to_text(), "'k");
    assert!(name.is_reference() == false && name.is_literal() == false);
}

#[test]
fn empty_text_parses_to_no_statement() {
    let lexer = Lexer::new("  // only a comment\n".to_string());
    let mut parser = Parser::new(&lexer);
    assert_eq!(parser.parse(), Ok(Body { stmts: vec![] }));
}

#[test]
fn statement_without_open_paren_is_rejected() {
    let lexer = Lexer::new("\nbind".to_string());
    let mut parser = Parser::new(&lexer);
    let err = parser.parse().unwrap_err();
    assert_eq!(err.line(), 2);
    assert_eq!(err.span(), Some((1, 5)));
    assert_eq!(err.message(), "expected open paren `(` to parse statement");
}

#[test]
fn unclosed_statement_reports_eof_line() {
    let lexer = Lexer::new("(bind a\n+ b ()\n".to_string());
    let mut parser = Parser::new(&lexer);
    let err = parser.parse().unwrap_err();
    assert_eq!(err.line(), 3);
    assert_eq!(err.span(), None);
    assert_eq!(err.message(), "unexpected EOF expected a closing paren `)` for statement");
}

#[test]
fn bind_keys_need_plus_between_them() {
    let lexer = Lexer::new("(bind a b ())".to_string());
    let mut parser = Parser::new(&lexer);
    let err = parser.parse().unwrap_err();
    assert_eq!(err.span(), Some((8, 9)));
    assert_eq!(
        err.message(),
        "unexpected token while parsing bind statement, expected a `+` or start of another block"
    );
}

#[test]
fn bind_key_must_be_a_name() {
    let lexer = Lexer::new("(bind 7 ())".to_string());
    let mut parser = Parser::new(&lexer);
    let err = parser.parse().unwrap_err();
    assert_eq!(err.span(), Some((6, 7)));
    assert_eq!(err.message(), "expected a key name");
}

#[test]
fn unknown_statement_is_rejected() {
    let lexer = Lexer::new("(alt)".to_string());
    let mut parser = Parser::new(&lexer);
    let err = parser.parse().unwrap_err();
    assert_eq!(err.message(), "expected `bind` or `)` to start a statement");
}

#[test]
fn nested_bind_and_several_statements() {
    let lexer = Lexer::new("() (bind shift_key (bind q ()))".to_string());
    let mut parser = Parser::new(&lexer);
    let body = parser.parse().expect("valid text");
    assert_eq!(body.stmts.len(), 2);
    assert_eq!(body.stmts[0], Stmt::Empty);
    match &body.stmts[1] {
        Stmt::Bind(b) => {
            assert_eq!(b.exprs, vec![Expr::Name(Name { name: "shift_key".to_string() })]);
            assert!(matches!(b.stmt, Stmt::Bind(_)));
        }
        other => panic!("unexpected statement {:?}", other),
    }
}

#[test]
fn parse_errors_render_with_line_and_span() {
    let lexer = Lexer::new("(bind a b ())".to_string());
    let err = Parser::new(&lexer).parse().unwrap_err();
    assert_eq!(
        err.to_text(),
        "L#1 8:9 - unexpected token while parsing bind statement, expected a `+` or start of another block"
    );
    let lexer = Lexer::new("(".to_string());
    let err = Parser::new(&lexer).parse().unwrap_err();
    assert_eq!(err.to_text(), "L#1 - unexpected EOF ");
}
