use ignis::ast::{Expression, Grouping, IfStatement, Literal, Return, Statement, WhileStatement};
use ignis::token::{Span, Token, TokenType};

fn literal(text: &str) -> Box<Expression> {
    let span = Span::new("m.ign".to_string(), 1, 0, text.len(), text.to_string());
    Box::new(Expression::Literal(Literal { value: Token::new(TokenType::Int, span) }))
}

fn ret() -> Box<Statement> {
    let span = Span::new("m.ign".to_string(), 2, 0, 6, "return".to_string());
    Box::new(Statement::Return(Return { keyword: Token::new(TokenType::Return, span), value: None }))
}

#[test]
fn grouping_new_keeps_expression() {
    let g = Grouping::new(literal("1"));
    assert!(matches!(*g.expression, Expression::Literal(ref l) if l.value.span.literal == "1"));
}

#[test]
fn if_statement_new_keeps_parts() {
    let s = IfStatement::new(literal("c"), ret(), Some(ret()));
    assert!(matches!(*s.condition, Expression::Literal(ref l) if l.value.span.literal == "c"));
    assert!(matches!(*s.then_branch, Statement::Return(_)));
    assert!(s.else_branch.is_some());
    let s = IfStatement::new(literal("c"), ret(), None);
    assert!(s.else_branch.is_none());
}

#[test]
fn while_statement_new_keeps_parts() {
    let s = WhileStatement::new(literal("c"), ret());
    assert!(matches!(*s.condition, Expression::Literal(ref l) if l.value.span.literal == "c"));
    assert!(matches!(*s.body, Statement::Return(_)));
}
