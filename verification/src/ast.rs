use vstd::prelude::*;

use crate::data_type::DataType;
use crate::token::Token;

verus! {

/// A binary operation, such as `a + b`.
#[derive(Debug)]
pub struct Binary {
    pub left: Box<Expression>,
    pub operator: Token,
    pub right: Box<Expression>,
    pub data_type: DataType,
}

/// A parenthesised expression.
#[derive(Debug)]
pub struct Grouping {
    pub expression: Box<Expression>,
}

/// A literal: its token.
#[derive(Debug)]
pub struct Literal {
    pub value: Token,
}

/// A prefix operation, such as `!a` or `-a`.
#[derive(Debug)]
pub struct Unary {
    pub operator: Token,
    pub right: Box<Expression>,
    pub data_type: DataType,
}

/// A use of a variable.
#[derive(Debug)]
pub struct VariableExpression {
    pub name: Token,
    pub data_type: DataType,
}

/// An assignment `name = value`.
#[derive(Debug)]
pub struct Assign {
    pub name: Token,
    pub value: Box<Expression>,
    pub data_type: DataType,
}

/// A short-circuit `and` / `or`.
#[derive(Debug)]
pub struct Logical {
    pub left: Box<Expression>,
    pub operator: Token,
    pub right: Box<Expression>,
    pub data_type: DataType,
}

/// `condition ? then_branch : else_branch`.
#[derive(Debug)]
pub struct Ternary {
    pub condition: Box<Expression>,
    pub then_branch: Box<Expression>,
    pub else_branch: Box<Expression>,
    pub data_type: DataType,
}

/// A call of a function.
#[derive(Debug)]
pub struct Call {
    pub callee: Box<Expression>,
    pub arguments: Vec<Expression>,
    pub return_type: DataType,
}

/// The expressions of the language.
#[derive(Debug)]
pub enum Expression {
    Binary(Binary),
    Grouping(Grouping),
    Literal(Literal),
    Unary(Unary),
    Variable(VariableExpression),
    Assign(Assign),
    Logical(Logical),
    Ternary(Ternary),
    Call(Call),
}

/// An expression evaluated for its effect.
#[derive(Debug)]
pub struct ExpressionStatement {
    pub expression: Box<Expression>,
}

/// A variable declaration.
#[derive(Debug)]
pub struct Variable {
    pub name: Token,
    pub initializer: Option<Box<Expression>>,
    pub type_annotation: DataType,
    pub is_mutable: bool,
}

/// A braced sequence of statements.
#[derive(Debug)]
pub struct Block {
    pub statements: Vec<Statement>,
}

/// `if condition then_branch else else_branch`.
#[derive(Debug)]
pub struct IfStatement {
    pub condition: Box<Expression>,
    pub then_branch: Box<Statement>,
    pub else_branch: Option<Box<Statement>>,
}

/// `while condition body`.
#[derive(Debug)]
pub struct WhileStatement {
    pub condition: Box<Expression>,
    pub body: Box<Statement>,
}

/// A function declaration.
#[derive(Debug)]
pub struct FunctionStatement {
    pub name: Token,
    pub parameters: Vec<Variable>,
    pub body: Vec<Statement>,
    pub return_type: DataType,
}

/// `return value`.
#[derive(Debug)]
pub struct Return {
    pub keyword: Token,
    pub value: Option<Box<Expression>>,
}

/// The statements of the language.
#[derive(Debug)]
pub enum Statement {
    Expression(ExpressionStatement),
    Variable(Variable),
    Block(Block),
    IfStatement(IfStatement),
    WhileStatement(WhileStatement),
    FunctionStatement(FunctionStatement),
    Return(Return),
}

impl Grouping {
    pub fn new(expression: Box<Expression>) -> (res: Self)
        ensures
            res.expression == expression,
    {
        Grouping { expression }
    }
}

impl IfStatement {
    pub fn new(
        condition: Box<Expression>,
        then_branch: Box<Statement>,
        else_branch: Option<Box<Statement>>,
    ) -> (res: Self)
        ensures
            res.condition == condition,
            res.then_branch == then_branch,
            res.else_branch == else_branch,
    {
        IfStatement { condition, then_branch, else_branch }
    }
}

impl WhileStatement {
    pub fn new(condition: Box<Expression>, body: Box<Statement>) -> (res: Self)
        ensures
            res.condition == condition,
            res.body == body,
    {
        WhileStatement { condition, body }
    }
}

/// A pass over the syntax tree: one method for each kind of node.
pub trait Visitor<R> {
    fn visit_binary_expression(&mut self, expression: &Binary) -> R;

    fn visit_grouping_expression(&mut self, expression: &Grouping) -> R;

    fn visit_literal_expression(&mut self, expression: &Literal) -> R;

    fn visit_unary_expression(&mut self, expression: &Unary) -> R;

    fn visit_variable_expression(&mut self, variable: &VariableExpression) -> R;

    fn visit_assign_expression(&mut self, expression: &Assign) -> R;

    fn visit_logical_expression(&mut self, expression: &Logical) -> R;

    fn visit_ternary_expression(&mut self, expression: &Ternary) -> R;

    fn visit_call_expression(&mut self, expression: &Call) -> R;

    fn visit_expression_statement(&mut self, statement: &ExpressionStatement) -> R;

    fn visit_variable_statement(&mut self, variable: &Variable) -> R;

    fn visit_block(&mut self, block: &Block) -> R;

    fn visit_if_statement(&mut self, statement: &IfStatement) -> R;

    fn visit_while_statement(&mut self, statement: &WhileStatement) -> R;

    fn visit_function_statement(&mut self, statement: &FunctionStatement) -> R;

    fn visit_return_statement(&mut self, statement: &Return) -> R;
}

} // verus!
