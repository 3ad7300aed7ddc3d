use vstd::prelude::*;

use crate::token::Token;

verus! {

/// The operators of the intermediate representation.
#[derive(Debug, Clone, Copy, PartialEq, Eq, Structural)]
pub enum IRInstructionType {
    Add,
    Sub,
    Mul,
    Div,
    GreaterEqual,
    Greater,
    LessEqual,
    Less,
    Equal,
    NotEqual,
    And,
    Or,
    Not,
    Assign,
    AssignAdd,
    AssignSub,
    Mod,
    Concatenate,
}

/// A function value: the declaration's name token.
#[derive(Debug)]
pub struct FunctionValue {
    pub name: Token,
}

/// A constant the analyzer has computed.
#[derive(Debug)]
pub enum AnalyzerValue {
    Int(i64),
    String(String),
    /// A double, held as the decimal text it is written with.
    Double(String),
    Boolean(bool),
    Return(Box<AnalyzerValue>),
    Function(Box<FunctionValue>),
    Null,
    NoneValue,
}

#[derive(Debug)]
pub struct IRLiteral {
    pub value: AnalyzerValue,
}

#[derive(Debug)]
pub struct IRBinary {
    pub instruction_type: IRInstructionType,
    pub left: Box<IRInstruction>,
    pub right: Box<IRInstruction>,
}

#[derive(Debug)]
pub struct IRBlock {
    pub instructions: Vec<IRInstruction>,
}

#[derive(Debug)]
pub struct IRFunctionMetadata {
    pub is_exported: bool,
    pub is_recursive: bool,
}

#[derive(Debug)]
pub struct IRFunction {
    pub name: String,
    pub parameters: Vec<IRVariable>,
    pub body: Option<IRBlock>,
    pub metadata: IRFunctionMetadata,
}

#[derive(Debug)]
pub struct IRUnary {
    pub instruction_type: IRInstructionType,
    pub right: Box<IRInstruction>,
}

#[derive(Debug)]
pub struct IRVariableMetadata {
    pub is_declaration: bool,
}

#[derive(Debug)]
pub struct IRVariable {
    pub name: String,
    pub value: Option<Box<IRInstruction>>,
    pub metadata: IRVariableMetadata,
}

#[derive(Debug)]
pub struct IRLogical {
    pub instruction_type: IRInstructionType,
    pub left: Box<IRInstruction>,
    pub right: Box<IRInstruction>,
}

#[derive(Debug)]
pub struct IRIf {
    pub condition: Box<IRInstruction>,
    pub then_branch: Box<IRInstruction>,
    pub else_branch: Option<Box<IRInstruction>>,
}

#[derive(Debug)]
pub struct IRWhile {
    pub condition: Box<IRInstruction>,
    pub body: Box<IRInstruction>,
}

#[derive(Debug)]
pub struct IRCall {
    pub name: String,
    pub arguments: Vec<IRInstruction>,
}

#[derive(Debug)]
pub struct IRReturn {
    pub value: Box<IRInstruction>,
}

#[derive(Debug)]
pub struct IRAssign {
    pub name: String,
    pub value: Box<IRInstruction>,
}

#[derive(Debug)]
pub struct IRClass {
    pub name: String,
}

#[derive(Debug)]
pub struct IRTernary {
    pub condition: Box<IRInstruction>,
    pub then_branch: Box<IRInstruction>,
    pub else_branch: Box<IRInstruction>,
}

#[derive(Debug)]
pub struct IRForIn {
    pub variable: IRVariable,
    pub iterable: Box<IRInstruction>,
    pub body: Box<IRInstruction>,
}

#[derive(Debug)]
pub struct IRArray {
    pub elements: Vec<IRInstruction>,
}

/// An instruction of the intermediate representation that the analyzer
/// hands to the back ends.
#[derive(Debug)]
pub enum IRInstruction {
    Literal(IRLiteral),
    Binary(IRBinary),
    Block(IRBlock),
    Function(IRFunction),
    Unary(IRUnary),
    Variable(IRVariable),
    Logical(IRLogical),
    If(IRIf),
    While(IRWhile),
    Call(IRCall),
    Return(IRReturn),
    Assign(IRAssign),
    Class(IRClass),
    Ternary(IRTernary),
    ForIn(IRForIn),
    Array(IRArray),
    Import,
}

} // verus!
