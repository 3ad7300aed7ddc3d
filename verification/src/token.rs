use vstd::prelude::*;

verus! {

/// The kinds of token the lexer produces.
#[derive(Debug, Clone, Copy, PartialEq, Eq, Structural)]
pub enum TokenType {
    // Punctuation and operators
    LeftParen,
    RightParen,
    LeftBrace,
    RightBrace,
    LeftBrack,
    RightBrack,
    Comma,
    Dot,
    Colon,
    SemiColon,
    Arrow,
    Minus,
    Plus,
    Slash,
    Asterisk,
    Mod,
    Bang,
    BangEqual,
    Equal,
    EqualEqual,
    Greater,
    GreaterEqual,
    Less,
    LessEqual,
    And,
    Or,
    QuestionMark,
    // Literals
    Identifier,
    String,
    Int,
    Float,
    Char,
    True,
    False,
    Null,
    // Keywords
    Let,
    Mut,
    Const,
    Function,
    Return,
    If,
    Else,
    While,
    For,
    In,
    Class,
    Import,
    Export,
    From,
    // Type names
    StringType,
    IntType,
    FloatType,
    CharType,
    BooleanType,
    Void,
    Eof,
}

/// Where a token stands in its source file, and its text.
#[derive(Debug)]
pub struct Span {
    pub file: String,
    pub line: usize,
    pub start: usize,
    pub end: usize,
    pub literal: String,
}

impl Clone for Span {
    fn clone(&self) -> (res: Self)
        ensures
            res == *self,
    {
        Span {
            file: self.file.clone(),
            line: self.line,
            start: self.start,
            end: self.end,
            literal: self.literal.clone(),
        }
    }
}

/// A token: its kind and where it stands.
#[derive(Debug)]
pub struct Token {
    pub kind: TokenType,
    pub span: Span,
}

impl Clone for Token {
    fn clone(&self) -> (res: Self)
        ensures
            res == *self,
    {
        Token { kind: self.kind, span: self.span.clone() }
    }
}

impl Span {
    pub fn new(file: String, line: usize, start: usize, end: usize, literal: String) -> (res: Self)
        ensures
            res.file == file,
            res.line == line,
            res.start == start,
            res.end == end,
            res.literal == literal,
    {
        Span { file, line, start, end, literal }
    }
}

impl Token {
    pub fn new(kind: TokenType, span: Span) -> (res: Self)
        ensures
            res.kind == kind,
            res.span == span,
    {
        Token { kind, span }
    }
}

} // verus!
