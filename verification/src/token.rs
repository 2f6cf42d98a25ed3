//! Lexical tokens: the classified units that the lexer hands the parser.
use vstd::prelude::*;

verus! {

/// A source-level type annotation.
#[derive(Debug, Clone, Copy, PartialEq, Eq, Structural)]
pub enum Type {
    I32,
    F64,
}

/// The canonical spelling of a type annotation inside the syntax tree.
pub open spec fn type_chars(t: Type) -> Seq<char> {
    match t {
        Type::I32 => "I32"@,
        Type::F64 => "F64"@,
    }
}

impl Type {
    /// The spelling a parsed annotation carries in the syntax tree.
    pub fn name_str(&self) -> (r: &'static str)
        ensures
            r@ == type_chars(*self),
    {
        match self {
            Type::I32 => "I32",
            Type::F64 => "F64",
        }
    }
}

/// A binary operator token. Only `Plus` has a code-generation meaning;
/// the others are recognised lexically and rejected when lowered.
#[derive(Debug, Clone, Copy, PartialEq, Eq, Structural)]
pub enum Operator {
    Plus,
    Minus,
    Asterisk,
    Slash,
}

/// A classified lexical unit.
#[derive(Debug, Clone, PartialEq)]
pub enum Token {
    RBrace,
    LBrace,
    RParentheses,
    LParentheses,
    RBracket,
    LBracket,
    RAngleBracket,
    LAngleBracket,
    Fn,
    Collon,
    Semicolon,
    Comma,
    Identifier(String),
    Let,
    Literal(String),
    Const,
    Type(Type),
    Operator(Operator),
    Return,
}

/// The mathematical value of a [`Token`]: the same shape with the text
/// payloads abstracted to character sequences.
pub ghost enum TokenV {
    RBrace,
    LBrace,
    RParentheses,
    LParentheses,
    RBracket,
    LBracket,
    RAngleBracket,
    LAngleBracket,
    Fn,
    Collon,
    Semicolon,
    Comma,
    Identifier(Seq<char>),
    Let,
    Literal(Seq<char>),
    Const,
    Type(Type),
    Operator(Operator),
    Return,
}

impl View for Token {
    type V = TokenV;

    open spec fn view(&self) -> TokenV {
        match self {
            Token::RBrace => TokenV::RBrace,
            Token::LBrace => TokenV::LBrace,
            Token::RParentheses => TokenV::RParentheses,
            Token::LParentheses => TokenV::LParentheses,
            Token::RBracket => TokenV::RBracket,
            Token::LBracket => TokenV::LBracket,
            Token::RAngleBracket => TokenV::RAngleBracket,
            Token::LAngleBracket => TokenV::LAngleBracket,
            Token::Fn => TokenV::Fn,
            Token::Collon => TokenV::Collon,
            Token::Semicolon => TokenV::Semicolon,
            Token::Comma => TokenV::Comma,
            Token::Identifier(s) => TokenV::Identifier(s@),
            Token::Let => TokenV::Let,
            Token::Literal(s) => TokenV::Literal(s@),
            Token::Const => TokenV::Const,
            Token::Type(t) => TokenV::Type(*t),
            Token::Operator(op) => TokenV::Operator(*op),
            Token::Return => TokenV::Return,
        }
    }
}

impl DeepView for Token {
    type V = TokenV;

    open spec fn deep_view(&self) -> TokenV {
        self.view()
    }
}

} // verus!
