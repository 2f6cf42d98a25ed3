//! The lexer: it classifies chunks of text into [`Token`] values.
//!
//! Space chunks are dropped. Punctuation, keywords, type names and
//! operators each map to their own token; a chunk enclosed in double
//! quotes becomes a literal holding the text between the quotes; every
//! other chunk comes through as an identifier, digits included — the
//! parser decides later whether an identifier chunk stands for a number.
use vstd::prelude::*;

use crate::text::str_eq;
use crate::token::{Operator, Token, TokenV, Type};

verus! {

/// Whether a chunk is enclosed in double quotes.
pub open spec fn is_quoted(c: Seq<char>) -> bool {
    c.len() >= 2 && c[0] == '"' && c[c.len() - 1] == '"'
}

/// The token of one chunk; `None` for the space chunks the lexer drops.
pub open spec fn spec_token_of_chunk(c: Seq<char>) -> Option<TokenV> {
    if c == " "@ {
        None
    } else if c == "{"@ {
        Some(TokenV::LBrace)
    } else if c == "}"@ {
        Some(TokenV::RBrace)
    } else if c == "("@ {
        Some(TokenV::LParentheses)
    } else if c == ")"@ {
        Some(TokenV::RParentheses)
    } else if c == "["@ {
        Some(TokenV::LBracket)
    } else if c == "]"@ {
        Some(TokenV::RBracket)
    } else if c == "<"@ {
        Some(TokenV::LAngleBracket)
    } else if c == ">"@ {
        Some(TokenV::RAngleBracket)
    } else if c == ":"@ {
        Some(TokenV::Collon)
    } else if c == ";"@ {
        Some(TokenV::Semicolon)
    } else if c == ","@ {
        Some(TokenV::Comma)
    } else if c == "fn"@ {
        Some(TokenV::Fn)
    } else if c == "let"@ {
        Some(TokenV::Let)
    } else if c == "const"@ {
        Some(TokenV::Const)
    } else if c == "return"@ {
        Some(TokenV::Return)
    } else if c == "i32"@ {
        Some(TokenV::Type(Type::I32))
    } else if c == "f64"@ {
        Some(TokenV::Type(Type::F64))
    } else if c == "+"@ {
        Some(TokenV::Operator(Operator::Plus))
    } else if c == "-"@ {
        Some(TokenV::Operator(Operator::Minus))
    } else if c == "*"@ {
        Some(TokenV::Operator(Operator::Asterisk))
    } else if c == "/"@ {
        Some(TokenV::Operator(Operator::Slash))
    } else if is_quoted(c) {
        Some(TokenV::Literal(c.subrange(1, c.len() - 1)))
    } else {
        Some(TokenV::Identifier(c))
    }
}

/// The token stream of a chunk sequence.
pub open spec fn spec_token_stream(chunks: Seq<Seq<char>>) -> Seq<TokenV>
    decreases chunks.len(),
{
    if chunks.len() == 0 {
        Seq::empty()
    } else {
        match spec_token_of_chunk(chunks[0]) {
            None => spec_token_stream(chunks.drop_first()),
            Some(t) => seq![t] + spec_token_stream(chunks.drop_first()),
        }
    }
}

fn token_of_chunk(chunk: &String) -> (r: Option<Token>)
    ensures
        r.deep_view() == spec_token_of_chunk(chunk@),
{
    let s = chunk.as_str();
    if str_eq(s, " ") {
        None
    } else if str_eq(s, "{") {
        Some(Token::LBrace)
    } else if str_eq(s, "}") {
        Some(Token::RBrace)
    } else if str_eq(s, "(") {
        Some(Token::LParentheses)
    } else if str_eq(s, ")") {
        Some(Token::RParentheses)
    } else if str_eq(s, "[") {
        Some(Token::LBracket)
    } else if str_eq(s, "]") {
        Some(Token::RBracket)
    } else if str_eq(s, "<") {
        Some(Token::LAngleBracket)
    } else if str_eq(s, ">") {
        Some(Token::RAngleBracket)
    } else if str_eq(s, ":") {
        Some(Token::Collon)
    } else if str_eq(s, ";") {
        Some(Token::Semicolon)
    } else if str_eq(s, ",") {
        Some(Token::Comma)
    } else if str_eq(s, "fn") {
        Some(Token::Fn)
    } else if str_eq(s, "let") {
        Some(Token::Let)
    } else if str_eq(s, "const") {
        Some(Token::Const)
    } else if str_eq(s, "return") {
        Some(Token::Return)
    } else if str_eq(s, "i32") {
        Some(Token::Type(Type::I32))
    } else if str_eq(s, "f64") {
        Some(Token::Type(Type::F64))
    } else if str_eq(s, "+") {
        Some(Token::Operator(Operator::Plus))
    } else if str_eq(s, "-") {
        Some(Token::Operator(Operator::Minus))
    } else if str_eq(s, "*") {
        Some(Token::Operator(Operator::Asterisk))
    } else if str_eq(s, "/") {
        Some(Token::Operator(Operator::Slash))
    } else {
        let len = s.unicode_len();
        if len >= 2 && s.get_char(0) == '"' && s.get_char(len - 1) == '"' {
            let inner = s.substring_char(1, len - 1).to_owned();
            Some(Token::Literal(inner))
        } else {
            Some(Token::Identifier(chunk.clone()))
        }
    }
}

/// Classifies a sequence of chunks into the token stream the parser reads.
pub fn to_token_stream(token_chunks: Vec<String>) -> (r: Vec<Token>)
    ensures
        r.deep_view() == spec_token_stream(token_chunks.deep_view()),
{
    let ghost dv = token_chunks.deep_view();
    let mut tokens: Vec<Token> = Vec::new();
    let n = token_chunks.len();
    let mut idx: usize = 0;
    proof {
        assert(dv.skip(0) =~= dv);
        assert(tokens.deep_view() + spec_token_stream(dv) =~= spec_token_stream(dv));
    }
    while idx < n
        invariant
            idx <= n,
            n == token_chunks.len(),
            token_chunks.deep_view() == dv,
            dv.len() == n,
            tokens.deep_view() + spec_token_stream(dv.skip(idx as int)) == spec_token_stream(dv),
        decreases n - idx,
    {
        let chunk = &token_chunks[idx];
        proof {
            assert(chunk@ == dv[idx as int]);
            assert(dv.skip(idx as int)[0] == dv[idx as int]);
            assert(dv.skip(idx as int).drop_first() =~= dv.skip(idx as int + 1));
        }
        let ghost before = tokens.deep_view();
        match token_of_chunk(chunk) {
            None => (),
            Some(t) => {
                tokens.push(t);
                proof {
                    assert(tokens.deep_view() =~= before.push(t@));
                    assert(before.push(t@) + spec_token_stream(dv.skip(idx as int + 1)) =~= before
                        + spec_token_stream(dv.skip(idx as int)));
                }
            },
        }
        idx = idx + 1;
    }
    proof {
        assert(dv.skip(n as int) =~= Seq::<Seq<char>>::empty());
        assert(tokens.deep_view() + Seq::<TokenV>::empty() =~= tokens.deep_view());
    }
    tokens
}

} // verus!
