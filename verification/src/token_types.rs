//! The fixed vocabulary of lexical categories and the keyword table mapping
//! reserved words to categories.

use vstd::prelude::*;

use crate::text::str_eq;

verus! {

/// A lexical category of the template language.
#[allow(non_camel_case_types)]
#[derive(Clone, Copy, Debug, PartialEq, Eq, Structural)]
pub enum TokenTypes {
    IDENTIFIER,
    VARIABLE,
    STRING,
    NUMBER,
    BOOLEAN,
    TRUE,
    FALSE,
    NIL,
    AND,
    OR,
    NOT,
    EQ,
    NE,
    LT,
    LE,
    GT,
    GE,
    PLUS,
    MINUS,
    SLASH,
    STAR,
    PERCENT,
    ASSIGN,
    COMMA,
    IF,
    ELSE,
    ELIF,
    ENDIF,
    FOR,
    IN,
    ENDFOR,
    LPAREN,
    LBRACKET,
    RPAREN,
    RBRACKET,
    RANGE,
    PRINT,
    EXCEPT,
    INSERT,
    INVALID,
}

/// The keyword table: a fixed, case-sensitive map from a lowercase word to
/// its token category. Words not in the table are not keywords.
pub open spec fn spec_keyword(w: Seq<char>) -> Option<TokenTypes> {
    if w == "boolean"@ {
        Some(TokenTypes::BOOLEAN)
    } else if w == "true"@ {
        Some(TokenTypes::TRUE)
    } else if w == "false"@ {
        Some(TokenTypes::FALSE)
    } else if w == "null"@ {
        Some(TokenTypes::NIL)
    } else if w == "and"@ {
        Some(TokenTypes::AND)
    } else if w == "or"@ {
        Some(TokenTypes::OR)
    } else if w == "not"@ {
        Some(TokenTypes::NOT)
    } else if w == "eq"@ {
        Some(TokenTypes::EQ)
    } else if w == "ne"@ {
        Some(TokenTypes::NE)
    } else if w == "lt"@ {
        Some(TokenTypes::LT)
    } else if w == "le"@ {
        Some(TokenTypes::LE)
    } else if w == "gt"@ {
        Some(TokenTypes::GT)
    } else if w == "ge"@ {
        Some(TokenTypes::GE)
    } else if w == "if"@ {
        Some(TokenTypes::IF)
    } else if w == "else"@ {
        Some(TokenTypes::ELSE)
    } else if w == "elif"@ {
        Some(TokenTypes::ELIF)
    } else if w == "endif"@ {
        Some(TokenTypes::ENDIF)
    } else if w == "for"@ {
        Some(TokenTypes::FOR)
    } else if w == "in"@ {
        Some(TokenTypes::IN)
    } else if w == "endfor"@ {
        Some(TokenTypes::ENDFOR)
    } else if w == "range"@ {
        Some(TokenTypes::RANGE)
    } else if w == "print"@ {
        Some(TokenTypes::PRINT)
    } else if w == "except"@ {
        Some(TokenTypes::EXCEPT)
    } else if w == "insert"@ {
        Some(TokenTypes::INSERT)
    } else {
        None
    }
}

/// Looks a word up in the keyword table.
pub fn keyword_by_token(token: &str) -> (r: Option<TokenTypes>)
    ensures
        r == spec_keyword(token@),
{
    if str_eq(token, "boolean") {
        Some(TokenTypes::BOOLEAN)
    } else if str_eq(token, "true") {
        Some(TokenTypes::TRUE)
    } else if str_eq(token, "false") {
        Some(TokenTypes::FALSE)
    } else if str_eq(token, "null") {
        Some(TokenTypes::NIL)
    } else if str_eq(token, "and") {
        Some(TokenTypes::AND)
    } else if str_eq(token, "or") {
        Some(TokenTypes::OR)
    } else if str_eq(token, "not") {
        Some(TokenTypes::NOT)
    } else if str_eq(token, "eq") {
        Some(TokenTypes::EQ)
    } else if str_eq(token, "ne") {
        Some(TokenTypes::NE)
    } else if str_eq(token, "lt") {
        Some(TokenTypes::LT)
    } else if str_eq(token, "le") {
        Some(TokenTypes::LE)
    } else if str_eq(token, "gt") {
        Some(TokenTypes::GT)
    } else if str_eq(token, "ge") {
        Some(TokenTypes::GE)
    } else if str_eq(token, "if") {
        Some(TokenTypes::IF)
    } else if str_eq(token, "else") {
        Some(TokenTypes::ELSE)
    } else if str_eq(token, "elif") {
        Some(TokenTypes::ELIF)
    } else if str_eq(token, "endif") {
        Some(TokenTypes::ENDIF)
    } else if str_eq(token, "for") {
        Some(TokenTypes::FOR)
    } else if str_eq(token, "in") {
        Some(TokenTypes::IN)
    } else if str_eq(token, "endfor") {
        Some(TokenTypes::ENDFOR)
    } else if str_eq(token, "range") {
        Some(TokenTypes::RANGE)
    } else if str_eq(token, "print") {
        Some(TokenTypes::PRINT)
    } else if str_eq(token, "except") {
        Some(TokenTypes::EXCEPT)
    } else if str_eq(token, "insert") {
        Some(TokenTypes::INSERT)
    } else {
        None
    }
}

} // verus!
