//! Tokens: a lexical category paired with the textual payload that was
//! matched for it.

use vstd::prelude::*;
use vstd::string::StringExecFns;

use crate::token_types::TokenTypes;

verus! {

/// The mathematical model of a token: its category and its payload text.
/// A token created without a payload is modelled with the placeholder text
/// `<none>`, which is what reading its data yields.
#[verifier::ext_equal]
pub ghost struct TokenModel {
    pub kind: TokenTypes,
    pub data: Seq<char>,
}

/// A token of one directive: created by the tokenizer, immutable thereafter.
pub struct Token {
    pub token_type: TokenTypes,
    pub value: Option<String>,
}

impl View for Token {
    type V = TokenModel;

    open spec fn view(&self) -> TokenModel {
        TokenModel {
            kind: self.token_type,
            data: match self.value {
                Some(s) => s@,
                None => "<none>"@,
            },
        }
    }
}

impl Token {
    pub fn new(token_type: TokenTypes, value: Option<String>) -> (r: Token)
        ensures
            r@.kind == token_type,
            r@.data == (match value {
                Some(s) => s@,
                None => "<none>"@,
            }),
    {
        Token { token_type, value }
    }

    pub fn get_type(&self) -> (r: TokenTypes)
        ensures
            r == self@.kind,
    {
        self.token_type
    }

    pub fn get_data(&self) -> (r: String)
        ensures
            r@ == self@.data,
    {
        match &self.value {
            Some(s) => s.clone(),
            None => String::from_str("<none>"),
        }
    }
}

} // verus!
