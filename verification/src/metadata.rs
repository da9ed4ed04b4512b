//! Segments of a template and the per-segment token cursor.
//!
//! A segment is one unit of the segmenter's output: literal text, a code
//! directive, an echo directive, or a comment fallback. A segment carries the
//! matched text and, except for comments, a token sequence.

use vstd::prelude::*;
use vstd::string::StrSliceExecFns;

use crate::token::Token;
use crate::token::TokenModel;
use crate::token_types::TokenTypes;

verus! {

/// The kind of a segment.
#[allow(non_camel_case_types)]
#[derive(Clone, Copy, Debug, PartialEq, Eq, Structural)]
pub enum Metatype {
    TEXT,
    CODE,
    ECHO,
    COMMENT,
}

/// The mathematical model of a segment: its kind, the text it was matched
/// from, and its token sequence if it has one.
#[verifier::ext_equal]
pub ghost struct SegModel {
    pub kind: Metatype,
    pub data: Seq<char>,
    pub tokens: Option<Seq<TokenModel>>,
}

/// One unit of the segmenter's output.
pub struct Metadata {
    pub mtype: Metatype,
    pub data: String,
    pub tokens: Option<Vec<Token>>,
}

impl View for Metadata {
    type V = SegModel;

    open spec fn view(&self) -> SegModel {
        SegModel {
            kind: self.mtype,
            data: self.data@,
            tokens: match self.tokens {
                Some(v) => Some(v@.map_values(|t: Token| t@)),
                None => None,
            },
        }
    }
}

impl Metadata {
    pub fn new(t: Metatype, d: String, tks: Option<Vec<Token>>) -> (r: Metadata)
        ensures
            r@.kind == t,
            r@.data == d@,
            r@.tokens == (match tks {
                Some(v) => Some(v@.map_values(|t: Token| t@)),
                None => None::<Seq<TokenModel>>,
            }),
    {
        Metadata { mtype: t, data: d, tokens: tks }
    }

    pub fn get_tokens(&self) -> (r: &Option<Vec<Token>>)
        ensures
            (match *r {
                Some(ref v) => self@.tokens == Some(v@.map_values(|t: Token| t@)),
                None => self@.tokens is None,
            }),
    {
        &self.tokens
    }

    pub fn get_type(&self) -> (r: &Metatype)
        ensures
            *r == self@.kind,
    {
        &self.mtype
    }

    pub fn get_data(&self) -> (r: &String)
        ensures
            r@ == self@.data,
    {
        &self.data
    }
}

/// The ordered sequence of segments of one template, in source order.
pub type Metainfo = Vec<Metadata>;

/// A restartable, non-consuming look-ahead cursor over the token sequence of
/// one segment.
pub struct Tokenator<'a> {
    pub buffer: &'a Vec<Token>,
    pub index: usize,
}

impl<'a> Tokenator<'a> {
    pub fn new(tokens: &'a Vec<Token>) -> (r: Tokenator<'a>)
        ensures
            r.toks() == tokens@.map_values(|t: Token| t@),
            r.at() == 0,
    {
        Tokenator { buffer: tokens, index: 0 }
    }
}

/// The cursor contract the evaluator relies on: peeking, stepping,
/// conditional stepping, and discarding the remainder of a segment.
pub trait TokenatorTrait<'a> {
    spec fn toks(&self) -> Seq<TokenModel>;

    spec fn at(&self) -> int;

    /// Returns the current token and steps past it.
    fn next(&mut self) -> (r: Option<&'a Token>)
        requires
            0 <= old(self).at() <= old(self).toks().len(),
        ensures
            0 <= final(self).at() <= final(self).toks().len(),
            final(self).toks() == old(self).toks(),
            old(self).at() < old(self).toks().len() ==> (r is Some && r.unwrap()@
                == old(self).toks()[old(self).at()] && final(self).at() == old(self).at() + 1),
            old(self).at() >= old(self).toks().len() ==> (r is None && final(self).at() == old(
                self,
            ).at()),
    ;

    /// The current token, without consuming it.
    fn look(&self) -> (r: Option<&'a Token>)
        requires
            0 <= self.at() <= self.toks().len(),
        ensures
            self.at() < self.toks().len() ==> (r is Some && r.unwrap()@ == self.toks()[self.at()]),
            self.at() >= self.toks().len() ==> r is None,
    ;

    /// The token just consumed. Meaningful only after at least one step.
    fn look_back(&self) -> (r: Option<&'a Token>)
        requires
            0 <= self.at() <= self.toks().len(),
            self.at() >= 1,
        ensures
            r is Some && r.unwrap()@ == self.toks()[self.at() - 1],
    ;

    /// The token after the current one, without consuming anything.
    fn look_ahead(&self) -> (r: Option<&'a Token>)
        requires
            0 <= self.at() <= self.toks().len(),
        ensures
            self.at() + 1 < self.toks().len() ==> (r is Some && r.unwrap()@ == self.toks()[self.at()
                + 1]),
            self.at() + 1 >= self.toks().len() ==> r is None,
    ;

    /// Discards all remaining tokens of this segment.
    fn skip_all(&mut self)
        requires
            0 <= old(self).at() <= old(self).toks().len(),
        ensures
            0 <= final(self).at() <= final(self).toks().len(),
            final(self).toks() == old(self).toks(),
            final(self).at() == final(self).toks().len(),
    ;

    /// If the current token exists and has the given kind, consumes it and
    /// returns true; otherwise returns false without consuming.
    fn match_next(&mut self, token_type: TokenTypes) -> (r: bool)
        requires
            0 <= old(self).at() <= old(self).toks().len(),
        ensures
            0 <= final(self).at() <= final(self).toks().len(),
            final(self).toks() == old(self).toks(),
            if old(self).at() < old(self).toks().len() && old(self).toks()[old(self).at()].kind
                == token_type {
                r == true && final(self).at() == old(self).at() + 1
            } else {
                r == false && final(self).at() == old(self).at()
            },
    ;
}

impl<'a> TokenatorTrait<'a> for Tokenator<'a> {
    open spec fn toks(&self) -> Seq<TokenModel> {
        self.buffer@.map_values(|t: Token| t@)
    }

    open spec fn at(&self) -> int {
        self.index as int
    }

    fn next(&mut self) -> (r: Option<&'a Token>) {
        if self.index < self.buffer.len() {
            let tmp = &self.buffer[self.index];
            self.index = self.index + 1;
            Some(tmp)
        } else {
            None
        }
    }

    fn look(&self) -> (r: Option<&'a Token>) {
        if self.index < self.buffer.len() {
            Some(&self.buffer[self.index])
        } else {
            None
        }
    }

    fn look_back(&self) -> (r: Option<&'a Token>) {
        Some(&self.buffer[self.index - 1])
    }

    fn look_ahead(&self) -> (r: Option<&'a Token>) {
        if self.buffer.len() - self.index >= 2 {
            Some(&self.buffer[self.index + 1])
        } else {
            None
        }
    }

    fn skip_all(&mut self) {
        self.index = self.buffer.len();
    }

    fn match_next(&mut self, token_type: TokenTypes) -> (r: bool) {
        if self.index < self.buffer.len() {
            if self.buffer[self.index].get_type() == token_type {
                self.index = self.index + 1;
                true
            } else {
                false
            }
        } else {
            false
        }
    }
}

/// One-character look-ahead over a character source: the capability the
/// tokenizer's helpers rely on.
pub trait PeekableIterator {
    spec fn peek_chars(&self) -> Seq<char>;

    spec fn peek_at(&self) -> int;

    /// The current character, without consuming it.
    fn peek(&self) -> (r: Option<char>)
        requires
            0 <= self.peek_at() <= self.peek_chars().len(),
        ensures
            self.peek_at() < self.peek_chars().len() ==> r == Some(
                self.peek_chars()[self.peek_at()],
            ),
            self.peek_at() >= self.peek_chars().len() ==> r is None,
    ;
}

/// A restartable one-character look-ahead cursor over the characters of one
/// directive's interior, used by the tokenizer.
pub struct Tokenable<'a> {
    pub source: &'a str,
    pub index: usize,
}

impl<'a> Tokenable<'a> {
    /// The characters under the cursor.
    pub open spec fn chars(&self) -> Seq<char> {
        self.source@
    }

    /// The cursor position.
    pub open spec fn at(&self) -> int {
        self.index as int
    }

    pub open spec fn wf(&self) -> bool {
        0 <= self.at() <= self.chars().len()
    }

    pub fn new(source: &'a str) -> (r: Tokenable<'a>)
        ensures
            r.chars() == source@,
            r.at() == 0,
            r.wf(),
    {
        Tokenable { source, index: 0 }
    }

    /// The current character, without consuming it.
    pub fn look(&self) -> (r: Option<char>)
        requires
            self.wf(),
        ensures
            self.at() < self.chars().len() ==> r == Some(self.chars()[self.at()]),
            self.at() >= self.chars().len() ==> r is None,
    {
        if self.index < self.source.unicode_len() {
            Some(self.source.get_char(self.index))
        } else {
            None
        }
    }

    /// Steps past the current character.
    pub fn next(&mut self)
        requires
            old(self).wf(),
        ensures
            final(self).wf(),
            final(self).chars() == old(self).chars(),
            old(self).at() < old(self).chars().len() ==> final(self).at() == old(self).at() + 1,
            old(self).at() >= old(self).chars().len() ==> final(self).at() == old(self).at(),
    {
        if self.index < self.source.unicode_len() {
            self.index = self.index + 1;
        }
    }

    /// The text between two cursor positions, used to slice out payloads.
    pub fn slice(&self, from: usize, to: usize) -> (r: &'a str)
        requires
            self.wf(),
            from <= to <= self.chars().len(),
        ensures
            r@ == self.chars().subrange(from as int, to as int),
    {
        self.source.substring_char(from, to)
    }

    /// The current cursor position as an index into the characters.
    pub fn pos(&self) -> (r: usize)
        ensures
            r as int == self.at(),
    {
        self.index
    }
}

impl<'a> PeekableIterator for Tokenable<'a> {
    open spec fn peek_chars(&self) -> Seq<char> {
        self.chars()
    }

    open spec fn peek_at(&self) -> int {
        self.at()
    }

    fn peek(&self) -> (r: Option<char>) {
        self.look()
    }
}

} // verus!
