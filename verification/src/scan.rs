//! The block segmenter and the tokenizer.
//!
//! Segmentation is line by line; directives do not cross line boundaries.
//! On each line three alternatives are matched greedily, left to right, in
//! this priority: `{%␠…␠%}` gives a code segment, `{=␠…␠=}` gives an echo
//! segment, and any other maximal run of characters not introducing `{`
//! gives a text segment. The single space after the opener and before the
//! closer is required, the interior must be nonempty, start with the
//! permitted first character, and stay within the permitted character
//! class.
//!
//! The tokenizer turns a directive's interior into tokens: whitespace is
//! skipped, `"` opens a string literal, a digit opens a number, a lowercase
//! letter opens an identifier or keyword, a single operator character is a
//! token of its own, and any other character ends tokenization of the
//! segment early, with no diagnostic.

use vstd::prelude::*;
use vstd::string::StrSliceExecFns;
use vstd::string::StringExecFns;

use crate::metadata::Metadata;
use crate::metadata::Metainfo;
use crate::metadata::Metatype;
use crate::metadata::SegModel;
use crate::metadata::Tokenable;
use crate::text::is_digit;
use crate::token::Token;
use crate::token::TokenModel;
use crate::token_types::TokenTypes;
use crate::token_types::keyword_by_token;
use crate::token_types::spec_keyword;

verus! {

/// Whether a character is a lowercase letter.
pub open spec fn is_lower(c: char) -> bool {
    97 <= c as u32 <= 122
}

/// Whether a character is an uppercase letter.
pub open spec fn is_upper(c: char) -> bool {
    65 <= c as u32 <= 90
}

/// Whether a character may continue an identifier.
pub open spec fn is_id_char(c: char) -> bool {
    is_lower(c) || is_upper(c) || c == '_'
}

/// The character class permitted inside a directive, between the opener
/// and the closer.
pub open spec fn is_block_char(c: char) -> bool {
    is_lower(c) || is_upper(c) || is_digit(c) || c == '*' || c == '-' || c == ',' || c == '.'
        || c == '%' || c == '_' || c == '\\' || c == '[' || c == ']' || c == '"' || c == '('
        || c == ')' || c == '+' || c == '/' || c == ' '
}

/// The characters an echo interior may begin with.
pub open spec fn is_echo_first(c: char) -> bool {
    is_lower(c) || is_digit(c) || c == '"' || c == '-'
}

/// Whether a character is a single-character operator or punctuation token.
pub open spec fn is_op_char(c: char) -> bool {
    c == '+' || c == '-' || c == '/' || c == '%' || c == '*' || c == '=' || c == ',' || c == '('
        || c == '[' || c == ')' || c == ']'
}

/// The token category of a single-character operator.
pub open spec fn op_kind(c: char) -> TokenTypes {
    if c == '+' {
        TokenTypes::PLUS
    } else if c == '-' {
        TokenTypes::MINUS
    } else if c == '/' {
        TokenTypes::SLASH
    } else if c == '%' {
        TokenTypes::PERCENT
    } else if c == '*' {
        TokenTypes::STAR
    } else if c == '=' {
        TokenTypes::ASSIGN
    } else if c == ',' {
        TokenTypes::COMMA
    } else if c == '(' {
        TokenTypes::LPAREN
    } else if c == '[' {
        TokenTypes::LBRACKET
    } else if c == ')' {
        TokenTypes::RPAREN
    } else {
        TokenTypes::RBRACKET
    }
}

/// The first position at or after `i` whose character falls outside the
/// directive character class, or the end of the line.
pub open spec fn class_run_end(line: Seq<char>, i: int) -> int
    decreases line.len() - i,
{
    if i < 0 || i >= line.len() || !is_block_char(line[i]) {
        i
    } else {
        class_run_end(line, i + 1)
    }
}

/// Whether a code directive `{%␠…␠%}` stands at position `i`, and where its
/// closing brace is. The interior must be a nonempty class run that begins
/// with a lowercase letter and carries at least two characters.
pub open spec fn code_end(line: Seq<char>, i: int) -> Option<int> {
    if 0 <= i && i + 3 <= line.len() && line[i] == '{' && line[i + 1] == '%' && line[i + 2]
        == ' ' {
        let e = class_run_end(line, i + 3);
        if e < line.len() && line[e] == '}' && e - i >= 7 && line[e - 2] == ' ' && line[e - 1]
            == '%' && is_lower(line[i + 3]) {
            Some(e)
        } else {
            None
        }
    } else {
        None
    }
}

/// Whether an echo directive `{=␠…␠=}` stands at position `i`, and where its
/// closing brace is.
pub open spec fn echo_end(line: Seq<char>, i: int) -> Option<int> {
    if 0 <= i && i + 3 <= line.len() && line[i] == '{' && line[i + 1] == '=' && line[i + 2]
        == ' ' {
        let e = class_run_end(line, i + 3);
        if e + 1 < line.len() && line[e] == '=' && line[e + 1] == '}' && e - i >= 6 && line[e - 1]
            == ' ' && is_echo_first(line[i + 3]) {
            Some(e + 1)
        } else {
            None
        }
    } else {
        None
    }
}

/// The end of a text run starting at `i`: the first later position holding
/// `{`, or the end of the line. A text run always takes at least the one
/// character it starts at.
pub open spec fn text_end(line: Seq<char>, i: int) -> int
    decreases line.len() - i,
{
    if i + 1 >= line.len() {
        line.len() as int
    } else if line[i + 1] == '{' {
        i + 1
    } else {
        text_end(line, i + 1)
    }
}

/// The synthetic print token that text and echo segments carry first.
pub open spec fn print_token() -> TokenModel {
    TokenModel { kind: TokenTypes::PRINT, data: "print"@ }
}

/// A text segment: the literal characters, carried as a synthetic
/// print-string token pair.
pub open spec fn text_seg(d: Seq<char>) -> SegModel {
    SegModel {
        kind: Metatype::TEXT,
        data: d,
        tokens: Some(seq![print_token(), TokenModel { kind: TokenTypes::STRING, data: d }]),
    }
}

/// A code segment: the whole matched block, carrying its tokenization.
pub open spec fn code_seg(block: Seq<char>) -> SegModel {
    SegModel { kind: Metatype::CODE, data: block, tokens: Some(sp_tokenize_block(block)) }
}

/// An echo segment: the whole matched block, carrying a synthetic print
/// token followed by its tokenization.
pub open spec fn echo_seg(block: Seq<char>) -> SegModel {
    SegModel {
        kind: Metatype::ECHO,
        data: block,
        tokens: Some(seq![print_token()] + sp_tokenize_block(block)),
    }
}

/// The first position at or after `i` holding the closing quote of a string
/// literal, or the end of the interior.
pub open spec fn string_end(s: Seq<char>, i: int) -> int
    decreases s.len() - i,
{
    if i < 0 || i >= s.len() {
        s.len() as int
    } else if s[i] == '"' {
        i
    } else {
        string_end(s, i + 1)
    }
}

/// The end of the digit run starting at `i`.
pub open spec fn digits_end(s: Seq<char>, i: int) -> int
    decreases s.len() - i,
{
    if i < 0 || i >= s.len() || !is_digit(s[i]) {
        i
    } else {
        digits_end(s, i + 1)
    }
}

/// The end of the identifier run starting at `i`.
pub open spec fn id_end(s: Seq<char>, i: int) -> int
    decreases s.len() - i,
{
    if i < 0 || i >= s.len() || !is_id_char(s[i]) {
        i
    } else {
        id_end(s, i + 1)
    }
}

/// The token sequence of a directive interior from position `i` on.
pub open spec fn sp_tokenize(s: Seq<char>, i: int) -> Seq<TokenModel>
    decreases s.len() - i,
{
    if i < 0 || i >= s.len() {
        Seq::empty()
    } else {
        let c = s[i];
        if c == ' ' || c == '\t' || c == '\r' {
            sp_tokenize(s, i + 1)
        } else if c == '"' {
            let e = string_end(s, i + 1);
            let tok = TokenModel { kind: TokenTypes::STRING, data: s.subrange(i + 1, e) };
            if i <= e && e < s.len() {
                seq![tok] + sp_tokenize(s, e + 1)
            } else {
                seq![tok]
            }
        } else if is_digit(c) {
            let e = digits_end(s, i);
            let tok = TokenModel { kind: TokenTypes::NUMBER, data: s.subrange(i, e) };
            if i < e <= s.len() {
                seq![tok] + sp_tokenize(s, e)
            } else {
                seq![tok]
            }
        } else if is_lower(c) {
            let e = id_end(s, i);
            let w = s.subrange(i, e);
            let kind = match spec_keyword(w) {
                Some(k) => k,
                None => TokenTypes::IDENTIFIER,
            };
            let tok = TokenModel { kind: kind, data: w };
            if i < e <= s.len() {
                seq![tok] + sp_tokenize(s, e)
            } else {
                seq![tok]
            }
        } else if is_op_char(c) {
            seq![TokenModel { kind: op_kind(c), data: seq![c] }] + sp_tokenize(s, i + 1)
        } else {
            Seq::empty()
        }
    }
}

/// The token sequence of a whole directive block: the opener and closer and
/// their mandatory spaces are stripped, and the interior is tokenized.
pub open spec fn sp_tokenize_block(block: Seq<char>) -> Seq<TokenModel> {
    if block.len() >= 7 {
        sp_tokenize(block.subrange(3, block.len() - 3), 0)
    } else {
        Seq::empty()
    }
}

/// The segments of one line from position `i` on, matched greedily left to
/// right, code before echo before text.
pub open spec fn sp_segment_line(line: Seq<char>, i: int) -> Seq<SegModel>
    decreases line.len() - i,
{
    if i < 0 || i >= line.len() {
        Seq::empty()
    } else if code_end(line, i) is Some {
        let e = code_end(line, i).unwrap();
        let seg = code_seg(line.subrange(i, e + 1));
        if i < e + 1 <= line.len() {
            seq![seg] + sp_segment_line(line, e + 1)
        } else {
            seq![seg]
        }
    } else if echo_end(line, i) is Some {
        let e = echo_end(line, i).unwrap();
        let seg = echo_seg(line.subrange(i, e + 1));
        if i < e + 1 <= line.len() {
            seq![seg] + sp_segment_line(line, e + 1)
        } else {
            seq![seg]
        }
    } else {
        let j = text_end(line, i);
        let seg = text_seg(line.subrange(i, j));
        if i < j <= line.len() {
            seq![seg] + sp_segment_line(line, j)
        } else {
            seq![seg]
        }
    }
}

/// The first position at or after `i` holding a line break, or the end of
/// the template.
pub open spec fn line_break(t: Seq<char>, i: int) -> int
    decreases t.len() - i,
{
    if i < 0 || i >= t.len() {
        t.len() as int
    } else if t[i] == '\n' {
        i
    } else {
        line_break(t, i + 1)
    }
}

/// One line as handed to the segmenter: a trailing carriage return is
/// stripped.
pub open spec fn strip_cr(l: Seq<char>) -> Seq<char> {
    if l.len() > 0 && l.last() == '\r' {
        l.drop_last()
    } else {
        l
    }
}

/// The segments of a whole template from position `i` on: the template is
/// split at line breaks and each line is segmented on its own, in order.
pub open spec fn sp_scan(t: Seq<char>, i: int) -> Seq<SegModel>
    decreases t.len() - i,
{
    if i < 0 || i >= t.len() {
        Seq::empty()
    } else {
        let j = line_break(t, i);
        if i <= j <= t.len() {
            let segs = sp_segment_line(strip_cr(t.subrange(i, j)), 0);
            if j < t.len() {
                segs + sp_scan(t, j + 1)
            } else {
                segs
            }
        } else {
            Seq::empty()
        }
    }
}

fn is_lower_exec(c: char) -> (r: bool)
    ensures
        r == is_lower(c),
{
    let v = c as u32;
    97 <= v && v <= 122
}

fn is_digit_exec(c: char) -> (r: bool)
    ensures
        r == is_digit(c),
{
    let v = c as u32;
    48 <= v && v <= 57
}

fn is_id_char_exec(c: char) -> (r: bool)
    ensures
        r == is_id_char(c),
{
    let v = c as u32;
    (97 <= v && v <= 122) || (65 <= v && v <= 90) || c == '_'
}

fn is_block_char_exec(c: char) -> (r: bool)
    ensures
        r == is_block_char(c),
{
    let v = c as u32;
    (97 <= v && v <= 122) || (65 <= v && v <= 90) || (48 <= v && v <= 57) || c == '*' || c == '-'
        || c == ',' || c == '.' || c == '%' || c == '_' || c == '\\' || c == '[' || c == ']' || c
        == '"' || c == '(' || c == ')' || c == '+' || c == '/' || c == ' '
}

fn is_echo_first_exec(c: char) -> (r: bool)
    ensures
        r == is_echo_first(c),
{
    let v = c as u32;
    (97 <= v && v <= 122) || (48 <= v && v <= 57) || c == '"' || c == '-'
}

/// Finds the end of the class run starting at `i`.
fn class_run_end_exec(line: &str, i: usize) -> (r: usize)
    requires
        i <= line@.len(),
    ensures
        r as int == class_run_end(line@, i as int),
        i <= r <= line@.len(),
{
    let len = line.unicode_len();
    let mut j: usize = i;
    while j < len && is_block_char_exec(line.get_char(j))
        invariant
            i <= j <= len,
            len == line@.len(),
            class_run_end(line@, i as int) == class_run_end(line@, j as int),
        decreases len - j,
    {
        j = j + 1;
    }
    j
}

/// Recognizes a code directive at position `i`.
fn code_match(line: &str, i: usize) -> (r: Option<usize>)
    requires
        i < line@.len(),
    ensures
        (match r {
            Some(e) => code_end(line@, i as int) == Some(e as int) && i < e && (e as int)
                < line@.len(),
            None => code_end(line@, i as int) is None,
        }),
{
    let len = line.unicode_len();
    if len - i < 3 {
        return None;
    }
    if line.get_char(i) != '{' || line.get_char(i + 1) != '%' || line.get_char(i + 2) != ' ' {
        return None;
    }
    let e = class_run_end_exec(line, i + 3);
    if e < len && line.get_char(e) == '}' && e - i >= 7 && line.get_char(e - 2) == ' '
        && line.get_char(e - 1) == '%' && is_lower_exec(line.get_char(i + 3)) {
        Some(e)
    } else {
        None
    }
}

/// Recognizes an echo directive at position `i`.
fn echo_match(line: &str, i: usize) -> (r: Option<usize>)
    requires
        i < line@.len(),
    ensures
        (match r {
            Some(e) => echo_end(line@, i as int) == Some(e as int) && i < e && (e as int)
                < line@.len(),
            None => echo_end(line@, i as int) is None,
        }),
{
    let len = line.unicode_len();
    if len - i < 3 {
        return None;
    }
    if line.get_char(i) != '{' || line.get_char(i + 1) != '=' || line.get_char(i + 2) != ' ' {
        return None;
    }
    let e = class_run_end_exec(line, i + 3);
    if e < len && len - e >= 2 && line.get_char(e) == '=' && line.get_char(e + 1) == '}' && e - i
        >= 6 && line.get_char(e - 1) == ' ' && is_echo_first_exec(line.get_char(i + 3)) {
        Some(e + 1)
    } else {
        None
    }
}

/// Finds the end of the text run starting at `i`.
fn find_text_end(line: &str, i: usize) -> (r: usize)
    requires
        i < line@.len(),
    ensures
        r as int == text_end(line@, i as int),
        i < r <= line@.len(),
{
    let len = line.unicode_len();
    let mut j: usize = i + 1;
    while j < len && line.get_char(j) != '{'
        invariant
            i + 1 <= j <= len,
            len == line@.len(),
            text_end(line@, i as int) == text_end(line@, j as int - 1),
        decreases len - j,
    {
        j = j + 1;
    }
    j
}

/// Reads a string literal: the opening quote is consumed here, the body
/// runs to the next quote or the end of the interior, and the closing quote
/// is left for the caller to consume.
pub fn parse_string<'a>(iter: &mut Tokenable<'a>) -> (tk: Token)
    requires
        old(iter).wf(),
        old(iter).at() < old(iter).chars().len(),
        old(iter).chars()[old(iter).at()] == '"',
    ensures
        final(iter).wf(),
        final(iter).chars() == old(iter).chars(),
        final(iter).at() == string_end(old(iter).chars(), old(iter).at() + 1),
        old(iter).at() < final(iter).at() <= final(iter).chars().len(),
        tk@.kind == TokenTypes::STRING,
        tk@.data == old(iter).chars().subrange(old(iter).at() + 1, final(iter).at()),
{
    let ghost c0 = old(iter).chars();
    let ghost start0 = old(iter).at() + 1;
    iter.next();
    let start = iter.pos();
    while !at_string_close(iter)
        invariant
            iter.wf(),
            iter.chars() == c0,
            start0 <= iter.at() <= c0.len(),
            start as int == start0,
            string_end(c0, start0) == string_end(c0, iter.at()),
        decreases c0.len() - iter.at(),
    {
        iter.next();
    }
    let data = iter.slice(start, iter.pos());
    Token::new(TokenTypes::STRING, Some(String::from_str(data)))
}

/// Whether the cursor stands at the end of the interior or on a quote.
fn at_string_close(iter: &Tokenable) -> (r: bool)
    requires
        iter.wf(),
    ensures
        r == (iter.at() >= iter.chars().len() || iter.chars()[iter.at()] == '"'),
{
    match iter.look() {
        None => true,
        Some(c) => c == '"',
    }
}

/// Reads a maximal run of decimal digits; the payload is the matched
/// numeric literal text.
pub fn parse_number<'a>(iter: &mut Tokenable<'a>) -> (tk: Token)
    requires
        old(iter).wf(),
        old(iter).at() < old(iter).chars().len(),
        is_digit(old(iter).chars()[old(iter).at()]),
    ensures
        final(iter).wf(),
        final(iter).chars() == old(iter).chars(),
        final(iter).at() == digits_end(old(iter).chars(), old(iter).at()),
        old(iter).at() < final(iter).at() <= final(iter).chars().len(),
        tk@.kind == TokenTypes::NUMBER,
        tk@.data == old(iter).chars().subrange(old(iter).at(), final(iter).at()),
{
    let ghost c0 = old(iter).chars();
    let ghost start0 = old(iter).at();
    let start = iter.pos();
    while at_digit(iter)
        invariant
            iter.wf(),
            iter.chars() == c0,
            start0 <= iter.at() <= c0.len(),
            start as int == start0,
            digits_end(c0, start0) == digits_end(c0, iter.at()),
        decreases c0.len() - iter.at(),
    {
        iter.next();
    }
    proof {
        assert(iter.at() > start0);
    }
    let data = iter.slice(start, iter.pos());
    Token::new(TokenTypes::NUMBER, Some(String::from_str(data)))
}

/// Whether the cursor stands on a decimal digit.
fn at_digit(iter: &Tokenable) -> (r: bool)
    requires
        iter.wf(),
    ensures
        r == (iter.at() < iter.chars().len() && is_digit(iter.chars()[iter.at()])),
{
    match iter.look() {
        None => false,
        Some(c) => is_digit_exec(c),
    }
}

/// Reads a maximal identifier run and resolves it against the keyword
/// table.
pub fn parse_id<'a>(iter: &mut Tokenable<'a>) -> (tk: Token)
    requires
        old(iter).wf(),
        old(iter).at() < old(iter).chars().len(),
        is_lower(old(iter).chars()[old(iter).at()]),
    ensures
        final(iter).wf(),
        final(iter).chars() == old(iter).chars(),
        final(iter).at() == id_end(old(iter).chars(), old(iter).at()),
        old(iter).at() < final(iter).at() <= final(iter).chars().len(),
        tk@.data == old(iter).chars().subrange(old(iter).at(), final(iter).at()),
        tk@.kind == (match spec_keyword(old(iter).chars().subrange(
            old(iter).at(),
            final(iter).at(),
        )) {
            Some(k) => k,
            None => TokenTypes::IDENTIFIER,
        }),
{
    let ghost c0 = old(iter).chars();
    let ghost start0 = old(iter).at();
    let start = iter.pos();
    while at_id_char(iter)
        invariant
            iter.wf(),
            iter.chars() == c0,
            start0 <= iter.at() <= c0.len(),
            start as int == start0,
            id_end(c0, start0) == id_end(c0, iter.at()),
        decreases c0.len() - iter.at(),
    {
        iter.next();
    }
    proof {
        assert(iter.at() > start0);
    }
    let data = iter.slice(start, iter.pos());
    match keyword_by_token(data) {
        Some(tk) => Token::new(tk, Some(String::from_str(data))),
        None => Token::new(TokenTypes::IDENTIFIER, Some(String::from_str(data))),
    }
}

/// Whether the cursor stands on an identifier character.
fn at_id_char(iter: &Tokenable) -> (r: bool)
    requires
        iter.wf(),
    ensures
        r == (iter.at() < iter.chars().len() && is_id_char(iter.chars()[iter.at()])),
{
    match iter.look() {
        None => false,
        Some(c) => is_id_char_exec(c),
    }
}

/// Turns a single operator or punctuation character into its token; any
/// other character is reported and ends tokenization of the segment.
pub fn parse_single_op(op: char) -> (r: Result<Token, String>)
    ensures
        (match r {
            Ok(tk) => is_op_char(op) && tk@.kind == op_kind(op) && tk@.data == seq![op],
            Err(_) => !is_op_char(op),
        }),
{
    proof {
        reveal_strlit("+");
        reveal_strlit("-");
        reveal_strlit("/");
        reveal_strlit("%");
        reveal_strlit("*");
        reveal_strlit("=");
        reveal_strlit(",");
        reveal_strlit("(");
        reveal_strlit("[");
        reveal_strlit(")");
        reveal_strlit("]");
    }
    if op == '+' {
        Ok(Token::new(TokenTypes::PLUS, Some(String::from_str("+"))))
    } else if op == '-' {
        Ok(Token::new(TokenTypes::MINUS, Some(String::from_str("-"))))
    } else if op == '/' {
        Ok(Token::new(TokenTypes::SLASH, Some(String::from_str("/"))))
    } else if op == '%' {
        Ok(Token::new(TokenTypes::PERCENT, Some(String::from_str("%"))))
    } else if op == '*' {
        Ok(Token::new(TokenTypes::STAR, Some(String::from_str("*"))))
    } else if op == '=' {
        Ok(Token::new(TokenTypes::ASSIGN, Some(String::from_str("="))))
    } else if op == ',' {
        Ok(Token::new(TokenTypes::COMMA, Some(String::from_str(","))))
    } else if op == '(' {
        Ok(Token::new(TokenTypes::LPAREN, Some(String::from_str("("))))
    } else if op == '[' {
        Ok(Token::new(TokenTypes::LBRACKET, Some(String::from_str("["))))
    } else if op == ')' {
        Ok(Token::new(TokenTypes::RPAREN, Some(String::from_str(")"))))
    } else if op == ']' {
        Ok(Token::new(TokenTypes::RBRACKET, Some(String::from_str("]"))))
    } else {
        Err(String::from_str("invalid operator"))
    }
}

/// Tokenizes a whole directive block, delimiters included; see
/// `sp_tokenize_block`. Tokenization is total: a malformed interior simply
/// yields a shorter token sequence.
pub fn tokenize(code: &str) -> (r: Vec<Token>)
    ensures
        r@.map_values(|t: Token| t@) == sp_tokenize_block(code@),
{
    let mut ret: Vec<Token> = Vec::new();
    let len = code.unicode_len();
    if len < 7 {
        proof {
            assert(ret@.map_values(|t: Token| t@) =~= sp_tokenize_block(code@));
        }
        return ret;
    }
    let interior = code.substring_char(3, len - 3);
    let ghost s = interior@;
    let mut it = Tokenable::new(interior);
    let mut done = false;
    proof {
        assert(ret@.map_values(|t: Token| t@) + sp_tokenize(s, 0) =~= sp_tokenize_block(code@));
    }
    while !done
        invariant
            it.wf(),
            it.chars() == s,
            ret@.map_values(|t: Token| t@) + (if done {
                Seq::<TokenModel>::empty()
            } else {
                sp_tokenize(s, it.at())
            }) == sp_tokenize_block(code@),
        decreases s.len() - it.at() + (if done {
            0int
        } else {
            1int
        }),
    {
        let ghost pre = ret@.map_values(|t: Token| t@);
        match it.look() {
            None => {
                done = true;
                proof {
                    assert(pre + sp_tokenize(s, it.at()) =~= pre + Seq::<TokenModel>::empty());
                }
            },
            Some(ch) => {
                if ch == ' ' || ch == '\t' || ch == '\r' {
                    it.next();
                } else if ch == '"' {
                    let tk = parse_string(&mut it);
                    ret.push(tk);
                    it.next();
                    proof {
                        assert(ret@.map_values(|t: Token| t@) =~= pre.push(ret@.last()@));
                    }
                } else if is_digit_exec(ch) {
                    let tk = parse_number(&mut it);
                    ret.push(tk);
                    proof {
                        assert(ret@.map_values(|t: Token| t@) =~= pre.push(ret@.last()@));
                    }
                } else if is_lower_exec(ch) {
                    let tk = parse_id(&mut it);
                    ret.push(tk);
                    proof {
                        assert(ret@.map_values(|t: Token| t@) =~= pre.push(ret@.last()@));
                    }
                } else {
                    match parse_single_op(ch) {
                        Ok(tk) => {
                            ret.push(tk);
                            it.next();
                            proof {
                                assert(ret@.map_values(|t: Token| t@) =~= pre.push(ret@.last()@));
                            }
                        },
                        Err(_) => {
                            done = true;
                            proof {
                                assert(pre + sp_tokenize(s, it.at()) =~= pre + Seq::<
                                    TokenModel,
                                >::empty());
                            }
                        },
                    }
                }
            },
        }
    }
    proof {
        assert(ret@.map_values(|t: Token| t@) + Seq::<TokenModel>::empty() =~= ret@.map_values(
            |t: Token| t@,
        ));
    }
    ret
}

/// Segments one line, appending its segments in source order; see
/// `sp_segment_line`.
fn parse_block(line: &str, ret: &mut Vec<Metadata>)
    ensures
        final(ret)@.map_values(|m: Metadata| m@) == old(ret)@.map_values(|m: Metadata| m@)
            + sp_segment_line(line@, 0),
{
    let ghost l = line@;
    let ghost base = old(ret)@.map_values(|m: Metadata| m@);
    let len = line.unicode_len();
    let mut i: usize = 0;
    proof {
        assert(base + sp_segment_line(l, 0) =~= base + sp_segment_line(l, 0));
    }
    while i < len
        invariant
            0 <= i <= len,
            len == l.len(),
            l == line@,
            ret@.map_values(|m: Metadata| m@) + sp_segment_line(l, i as int) == base
                + sp_segment_line(l, 0),
        decreases len - i,
    {
        let ghost pre = ret@.map_values(|m: Metadata| m@);
        match code_match(line, i) {
            Some(e) => {
                let block = line.substring_char(i, e + 1);
                let toks = tokenize(block);
                ret.push(Metadata::new(Metatype::CODE, String::from_str(block), Some(toks)));
                proof {
                    assert(ret@.map_values(|m: Metadata| m@) =~= pre.push(ret@.last()@));
                    assert(ret@.last()@ =~~= code_seg(l.subrange(i as int, e as int + 1)));
                    assert(pre.push(code_seg(l.subrange(i as int, e as int + 1)))
                        + sp_segment_line(l, e as int + 1) =~= pre + sp_segment_line(l, i as int));
                }
                i = e + 1;
            },
            None => {
                match echo_match(line, i) {
                    Some(e) => {
                        let block = line.substring_char(i, e + 1);
                        let mut toks: Vec<Token> = Vec::new();
                        toks.push(Token::new(TokenTypes::PRINT, Some(String::from_str("print"))));
                        let mut rest = tokenize(block);
                        toks.append(&mut rest);
                        proof {
                            assert(toks@.map_values(|t: Token| t@) =~= seq![print_token()]
                                + sp_tokenize_block(block@));
                        }
                        ret.push(
                            Metadata::new(Metatype::ECHO, String::from_str(block), Some(toks)),
                        );
                        proof {
                            assert(ret@.map_values(|m: Metadata| m@) =~= pre.push(ret@.last()@));
                            assert(ret@.last()@ =~~= echo_seg(l.subrange(i as int, e as int + 1)));
                            assert(pre.push(echo_seg(l.subrange(i as int, e as int + 1)))
                                + sp_segment_line(l, e as int + 1) =~= pre + sp_segment_line(
                                l,
                                i as int,
                            ));
                        }
                        i = e + 1;
                    },
                    None => {
                        let j = find_text_end(line, i);
                        let data = line.substring_char(i, j);
                        let mut toks: Vec<Token> = Vec::new();
                        toks.push(Token::new(TokenTypes::PRINT, Some(String::from_str("print"))));
                        toks.push(Token::new(TokenTypes::STRING, Some(String::from_str(data))));
                        proof {
                            assert(toks@.map_values(|t: Token| t@) =~= seq![
                                print_token(),
                                TokenModel { kind: TokenTypes::STRING, data: data@ },
                            ]);
                        }
                        ret.push(Metadata::new(Metatype::TEXT, String::from_str(data), Some(toks)));
                        proof {
                            assert(ret@.map_values(|m: Metadata| m@) =~= pre.push(ret@.last()@));
                            assert(ret@.last()@ =~~= text_seg(l.subrange(i as int, j as int)));
                            assert(pre.push(text_seg(l.subrange(i as int, j as int)))
                                + sp_segment_line(l, j as int) =~= pre + sp_segment_line(
                                l,
                                i as int,
                            ));
                        }
                        i = j;
                    },
                }
            },
        }
    }
    proof {
        assert(ret@.map_values(|m: Metadata| m@) + Seq::<SegModel>::empty() =~= ret@.map_values(
            |m: Metadata| m@,
        ));
    }
}

/// Splits a template into lines and segments each line; the result is the
/// ordered segment sequence of the whole template.
pub fn scan(template: &String) -> (r: Metainfo)
    ensures
        r@.map_values(|m: Metadata| m@) == sp_scan(template@, 0),
{
    let mut ret: Metainfo = Vec::new();
    let s = template.as_str();
    let ghost t = s@;
    let len = s.unicode_len();
    let mut i: usize = 0;
    proof {
        assert(ret@.map_values(|m: Metadata| m@) + sp_scan(t, 0) =~= sp_scan(t, 0));
    }
    while i < len
        invariant
            0 <= i <= len,
            len == t.len(),
            t == template@,
            t == s@,
            ret@.map_values(|m: Metadata| m@) + sp_scan(t, i as int) == sp_scan(t, 0),
        decreases len - i,
    {
        let ghost pre = ret@.map_values(|m: Metadata| m@);
        let j = find_line_break(s, i);
        let line = if j > i && s.get_char(j - 1) == '\r' {
            s.substring_char(i, j - 1)
        } else {
            s.substring_char(i, j)
        };
        proof {
            if j > i && t[j as int - 1] == '\r' {
                assert(t.subrange(i as int, j as int - 1) =~= t.subrange(
                    i as int,
                    j as int,
                ).drop_last());
            }
            assert(line@ =~= strip_cr(t.subrange(i as int, j as int)));
        }
        parse_block(line, &mut ret);
        proof {
            assert(ret@.map_values(|m: Metadata| m@) =~= pre + sp_segment_line(line@, 0));
        }
        if j < len {
            i = j + 1;
        } else {
            i = len;
        }
    }
    proof {
        assert(ret@.map_values(|m: Metadata| m@) + Seq::<SegModel>::empty() =~= ret@.map_values(
            |m: Metadata| m@,
        ));
    }
    ret
}

/// Finds the next line break at or after `i`.
fn find_line_break(s: &str, i: usize) -> (r: usize)
    requires
        i < s@.len(),
    ensures
        r as int == line_break(s@, i as int),
        i <= r <= s@.len(),
{
    let len = s.unicode_len();
    let mut j: usize = i;
    while j < len && s.get_char(j) != '\n'
        invariant
            i <= j <= len,
            len == s@.len(),
            line_break(s@, i as int) == line_break(s@, j as int),
        decreases len - j,
    {
        j = j + 1;
    }
    j
}

} // verus!
