//! The segmenter, the tokenizer, and the token cursor, observed directly.

use amps::metadata::Metatype;
use amps::metadata::Tokenator;
use amps::metadata::TokenatorTrait;
use amps::scan::scan;
use amps::scan::tokenize;
use amps::token::Token;
use amps::token_types::keyword_by_token;
use amps::token_types::TokenTypes;

fn kinds_and_payloads(tokens: &[Token]) -> Vec<(TokenTypes, String)> {
    tokens.iter().map(|t| (t.get_type(), t.get_data())).collect()
}

#[test]
fn scan_splits_text_and_directives() {
    let template = String::from("a {= 11 =} b {% if x %} c");
    let segments = scan(&template);
    let kinds: Vec<Metatype> = segments.iter().map(|m| *m.get_type()).collect();
    assert_eq!(
        kinds,
        vec![
            Metatype::TEXT,
            Metatype::ECHO,
            Metatype::TEXT,
            Metatype::CODE,
            Metatype::TEXT
        ]
    );
    assert_eq!(segments[0].get_data(), "a ");
    assert_eq!(segments[1].get_data(), "{= 11 =}");
    assert_eq!(segments[4].get_data(), " c");
}

#[test]
fn text_segments_carry_a_synthetic_print_pair() {
    let template = String::from("hi");
    let segments = scan(&template);
    assert_eq!(segments.len(), 1);
    let tokens = segments[0].get_tokens().as_ref().unwrap();
    let got = kinds_and_payloads(tokens);
    assert_eq!(
        got,
        vec![
            (TokenTypes::PRINT, String::from("print")),
            (TokenTypes::STRING, String::from("hi"))
        ]
    );
}

#[test]
fn echo_segments_prepend_a_print_token() {
    let template = String::from("{= 1 + 2 =}");
    let segments = scan(&template);
    assert_eq!(segments.len(), 1);
    let tokens = segments[0].get_tokens().as_ref().unwrap();
    let got = kinds_and_payloads(tokens);
    assert_eq!(
        got,
        vec![
            (TokenTypes::PRINT, String::from("print")),
            (TokenTypes::NUMBER, String::from("1")),
            (TokenTypes::PLUS, String::from("+")),
            (TokenTypes::NUMBER, String::from("2"))
        ]
    );
}

#[test]
fn directives_do_not_cross_line_boundaries() {
    let template = String::from("{% if\ntrue %}");
    let segments = scan(&template);
    for seg in segments.iter() {
        assert!(!matches!(*seg.get_type(), Metatype::CODE));
    }
}

#[test]
fn tokenize_reads_strings_numbers_ids_and_operators() {
    let tokens = tokenize("{% print \"ab\" + xy_z , ( ) [ ] 042 %}");
    let got = kinds_and_payloads(&tokens);
    assert_eq!(
        got,
        vec![
            (TokenTypes::PRINT, String::from("print")),
            (TokenTypes::STRING, String::from("ab")),
            (TokenTypes::PLUS, String::from("+")),
            (TokenTypes::IDENTIFIER, String::from("xy_z")),
            (TokenTypes::COMMA, String::from(",")),
            (TokenTypes::LPAREN, String::from("(")),
            (TokenTypes::RPAREN, String::from(")")),
            (TokenTypes::LBRACKET, String::from("[")),
            (TokenTypes::RBRACKET, String::from("]")),
            (TokenTypes::NUMBER, String::from("042"))
        ]
    );
}

#[test]
fn tokenize_stops_at_an_illegal_character() {
    let tokens = tokenize("{% if a ; b %}");
    let got = kinds_and_payloads(&tokens);
    assert_eq!(
        got,
        vec![
            (TokenTypes::IF, String::from("if")),
            (TokenTypes::IDENTIFIER, String::from("a"))
        ]
    );
}

#[test]
fn retokenizing_reprinted_payloads_gives_the_same_tokens() {
    let tokens = tokenize("{% if count lt 10 and flag %}");
    let payloads: Vec<String> = tokens.iter().map(|t| t.get_data()).collect();
    let mut reprinted = String::from("{% ");
    reprinted.push_str(&payloads.join(" "));
    reprinted.push_str(" %}");
    let again = tokenize(&reprinted);
    assert_eq!(kinds_and_payloads(&tokens), kinds_and_payloads(&again));
}

#[test]
fn keywords_resolve_to_their_categories() {
    assert_eq!(keyword_by_token("if"), Some(TokenTypes::IF));
    assert_eq!(keyword_by_token("elif"), Some(TokenTypes::ELIF));
    assert_eq!(keyword_by_token("else"), Some(TokenTypes::ELSE));
    assert_eq!(keyword_by_token("endif"), Some(TokenTypes::ENDIF));
    assert_eq!(keyword_by_token("print"), Some(TokenTypes::PRINT));
    assert_eq!(keyword_by_token("and"), Some(TokenTypes::AND));
    assert_eq!(keyword_by_token("or"), Some(TokenTypes::OR));
    assert_eq!(keyword_by_token("not"), Some(TokenTypes::NOT));
    assert_eq!(keyword_by_token("eq"), Some(TokenTypes::EQ));
    assert_eq!(keyword_by_token("ne"), Some(TokenTypes::NE));
    assert_eq!(keyword_by_token("lt"), Some(TokenTypes::LT));
    assert_eq!(keyword_by_token("le"), Some(TokenTypes::LE));
    assert_eq!(keyword_by_token("gt"), Some(TokenTypes::GT));
    assert_eq!(keyword_by_token("ge"), Some(TokenTypes::GE));
    assert_eq!(keyword_by_token("true"), Some(TokenTypes::TRUE));
    assert_eq!(keyword_by_token("false"), Some(TokenTypes::FALSE));
    assert_eq!(keyword_by_token("null"), Some(TokenTypes::NIL));
    assert_eq!(keyword_by_token("boolean"), Some(TokenTypes::BOOLEAN));
    assert_eq!(keyword_by_token("for"), Some(TokenTypes::FOR));
    assert_eq!(keyword_by_token("in"), Some(TokenTypes::IN));
    assert_eq!(keyword_by_token("endfor"), Some(TokenTypes::ENDFOR));
    assert_eq!(keyword_by_token("range"), Some(TokenTypes::RANGE));
    assert_eq!(keyword_by_token("except"), Some(TokenTypes::EXCEPT));
    assert_eq!(keyword_by_token("insert"), Some(TokenTypes::INSERT));
    assert_eq!(keyword_by_token("count"), None);
    assert_eq!(keyword_by_token("If"), None);
}

#[test]
fn cursor_steps_and_peeks() {
    let tokens = tokenize("{% print 1 + 2 %}");
    let mut cursor = Tokenator::new(&tokens);
    assert_eq!(cursor.look().unwrap().get_type(), TokenTypes::PRINT);
    assert_eq!(cursor.look_ahead().unwrap().get_type(), TokenTypes::NUMBER);
    assert_eq!(cursor.next().unwrap().get_type(), TokenTypes::PRINT);
    assert_eq!(cursor.look_back().unwrap().get_type(), TokenTypes::PRINT);
    assert!(cursor.match_next(TokenTypes::NUMBER));
    assert!(!cursor.match_next(TokenTypes::NUMBER));
    assert!(cursor.match_next(TokenTypes::PLUS));
    cursor.skip_all();
    assert!(cursor.look().is_none());
    assert!(cursor.next().is_none());
}

#[test]
fn token_without_payload_reads_as_a_placeholder() {
    let token = Token::new(TokenTypes::PRINT, None);
    assert_eq!(token.get_data(), "<none>");
    assert_eq!(token.get_type(), TokenTypes::PRINT);
}
