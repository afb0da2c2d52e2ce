use comfyc::errors::CompileError;
use comfyc::tokenizer::{tokenize, Token};

#[test]
fn tokens_of_exit_program() {
    let toks = tokenize("fn main(){ $exit(0); }").unwrap();
    let expected = vec![
        Token::Function,
        Token::Identifier("main".to_string()),
        Token::ParentOpen,
        Token::ParentClose,
        Token::CurlyOpen,
        Token::Syscall("exit".to_string()),
        Token::ParentOpen,
        Token::Int8Container(0),
        Token::ParentClose,
        Token::Semicolon,
        Token::CurlyClose,
        Token::EOF,
    ];
    assert_eq!(toks, expected);
}

#[test]
fn integer_literals_take_narrowest_container() {
    assert_eq!(tokenize("127").unwrap()[0], Token::Int8Container(127));
    assert_eq!(tokenize("128").unwrap()[0], Token::Int16Container(128));
    assert_eq!(tokenize("32767").unwrap()[0], Token::Int16Container(32767));
    assert_eq!(tokenize("32768").unwrap()[0], Token::Int32Container(32768));
    assert_eq!(tokenize("2147483647").unwrap()[0], Token::Int32Container(2147483647));
}

#[test]
fn integer_beyond_i32_is_fatal() {
    assert!(matches!(tokenize("2147483648"), Err(CompileError::IntegerOutOfRange)));
    assert!(matches!(tokenize("99999999999999999999"), Err(CompileError::IntegerOutOfRange)));
}

#[test]
fn exactly_one_eof_at_end() {
    let toks = tokenize("int8 x = 1;").unwrap();
    let eofs = toks.iter().filter(|t| matches!(t, Token::EOF)).count();
    assert_eq!(eofs, 1);
    assert_eq!(toks[toks.len() - 1], Token::EOF);
}

#[test]
fn keywords_and_identifiers() {
    let toks = tokenize("mut bool char str int8 int16 int32 true false asm other").unwrap();
    let expected = vec![
        Token::Mut,
        Token::Bool,
        Token::Char,
        Token::Str,
        Token::Int8,
        Token::Int16,
        Token::Int32,
        Token::BoolContainer(true),
        Token::BoolContainer(false),
        Token::InlineAsm,
        Token::Identifier("other".to_string()),
        Token::EOF,
    ];
    assert_eq!(toks, expected);
}

#[test]
fn string_literal_has_no_escapes() {
    let toks = tokenize("\"hi there\"").unwrap();
    assert_eq!(toks[0], Token::StrContainer("hi there".to_string()));
}

#[test]
fn unterminated_string_takes_rest() {
    let toks = tokenize("\"abc").unwrap();
    assert_eq!(toks[0], Token::StrContainer("abc".to_string()));
    assert_eq!(toks.len(), 2);
}

#[test]
fn line_comment_is_skipped() {
    let toks = tokenize("int8 // all of this vanishes\nx").unwrap();
    assert_eq!(
        toks,
        vec![Token::Int8, Token::Identifier("x".to_string()), Token::EOF]
    );
}

#[test]
fn single_slash_is_unknown() {
    let toks = tokenize("/").unwrap();
    assert_eq!(toks, vec![Token::Unknown, Token::EOF]);
}

#[test]
fn char_literal_takes_one_character() {
    let toks = tokenize("'x' y").unwrap();
    assert_eq!(
        toks,
        vec![Token::CharContainer('x'), Token::Identifier("y".to_string()), Token::EOF]
    );
}

#[test]
fn empty_char_literal_is_rejected_as_unknown() {
    let toks = tokenize("''").unwrap();
    assert_eq!(toks[0], Token::Unknown);
}

#[test]
fn syscall_token_carries_name() {
    let toks = tokenize("$sysinfo").unwrap();
    assert_eq!(toks[0], Token::Syscall("sysinfo".to_string()));
}

#[test]
fn punctuation_tokens() {
    let toks = tokenize("()[]{},;:=").unwrap();
    let expected = vec![
        Token::ParentOpen,
        Token::ParentClose,
        Token::BracketOpen,
        Token::BracketClose,
        Token::CurlyOpen,
        Token::CurlyClose,
        Token::Comma,
        Token::Semicolon,
        Token::Colon,
        Token::Equals,
        Token::EOF,
    ];
    assert_eq!(toks, expected);
}

#[test]
fn unknown_character_is_kept_for_the_parser() {
    let toks = tokenize("?").unwrap();
    assert_eq!(toks, vec![Token::Unknown, Token::EOF]);
}

#[test]
fn identifier_with_underscore_and_digits() {
    let toks = tokenize("_a1_b2").unwrap();
    assert_eq!(toks[0], Token::Identifier("_a1_b2".to_string()));
}
