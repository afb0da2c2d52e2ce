//! Tokens of the source language and the streaming lexer.
//!
//! The lexer is a single pass over the characters of the preprocessed
//! source. Its behaviour is specified by `spec_tokenize`, a recursive
//! function over the character sequence; `tokenize` is proved to return
//! exactly that token sequence.

use vstd::prelude::*;
use vstd::string::*;
use crate::errors::CompileError;
use crate::strutil::str_eq;

verus! {

/// A lexical token. Integer literals are carried in the narrowest signed
/// container whose range admits the value, decided at lex time.
#[derive(Debug)]
pub enum Token {
    Function,
    Identifier(String),
    Syscall(String),
    ParentOpen,
    ParentClose,
    CurlyOpen,
    CurlyClose,
    Comma,
    Semicolon,
    Colon,
    Equals,
    Mut,
    BracketOpen,
    BracketClose,
    InlineAsm,
    EOF,
    Unknown,
    // base type keywords
    Bool,
    Int8,
    Int16,
    Int32,
    Char,
    Str,
    // literal containers
    BoolContainer(bool),
    CharContainer(char),
    StrContainer(String),
    Int8Container(i8),
    Int16Container(i16),
    Int32Container(i32),
}

/// The mathematical form of a token: strings are character sequences.
pub enum SpecToken {
    Function,
    Identifier(Seq<char>),
    Syscall(Seq<char>),
    ParentOpen,
    ParentClose,
    CurlyOpen,
    CurlyClose,
    Comma,
    Semicolon,
    Colon,
    Equals,
    Mut,
    BracketOpen,
    BracketClose,
    InlineAsm,
    EOF,
    Unknown,
    Bool,
    Int8,
    Int16,
    Int32,
    Char,
    Str,
    BoolContainer(bool),
    CharContainer(char),
    StrContainer(Seq<char>),
    Int8Container(i8),
    Int16Container(i16),
    Int32Container(i32),
}

impl View for Token {
    type V = SpecToken;

    open spec fn view(&self) -> SpecToken {
        match self {
            Token::Function => SpecToken::Function,
            Token::Identifier(s) => SpecToken::Identifier(s@),
            Token::Syscall(s) => SpecToken::Syscall(s@),
            Token::ParentOpen => SpecToken::ParentOpen,
            Token::ParentClose => SpecToken::ParentClose,
            Token::CurlyOpen => SpecToken::CurlyOpen,
            Token::CurlyClose => SpecToken::CurlyClose,
            Token::Comma => SpecToken::Comma,
            Token::Semicolon => SpecToken::Semicolon,
            Token::Colon => SpecToken::Colon,
            Token::Equals => SpecToken::Equals,
            Token::Mut => SpecToken::Mut,
            Token::BracketOpen => SpecToken::BracketOpen,
            Token::BracketClose => SpecToken::BracketClose,
            Token::InlineAsm => SpecToken::InlineAsm,
            Token::EOF => SpecToken::EOF,
            Token::Unknown => SpecToken::Unknown,
            Token::Bool => SpecToken::Bool,
            Token::Int8 => SpecToken::Int8,
            Token::Int16 => SpecToken::Int16,
            Token::Int32 => SpecToken::Int32,
            Token::Char => SpecToken::Char,
            Token::Str => SpecToken::Str,
            Token::BoolContainer(b) => SpecToken::BoolContainer(*b),
            Token::CharContainer(c) => SpecToken::CharContainer(*c),
            Token::StrContainer(s) => SpecToken::StrContainer(s@),
            Token::Int8Container(v) => SpecToken::Int8Container(*v),
            Token::Int16Container(v) => SpecToken::Int16Container(*v),
            Token::Int32Container(v) => SpecToken::Int32Container(*v),
        }
    }
}

impl Token {
    /// A copy of the token, equal to the original in every contract.
    pub fn duplicate(&self) -> (r: Token)
        ensures
            r@ == self@,
    {
        match self {
            Token::Function => Token::Function,
            Token::Identifier(s) => Token::Identifier(s.clone()),
            Token::Syscall(s) => Token::Syscall(s.clone()),
            Token::ParentOpen => Token::ParentOpen,
            Token::ParentClose => Token::ParentClose,
            Token::CurlyOpen => Token::CurlyOpen,
            Token::CurlyClose => Token::CurlyClose,
            Token::Comma => Token::Comma,
            Token::Semicolon => Token::Semicolon,
            Token::Colon => Token::Colon,
            Token::Equals => Token::Equals,
            Token::Mut => Token::Mut,
            Token::BracketOpen => Token::BracketOpen,
            Token::BracketClose => Token::BracketClose,
            Token::InlineAsm => Token::InlineAsm,
            Token::EOF => Token::EOF,
            Token::Unknown => Token::Unknown,
            Token::Bool => Token::Bool,
            Token::Int8 => Token::Int8,
            Token::Int16 => Token::Int16,
            Token::Int32 => Token::Int32,
            Token::Char => Token::Char,
            Token::Str => Token::Str,
            Token::BoolContainer(b) => Token::BoolContainer(*b),
            Token::CharContainer(c) => Token::CharContainer(*c),
            Token::StrContainer(s) => Token::StrContainer(s.clone()),
            Token::Int8Container(v) => Token::Int8Container(*v),
            Token::Int16Container(v) => Token::Int16Container(*v),
            Token::Int32Container(v) => Token::Int32Container(*v),
        }
    }
}

impl PartialEq for Token {
    fn eq(&self, other: &Token) -> (r: bool) {
        match (self, other) {
            (Token::Function, Token::Function) => true,
            (Token::Identifier(a), Token::Identifier(b)) => str_eq(a.as_str(), b.as_str()),
            (Token::Syscall(a), Token::Syscall(b)) => str_eq(a.as_str(), b.as_str()),
            (Token::ParentOpen, Token::ParentOpen) => true,
            (Token::ParentClose, Token::ParentClose) => true,
            (Token::CurlyOpen, Token::CurlyOpen) => true,
            (Token::CurlyClose, Token::CurlyClose) => true,
            (Token::Comma, Token::Comma) => true,
            (Token::Semicolon, Token::Semicolon) => true,
            (Token::Colon, Token::Colon) => true,
            (Token::Equals, Token::Equals) => true,
            (Token::Mut, Token::Mut) => true,
            (Token::BracketOpen, Token::BracketOpen) => true,
            (Token::BracketClose, Token::BracketClose) => true,
            (Token::InlineAsm, Token::InlineAsm) => true,
            (Token::EOF, Token::EOF) => true,
            (Token::Unknown, Token::Unknown) => true,
            (Token::Bool, Token::Bool) => true,
            (Token::Int8, Token::Int8) => true,
            (Token::Int16, Token::Int16) => true,
            (Token::Int32, Token::Int32) => true,
            (Token::Char, Token::Char) => true,
            (Token::Str, Token::Str) => true,
            (Token::BoolContainer(a), Token::BoolContainer(b)) => a == b,
            (Token::CharContainer(a), Token::CharContainer(b)) => a == b,
            (Token::StrContainer(a), Token::StrContainer(b)) => str_eq(a.as_str(), b.as_str()),
            (Token::Int8Container(a), Token::Int8Container(b)) => a == b,
            (Token::Int16Container(a), Token::Int16Container(b)) => a == b,
            (Token::Int32Container(a), Token::Int32Container(b)) => a == b,
            _ => false,
        }
    }
}

impl vstd::std_specs::cmp::PartialEqSpecImpl for Token {
    open spec fn obeys_eq_spec() -> bool {
        true
    }

    open spec fn eq_spec(&self, other: &Token) -> bool {
        self@ == other@
    }
}

impl Eq for Token {}

/// A token's view is the like-named variant of `SpecToken`.
pub broadcast proof fn lemma_token_view_variants(t: Token)
    ensures
        #![trigger t@]
        (t is Function <==> t@ is Function),
        (t is Identifier <==> t@ is Identifier),
        (t is Syscall <==> t@ is Syscall),
        (t is ParentOpen <==> t@ is ParentOpen),
        (t is ParentClose <==> t@ is ParentClose),
        (t is CurlyOpen <==> t@ is CurlyOpen),
        (t is CurlyClose <==> t@ is CurlyClose),
        (t is Comma <==> t@ is Comma),
        (t is Semicolon <==> t@ is Semicolon),
        (t is Colon <==> t@ is Colon),
        (t is Equals <==> t@ is Equals),
        (t is Mut <==> t@ is Mut),
        (t is BracketOpen <==> t@ is BracketOpen),
        (t is BracketClose <==> t@ is BracketClose),
        (t is InlineAsm <==> t@ is InlineAsm),
        (t is EOF <==> t@ is EOF),
        (t is Unknown <==> t@ is Unknown),
        (t is Bool <==> t@ is Bool),
        (t is Int8 <==> t@ is Int8),
        (t is Int16 <==> t@ is Int16),
        (t is Int32 <==> t@ is Int32),
        (t is Char <==> t@ is Char),
        (t is Str <==> t@ is Str),
        (t is BoolContainer <==> t@ is BoolContainer),
        (t is CharContainer <==> t@ is CharContainer),
        (t is StrContainer <==> t@ is StrContainer),
        (t is Int8Container <==> t@ is Int8Container),
        (t is Int16Container <==> t@ is Int16Container),
        (t is Int32Container <==> t@ is Int32Container),
{
}

/// Whitespace skipped between tokens.
pub open spec fn is_space(c: char) -> bool {
    c == ' ' || c == '\n' || c == '\t'
}

/// An ASCII decimal digit.
pub open spec fn is_dec_digit(c: char) -> bool {
    ('0' as u32) <= (c as u32) && (c as u32) <= ('9' as u32)
}

/// Whether `char::is_alphabetic` holds of a character.
pub uninterp spec fn char_is_alphabetic(c: char) -> bool;

/// Whether `char::is_alphanumeric` holds of a character.
pub uninterp spec fn char_is_alphanumeric(c: char) -> bool;

/// Relies on char::is_alphabetic: the result depends on the character
/// alone, and on the ASCII range it holds exactly of the letters.
#[verifier::external_body]
fn is_alphabetic(c: char) -> (r: bool)
    ensures
        r == char_is_alphabetic(c),
        (c as u32) < 128 ==> (r <==> (('a' as u32) <= (c as u32) <= ('z' as u32) || ('A' as u32)
            <= (c as u32) <= ('Z' as u32))),
{
    c.is_alphabetic()
}

/// Relies on char::is_alphanumeric: the result depends on the character
/// alone, and on the ASCII range it holds exactly of the letters and digits.
#[verifier::external_body]
fn is_alphanumeric(c: char) -> (r: bool)
    ensures
        r == char_is_alphanumeric(c),
        (c as u32) < 128 ==> (r <==> (('a' as u32) <= (c as u32) <= ('z' as u32) || ('A' as u32)
            <= (c as u32) <= ('Z' as u32) || ('0' as u32) <= (c as u32) <= ('9' as u32))),
{
    c.is_alphanumeric()
}

/// A character that continues an identifier or a syscall name.
pub open spec fn is_name_cont(c: char) -> bool {
    char_is_alphanumeric(c) || c == '_'
}

/// A character that begins an identifier.
pub open spec fn is_name_start(c: char) -> bool {
    char_is_alphabetic(c) || c == '_'
}

/// The first position at or after `i` that does not continue a name.
pub open spec fn scan_name_end(s: Seq<char>, i: int) -> int
    decreases s.len() - i,
{
    if i < 0 || i >= s.len() {
        i
    } else if is_name_cont(s[i]) {
        scan_name_end(s, i + 1)
    } else {
        i
    }
}

/// The first position at or after `i` that is not a decimal digit.
pub open spec fn scan_digits_end(s: Seq<char>, i: int) -> int
    decreases s.len() - i,
{
    if i < 0 || i >= s.len() {
        i
    } else if is_dec_digit(s[i]) {
        scan_digits_end(s, i + 1)
    } else {
        i
    }
}

/// The first position at or after `i` holding a double quote, or the end.
pub open spec fn scan_string_end(s: Seq<char>, i: int) -> int
    decreases s.len() - i,
{
    if i < 0 || i >= s.len() {
        i
    } else if s[i] == '"' {
        i
    } else {
        scan_string_end(s, i + 1)
    }
}

/// The first position at or after `i` holding a newline, or the end.
pub open spec fn scan_line_end(s: Seq<char>, i: int) -> int
    decreases s.len() - i,
{
    if i < 0 || i >= s.len() {
        i
    } else if s[i] == '\n' {
        i
    } else {
        scan_line_end(s, i + 1)
    }
}

/// Every scan lands between its start and the end of the text.
pub proof fn lemma_scan_bounds(s: Seq<char>, i: int)
    requires
        0 <= i <= s.len(),
    ensures
        i <= scan_name_end(s, i) <= s.len(),
        i <= scan_digits_end(s, i) <= s.len(),
        i <= scan_string_end(s, i) <= s.len(),
        i <= scan_line_end(s, i) <= s.len(),
    decreases s.len() - i,
{
    if i < s.len() {
        lemma_scan_bounds(s, i + 1);
    }
}

/// The numeric value of a decimal digit character.
pub open spec fn dec_digit_val(c: char) -> nat {
    ((c as u32) - ('0' as u32)) as nat
}

/// The value of a run of decimal digit characters.
pub open spec fn dec_value(digits: Seq<char>) -> nat
    decreases digits.len(),
{
    if digits.len() == 0 {
        0
    } else {
        dec_value(digits.drop_last()) * 10 + dec_digit_val(digits.last())
    }
}

/// The token for a completed word: a keyword, a boolean literal, a type
/// keyword, or otherwise an identifier.
pub open spec fn keyword_token(w: Seq<char>) -> SpecToken {
    if w == "fn"@ {
        SpecToken::Function
    } else if w == "asm"@ {
        SpecToken::InlineAsm
    } else if w == "mut"@ {
        SpecToken::Mut
    } else if w == "true"@ {
        SpecToken::BoolContainer(true)
    } else if w == "false"@ {
        SpecToken::BoolContainer(false)
    } else if w == "bool"@ {
        SpecToken::Bool
    } else if w == "char"@ {
        SpecToken::Char
    } else if w == "str"@ {
        SpecToken::Str
    } else if w == "int8"@ {
        SpecToken::Int8
    } else if w == "int16"@ {
        SpecToken::Int16
    } else if w == "int32"@ {
        SpecToken::Int32
    } else {
        SpecToken::Identifier(w)
    }
}

/// An integer literal is carried in the narrowest signed container whose
/// range admits its value.
pub open spec fn classify_int(v: nat) -> SpecToken {
    if v <= 127 {
        SpecToken::Int8Container(v as i8)
    } else if v <= 32767 {
        SpecToken::Int16Container(v as i16)
    } else {
        SpecToken::Int32Container(v as i32)
    }
}

/// `Some(pre ++ rest)` when the rest lexes, `None` when it does not.
pub open spec fn cat_tokens(pre: Seq<SpecToken>, rest: Option<Seq<SpecToken>>) -> Option<
    Seq<SpecToken>,
> {
    match rest {
        Option::Some(r) => Option::Some(pre + r),
        Option::None => Option::None,
    }
}

/// The token sequence of the text from position `i` on: `None` exactly
/// when an integer literal from `i` on exceeds the 32-bit signed range.
/// The sequence always ends with a single `EOF`.
pub open spec fn spec_tokenize(s: Seq<char>, i: int) -> Option<Seq<SpecToken>>
    decreases s.len() - i,
    via spec_tokenize_decreases
{
    if i < 0 || i >= s.len() {
        Option::Some(seq![SpecToken::EOF])
    } else {
        let c = s[i];
        if is_space(c) {
            spec_tokenize(s, i + 1)
        } else if c == '(' {
            cat_tokens(seq![SpecToken::ParentOpen], spec_tokenize(s, i + 1))
        } else if c == ')' {
            cat_tokens(seq![SpecToken::ParentClose], spec_tokenize(s, i + 1))
        } else if c == '{' {
            cat_tokens(seq![SpecToken::CurlyOpen], spec_tokenize(s, i + 1))
        } else if c == '}' {
            cat_tokens(seq![SpecToken::CurlyClose], spec_tokenize(s, i + 1))
        } else if c == ',' {
            cat_tokens(seq![SpecToken::Comma], spec_tokenize(s, i + 1))
        } else if c == ';' {
            cat_tokens(seq![SpecToken::Semicolon], spec_tokenize(s, i + 1))
        } else if c == ':' {
            cat_tokens(seq![SpecToken::Colon], spec_tokenize(s, i + 1))
        } else if c == '=' {
            cat_tokens(seq![SpecToken::Equals], spec_tokenize(s, i + 1))
        } else if c == '[' {
            cat_tokens(seq![SpecToken::BracketOpen], spec_tokenize(s, i + 1))
        } else if c == ']' {
            cat_tokens(seq![SpecToken::BracketClose], spec_tokenize(s, i + 1))
        } else if c == '$' {
            let j = scan_name_end(s, i + 1);
            cat_tokens(seq![SpecToken::Syscall(s.subrange(i + 1, j))], spec_tokenize(s, j))
        } else if c == '"' {
            let j = scan_string_end(s, i + 1);
            let after = if j < s.len() {
                j + 1
            } else {
                j
            };
            cat_tokens(seq![SpecToken::StrContainer(s.subrange(i + 1, j))], spec_tokenize(s, after))
        } else if c == '/' {
            if i + 1 < s.len() && s[i + 1] == '/' {
                spec_tokenize(s, scan_line_end(s, i + 2))
            } else {
                cat_tokens(seq![SpecToken::Unknown], spec_tokenize(s, i + 1))
            }
        } else if c == '\'' {
            if i + 2 < s.len() && s[i + 2] == '\'' && s[i + 1] != '\'' {
                cat_tokens(seq![SpecToken::CharContainer(s[i + 1])], spec_tokenize(s, i + 3))
            } else {
                cat_tokens(seq![SpecToken::Unknown], spec_tokenize(s, i + 1))
            }
        } else if is_name_start(c) {
            let j = scan_name_end(s, i + 1);
            cat_tokens(seq![keyword_token(s.subrange(i, j))], spec_tokenize(s, j))
        } else if is_dec_digit(c) {
            let j = scan_digits_end(s, i + 1);
            let v = dec_value(s.subrange(i, j));
            if v > 2147483647 {
                Option::None
            } else {
                cat_tokens(seq![classify_int(v)], spec_tokenize(s, j))
            }
        } else {
            cat_tokens(seq![SpecToken::Unknown], spec_tokenize(s, i + 1))
        }
    }
}

#[via_fn]
proof fn spec_tokenize_decreases(s: Seq<char>, i: int) {
    if 0 <= i < s.len() {
        lemma_scan_bounds(s, i + 1);
        if i + 2 <= s.len() {
            lemma_scan_bounds(s, i + 2);
        }
    }
}

/// The views of a vector of tokens, in place.
pub open spec fn view_tokens(s: Seq<Token>) -> Seq<SpecToken> {
    Seq::new(s.len(), |i: int| s[i]@)
}

/// How many `EOF` tokens a sequence holds.
pub open spec fn count_eof(toks: Seq<SpecToken>) -> nat
    decreases toks.len(),
{
    if toks.len() == 0 {
        0
    } else {
        (if toks[0] is EOF {
            1nat
        } else {
            0nat
        }) + count_eof(toks.drop_first())
    }
}

proof fn lemma_count_eof_prepend(t: SpecToken, rest: Seq<SpecToken>)
    ensures
        count_eof(seq![t] + rest) == count_eof(rest) + if t is EOF {
            1nat
        } else {
            0nat
        },
{
    assert((seq![t] + rest).drop_first() =~= rest);
    assert((seq![t] + rest)[0] == t);
}

/// Law: a successful lex yields a token sequence that ends with `EOF`,
/// and holds no other `EOF`.
pub proof fn lemma_tokenize_single_eof(s: Seq<char>, i: int)
    requires
        0 <= i,
    ensures
        spec_tokenize(s, i) matches Option::Some(toks) ==> toks.len() >= 1 && toks.last()
            == SpecToken::EOF && count_eof(toks) == 1,
    decreases s.len() - i, 0int,
{
    if spec_tokenize(s, i) is None {
        return;
    }
    if i >= s.len() {
        assert(seq![SpecToken::EOF].drop_first() =~= Seq::<SpecToken>::empty());
        assert(count_eof(Seq::<SpecToken>::empty()) == 0);
    } else {
        let c = s[i];
        lemma_scan_bounds(s, i + 1);
        if i + 2 <= s.len() {
            lemma_scan_bounds(s, i + 2);
        }
        if is_space(c) {
            lemma_tokenize_single_eof(s, i + 1);
        } else if c == '(' {
            lemma_cons_step(s, i, SpecToken::ParentOpen, i + 1);
        } else if c == ')' {
            lemma_cons_step(s, i, SpecToken::ParentClose, i + 1);
        } else if c == '{' {
            lemma_cons_step(s, i, SpecToken::CurlyOpen, i + 1);
        } else if c == '}' {
            lemma_cons_step(s, i, SpecToken::CurlyClose, i + 1);
        } else if c == ',' {
            lemma_cons_step(s, i, SpecToken::Comma, i + 1);
        } else if c == ';' {
            lemma_cons_step(s, i, SpecToken::Semicolon, i + 1);
        } else if c == ':' {
            lemma_cons_step(s, i, SpecToken::Colon, i + 1);
        } else if c == '=' {
            lemma_cons_step(s, i, SpecToken::Equals, i + 1);
        } else if c == '[' {
            lemma_cons_step(s, i, SpecToken::BracketOpen, i + 1);
        } else if c == ']' {
            lemma_cons_step(s, i, SpecToken::BracketClose, i + 1);
        } else if c == '$' {
            let j = scan_name_end(s, i + 1);
            lemma_cons_step(s, i, SpecToken::Syscall(s.subrange(i + 1, j)), j);
        } else if c == '"' {
            let j = scan_string_end(s, i + 1);
            let after = if j < s.len() {
                j + 1
            } else {
                j
            };
            lemma_cons_step(s, i, SpecToken::StrContainer(s.subrange(i + 1, j)), after);
        } else if c == '/' {
            if i + 1 < s.len() && s[i + 1] == '/' {
                lemma_tokenize_single_eof(s, scan_line_end(s, i + 2));
            } else {
                lemma_cons_step(s, i, SpecToken::Unknown, i + 1);
            }
        } else if c == '\'' {
            if i + 2 < s.len() && s[i + 2] == '\'' && s[i + 1] != '\'' {
                lemma_cons_step(s, i, SpecToken::CharContainer(s[i + 1]), i + 3);
            } else {
                lemma_cons_step(s, i, SpecToken::Unknown, i + 1);
            }
        } else if is_name_start(c) {
            let j = scan_name_end(s, i + 1);
            lemma_cons_step(s, i, keyword_token(s.subrange(i, j)), j);
        } else if is_dec_digit(c) {
            let j = scan_digits_end(s, i + 1);
            lemma_cons_step(s, i, classify_int(dec_value(s.subrange(i, j))), j);
        } else {
            lemma_cons_step(s, i, SpecToken::Unknown, i + 1);
        }
    }
}

/// When position `i` lexes as the non-`EOF` token `t` followed by the
/// tokens from `ni`, the `EOF` facts carry over from `ni` to `i`.
proof fn lemma_cons_step(s: Seq<char>, i: int, t: SpecToken, ni: int)
    requires
        0 <= i < ni,
        spec_tokenize(s, i) == cat_tokens(seq![t], spec_tokenize(s, ni)),
        !(t is EOF),
    ensures
        spec_tokenize(s, i) matches Option::Some(toks) ==> toks.len() >= 1 && toks.last()
            == SpecToken::EOF && count_eof(toks) == 1,
    decreases s.len() - ni, 1int,
{
    lemma_tokenize_single_eof(s, ni);
    match spec_tokenize(s, ni) {
        Option::Some(rest) => {
            lemma_count_eof_prepend(t, rest);
            assert((seq![t] + rest).last() == rest.last());
        },
        Option::None => {},
    }
}

/// Every character the digit scan passes over is a digit.
pub proof fn lemma_scan_digits_chars(s: Seq<char>, i: int)
    requires
        0 <= i <= s.len(),
    ensures
        forall|m: int| i <= m < scan_digits_end(s, i) ==> is_dec_digit(s[m]),
    decreases s.len() - i,
{
    if i < s.len() && is_dec_digit(s[i]) {
        lemma_scan_digits_chars(s, i + 1);
    }
}

/// A digit run's value only grows as the run extends.
pub proof fn lemma_dec_value_grows(s: Seq<char>, i: int, k: int, j: int)
    requires
        0 <= i <= k <= j <= s.len(),
    ensures
        dec_value(s.subrange(i, j)) >= dec_value(s.subrange(i, k)),
    decreases j - k,
{
    if j > k {
        lemma_dec_value_grows(s, i, k, j - 1);
        assert(s.subrange(i, j).drop_last() =~= s.subrange(i, j - 1));
    }
}

fn find_name_end(script: &str, start: usize) -> (j: usize)
    requires
        start as int <= script@.len(),
    ensures
        j as int == scan_name_end(script@, start as int),
        start <= j,
        j as int <= script@.len(),
{
    let n = script.unicode_len();
    let mut j = start;
    while j < n
        invariant_except_break
            start <= j <= n,
            n as int == script@.len(),
            scan_name_end(script@, start as int) == scan_name_end(script@, j as int),
        ensures
            start <= j <= n,
            n as int == script@.len(),
            scan_name_end(script@, start as int) == scan_name_end(script@, j as int),
            j == n || !is_name_cont(script@[j as int]),
        decreases n - j,
    {
        let c = script.get_char(j);
        if !(is_alphanumeric(c) || c == '_') {
            break;
        }
        j += 1;
    }
    j
}

fn find_digits_end(script: &str, start: usize) -> (j: usize)
    requires
        start as int <= script@.len(),
    ensures
        j as int == scan_digits_end(script@, start as int),
        start <= j,
        j as int <= script@.len(),
{
    let n = script.unicode_len();
    let mut j = start;
    while j < n
        invariant_except_break
            start <= j <= n,
            n as int == script@.len(),
            scan_digits_end(script@, start as int) == scan_digits_end(script@, j as int),
        ensures
            start <= j <= n,
            n as int == script@.len(),
            scan_digits_end(script@, start as int) == scan_digits_end(script@, j as int),
            j == n || !is_dec_digit(script@[j as int]),
        decreases n - j,
    {
        let c = script.get_char(j);
        if !(c >= '0' && c <= '9') {
            break;
        }
        j += 1;
    }
    j
}

fn find_string_end(script: &str, start: usize) -> (j: usize)
    requires
        start as int <= script@.len(),
    ensures
        j as int == scan_string_end(script@, start as int),
        start <= j,
        j as int <= script@.len(),
{
    let n = script.unicode_len();
    let mut j = start;
    while j < n
        invariant_except_break
            start <= j <= n,
            n as int == script@.len(),
            scan_string_end(script@, start as int) == scan_string_end(script@, j as int),
        ensures
            start <= j <= n,
            n as int == script@.len(),
            scan_string_end(script@, start as int) == scan_string_end(script@, j as int),
            j == n || script@[j as int] == '"',
        decreases n - j,
    {
        let c = script.get_char(j);
        if c == '"' {
            break;
        }
        j += 1;
    }
    j
}

pub(crate) fn find_line_end(script: &str, start: usize) -> (j: usize)
    requires
        start as int <= script@.len(),
    ensures
        j as int == scan_line_end(script@, start as int),
        start <= j,
        j as int <= script@.len(),
{
    let n = script.unicode_len();
    let mut j = start;
    while j < n
        invariant_except_break
            start <= j <= n,
            n as int == script@.len(),
            scan_line_end(script@, start as int) == scan_line_end(script@, j as int),
        ensures
            start <= j <= n,
            n as int == script@.len(),
            scan_line_end(script@, start as int) == scan_line_end(script@, j as int),
            j == n || script@[j as int] == '\n',
        decreases n - j,
    {
        let c = script.get_char(j);
        if c == '\n' {
            break;
        }
        j += 1;
    }
    j
}

proof fn lemma_step(s: Seq<char>, pre: Seq<SpecToken>, t: SpecToken, i0: int, ni: int)
    requires
        spec_tokenize(s, 0) == cat_tokens(pre, spec_tokenize(s, i0)),
        spec_tokenize(s, i0) == cat_tokens(seq![t], spec_tokenize(s, ni)),
    ensures
        spec_tokenize(s, 0) == cat_tokens(pre.push(t), spec_tokenize(s, ni)),
{
    match spec_tokenize(s, ni) {
        Option::Some(r) => {
            assert(pre + (seq![t] + r) =~= pre.push(t) + r);
        },
        Option::None => {},
    }
}

/// Lex the whole text into tokens, ending with a single `EOF` token.
/// An integer literal beyond the 32-bit signed range is the one fatal
/// lexical error.
pub fn tokenize(script: &str) -> (r: Result<Vec<Token>, CompileError>)
    ensures
        match r {
            Ok(toks) => spec_tokenize(script@, 0) == Option::Some(view_tokens(toks@)),
            Err(e) => spec_tokenize(script@, 0) is None && e@ is IntegerOutOfRange,
        },
{
    let ghost s = script@;
    let n = script.unicode_len();
    let mut tokens: Vec<Token> = Vec::new();
    let mut i: usize = 0;
    while i < n
        invariant
            i <= n,
            n as int == s.len(),
            s == script@,
            spec_tokenize(s, 0) == cat_tokens(view_tokens(tokens@), spec_tokenize(s, i as int)),
        decreases n - i,
    {
        let ghost i0 = i as int;
        let ghost pre = view_tokens(tokens@);
        let c = script.get_char(i);
        if c == ' ' || c == '\n' || c == '\t' {
            i += 1;
        } else if c == '(' {
            tokens.push(Token::ParentOpen);
            i += 1;
            proof {
                lemma_step(s, pre, SpecToken::ParentOpen, i0, i as int);
                assert(view_tokens(tokens@) =~= pre.push(SpecToken::ParentOpen));
            }
        } else if c == ')' {
            tokens.push(Token::ParentClose);
            i += 1;
            proof {
                lemma_step(s, pre, SpecToken::ParentClose, i0, i as int);
                assert(view_tokens(tokens@) =~= pre.push(SpecToken::ParentClose));
            }
        } else if c == '{' {
            tokens.push(Token::CurlyOpen);
            i += 1;
            proof {
                lemma_step(s, pre, SpecToken::CurlyOpen, i0, i as int);
                assert(view_tokens(tokens@) =~= pre.push(SpecToken::CurlyOpen));
            }
        } else if c == '}' {
            tokens.push(Token::CurlyClose);
            i += 1;
            proof {
                lemma_step(s, pre, SpecToken::CurlyClose, i0, i as int);
                assert(view_tokens(tokens@) =~= pre.push(SpecToken::CurlyClose));
            }
        } else if c == ',' {
            tokens.push(Token::Comma);
            i += 1;
            proof {
                lemma_step(s, pre, SpecToken::Comma, i0, i as int);
                assert(view_tokens(tokens@) =~= pre.push(SpecToken::Comma));
            }
        } else if c == ';' {
            tokens.push(Token::Semicolon);
            i += 1;
            proof {
                lemma_step(s, pre, SpecToken::Semicolon, i0, i as int);
                assert(view_tokens(tokens@) =~= pre.push(SpecToken::Semicolon));
            }
        } else if c == ':' {
            tokens.push(Token::Colon);
            i += 1;
            proof {
                lemma_step(s, pre, SpecToken::Colon, i0, i as int);
                assert(view_tokens(tokens@) =~= pre.push(SpecToken::Colon));
            }
        } else if c == '=' {
            tokens.push(Token::Equals);
            i += 1;
            proof {
                lemma_step(s, pre, SpecToken::Equals, i0, i as int);
                assert(view_tokens(tokens@) =~= pre.push(SpecToken::Equals));
            }
        } else if c == '[' {
            tokens.push(Token::BracketOpen);
            i += 1;
            proof {
                lemma_step(s, pre, SpecToken::BracketOpen, i0, i as int);
                assert(view_tokens(tokens@) =~= pre.push(SpecToken::BracketOpen));
            }
        } else if c == ']' {
            tokens.push(Token::BracketClose);
            i += 1;
            proof {
                lemma_step(s, pre, SpecToken::BracketClose, i0, i as int);
                assert(view_tokens(tokens@) =~= pre.push(SpecToken::BracketClose));
            }
        } else if c == '$' {
            let j = find_name_end(script, i + 1);
            let name = script.substring_char(i + 1, j).to_owned();
            let ghost t = SpecToken::Syscall(s.subrange(i0 + 1, j as int));
            tokens.push(Token::Syscall(name));
            i = j;
            proof {
                lemma_step(s, pre, t, i0, i as int);
                assert(view_tokens(tokens@) =~= pre.push(t));
            }
        } else if c == '"' {
            let j = find_string_end(script, i + 1);
            let content = script.substring_char(i + 1, j).to_owned();
            let ghost t = SpecToken::StrContainer(s.subrange(i0 + 1, j as int));
            tokens.push(Token::StrContainer(content));
            i = if j < n {
                j + 1
            } else {
                j
            };
            proof {
                lemma_step(s, pre, t, i0, i as int);
                assert(view_tokens(tokens@) =~= pre.push(t));
            }
        } else if c == '/' {
            let second = if i + 1 < n {
                let c2 = script.get_char(i + 1);
                c2 == '/'
            } else {
                false
            };
            if second {
                let j = find_line_end(script, i + 2);
                i = j;
            } else {
                tokens.push(Token::Unknown);
                i += 1;
                proof {
                    lemma_step(s, pre, SpecToken::Unknown, i0, i as int);
                    assert(view_tokens(tokens@) =~= pre.push(SpecToken::Unknown));
                }
            }
        } else if c == '\'' {
            let closed = if n - i > 2 {
                let c1 = script.get_char(i + 1);
                let c2 = script.get_char(i + 2);
                c2 == '\'' && c1 != '\''
            } else {
                false
            };
            if closed {
                let c1 = script.get_char(i + 1);
                let ghost t = SpecToken::CharContainer(s[i0 + 1]);
                tokens.push(Token::CharContainer(c1));
                i += 3;
                proof {
                    lemma_step(s, pre, t, i0, i as int);
                    assert(view_tokens(tokens@) =~= pre.push(t));
                }
            } else {
                tokens.push(Token::Unknown);
                i += 1;
                proof {
                    lemma_step(s, pre, SpecToken::Unknown, i0, i as int);
                    assert(view_tokens(tokens@) =~= pre.push(SpecToken::Unknown));
                }
            }
        } else if is_alphabetic(c) || c == '_' {
            let j = find_name_end(script, i + 1);
            let word = script.substring_char(i, j).to_owned();
            let ghost w = s.subrange(i0, j as int);
            let t = if str_eq(word.as_str(), "fn") {
                Token::Function
            } else if str_eq(word.as_str(), "asm") {
                Token::InlineAsm
            } else if str_eq(word.as_str(), "mut") {
                Token::Mut
            } else if str_eq(word.as_str(), "true") {
                Token::BoolContainer(true)
            } else if str_eq(word.as_str(), "false") {
                Token::BoolContainer(false)
            } else if str_eq(word.as_str(), "bool") {
                Token::Bool
            } else if str_eq(word.as_str(), "char") {
                Token::Char
            } else if str_eq(word.as_str(), "str") {
                Token::Str
            } else if str_eq(word.as_str(), "int8") {
                Token::Int8
            } else if str_eq(word.as_str(), "int16") {
                Token::Int16
            } else if str_eq(word.as_str(), "int32") {
                Token::Int32
            } else {
                Token::Identifier(word)
            };
            assert(t@ == keyword_token(w));
            tokens.push(t);
            i = j;
            proof {
                lemma_step(s, pre, keyword_token(w), i0, i as int);
                assert(view_tokens(tokens@) =~= pre.push(keyword_token(w)));
            }
        } else if c >= '0' && c <= '9' {
            let j = find_digits_end(script, i + 1);
            proof {
                lemma_scan_digits_chars(s, i0 + 1);
            }
            let ghost digits = s.subrange(i0, j as int);
            let mut acc: u64 = 0;
            let mut k: usize = i;
            let mut too_big = false;
            while k < j
                invariant_except_break
                    i <= k <= j,
                    j as int <= s.len(),
                    s == script@,
                    i as int == i0,
                    is_dec_digit(s[i0]),
                    forall|m: int| i0 + 1 <= m < j as int ==> is_dec_digit(s[m]),
                    !too_big,
                    acc == dec_value(s.subrange(i0, k as int)),
                    acc <= 2147483647,
                ensures
                    i <= k <= j,
                    s == script@,
                    (!too_big ==> k == j && acc == dec_value(s.subrange(i0, j as int)) && acc
                        <= 2147483647),
                    (too_big ==> dec_value(s.subrange(i0, j as int)) > 2147483647),
                decreases j - k,
            {
                let ck = script.get_char(k);
                assert(is_dec_digit(ck));
                let d = (ck as u32 - 48) as u64;
                let new_acc = acc * 10 + d;
                proof {
                    assert(s.subrange(i0, k as int + 1).drop_last() =~= s.subrange(i0, k as int));
                }
                if new_acc > 2147483647 {
                    too_big = true;
                    proof {
                        lemma_dec_value_grows(s, i0, k as int + 1, j as int);
                    }
                    break;
                }
                acc = new_acc;
                k += 1;
            }
            if too_big {
                assert(spec_tokenize(s, i0) is None);
                return Err(CompileError::IntegerOutOfRange);
            }
            let t = if acc <= 127 {
                Token::Int8Container(acc as i8)
            } else if acc <= 32767 {
                Token::Int16Container(acc as i16)
            } else {
                Token::Int32Container(acc as i32)
            };
            assert(t@ == classify_int(dec_value(digits)));
            tokens.push(t);
            i = j;
            proof {
                lemma_step(s, pre, classify_int(dec_value(digits)), i0, i as int);
                assert(view_tokens(tokens@) =~= pre.push(classify_int(dec_value(digits))));
            }
        } else {
            tokens.push(Token::Unknown);
            i += 1;
            proof {
                lemma_step(s, pre, SpecToken::Unknown, i0, i as int);
                assert(view_tokens(tokens@) =~= pre.push(SpecToken::Unknown));
            }
        }
    }
    let ghost pre = view_tokens(tokens@);
    tokens.push(Token::EOF);
    proof {
        assert(spec_tokenize(s, i as int) == Option::Some(seq![SpecToken::EOF]));
        assert(view_tokens(tokens@) =~= pre + seq![SpecToken::EOF]);
    }
    Ok(tokens)
}

} // verus!
