//! Synthetic label names for pooled constants, and the byte widths of
//! the base types.

use vstd::prelude::*;
use vstd::string::*;
use crate::parser::is_type_keyword;
use crate::tokenizer::{SpecToken, Token};

verus! {

/// The 62-character alphabet of synthetic name suffixes.
pub open spec fn spec_charset() -> Seq<char> {
    "ABCDEFGHIJKLMNOPQRSTUVWXYZabcdefghijklmnopqrstuvwxyz0123456789"@
}

/// Relies on rand::rng and rand::RngExt::random_range: the result of
/// sampling `0..bound` lies in that range, and the range is non-empty,
/// so the call does not panic.
#[verifier::external_body]
fn random_below(bound: usize) -> (r: usize)
    requires
        bound >= 1,
    ensures
        r < bound,
{
    <rand::rngs::ThreadRng as rand::RngExt>::random_range(&mut rand::rng(), 0..bound)
}

/// A random run of characters from the 62-character alphabet.
fn generate_random_alphanumeric_string(length: usize) -> (s: String)
    ensures
        s@.len() == length,
        forall|i: int| 0 <= i < length ==> spec_charset().contains(#[trigger] s@[i]),
{
    let charset = "ABCDEFGHIJKLMNOPQRSTUVWXYZabcdefghijklmnopqrstuvwxyz0123456789";
    proof {
        reveal_strlit("ABCDEFGHIJKLMNOPQRSTUVWXYZabcdefghijklmnopqrstuvwxyz0123456789");
    }
    let mut s = String::new();
    let mut j: usize = 0;
    while j < length
        invariant
            j <= length,
            s@.len() == j,
            charset@ == spec_charset(),
            charset@.len() == 62,
            forall|i: int| 0 <= i < j ==> spec_charset().contains(#[trigger] s@[i]),
        decreases length - j,
    {
        let idx = random_below(62);
        let piece = charset.substring_char(idx, idx + 1);
        s.append(piece);
        proof {
            assert(piece@[0] == spec_charset()[idx as int]);
            assert(spec_charset().contains(piece@[0]));
        }
        j += 1;
    }
    s
}

/// The shape of a synthetic string-constant label: `str_` and eight
/// characters of the 62-character alphabet.
pub open spec fn is_fresh_name(s: Seq<char>) -> bool {
    s.len() == 12 && s.subrange(0, 4) == "str_"@ && forall|i: int|
        4 <= i < 12 ==> spec_charset().contains(#[trigger] s[i])
}

/// A fresh synthetic label for a pooled string constant.
pub fn generate_str_varname() -> (s: String)
    ensures
        is_fresh_name(s@),
{
    let mut name = "str_".to_owned();
    let suffix = generate_random_alphanumeric_string(8);
    name.append(suffix.as_str());
    proof {
        reveal_strlit("str_");
        assert(name@.subrange(0, 4) =~= "str_"@);
        assert forall|i: int| 4 <= i < 12 implies spec_charset().contains(
            #[trigger] name@[i],
        ) by {
            assert(name@[i] == suffix@[i - 4]);
        }
    }
    name
}

/// A fresh synthetic label for a pooled numeric constant.
pub fn _generate_num_varname() -> (s: String)
    ensures
        s@.len() == 12,
        s@.subrange(0, 4) == "int_"@,
{
    let mut name = "int_".to_owned();
    let suffix = generate_random_alphanumeric_string(8);
    name.append(suffix.as_str());
    proof {
        reveal_strlit("int_");
        assert(name@.subrange(0, 4) =~= "int_"@);
    }
    name
}

/// The storage width of a base type, in bytes. A string is a pointer.
pub open spec fn spec_type_size(t: SpecToken) -> nat {
    match t {
        SpecToken::Bool => 1,
        SpecToken::Char => 1,
        SpecToken::Int8 => 1,
        SpecToken::Int16 => 2,
        SpecToken::Int32 => 4,
        SpecToken::Str => 4,
        _ => 0,
    }
}

/// The storage width of a base type token.
pub fn get_bytes_from_type(token: &Token) -> (r: usize)
    requires
        is_type_keyword(token@),
    ensures
        r as nat == spec_type_size(token@),
{
    match token {
        Token::Bool => 1,
        Token::Char => 1,
        Token::Int8 => 1,
        Token::Int16 => 2,
        Token::Int32 => 4,
        Token::Str => 4,
        _ => {
            proof {
                assert(false);
            }
            0
        },
    }
}

} // verus!
