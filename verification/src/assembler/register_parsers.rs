//! The register token parser: `$` followed by an unsigned decimal
//! index.  The index must fit the one-byte operand encoding; whether
//! it addresses the 32-entry register file is checked when encoding.

use vstd::prelude::*;

use crate::assembler::{ParserError, Token};
use crate::text::{decimal_value, digit_end, lemma_digit_end_bounds, skip_ws, spec_digit_end,
    spec_digits_val, spec_skip_ws};

verus! {

/// From position `i`: skip whitespace, expect `$`, take a nonempty
/// digit run whose value fits a byte, skip trailing whitespace.
pub open spec fn spec_lex_register(s: Seq<char>, i: int) -> Option<(Token, int)> {
    let j = spec_skip_ws(s, i);
    if j < s.len() && s[j] == '$' {
        let k = spec_digit_end(s, j + 1);
        if k == j + 1 {
            None
        } else {
            let v = spec_digits_val(s, j + 1, k);
            if v > 255 {
                None
            } else {
                Some((Token::Register { reg_num: v as u8 }, spec_skip_ws(s, k)))
            }
        }
    } else {
        None
    }
}

/// Lex one register token starting at `from`; on success, the token
/// and the position after its trailing whitespace.
pub fn lex_register(s: &str, from: usize) -> (r: Option<(Token, usize)>)
    requires
        from <= s@.len(),
    ensures
        match r {
            Some((t, p)) => spec_lex_register(s@, from as int) == Some((t, p as int)) && from <= p
                <= s@.len(),
            None => spec_lex_register(s@, from as int) == None::<(Token, int)>,
        },
{
    let j = skip_ws(s, from);
    if j >= s.unicode_len() || s.get_char(j) != '$' {
        return None;
    }
    let k = digit_end(s, j + 1);
    if k == j + 1 {
        return None;
    }
    proof {
        lemma_digit_end_bounds(s@, j as int + 1);
    }
    let value = match decimal_value(s, j + 1, k) {
        Some(v) => v,
        None => {
            return None;
        },
    };
    if value > 255 {
        return None;
    }
    let p = skip_ws(s, k);
    Some((Token::Register { reg_num: value as u8 }, p))
}

/// Parse one register token from the front of `s`; on success, the
/// unparsed remainder and the token.
pub fn register(s: &str) -> (r: Result<(&str, Token), ParserError>)
    ensures
        match r {
            Ok((rest, t)) => (spec_lex_register(s@, 0) matches Some((tok, p)) && t == tok && rest@
                == s@.subrange(p, s@.len() as int)),
            Err(e) => spec_lex_register(s@, 0) == None::<(Token, int)> && e.remainder@ == s@,
        },
{
    match lex_register(s, 0) {
        Some((t, p)) => Ok((s.substring_char(p, s.unicode_len()), t)),
        None => Err(ParserError { remainder: s.to_owned() }),
    }
}

} // verus!
