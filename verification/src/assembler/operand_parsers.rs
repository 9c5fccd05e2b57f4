//! The integer operand parser: `#` followed by a signed decimal
//! literal.  Values must fit a 32-bit signed integer; truncation to
//! the 16-bit operand encoding happens later, when encoding.

use vstd::prelude::*;

use crate::assembler::{ParserError, Token};
use crate::text::{decimal_value, digit_end, lemma_digit_end_bounds, skip_ws, spec_digit_end,
    spec_digits_val, spec_skip_ws};

verus! {

/// From position `i`: skip whitespace, expect `#`, an optional minus
/// sign, and a nonempty digit run whose value fits an `i32`; skip
/// trailing whitespace.
pub open spec fn spec_lex_integer(s: Seq<char>, i: int) -> Option<(Token, int)> {
    let j = spec_skip_ws(s, i);
    if j < s.len() && s[j] == '#' {
        let neg = j + 1 < s.len() && s[j + 1] == '-';
        let d0 = if neg {
            j + 2
        } else {
            j + 1
        };
        let k = spec_digit_end(s, d0);
        if k == d0 {
            None
        } else {
            let v = spec_digits_val(s, d0, k);
            if neg {
                if v > 0x8000_0000 {
                    None
                } else {
                    Some((Token::IntegerOperand { value: (0 - v) as i32 }, spec_skip_ws(s, k)))
                }
            } else {
                if v > 0x7fff_ffff {
                    None
                } else {
                    Some((Token::IntegerOperand { value: v as i32 }, spec_skip_ws(s, k)))
                }
            }
        }
    } else {
        None
    }
}

/// Lex one integer operand token starting at `from`; on success, the
/// token and the position after its trailing whitespace.
pub fn lex_integer(s: &str, from: usize) -> (r: Option<(Token, usize)>)
    requires
        from <= s@.len(),
    ensures
        match r {
            Some((t, p)) => spec_lex_integer(s@, from as int) == Some((t, p as int)) && from <= p
                <= s@.len(),
            None => spec_lex_integer(s@, from as int) == None::<(Token, int)>,
        },
{
    let j = skip_ws(s, from);
    if j >= s.unicode_len() || s.get_char(j) != '#' {
        return None;
    }
    let neg = j + 1 < s.unicode_len() && s.get_char(j + 1) == '-';
    let d0 = if neg {
        j + 2
    } else {
        j + 1
    };
    let k = digit_end(s, d0);
    if k == d0 {
        return None;
    }
    proof {
        lemma_digit_end_bounds(s@, d0 as int);
    }
    let magnitude = match decimal_value(s, d0, k) {
        Some(v) => v,
        None => {
            return None;
        },
    };
    let p = skip_ws(s, k);
    if neg {
        if magnitude > 0x8000_0000 {
            return None;
        }
        let value = (-(magnitude as i64)) as i32;
        Some((Token::IntegerOperand { value }, p))
    } else {
        if magnitude > 0x7fff_ffff {
            return None;
        }
        Some((Token::IntegerOperand { value: magnitude as i32 }, p))
    }
}

/// Parse one integer operand token from the front of `s`; on success,
/// the unparsed remainder and the token.
pub fn integer_operand(s: &str) -> (r: Result<(&str, Token), ParserError>)
    ensures
        match r {
            Ok((rest, t)) => (spec_lex_integer(s@, 0) matches Some((tok, p)) && t == tok && rest@
                == s@.subrange(p, s@.len() as int)),
            Err(e) => spec_lex_integer(s@, 0) == None::<(Token, int)> && e.remainder@ == s@,
        },
{
    match lex_integer(s, 0) {
        Some((t, p)) => Ok((s.substring_char(p, s.unicode_len()), t)),
        None => Err(ParserError { remainder: s.to_owned() }),
    }
}

} // verus!
