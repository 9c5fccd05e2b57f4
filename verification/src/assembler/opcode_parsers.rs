//! The opcode token parser: a maximal alphabetic run, resolved through
//! the opcode table.  Unrecognized mnemonics resolve to the `IGL`
//! sentinel rather than failing, so a typo parses and halts at run time.

use vstd::prelude::*;

use crate::assembler::{ParserError, Token};
use crate::instruction::{spec_opcode_from_mnemonic, Opcode};
use crate::text::{alpha_end, skip_ws, spec_alpha_end, spec_skip_ws};

verus! {

/// From position `i`: skip whitespace, take a nonempty alphabetic run
/// as the mnemonic, skip trailing whitespace.  `None` when no
/// alphabetic character starts the token.
pub open spec fn spec_lex_opcode(s: Seq<char>, i: int) -> Option<(Token, int)> {
    let j = spec_skip_ws(s, i);
    let k = spec_alpha_end(s, j);
    if k == j {
        None
    } else {
        Some(
            (
                Token::Op { code: spec_opcode_from_mnemonic(s.subrange(j, k)) },
                spec_skip_ws(s, k),
            ),
        )
    }
}

/// Lex one opcode token starting at `from`; on success, the token and
/// the position after its trailing whitespace.
pub fn lex_opcode(s: &str, from: usize) -> (r: Option<(Token, usize)>)
    requires
        from <= s@.len(),
    ensures
        match r {
            Some((t, p)) => spec_lex_opcode(s@, from as int) == Some((t, p as int)) && from <= p
                <= s@.len(),
            None => spec_lex_opcode(s@, from as int) == None::<(Token, int)>,
        },
{
    let j = skip_ws(s, from);
    let k = alpha_end(s, j);
    if k == j {
        return None;
    }
    let mnemonic = s.substring_char(j, k);
    let code = Opcode::from_mnemonic(mnemonic);
    let p = skip_ws(s, k);
    Some((Token::Op { code }, p))
}

/// Parse one opcode token from the front of `s`; on success, the
/// unparsed remainder and the token.
pub fn opcode(s: &str) -> (r: Result<(&str, Token), ParserError>)
    ensures
        match r {
            Ok((rest, t)) => (spec_lex_opcode(s@, 0) matches Some((tok, p)) && t == tok && rest@
                == s@.subrange(p, s@.len() as int)),
            Err(e) => spec_lex_opcode(s@, 0) == None::<(Token, int)> && e.remainder@ == s@,
        },
{
    match lex_opcode(s, 0) {
        Some((t, p)) => Ok((s.substring_char(p, s.unicode_len()), t)),
        None => Err(ParserError { remainder: s.to_owned() }),
    }
}

} // verus!
