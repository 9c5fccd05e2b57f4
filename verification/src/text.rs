//! Character classification, string comparison and decimal formatting.
//!
//! The assembler's lexer and the shell's listings both work on plain
//! characters; everything they need from the text layer is collected here,
//! each executable function pinned to a spec-level counterpart.

use vstd::prelude::*;

verus! {

/// Whitespace as the assembler understands it: blanks between tokens.
pub open spec fn spec_is_space(c: char) -> bool {
    c == ' ' || c == '\t' || c == '\r' || c == '\n'
}

pub fn is_space(c: char) -> (r: bool)
    ensures
        r == spec_is_space(c),
{
    c == ' ' || c == '\t' || c == '\r' || c == '\n'
}

/// An alphabetic character; mnemonic tokens are maximal runs of these.
pub open spec fn spec_is_alpha(c: char) -> bool {
    ('a' <= c && c <= 'z') || ('A' <= c && c <= 'Z')
}

pub fn is_alpha(c: char) -> (r: bool)
    ensures
        r == spec_is_alpha(c),
{
    ('a' <= c && c <= 'z') || ('A' <= c && c <= 'Z')
}

/// A decimal digit.
pub open spec fn spec_is_digit(c: char) -> bool {
    '0' <= c && c <= '9'
}

pub fn is_digit(c: char) -> (r: bool)
    ensures
        r == spec_is_digit(c),
{
    '0' <= c && c <= '9'
}

/// The numeric value of a decimal digit.
pub open spec fn spec_digit_val(c: char) -> int {
    c as int - '0' as int
}

/// A hexadecimal digit (either case).
pub open spec fn spec_is_hex_digit(c: char) -> bool {
    spec_is_digit(c) || ('a' <= c && c <= 'f') || ('A' <= c && c <= 'F')
}

pub fn is_hex_digit(c: char) -> (r: bool)
    ensures
        r == spec_is_hex_digit(c),
{
    is_digit(c) || ('a' <= c && c <= 'f') || ('A' <= c && c <= 'F')
}

/// The numeric value of a hexadecimal digit.
pub open spec fn spec_hex_digit_val(c: char) -> int {
    if spec_is_digit(c) {
        c as int - '0' as int
    } else if 'a' <= c && c <= 'f' {
        c as int - 'a' as int + 10
    } else {
        c as int - 'A' as int + 10
    }
}

pub fn hex_digit_val(c: char) -> (v: u32)
    requires
        spec_is_hex_digit(c),
    ensures
        v == spec_hex_digit_val(c),
        v < 16,
{
    if is_digit(c) {
        c as u32 - '0' as u32
    } else if 'a' <= c && c <= 'f' {
        c as u32 - 'a' as u32 + 10
    } else {
        c as u32 - 'A' as u32 + 10
    }
}

pub fn digit_val(c: char) -> (v: u32)
    requires
        spec_is_digit(c),
    ensures
        v == spec_digit_val(c),
        v < 10,
{
    c as u32 - '0' as u32
}

/// The position of the first non-whitespace character at or after `i`,
/// or the end of the text.
pub open spec fn spec_skip_ws(s: Seq<char>, i: int) -> int
    decreases s.len() - i when 0 <= i <= s.len()
{
    if i >= s.len() {
        i
    } else if spec_is_space(s[i]) {
        spec_skip_ws(s, i + 1)
    } else {
        i
    }
}

/// The end of the maximal alphabetic run starting at `i`.
pub open spec fn spec_alpha_end(s: Seq<char>, i: int) -> int
    decreases s.len() - i when 0 <= i <= s.len()
{
    if i >= s.len() {
        i
    } else if spec_is_alpha(s[i]) {
        spec_alpha_end(s, i + 1)
    } else {
        i
    }
}

/// The end of the maximal decimal-digit run starting at `i`.
pub open spec fn spec_digit_end(s: Seq<char>, i: int) -> int
    decreases s.len() - i when 0 <= i <= s.len()
{
    if i >= s.len() {
        i
    } else if spec_is_digit(s[i]) {
        spec_digit_end(s, i + 1)
    } else {
        i
    }
}

/// `spec_digit_end` never moves backward, never passes the end, and
/// everything it spans is a digit.
pub proof fn lemma_digit_end_bounds(s: Seq<char>, i: int)
    requires
        0 <= i <= s.len(),
    ensures
        i <= spec_digit_end(s, i) <= s.len(),
        forall|j: int| i <= j < spec_digit_end(s, i) ==> spec_is_digit(s[j]),
    decreases s.len() - i,
{
    if i < s.len() && spec_is_digit(s[i]) {
        lemma_digit_end_bounds(s, i + 1);
    }
}

/// The position of the first occurrence of `needle` at or after `i`,
/// or the end of the text.
pub open spec fn spec_find_char(s: Seq<char>, i: int, needle: char) -> int
    decreases s.len() - i when 0 <= i <= s.len()
{
    if i >= s.len() {
        i
    } else if s[i] == needle {
        i
    } else {
        spec_find_char(s, i + 1, needle)
    }
}

/// `spec_find_char` never moves backward and never passes the end.
pub proof fn lemma_find_char_bounds(s: Seq<char>, i: int, needle: char)
    requires
        0 <= i <= s.len(),
    ensures
        i <= spec_find_char(s, i, needle) <= s.len(),
    decreases s.len() - i,
{
    if i < s.len() && s[i] != needle {
        lemma_find_char_bounds(s, i + 1, needle);
    }
}

/// The pieces of `s[i..]`, split on `sep`; text without a trailing
/// separator still forms a final piece, so even empty text is one
/// (empty) piece.
pub open spec fn spec_split_from(s: Seq<char>, i: int, sep: char) -> Seq<Seq<char>>
    decreases s.len() - i when 0 <= i <= s.len() via spec_split_from_decreases
{
    let j = spec_find_char(s, i, sep);
    if j >= s.len() {
        seq![s.subrange(i, s.len() as int)]
    } else {
        seq![s.subrange(i, j)] + spec_split_from(s, j + 1, sep)
    }
}

#[via_fn]
proof fn spec_split_from_decreases(s: Seq<char>, i: int, sep: char) {
    lemma_find_char_bounds(s, i, sep);
}

/// The pieces of `s`, split on `sep`.
pub open spec fn spec_split(s: Seq<char>, sep: char) -> Seq<Seq<char>> {
    spec_split_from(s, 0, sep)
}

/// Split text into the pieces between occurrences of `sep`.
pub fn split_on(s: &str, sep: char) -> (r: Vec<&str>)
    ensures
        r@.map_values(|l: &str| l@) == spec_split(s@, sep),
{
    let mut pieces: Vec<&str> = Vec::new();
    let mut cur: usize = 0;
    let mut done = false;
    let len = s.unicode_len();
    while !done
        invariant
            cur <= len,
            len == s@.len(),
            done ==> pieces@.map_values(|l: &str| l@) == spec_split(s@, sep),
            !done ==> pieces@.map_values(|l: &str| l@) + spec_split_from(s@, cur as int, sep)
                == spec_split(s@, sep),
        decreases len - cur + (if done { 0int } else { 1int }),
    {
        let j = find_char(s, cur, sep);
        let piece = s.substring_char(cur, j);
        let ghost before = pieces@.map_values(|l: &str| l@);
        pieces.push(piece);
        proof {
            assert(pieces@.map_values(|l: &str| l@) =~= before.push(piece@));
        }
        if j == len {
            done = true;
            proof {
                assert(spec_split_from(s@, cur as int, sep) =~= seq![
                    s@.subrange(cur as int, len as int),
                ]);
                assert(pieces@.map_values(|l: &str| l@) =~= spec_split(s@, sep));
            }
        } else {
            proof {
                assert(before.push(piece@) + spec_split_from(s@, j as int + 1, sep)
                    =~= before + spec_split_from(s@, cur as int, sep));
            }
            cur = j + 1;
        }
    }
    pieces
}

/// The value of the decimal digit run `s[i..j)`, most significant
/// digit first.
pub open spec fn spec_digits_val(s: Seq<char>, i: int, j: int) -> int
    decreases j - i when i <= j
{
    if i >= j {
        0
    } else {
        spec_digits_val(s, i, j - 1) * 10 + spec_digit_val(s[j - 1])
    }
}

/// A digit run's value is never negative.
pub proof fn lemma_digits_val_nonneg(s: Seq<char>, i: int, j: int)
    requires
        i <= j,
        forall|k: int| i <= k < j ==> spec_is_digit(s[k]),
    ensures
        spec_digits_val(s, i, j) >= 0,
    decreases j - i,
{
    if i < j {
        lemma_digits_val_nonneg(s, i, j - 1);
    }
}

/// Extending a digit run to the right never lowers its value.
pub proof fn lemma_digits_val_extend(s: Seq<char>, i: int, j: int, k: int)
    requires
        i <= j <= k,
        forall|m: int| i <= m < k ==> spec_is_digit(s[m]),
    ensures
        spec_digits_val(s, i, k) >= spec_digits_val(s, i, j),
    decreases k - j,
{
    if j < k {
        lemma_digits_val_extend(s, i, j, k - 1);
        lemma_digits_val_nonneg(s, i, k - 1);
    }
}

/// Move past leading whitespace, starting at `from`.
pub fn skip_ws(s: &str, from: usize) -> (r: usize)
    requires
        from <= s@.len(),
    ensures
        r == spec_skip_ws(s@, from as int),
        from <= r <= s@.len(),
{
    let len = s.unicode_len();
    let mut i = from;
    while i < len && is_space(s.get_char(i))
        invariant
            from <= i <= len,
            len == s@.len(),
            spec_skip_ws(s@, from as int) == spec_skip_ws(s@, i as int),
        decreases len - i,
    {
        i += 1;
    }
    i
}

/// The end of the alphabetic run starting at `from`.
pub fn alpha_end(s: &str, from: usize) -> (r: usize)
    requires
        from <= s@.len(),
    ensures
        r == spec_alpha_end(s@, from as int),
        from <= r <= s@.len(),
{
    let len = s.unicode_len();
    let mut i = from;
    while i < len && is_alpha(s.get_char(i))
        invariant
            from <= i <= len,
            len == s@.len(),
            spec_alpha_end(s@, from as int) == spec_alpha_end(s@, i as int),
        decreases len - i,
    {
        i += 1;
    }
    i
}

/// The end of the decimal-digit run starting at `from`.
pub fn digit_end(s: &str, from: usize) -> (r: usize)
    requires
        from <= s@.len(),
    ensures
        r == spec_digit_end(s@, from as int),
        from <= r <= s@.len(),
{
    let len = s.unicode_len();
    let mut i = from;
    while i < len && is_digit(s.get_char(i))
        invariant
            from <= i <= len,
            len == s@.len(),
            spec_digit_end(s@, from as int) == spec_digit_end(s@, i as int),
        decreases len - i,
    {
        i += 1;
    }
    i
}

/// The position of the first occurrence of `needle` at or after `from`.
pub fn find_char(s: &str, from: usize, needle: char) -> (r: usize)
    requires
        from <= s@.len(),
    ensures
        r == spec_find_char(s@, from as int, needle),
        from <= r <= s@.len(),
{
    let len = s.unicode_len();
    let mut i = from;
    while i < len && s.get_char(i) != needle
        invariant
            from <= i <= len,
            len == s@.len(),
            spec_find_char(s@, from as int, needle) == spec_find_char(s@, i as int, needle),
        decreases len - i,
    {
        i += 1;
    }
    i
}

/// The value of the digit run `s[from..to)`, or `None` if it exceeds
/// `u32::MAX` (in which case the run's value exceeds any bound the
/// callers accept).
pub fn decimal_value(s: &str, from: usize, to: usize) -> (r: Option<u32>)
    requires
        from <= to <= s@.len(),
        forall|k: int| from <= k < to ==> spec_is_digit(s@[k]),
    ensures
        match r {
            Some(v) => v == spec_digits_val(s@, from as int, to as int),
            None => spec_digits_val(s@, from as int, to as int) > u32::MAX,
        },
{
    let mut acc: u32 = 0;
    let mut i = from;
    while i < to
        invariant
            from <= i <= to <= s@.len(),
            forall|k: int| from <= k < to ==> spec_is_digit(s@[k]),
            acc == spec_digits_val(s@, from as int, i as int),
        decreases to - i,
    {
        let d = digit_val(s.get_char(i));
        let shifted = match acc.checked_mul(10) {
            Some(x) => x,
            None => {
                proof {
                    lemma_digits_val_extend(s@, from as int, i as int + 1, to as int);
                    lemma_digits_val_nonneg(s@, from as int, i as int);
                }
                return None;
            },
        };
        acc = match shifted.checked_add(d) {
            Some(x) => x,
            None => {
                proof {
                    lemma_digits_val_extend(s@, from as int, i as int + 1, to as int);
                }
                return None;
            },
        };
        i += 1;
    }
    Some(acc)
}

/// The value of the hexadecimal digit run `s[i..j)`, most significant
/// digit first.
pub open spec fn spec_hex_val(s: Seq<char>, i: int, j: int) -> int
    decreases j - i when i <= j
{
    if i >= j {
        0
    } else {
        spec_hex_val(s, i, j - 1) * 16 + spec_hex_digit_val(s[j - 1])
    }
}

/// A hexadecimal run's value is never negative.
pub proof fn lemma_hex_val_nonneg(s: Seq<char>, i: int, j: int)
    requires
        i <= j,
        forall|k: int| i <= k < j ==> spec_is_hex_digit(s[k]),
    ensures
        spec_hex_val(s, i, j) >= 0,
    decreases j - i,
{
    if i < j {
        lemma_hex_val_nonneg(s, i, j - 1);
    }
}

/// Extending a hexadecimal run to the right never lowers its value.
pub proof fn lemma_hex_val_extend(s: Seq<char>, i: int, j: int, k: int)
    requires
        i <= j <= k,
        forall|m: int| i <= m < k ==> spec_is_hex_digit(s[m]),
    ensures
        spec_hex_val(s, i, k) >= spec_hex_val(s, i, j),
    decreases k - j,
{
    if j < k {
        lemma_hex_val_extend(s, i, j, k - 1);
        lemma_hex_val_nonneg(s, i, k - 1);
    }
}

/// The character of one decimal digit.
pub open spec fn spec_digit_char(d: int) -> char {
    if d == 0 {
        '0'
    } else if d == 1 {
        '1'
    } else if d == 2 {
        '2'
    } else if d == 3 {
        '3'
    } else if d == 4 {
        '4'
    } else if d == 5 {
        '5'
    } else if d == 6 {
        '6'
    } else if d == 7 {
        '7'
    } else if d == 8 {
        '8'
    } else {
        '9'
    }
}

/// The text of one decimal digit.
pub fn digit_str(d: u32) -> (r: &'static str)
    requires
        d < 10,
    ensures
        r@ == seq![spec_digit_char(d as int)],
{
    proof {
        reveal_strlit("0");
        reveal_strlit("1");
        reveal_strlit("2");
        reveal_strlit("3");
        reveal_strlit("4");
        reveal_strlit("5");
        reveal_strlit("6");
        reveal_strlit("7");
        reveal_strlit("8");
        reveal_strlit("9");
        assert(("0")@ =~= seq!['0']);
        assert(("1")@ =~= seq!['1']);
        assert(("2")@ =~= seq!['2']);
        assert(("3")@ =~= seq!['3']);
        assert(("4")@ =~= seq!['4']);
        assert(("5")@ =~= seq!['5']);
        assert(("6")@ =~= seq!['6']);
        assert(("7")@ =~= seq!['7']);
        assert(("8")@ =~= seq!['8']);
        assert(("9")@ =~= seq!['9']);
    }
    match d {
        0 => "0",
        1 => "1",
        2 => "2",
        3 => "3",
        4 => "4",
        5 => "5",
        6 => "6",
        7 => "7",
        8 => "8",
        _ => "9",
    }
}

/// The decimal digits of `n`, most significant first, with no sign
/// and no leading zeros (a lone zero for zero).
pub open spec fn spec_dec_digits(n: nat) -> Seq<char>
    decreases n,
{
    if n < 10 {
        seq![spec_digit_char(n as int)]
    } else {
        spec_dec_digits(n / 10).push(spec_digit_char((n % 10) as int))
    }
}

/// The decimal text of a signed value: a minus sign, if any, then
/// the digits of the magnitude.
pub open spec fn spec_i32_dec(v: int) -> Seq<char> {
    if v < 0 {
        seq!['-'] + spec_dec_digits((-v) as nat)
    } else {
        spec_dec_digits(v as nat)
    }
}

/// The digit characters of a collected digit list, reversed.
pub open spec fn spec_rev_digit_chars(ds: Seq<u32>) -> Seq<char>
    decreases ds.len(),
{
    if ds.len() == 0 {
        Seq::empty()
    } else {
        spec_rev_digit_chars(ds.drop_first()) + seq![spec_digit_char(ds[0] as int)]
    }
}

/// Pushing a digit onto the list puts its character at the front of
/// the reversal.
proof fn lemma_rev_digit_chars_push(ds: Seq<u32>, d: u32)
    ensures
        spec_rev_digit_chars(ds.push(d)) == seq![spec_digit_char(d as int)]
            + spec_rev_digit_chars(ds),
    decreases ds.len(),
{
    if ds.len() == 0 {
        assert(ds.push(d).drop_first() =~= ds);
        assert(ds.push(d)[0] == d);
        assert(spec_rev_digit_chars(ds.push(d)) == spec_rev_digit_chars(ds.push(d).drop_first())
            + seq![spec_digit_char(ds.push(d)[0] as int)]);
        assert(spec_rev_digit_chars(ds.push(d)) =~= seq![spec_digit_char(d as int)]
            + spec_rev_digit_chars(ds));
    } else {
        lemma_rev_digit_chars_push(ds.drop_first(), d);
        assert(ds.push(d).drop_first() =~= ds.drop_first().push(d));
        assert(ds.push(d)[0] == ds[0]);
        assert(spec_rev_digit_chars(ds.push(d)) == spec_rev_digit_chars(ds.push(d).drop_first())
            + seq![spec_digit_char(ds.push(d)[0] as int)]);
        assert(spec_rev_digit_chars(ds.push(d).drop_first()) == seq![spec_digit_char(d as int)]
            + spec_rev_digit_chars(ds.drop_first()));
        assert(spec_rev_digit_chars(ds.push(d)) =~= seq![spec_digit_char(d as int)]
            + spec_rev_digit_chars(ds));
    }
}

/// The decimal text of an unsigned value.
pub fn u32_to_decimal(n: u32) -> (r: String)
    ensures
        r@ == spec_dec_digits(n as nat),
{
    let mut rest = n;
    let mut collected: Vec<u32> = Vec::new();
    proof {
        assert(spec_dec_digits(n as nat) =~= spec_dec_digits(rest as nat)
            + spec_rev_digit_chars(collected@));
    }
    while rest >= 10
        invariant
            forall|j: int| 0 <= j < collected@.len() ==> collected@[j] < 10,
            spec_dec_digits(n as nat) == spec_dec_digits(rest as nat) + spec_rev_digit_chars(
                collected@,
            ),
        decreases rest,
    {
        let d = rest % 10;
        let ghost prev = collected@;
        let ghost prev_rest = rest;
        collected.push(d);
        rest = rest / 10;
        proof {
            lemma_rev_digit_chars_push(prev, d);
            assert(spec_dec_digits(prev_rest as nat) =~= spec_dec_digits(rest as nat) + seq![
                spec_digit_char(d as int),
            ]);
            assert(spec_dec_digits(rest as nat) + spec_rev_digit_chars(collected@)
                =~= spec_dec_digits(prev_rest as nat) + spec_rev_digit_chars(prev));
        }
    }
    let mut out = String::from_str(digit_str(rest));
    let mut j = collected.len();
    proof {
        assert(collected@.skip(j as int) =~= Seq::<u32>::empty());
        assert(out@ =~= seq![spec_digit_char(rest as int)] + spec_rev_digit_chars(
            collected@.skip(j as int),
        ));
    }
    while j > 0
        invariant
            j <= collected@.len(),
            rest < 10,
            forall|k: int| 0 <= k < collected@.len() ==> collected@[k] < 10,
            spec_dec_digits(n as nat) == spec_dec_digits(rest as nat) + spec_rev_digit_chars(
                collected@,
            ),
            out@ == seq![spec_digit_char(rest as int)] + spec_rev_digit_chars(
                collected@.skip(j as int),
            ),
        decreases j,
    {
        j -= 1;
        out.append(digit_str(collected[j]));
        proof {
            assert(collected@.skip(j as int).drop_first() =~= collected@.skip(j as int + 1));
            assert(out@ =~= seq![spec_digit_char(rest as int)] + spec_rev_digit_chars(
                collected@.skip(j as int),
            ));
        }
    }
    proof {
        assert(collected@.skip(0) =~= collected@);
        assert(out@ =~= spec_dec_digits(n as nat));
    }
    out
}

/// The decimal text of a signed 32-bit value.
pub fn i32_to_decimal(v: i32) -> (r: String)
    ensures
        r@ == spec_i32_dec(v as int),
{
    if v >= 0 {
        u32_to_decimal(v as u32)
    } else {
        let magnitude = (-(v as i64)) as u32;
        let mut out = String::from_str("-");
        let digits = u32_to_decimal(magnitude);
        out.append(digits.as_str());
        proof {
            reveal_strlit("-");
            assert(("-")@ =~= seq!['-']);
            assert(out@ =~= spec_i32_dec(v as int));
        }
        out
    }
}

/// The position after the last non-whitespace character of `s[..i]`.
pub open spec fn spec_trim_end(s: Seq<char>, i: int) -> int
    decreases i when 0 <= i <= s.len()
{
    if i <= 0 {
        0
    } else if spec_is_space(s[i - 1]) {
        spec_trim_end(s, i - 1)
    } else {
        i
    }
}

/// The text with leading and trailing whitespace removed.
pub open spec fn spec_trim(s: Seq<char>) -> Seq<char> {
    let a = spec_skip_ws(s, 0);
    let b = spec_trim_end(s, s.len() as int);
    if a <= b {
        s.subrange(a, b)
    } else {
        Seq::empty()
    }
}

/// Remove leading and trailing whitespace.
pub fn trim(s: &str) -> (r: &str)
    ensures
        r@ == spec_trim(s@),
{
    let a = skip_ws(s, 0);
    let len = s.unicode_len();
    let mut b = len;
    while b > 0 && is_space(s.get_char(b - 1))
        invariant
            b <= len,
            len == s@.len(),
            spec_trim_end(s@, len as int) == spec_trim_end(s@, b as int),
        decreases b,
    {
        b -= 1;
    }
    if a <= b {
        s.substring_char(a, b)
    } else {
        let r = s.substring_char(0, 0);
        proof {
            assert(r@ =~= spec_trim(s@));
        }
        r
    }
}

/// Character-for-character string equality.
pub fn str_eq(a: &str, b: &str) -> (r: bool)
    ensures
        r == (a@ == b@),
{
    let a_len = a.unicode_len();
    let b_len = b.unicode_len();
    if a_len != b_len {
        return false;
    }
    let mut i: usize = 0;
    while i < a_len
        invariant
            i <= a_len,
            a_len == a@.len(),
            a_len == b@.len(),
            forall|j: int| 0 <= j < i ==> a@[j] == b@[j],
        decreases a_len - i,
    {
        if a.get_char(i) != b.get_char(i) {
            return false;
        }
        i += 1;
    }
    proof {
        assert(a@ =~= b@);
    }
    true
}

} // verus!
