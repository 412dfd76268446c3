//! Lexing: whitespace tokenization, comment stripping, numeric literals
//! (decimal, `@` octal, `$` hexadecimal) and identifiers.

use vstd::prelude::*;

verus! {

/// ASCII whitespace, the characters a source line is split on.
pub open spec fn is_ws(b: u8) -> bool {
    b == 32 || b == 9 || b == 10 || b == 11 || b == 12 || b == 13
}

/// Length of the leading run of non-whitespace bytes.
pub open spec fn first_ws_at(s: Seq<u8>) -> nat
    decreases s.len(),
{
    if s.len() == 0 {
        0
    } else if is_ws(s[0]) {
        0
    } else {
        1 + first_ws_at(s.drop_first())
    }
}

pub proof fn lemma_first_ws_at(s: Seq<u8>)
    ensures
        first_ws_at(s) <= s.len(),
        forall|k: int| 0 <= k < first_ws_at(s) ==> !is_ws(s[k]),
        first_ws_at(s) < s.len() ==> is_ws(s[first_ws_at(s) as int]),
    decreases s.len(),
{
    if s.len() > 0 && !is_ws(s[0]) {
        lemma_first_ws_at(s.drop_first());
        assert forall|k: int| 0 <= k < first_ws_at(s) implies !is_ws(s[k]) by {
            if k > 0 {
                assert(s.drop_first()[k - 1] == s[k]);
            }
        }
        if first_ws_at(s) < s.len() {
            assert(s.drop_first()[first_ws_at(s) - 1] == s[first_ws_at(s) as int]);
        }
    }
}

/// If the first `m` bytes are non-whitespace and byte `m` (if any) is
/// whitespace, the leading run has length exactly `m`.
pub proof fn lemma_first_ws_at_is(s: Seq<u8>, m: int)
    requires
        0 <= m <= s.len(),
        forall|k: int| 0 <= k < m ==> !is_ws(s[k]),
        m == s.len() || is_ws(s[m]),
    ensures
        first_ws_at(s) == m,
    decreases m,
{
    if m == 0 {
    } else {
        assert(!is_ws(s[0]));
        assert forall|k: int| 0 <= k < m - 1 implies !is_ws(s.drop_first()[k]) by {
            assert(s.drop_first()[k] == s[k + 1]);
        }
        if m - 1 < s.drop_first().len() {
            assert(s.drop_first()[m - 1] == s[m]);
        }
        lemma_first_ws_at_is(s.drop_first(), m - 1);
    }
}

/// The whitespace-separated tokens of a byte sequence, in order.
pub open spec fn spec_tokens(s: Seq<u8>) -> Seq<Seq<u8>>
    decreases s.len(),
    via spec_tokens_decreases
{
    if s.len() == 0 {
        Seq::empty()
    } else if is_ws(s[0]) {
        spec_tokens(s.drop_first())
    } else {
        let n = first_ws_at(s) as int;
        seq![s.take(n)] + spec_tokens(s.skip(n))
    }
}

#[via_fn]
proof fn spec_tokens_decreases(s: Seq<u8>) {
    if s.len() > 0 && !is_ws(s[0]) {
        lemma_first_ws_at(s);
    }
}

/// Splits on ASCII whitespace.
pub fn tokenize(text: &Vec<u8>) -> (r: Vec<Vec<u8>>)
    ensures
        r@.map_values(|t: Vec<u8>| t@) == spec_tokens(text@),
{
    let mut r: Vec<Vec<u8>> = Vec::new();
    let mut i: usize = 0;
    proof {
        assert(text@.skip(0) =~= text@);
        assert(r@.map_values(|t: Vec<u8>| t@) + spec_tokens(text@) =~= spec_tokens(text@));
    }
    while i < text.len()
        invariant
            i <= text.len(),
            r@.map_values(|t: Vec<u8>| t@) + spec_tokens(text@.skip(i as int)) == spec_tokens(
                text@,
            ),
        decreases text.len() - i,
    {
        let b = text[i];
        if b == 32 || b == 9 || b == 10 || b == 11 || b == 12 || b == 13 {
            proof {
                assert(text@.skip(i as int).drop_first() =~= text@.skip(i + 1));
                assert(is_ws(text@.skip(i as int)[0]));
            }
            i += 1;
        } else {
            let mut j: usize = i;
            let mut tok: Vec<u8> = Vec::new();
            loop
                invariant
                    i <= j <= text.len(),
                    tok@ == text@.subrange(i as int, j as int),
                    forall|k: int| i <= k < j ==> !is_ws(text@[k]),
                ensures
                    i <= j <= text.len(),
                    tok@ == text@.subrange(i as int, j as int),
                    forall|k: int| i <= k < j ==> !is_ws(text@[k]),
                    j == text.len() || is_ws(text@[j as int]),
                decreases text.len() - j,
            {
                if j == text.len() {
                    break ;
                }
                let c = text[j];
                if c == 32 || c == 9 || c == 10 || c == 11 || c == 12 || c == 13 {
                    break ;
                }
                tok.push(c);
                proof {
                    assert(tok@ =~= text@.subrange(i as int, j + 1));
                }
                j += 1;
            }
            proof {
                let suf = text@.skip(i as int);
                assert forall|k: int| 0 <= k < j - i implies !is_ws(suf[k]) by {
                    assert(suf[k] == text@[i + k]);
                }
                if j - i < suf.len() {
                    assert(suf[j - i] == text@[j as int]);
                }
                lemma_first_ws_at_is(suf, j - i);
                assert(suf.take(j - i) =~= text@.subrange(i as int, j as int));
                assert(suf.skip(j - i) =~= text@.skip(j as int));
                assert(spec_tokens(suf) == seq![tok@] + spec_tokens(text@.skip(j as int)));
            }
            let ghost old_r = r@;
            r.push(tok);
            proof {
                assert(r@.map_values(|t: Vec<u8>| t@) =~= old_r.map_values(|t: Vec<u8>| t@)
                    + seq![text@.subrange(i as int, j as int)]);
            }
            i = j;
        }
    }
    proof {
        assert(text@.skip(text@.len() as int) =~= Seq::<u8>::empty());
        assert(r@.map_values(|t: Vec<u8>| t@) =~= spec_tokens(text@));
    }
    r
}

/// The copy of `v[from..to]`.
pub fn subvec(v: &Vec<u8>, from: usize, to: usize) -> (r: Vec<u8>)
    requires
        from <= to <= v@.len(),
    ensures
        r@ == v@.subrange(from as int, to as int),
{
    let mut r: Vec<u8> = Vec::new();
    let mut i: usize = from;
    while i < to
        invariant
            from <= i <= to <= v@.len(),
            r@ == v@.subrange(from as int, i as int),
        decreases to - i,
    {
        r.push(v[i]);
        proof {
            assert(r@ =~= v@.subrange(from as int, i + 1));
        }
        i += 1;
    }
    r
}

/// Length of the prefix before the first `;`.
pub open spec fn first_semi_at(s: Seq<u8>) -> nat
    decreases s.len(),
{
    if s.len() == 0 {
        0
    } else if s[0] == 59 {
        0
    } else {
        1 + first_semi_at(s.drop_first())
    }
}

pub proof fn lemma_first_semi_at(s: Seq<u8>)
    ensures
        first_semi_at(s) <= s.len(),
        forall|k: int| 0 <= k < first_semi_at(s) ==> s[k] != 59,
        first_semi_at(s) < s.len() ==> s[first_semi_at(s) as int] == 59,
    decreases s.len(),
{
    if s.len() > 0 && s[0] != 59 {
        lemma_first_semi_at(s.drop_first());
        assert forall|k: int| 0 <= k < first_semi_at(s) implies s[k] != 59 by {
            if k > 0 {
                assert(s.drop_first()[k - 1] == s[k]);
            }
        }
        if first_semi_at(s) < s.len() {
            assert(s.drop_first()[first_semi_at(s) - 1] == s[first_semi_at(s) as int]);
        }
    }
}

/// Everything from the first `;` onward is a comment; this keeps the rest.
pub fn strip_comment(text: &Vec<u8>) -> (r: Vec<u8>)
    ensures
        r@ == text@.take(first_semi_at(text@) as int),
{
    let mut r: Vec<u8> = Vec::new();
    let mut i: usize = 0;
    while i < text.len()
        invariant
            i <= text.len(),
            r@ == text@.take(i as int),
            forall|k: int| 0 <= k < i ==> text@[k] != 59,
        decreases text.len() - i,
    {
        let b = text[i];
        if b == 59 {
            proof {
                lemma_first_semi_at(text@);
                let f = first_semi_at(text@) as int;
                if f < i {
                    assert(text@[f] != 59);
                }
                if f > i {
                    assert(text@[i as int] != 59);
                }
            }
            return r;
        }
        r.push(b);
        proof {
            assert(r@ =~= text@.take(i + 1));
        }
        i += 1;
    }
    proof {
        lemma_first_semi_at(text@);
        let f = first_semi_at(text@) as int;
        if f < text@.len() {
            assert(text@[f] != 59);
        }
    }
    r
}

/// A letter, in ASCII.
pub open spec fn is_alpha(b: u8) -> bool {
    (65 <= b <= 90) || (97 <= b <= 122)
}

/// What may start an identifier: a letter or `_`.
pub open spec fn is_ident_start(b: u8) -> bool {
    is_alpha(b) || b == 95
}

/// What may continue an identifier: a letter, a digit or `_`.
pub open spec fn is_ident_char(b: u8) -> bool {
    is_ident_start(b) || (48 <= b <= 57)
}

/// A non-empty token whose first byte starts an identifier and whose
/// remaining bytes continue one.
pub open spec fn spec_is_identifier(s: Seq<u8>) -> bool {
    &&& s.len() > 0
    &&& is_ident_start(s[0])
    &&& forall|k: int| 1 <= k < s.len() ==> is_ident_char(s[k])
}

/// Decides whether a token is a valid (ASCII) identifier.
pub fn string_is_identifier(s: &Vec<u8>) -> (r: bool)
    ensures
        r == spec_is_identifier(s@),
{
    if s.len() == 0 {
        return false;
    }
    let b0 = s[0];
    if !((65 <= b0 && b0 <= 90) || (97 <= b0 && b0 <= 122) || b0 == 95) {
        return false;
    }
    let mut i: usize = 1;
    while i < s.len()
        invariant
            1 <= i <= s.len(),
            spec_is_identifier(s@.take(i as int)),
        decreases s.len() - i,
    {
        let b = s[i];
        if !((65 <= b && b <= 90) || (97 <= b && b <= 122) || b == 95 || (48 <= b && b <= 57)) {
            return false;
        }
        proof {
            let t = s@.take(i + 1);
            assert forall|k: int| 1 <= k < t.len() implies is_ident_char(t[k]) by {
                assert(t[k] == s@[k]);
            }
        }
        i += 1;
    }
    proof {
        assert(s@.take(s@.len() as int) =~= s@);
    }
    true
}

/// The value of one digit byte in the given base, following the scan
/// order of the numeric lexer: `0`-`7` always, `8`-`9` above base 8,
/// `a`-`f` and `A`-`F` only in base 16.
pub open spec fn spec_digit_val(b: u8, base: int) -> Option<int> {
    if 48 <= b <= 55 {
        Some(b - 48)
    } else if base > 8 && 56 <= b <= 57 {
        Some(b - 48)
    } else if base == 16 && 97 <= b <= 102 {
        Some(b - 97 + 10)
    } else if base == 16 && 65 <= b <= 70 {
        Some(b - 65 + 10)
    } else {
        None
    }
}

/// The value of a digit string read left to right, or `None` on the
/// first byte outside the base's digit set. The empty string has value 0.
pub open spec fn spec_num_value(digits: Seq<u8>, base: int) -> Option<int>
    decreases digits.len(),
{
    if digits.len() == 0 {
        Some(0)
    } else {
        match spec_num_value(digits.drop_last(), base) {
            None => None,
            Some(v) => match spec_digit_val(digits.last(), base) {
                None => None,
                Some(d) => Some(v * base + d),
            },
        }
    }
}

/// One invalid digit anywhere makes the whole string invalid.
pub proof fn lemma_num_value_invalid(digits: Seq<u8>, base: int, k: int)
    requires
        0 <= k < digits.len(),
        spec_digit_val(digits[k], base) is None,
    ensures
        spec_num_value(digits, base) is None,
    decreases digits.len(),
{
    if k < digits.len() - 1 {
        assert(digits.drop_last()[k] == digits[k]);
        lemma_num_value_invalid(digits.drop_last(), base, k);
    }
}

/// The base a numeric token is read in: `@` selects octal, `$`
/// hexadecimal, anything else decimal.
pub open spec fn spec_num_base(text: Seq<u8>) -> int {
    if text.len() > 0 && text[0] == 64 {
        8
    } else if text.len() > 0 && text[0] == 36 {
        16
    } else {
        10
    }
}

/// The digit bytes of a numeric token: everything after the base prefix.
pub open spec fn spec_num_digits(text: Seq<u8>) -> Seq<u8> {
    if spec_num_base(text) == 10 {
        text
    } else {
        text.drop_first()
    }
}

/// What `parse_number` returns: the value of a non-empty numeric token
/// that fits in 16 bits, and `None` otherwise.
pub open spec fn spec_parse_number(text: Seq<u8>) -> Option<u16> {
    if text.len() == 0 {
        None
    } else {
        match spec_num_value(spec_num_digits(text), spec_num_base(text)) {
            None => None,
            Some(v) => if v > 0xffff {
                None
            } else {
                Some(v as u16)
            },
        }
    }
}

/// Reads a numeric literal: a leading `@` means octal, `$` hexadecimal,
/// otherwise decimal. Fails on an empty token, on a byte outside the
/// base's digit set, and on a value that does not fit in 16 bits.
pub fn parse_number(text: &Vec<u8>) -> (r: Option<u16>)
    ensures
        r == spec_parse_number(text@),
{
    if text.len() == 0 {
        return None;
    }
    let base: u16;
    let start: usize;
    if text[0] == 64 {
        base = 8;
        start = 1;
    } else if text[0] == 36 {
        base = 16;
        start = 1;
    } else {
        base = 10;
        start = 0;
    }
    proof {
        assert(base as int == spec_num_base(text@));
        assert(text@.skip(start as int) =~= spec_num_digits(text@));
    }
    let ghost digits = spec_num_digits(text@);
    let mut i: usize = start;
    let mut val: u32 = 0;
    let mut over: bool = false;
    while i < text.len()
        invariant
            start <= i <= text.len(),
            base as int == spec_num_base(text@),
            digits == spec_num_digits(text@),
            digits == text@.skip(start as int),
            text@.len() > 0,
            forall|k: int| start <= k < i ==> spec_digit_val(text@[k], base as int) is Some,
            !over ==> spec_num_value(digits.take(i - start), base as int) == Some(val as int)
                && val <= 0xffff,
            over ==> spec_num_value(digits.take(i - start), base as int) is Some
                && spec_num_value(digits.take(i - start), base as int).unwrap() > 0xffff,
        decreases text.len() - i,
    {
        let b = text[i];
        let d: u16;
        if 48 <= b && b <= 55 {
            d = (b - 48) as u16;
        } else if base > 8 && 56 <= b && b <= 57 {
            d = (b - 48) as u16;
        } else if base == 16 && 97 <= b && b <= 102 {
            d = (b - 97) as u16 + 10;
        } else if base == 16 && 65 <= b && b <= 70 {
            d = (b - 65) as u16 + 10;
        } else {
            proof {
                assert(digits[i - start] == text@[i as int]);
                lemma_num_value_invalid(digits, base as int, i - start);
            }
            return None;
        }
        proof {
            assert(spec_digit_val(text@[i as int], base as int) == Some(d as int));
            assert(digits.take(i + 1 - start).drop_last() =~= digits.take(i - start));
            assert(digits.take(i + 1 - start).last() == text@[i as int]);
        }
        if !over {
            assert(val <= 0xffff);
            assert(base <= 16);
            assert(d <= 15);
            let v2: u32 = val * (base as u32) + (d as u32);
            if v2 > 0xffff {
                over = true;
            }
            val = v2;
        } else {
            proof {
                let p = spec_num_value(digits.take(i - start), base as int).unwrap();
                let p1 = spec_num_value(digits.take(i + 1 - start), base as int).unwrap();
                assert(p1 == p * base + d);
                assert(p * base >= p) by (nonlinear_arith)
                    requires
                        p >= 0x10000,
                        base >= 8,
                ;
            }
        }
        i += 1;
    }
    proof {
        assert(digits.take(i - start) =~= digits);
    }
    if over {
        None
    } else {
        Some(val as u16)
    }
}

} // verus!
