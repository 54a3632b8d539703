//! Byte-level scanning utilities: splitting captured probe output into lines
//! and whitespace-separated fields, and parsing decimal tokens.
//!
//! Probe output is handled as raw bytes, exactly as it was captured from the
//! external tool. Each executable function is specified against a spec-level
//! function over `Seq<u8>`, so the parser's contracts can speak about the
//! text precisely.

use vstd::prelude::*;

verus! {

/// Line feed.
pub const BYTE_LF: u8 = 10;

/// Carriage return.
pub const BYTE_CR: u8 = 13;

/// Space.
pub const BYTE_SPACE: u8 = 32;

/// Horizontal tab.
pub const BYTE_TAB: u8 = 9;

/// The views of a sequence of byte vectors.
pub open spec fn views_of(vs: Seq<Vec<u8>>) -> Seq<Seq<u8>> {
    vs.map_values(|v: Vec<u8>| v@)
}

/// Byte-wise equality of two slices.
pub fn bytes_eq(a: &[u8], b: &[u8]) -> (r: bool)
    ensures
        r == (a@ == b@),
{
    if a.len() != b.len() {
        return false;
    }
    let mut i: usize = 0;
    while i < a.len()
        invariant
            0 <= i <= a.len(),
            a.len() == b.len(),
            forall|j: int| 0 <= j < i ==> a@[j] == b@[j],
        decreases a.len() - i,
    {
        if a[i] != b[i] {
            return false;
        }
        i = i + 1;
    }
    proof {
        assert(a@ =~= b@);
    }
    true
}

/// Copies a byte slice into a fresh vector.
pub fn copy_bytes(src: &[u8]) -> (r: Vec<u8>)
    ensures
        r@ == src@,
{
    let mut out: Vec<u8> = Vec::new();
    let mut i: usize = 0;
    proof {
        assert(src@.take(0) =~= Seq::<u8>::empty());
    }
    while i < src.len()
        invariant
            0 <= i <= src.len(),
            out@ == src@.take(i as int),
        decreases src.len() - i,
    {
        out.push(src[i]);
        proof {
            assert(src@.take(i as int).push(src@[i as int]) =~= src@.take(i as int + 1));
        }
        i = i + 1;
    }
    proof {
        assert(src@.take(src@.len() as int) =~= src@);
    }
    out
}

/// A line with one trailing carriage return removed, so that output with
/// `\r\n` line breaks reads the same as output with bare `\n` breaks.
pub open spec fn strip_cr(line: Seq<u8>) -> Seq<u8> {
    if line.len() > 0 && line.last() == BYTE_CR {
        line.drop_last()
    } else {
        line
    }
}

/// The lines of `s`, given that the bytes of an unfinished current line
/// `cur` have already been read. A final line break does not open an empty
/// last line.
pub open spec fn spec_lines_from(s: Seq<u8>, cur: Seq<u8>) -> Seq<Seq<u8>>
    decreases s.len(),
{
    if s.len() == 0 {
        if cur.len() == 0 {
            Seq::empty()
        } else {
            seq![strip_cr(cur)]
        }
    } else if s[0] == BYTE_LF {
        seq![strip_cr(cur)] + spec_lines_from(s.drop_first(), Seq::empty())
    } else {
        spec_lines_from(s.drop_first(), cur.push(s[0]))
    }
}

/// The lines of `s`: the text split at `\n`, each line stripped of one
/// trailing `\r`. Empty text has no lines.
pub open spec fn spec_lines(s: Seq<u8>) -> Seq<Seq<u8>> {
    spec_lines_from(s, Seq::empty())
}

fn strip_cr_vec(v: Vec<u8>) -> (r: Vec<u8>)
    ensures
        r@ == strip_cr(v@),
{
    let mut v = v;
    let ghost v0 = v@;
    if v.len() > 0 && v[v.len() - 1] == BYTE_CR {
        v.pop();
        proof {
            assert(v@ =~= v0.drop_last());
        }
    }
    v
}

/// Splits `s` into lines as [`spec_lines`] describes.
pub fn split_lines(s: &[u8]) -> (r: Vec<Vec<u8>>)
    ensures
        views_of(r@) == spec_lines(s@),
{
    let mut lines: Vec<Vec<u8>> = Vec::new();
    let mut cur: Vec<u8> = Vec::new();
    let mut i: usize = 0;
    proof {
        assert(s@.skip(0) =~= s@);
    }
    while i < s.len()
        invariant
            0 <= i <= s.len(),
            spec_lines(s@) == views_of(lines@) + spec_lines_from(s@.skip(i as int), cur@),
        decreases s.len() - i,
    {
        let b = s[i];
        proof {
            assert(s@.skip(i as int)[0] == s@[i as int]);
            assert(s@.skip(i as int).drop_first() =~= s@.skip(i as int + 1));
        }
        if b == BYTE_LF {
            let ghost cur0 = cur@;
            let done = strip_cr_vec(cur);
            cur = Vec::new();
            let ghost old_lines = lines@;
            lines.push(done);
            proof {
                assert(views_of(lines@) =~= views_of(old_lines).push(done@));
                assert(views_of(old_lines) + (seq![strip_cr(cur0)] + spec_lines_from(
                    s@.skip(i as int + 1),
                    Seq::empty(),
                )) =~= views_of(lines@) + spec_lines_from(s@.skip(i as int + 1), Seq::empty()));
            }
        } else {
            cur.push(b);
        }
        i = i + 1;
    }
    proof {
        assert(s@.skip(s@.len() as int) =~= Seq::<u8>::empty());
    }
    if cur.len() > 0 {
        let done = strip_cr_vec(cur);
        let ghost old_lines = lines@;
        lines.push(done);
        proof {
            assert(views_of(lines@) =~= views_of(old_lines).push(done@));
            assert(views_of(old_lines) + seq![done@] =~= views_of(lines@));
        }
        lines
    } else {
        proof {
            assert(views_of(lines@) + Seq::<Seq<u8>>::empty() =~= views_of(lines@));
        }
        lines
    }
}

/// Whether `b` separates fields within a line.
pub open spec fn is_blank(b: u8) -> bool {
    b == BYTE_SPACE || b == BYTE_TAB
}

/// The whitespace-separated fields of `s`, given the bytes `cur` of an
/// unfinished current field. Runs of blanks count as one separator, so no
/// field is empty.
pub open spec fn spec_fields_from(s: Seq<u8>, cur: Seq<u8>) -> Seq<Seq<u8>>
    decreases s.len(),
{
    if s.len() == 0 {
        if cur.len() == 0 {
            Seq::empty()
        } else {
            seq![cur]
        }
    } else if is_blank(s[0]) {
        if cur.len() == 0 {
            spec_fields_from(s.drop_first(), Seq::empty())
        } else {
            seq![cur] + spec_fields_from(s.drop_first(), Seq::empty())
        }
    } else {
        spec_fields_from(s.drop_first(), cur.push(s[0]))
    }
}

/// The whitespace-separated fields of `s`. A line of blanks alone has none.
pub open spec fn spec_fields(s: Seq<u8>) -> Seq<Seq<u8>> {
    spec_fields_from(s, Seq::empty())
}

/// Splits `s` into whitespace-separated fields as [`spec_fields`] describes.
pub fn split_fields(s: &[u8]) -> (r: Vec<Vec<u8>>)
    ensures
        views_of(r@) == spec_fields(s@),
{
    let mut fields: Vec<Vec<u8>> = Vec::new();
    let mut cur: Vec<u8> = Vec::new();
    let mut i: usize = 0;
    proof {
        assert(s@.skip(0) =~= s@);
    }
    while i < s.len()
        invariant
            0 <= i <= s.len(),
            spec_fields(s@) == views_of(fields@) + spec_fields_from(s@.skip(i as int), cur@),
        decreases s.len() - i,
    {
        let b = s[i];
        proof {
            assert(s@.skip(i as int)[0] == s@[i as int]);
            assert(s@.skip(i as int).drop_first() =~= s@.skip(i as int + 1));
        }
        if b == BYTE_SPACE || b == BYTE_TAB {
            if cur.len() > 0 {
                let ghost cur0 = cur@;
                let done = cur;
                cur = Vec::new();
                let ghost old_fields = fields@;
                fields.push(done);
                proof {
                    assert(views_of(fields@) =~= views_of(old_fields).push(cur0));
                    assert(views_of(old_fields) + (seq![cur0] + spec_fields_from(
                        s@.skip(i as int + 1),
                        Seq::empty(),
                    )) =~= views_of(fields@) + spec_fields_from(
                        s@.skip(i as int + 1),
                        Seq::empty(),
                    ));
                }
            } else {
                proof {
                    assert(cur@ =~= Seq::<u8>::empty());
                }
            }
        } else {
            cur.push(b);
        }
        i = i + 1;
    }
    proof {
        assert(s@.skip(s@.len() as int) =~= Seq::<u8>::empty());
    }
    if cur.len() > 0 {
        let ghost cur0 = cur@;
        let ghost old_fields = fields@;
        fields.push(cur);
        proof {
            assert(views_of(fields@) =~= views_of(old_fields).push(cur0));
            assert(views_of(old_fields) + seq![cur0] =~= views_of(fields@));
        }
        fields
    } else {
        proof {
            assert(views_of(fields@) + Seq::<Seq<u8>>::empty() =~= views_of(fields@));
        }
        fields
    }
}

/// The parts of `s` split at every occurrence of `sep`, given the bytes
/// `cur` of the unfinished current part. Every separator opens a new part,
/// so parts may be empty and there is always at least one.
pub open spec fn spec_split_from(s: Seq<u8>, sep: u8, cur: Seq<u8>) -> Seq<Seq<u8>>
    decreases s.len(),
{
    if s.len() == 0 {
        seq![cur]
    } else if s[0] == sep {
        seq![cur] + spec_split_from(s.drop_first(), sep, Seq::empty())
    } else {
        spec_split_from(s.drop_first(), sep, cur.push(s[0]))
    }
}

/// The parts of `s` split at every occurrence of `sep`; empty parts are
/// kept, and empty input has one empty part.
pub open spec fn spec_split(s: Seq<u8>, sep: u8) -> Seq<Seq<u8>> {
    spec_split_from(s, sep, Seq::empty())
}

/// Splits `s` at every occurrence of `sep` as [`spec_split`] describes.
pub fn split_sep(s: &[u8], sep: u8) -> (r: Vec<Vec<u8>>)
    ensures
        views_of(r@) == spec_split(s@, sep),
        r@.len() > 0,
{
    let mut parts: Vec<Vec<u8>> = Vec::new();
    let mut cur: Vec<u8> = Vec::new();
    let mut i: usize = 0;
    proof {
        assert(s@.skip(0) =~= s@);
    }
    while i < s.len()
        invariant
            0 <= i <= s.len(),
            spec_split(s@, sep) == views_of(parts@) + spec_split_from(
                s@.skip(i as int),
                sep,
                cur@,
            ),
        decreases s.len() - i,
    {
        let b = s[i];
        proof {
            assert(s@.skip(i as int)[0] == s@[i as int]);
            assert(s@.skip(i as int).drop_first() =~= s@.skip(i as int + 1));
        }
        if b == sep {
            let ghost cur0 = cur@;
            let done = cur;
            cur = Vec::new();
            let ghost old_parts = parts@;
            parts.push(done);
            proof {
                assert(views_of(parts@) =~= views_of(old_parts).push(cur0));
                assert(views_of(old_parts) + (seq![cur0] + spec_split_from(
                    s@.skip(i as int + 1),
                    sep,
                    Seq::empty(),
                )) =~= views_of(parts@) + spec_split_from(
                    s@.skip(i as int + 1),
                    sep,
                    Seq::empty(),
                ));
            }
        } else {
            cur.push(b);
        }
        i = i + 1;
    }
    proof {
        assert(s@.skip(s@.len() as int) =~= Seq::<u8>::empty());
    }
    let ghost cur0 = cur@;
    let ghost old_parts = parts@;
    parts.push(cur);
    proof {
        assert(views_of(parts@) =~= views_of(old_parts).push(cur0));
        assert(views_of(old_parts) + seq![cur0] =~= views_of(parts@));
    }
    parts
}


/// The byte `'0'`.
pub const BYTE_0: u8 = 48;

/// The byte `'9'`.
pub const BYTE_9: u8 = 57;

/// The byte `'.'`.
pub const BYTE_DOT: u8 = 46;

/// One million: the number of millionths in one unit of a fixed-point
/// micro-unit value.
pub const MICRO_UNIT: u64 = 1000000;

/// Whether `b` is an ASCII decimal digit.
pub open spec fn is_digit(b: u8) -> bool {
    BYTE_0 <= b <= BYTE_9
}

/// Whether every byte of `s` is an ASCII decimal digit.
pub open spec fn all_digits(s: Seq<u8>) -> bool {
    forall|i: int| 0 <= i < s.len() ==> is_digit(s[i])
}

/// The integer a sequence of digit bytes denotes, most significant first.
pub open spec fn digits_value(s: Seq<u8>) -> int
    decreases s.len(),
{
    if s.len() == 0 {
        0
    } else {
        digits_value(s.drop_last()) * 10 + (s.last() - BYTE_0)
    }
}

/// Ten to the `n`th power.
pub open spec fn pow10(n: nat) -> int
    decreases n,
{
    if n == 0 {
        1
    } else {
        10 * pow10((n - 1) as nat)
    }
}

/// The value of a non-empty all-digit token, when it fits in a `u64`.
pub open spec fn spec_parse_u64(s: Seq<u8>) -> Option<u64> {
    if s.len() > 0 && all_digits(s) && digits_value(s) <= u64::MAX {
        Some(digits_value(s) as u64)
    } else {
        None
    }
}

pub proof fn lemma_digits_value_nonneg(s: Seq<u8>)
    requires
        all_digits(s),
    ensures
        digits_value(s) >= 0,
    decreases s.len(),
{
    if s.len() > 0 {
        assert(all_digits(s.drop_last())) by {
            assert(forall|i: int|
                0 <= i < s.drop_last().len() ==> s.drop_last()[i] == s[i] && is_digit(s[i]));
        }
        lemma_digits_value_nonneg(s.drop_last());
    }
}

/// A prefix of a digit string denotes no more than the whole string.
pub proof fn lemma_digits_value_prefix(s: Seq<u8>, i: int)
    requires
        all_digits(s),
        0 <= i <= s.len(),
    ensures
        digits_value(s.take(i)) <= digits_value(s),
    decreases s.len() - i,
{
    if i == s.len() {
        assert(s.take(i) =~= s);
    } else {
        assert(s.take(i + 1).drop_last() =~= s.take(i));
        assert(s.take(i + 1).last() == s[i]);
        assert(all_digits(s.take(i))) by {
            assert(forall|j: int| 0 <= j < i ==> s.take(i)[j] == s[j] && is_digit(s[j]));
        }
        lemma_digits_value_nonneg(s.take(i));
        assert(digits_value(s.take(i + 1)) == digits_value(s.take(i)) * 10 + (s[i] - BYTE_0));
        lemma_digits_value_prefix(s, i + 1);
    }
}

/// A digit string of length `n` denotes less than ten to the `n`.
pub proof fn lemma_digits_value_bound(s: Seq<u8>)
    requires
        all_digits(s),
    ensures
        digits_value(s) < pow10(s.len()),
    decreases s.len(),
{
    if s.len() == 0 {
    } else {
        assert(all_digits(s.drop_last())) by {
            assert(forall|i: int|
                0 <= i < s.drop_last().len() ==> s.drop_last()[i] == s[i] && is_digit(s[i]));
        }
        lemma_digits_value_bound(s.drop_last());
        assert(pow10(s.len()) == 10 * pow10((s.len() - 1) as nat));
    }
}

/// Small powers of ten, spelled out for the fraction scales the parser uses.
pub proof fn lemma_pow10_small(n: nat)
    requires
        n <= 6,
    ensures
        0 < pow10(n) <= 1000000,
        n == 0 ==> pow10(n) == 1,
        n == 1 ==> pow10(n) == 10,
        n == 2 ==> pow10(n) == 100,
        n == 3 ==> pow10(n) == 1000,
        n == 4 ==> pow10(n) == 10000,
        n == 5 ==> pow10(n) == 100000,
        n == 6 ==> pow10(n) == 1000000,
{
    reveal_with_fuel(pow10, 8);
    assert(pow10(0) == 1);
    assert(pow10(1) == 10);
    assert(pow10(2) == 100);
    assert(pow10(3) == 1000);
    assert(pow10(4) == 10000);
    assert(pow10(5) == 100000);
    assert(pow10(6) == 1000000);
}

/// A fraction of one to six digits, scaled to millionths, stays under one
/// million.
pub proof fn lemma_frac_micro_bound(fr: Seq<u8>)
    requires
        all_digits(fr),
        1 <= fr.len() <= 6,
    ensures
        0 <= digits_value(fr) * frac_scale(fr.len() as int) < 1000000,
{
    lemma_digits_value_bound(fr);
    lemma_digits_value_nonneg(fr);
    lemma_pow10_small(fr.len());
    lemma_pow10_small((6 - fr.len()) as nat);
    let v = digits_value(fr);
    let sc = frac_scale(fr.len() as int);
    if fr.len() == 1 {
        assert(0 <= v * sc < 1000000) by (nonlinear_arith)
            requires
                0 <= v < 10,
                sc == 100000,
        ;
    } else if fr.len() == 2 {
        assert(0 <= v * sc < 1000000) by (nonlinear_arith)
            requires
                0 <= v < 100,
                sc == 10000,
        ;
    } else if fr.len() == 3 {
        assert(0 <= v * sc < 1000000) by (nonlinear_arith)
            requires
                0 <= v < 1000,
                sc == 1000,
        ;
    } else if fr.len() == 4 {
        assert(0 <= v * sc < 1000000) by (nonlinear_arith)
            requires
                0 <= v < 10000,
                sc == 100,
        ;
    } else if fr.len() == 5 {
        assert(0 <= v * sc < 1000000) by (nonlinear_arith)
            requires
                0 <= v < 100000,
                sc == 10,
        ;
    } else {
        assert(0 <= v * sc < 1000000) by (nonlinear_arith)
            requires
                0 <= v < 1000000,
                sc == 1,
        ;
    }
}

/// Parses a non-empty all-digit token as [`spec_parse_u64`] describes;
/// `None` on an empty token, a non-digit byte, or a value past `u64::MAX`.
pub fn parse_u64(s: &[u8]) -> (r: Option<u64>)
    ensures
        r == spec_parse_u64(s@),
{
    if s.len() == 0 {
        return None;
    }
    let mut acc: u64 = 0;
    let mut i: usize = 0;
    proof {
        assert(s@.take(0) =~= Seq::<u8>::empty());
    }
    while i < s.len()
        invariant
            0 <= i <= s.len(),
            s@.len() > 0,
            all_digits(s@.take(i as int)),
            acc == digits_value(s@.take(i as int)),
        decreases s.len() - i,
    {
        let b = s[i];
        if b < BYTE_0 || b > BYTE_9 {
            proof {
                assert(!is_digit(s@[i as int]));
            }
            return None;
        }
        proof {
            assert(s@.take(i as int + 1).drop_last() =~= s@.take(i as int));
            assert(s@.take(i as int + 1).last() == s@[i as int]);
            assert(all_digits(s@.take(i as int + 1))) by {
                assert(forall|j: int|
                    0 <= j < i as int + 1 ==> s@.take(i as int + 1)[j] == s@[j] && is_digit(
                        s@[j],
                    ));
            }
        }
        let d: u64 = (b - BYTE_0) as u64;
        let stepped = match acc.checked_mul(10) {
            Some(m) => m.checked_add(d),
            None => None,
        };
        match stepped {
            Some(next) => {
                acc = next;
            },
            None => {
                proof {
                    assert(digits_value(s@.take(i as int + 1)) > u64::MAX);
                    if all_digits(s@) {
                        lemma_digits_value_prefix(s@, i as int + 1);
                    }
                }
                return None;
            },
        }
        i = i + 1;
    }
    proof {
        assert(s@.take(s@.len() as int) =~= s@);
    }
    Some(acc)
}

/// The scale that turns a fraction of `n` digits into millionths.
pub open spec fn frac_scale(n: int) -> int {
    pow10((6 - n) as nat)
}

/// The value of a decimal token in millionths: either a plain run of digits,
/// or two runs joined by a single dot with one to six fraction digits, when
/// the scaled value fits in a `u64`.
pub open spec fn spec_parse_decimal_micro(s: Seq<u8>) -> Option<u64> {
    let parts = spec_split(s, BYTE_DOT);
    if parts.len() == 1 {
        if parts[0].len() > 0 && all_digits(parts[0]) && digits_value(parts[0]) * MICRO_UNIT
            <= u64::MAX {
            Some((digits_value(parts[0]) * MICRO_UNIT) as u64)
        } else {
            None
        }
    } else if parts.len() == 2 {
        let whole = parts[0];
        let frac = parts[1];
        if whole.len() > 0 && all_digits(whole) && 1 <= frac.len() <= 6 && all_digits(frac)
            && digits_value(whole) * MICRO_UNIT + digits_value(frac) * frac_scale(
            frac.len() as int,
        ) <= u64::MAX {
            Some(
                (digits_value(whole) * MICRO_UNIT + digits_value(frac) * frac_scale(
                    frac.len() as int,
                )) as u64,
            )
        } else {
            None
        }
    } else {
        None
    }
}

/// Parses a decimal token into millionths as [`spec_parse_decimal_micro`]
/// describes.
pub fn parse_decimal_micro(s: &[u8]) -> (r: Option<u64>)
    ensures
        r == spec_parse_decimal_micro(s@),
{
    let parts = split_sep(s, BYTE_DOT);
    proof {
        assert(views_of(parts@) == spec_split(s@, BYTE_DOT));
        assert(parts@.len() == views_of(parts@).len());
    }
    if parts.len() == 1 {
        proof {
            assert(views_of(parts@)[0] == parts@[0]@);
        }
        let w = parse_u64(parts[0].as_slice());
        proof {
            let wholes = spec_split(s@, BYTE_DOT)[0];
            if wholes.len() > 0 && all_digits(wholes) {
                lemma_digits_value_nonneg(wholes);
            }
        }
        match w {
            Some(v) => match v.checked_mul(MICRO_UNIT) {
                Some(x) => Some(x),
                None => None,
            },
            None => None,
        }
    } else if parts.len() == 2 {
        proof {
            assert(views_of(parts@)[0] == parts@[0]@);
            assert(views_of(parts@)[1] == parts@[1]@);
        }
        let frac_len = parts[1].len();
        if frac_len < 1 || frac_len > 6 {
            return None;
        }
        let whole = match parse_u64(parts[0].as_slice()) {
            Some(v) => v,
            None => {
                proof {
                    let wholes = spec_split(s@, BYTE_DOT)[0];
                    let fracs = spec_split(s@, BYTE_DOT)[1];
                    if wholes.len() > 0 && all_digits(wholes) {
                        lemma_digits_value_nonneg(wholes);
                        if 1 <= fracs.len() <= 6 && all_digits(fracs) {
                            lemma_frac_micro_bound(fracs);
                        }
                    }
                }
                return None;
            },
        };
        proof {
            let wholes = spec_split(s@, BYTE_DOT)[0];
            lemma_digits_value_nonneg(wholes);
        }
        let frac = match parse_u64(parts[1].as_slice()) {
            Some(v) => v,
            None => {
                proof {
                    let fracs = spec_split(s@, BYTE_DOT)[1];
                    if all_digits(fracs) {
                        lemma_digits_value_bound(fracs);
                        lemma_pow10_small(fracs.len());
                    }
                }
                return None;
            },
        };
        let ghost fracs = spec_split(s@, BYTE_DOT)[1];
        proof {
            lemma_pow10_small((6 - fracs.len()) as nat);
        }
        let scale: u64 = if frac_len == 1 {
            100000
        } else if frac_len == 2 {
            10000
        } else if frac_len == 3 {
            1000
        } else if frac_len == 4 {
            100
        } else if frac_len == 5 {
            10
        } else {
            1
        };
        proof {
            assert(scale == frac_scale(frac_len as int));
            lemma_digits_value_nonneg(fracs);
            lemma_frac_micro_bound(fracs);
            assert(frac == digits_value(fracs));
            assert((frac as int) * (scale as int) == digits_value(fracs) * frac_scale(
                fracs.len() as int,
            ));
        }
        let frac_micro: u64 = frac * scale;
        match whole.checked_mul(MICRO_UNIT) {
            Some(wm) => match wm.checked_add(frac_micro) {
                Some(t) => Some(t),
                None => None,
            },
            None => {
                proof {
                    lemma_frac_micro_bound(fracs);
                }
                None
            },
        }
    } else {
        None
    }
}

/// The shortest run of digit bytes denoting `n`, most significant first.
pub open spec fn spec_decimal_digits(n: nat) -> Seq<u8>
    decreases n,
{
    if n < 10 {
        seq![(n + BYTE_0) as u8]
    } else {
        spec_decimal_digits(n / 10).push((n % 10 + BYTE_0) as u8)
    }
}

/// Renders `n` as decimal digit bytes, as [`spec_decimal_digits`] describes.
pub fn u64_digits(n: u64) -> (r: Vec<u8>)
    ensures
        r@ == spec_decimal_digits(n as nat),
    decreases n,
{
    if n < 10 {
        let mut v: Vec<u8> = Vec::new();
        v.push((n as u8) + BYTE_0);
        proof {
            assert(v@ =~= seq![(n as nat + BYTE_0) as u8]);
        }
        v
    } else {
        let mut v = u64_digits(n / 10);
        v.push(((n % 10) as u8) + BYTE_0);
        v
    }
}

} // verus!
