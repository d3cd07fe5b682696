//! Exact decimal numbers, the form in which GPX coordinates and other
//! fractional values are held: a sign, integer digits and fraction
//! digits, normalized so that equal values have equal representations.
//! The grammar is a plain decimal literal with optional sign and
//! fraction, as it appears in GPX attribute and element content.

use vstd::prelude::*;
use vstd::string::*;

use crate::text::{
    all_digits, digit_char_of, digit_of, int_text, is_digit, nat_text, strip_plus,
};

verus! {

/// An exact decimal value. `int_digits` and `frac_digits` hold digit
/// values (0..=9), most significant first.
#[derive(Clone, Debug, PartialEq)]
pub struct Decimal {
    pub negative: bool,
    pub int_digits: Vec<u8>,
    pub frac_digits: Vec<u8>,
}

/// The mathematical model of a `Decimal`.
pub struct DecimalS {
    pub negative: bool,
    pub int_digits: Seq<u8>,
    pub frac_digits: Seq<u8>,
}

impl DeepView for Decimal {
    type V = DecimalS;

    open spec fn deep_view(&self) -> DecimalS {
        DecimalS {
            negative: self.negative,
            int_digits: self.int_digits@,
            frac_digits: self.frac_digits@,
        }
    }
}

pub open spec fn digit_seq(s: Seq<u8>) -> bool {
    forall|i: int| 0 <= i < s.len() ==> s[i] < 10
}

/// Well-formedness: digit values only, no leading zero in the integer
/// part (except for zero itself), no trailing zero in the fraction, and
/// no negative zero.
pub open spec fn dec_wf(d: DecimalS) -> bool {
    &&& digit_seq(d.int_digits)
    &&& digit_seq(d.frac_digits)
    &&& d.int_digits.len() >= 1
    &&& (d.int_digits.len() == 1 || d.int_digits[0] != 0)
    &&& (d.frac_digits.len() == 0 || d.frac_digits.last() != 0)
    &&& (d.negative ==> !dec_is_zero(d))
}

pub open spec fn dec_is_zero(d: DecimalS) -> bool {
    d.int_digits == seq![0u8] && d.frac_digits.len() == 0
}

/// Leading zeros of a digit sequence, dropped.
pub open spec fn drop_leading_zeros(s: Seq<u8>) -> Seq<u8>
    decreases s.len(),
{
    if s.len() > 0 && s[0] == 0 {
        drop_leading_zeros(s.skip(1))
    } else {
        s
    }
}

/// Trailing zeros of a digit sequence, dropped.
pub open spec fn drop_trailing_zeros(s: Seq<u8>) -> Seq<u8>
    decreases s.len(),
{
    if s.len() > 0 && s.last() == 0 {
        drop_trailing_zeros(s.drop_last())
    } else {
        s
    }
}

/// The normal form of a parsed sign and digit pair.
pub open spec fn dec_norm(neg: bool, ip: Seq<u8>, fp: Seq<u8>) -> DecimalS {
    let ipz = drop_leading_zeros(ip);
    let ipn = if ipz.len() == 0 {
        seq![0u8]
    } else {
        ipz
    };
    let fpn = drop_trailing_zeros(fp);
    DecimalS {
        negative: neg && !(ipn == seq![0u8] && fpn.len() == 0),
        int_digits: ipn,
        frac_digits: fpn,
    }
}

/// Sign handling of the decimal grammar.
pub open spec fn dec_split_sign(s: Seq<char>) -> (bool, Seq<char>) {
    if s.len() > 0 && s[0] == '-' {
        (true, s.skip(1))
    } else {
        (false, strip_plus(s))
    }
}

/// First position of `c` in `s` at or after `i`, or `s.len()`.
pub open spec fn char_index_of(s: Seq<char>, c: char, i: int) -> int
    decreases s.len() - i,
{
    if i < 0 || i >= s.len() {
        s.len() as int
    } else if s[i] == c {
        i
    } else {
        char_index_of(s, c, i + 1)
    }
}

/// First position of the exponent mark `e`/`E` at or after `i`, or the
/// length.
pub open spec fn exp_index_of(s: Seq<char>, i: int) -> int
    decreases s.len() - i,
{
    if i < 0 || i >= s.len() {
        s.len() as int
    } else if s[i] == 'e' || s[i] == 'E' {
        i
    } else {
        exp_index_of(s, i + 1)
    }
}

pub open spec fn zero_digits(n: nat) -> Seq<u8> {
    Seq::new(n, |i: int| 0u8)
}

/// The digits re-pointed by an exponent: the point moves `e` places to
/// the right, padding with zeros past either end.
pub open spec fn dec_shift(ip: Seq<u8>, fp: Seq<u8>, e: int) -> (Seq<u8>, Seq<u8>) {
    let all = ip + fp;
    let pp = ip.len() + e;
    if pp <= 0 {
        (Seq::<u8>::empty(), zero_digits((-pp) as nat) + all)
    } else if pp >= all.len() {
        (all + zero_digits((pp - all.len()) as nat), Seq::<u8>::empty())
    } else {
        (all.take(pp), all.skip(pp))
    }
}

pub open spec fn digit_vals(s: Seq<char>) -> Seq<u8> {
    s.map_values(|c: char| digit_of(c) as u8)
}

/// The decimal grammar: optional sign, then digits with at most one
/// point among them (at least one digit in all), then an optional
/// exponent that moves the point, kept exact by shifting the digits.
/// An exponent beyond the thousands is refused: no value the format
/// carries reaches it.
pub open spec fn dec_parse(s: Seq<char>) -> Option<DecimalS> {
    let (neg, body) = dec_split_sign(s);
    let epos = exp_index_of(body, 0);
    let mant = body.take(epos);
    let dot = char_index_of(mant, '.', 0);
    let ip = mant.take(dot);
    let fp = if dot < mant.len() {
        mant.skip(dot + 1)
    } else {
        Seq::<char>::empty()
    };
    if !(all_digits(ip) && all_digits(fp) && ip.len() + fp.len() >= 1) {
        None
    } else if epos == body.len() {
        Some(dec_norm(neg, digit_vals(ip), digit_vals(fp)))
    } else {
        match crate::text::signed32_of(body.skip(epos + 1)) {
            Some(e) => {
                if -1024 <= e <= 1024 {
                    let parts = dec_shift(digit_vals(ip), digit_vals(fp), e as int);
                    Some(dec_norm(neg, parts.0, parts.1))
                } else {
                    None
                }
            },
            None => None,
        }
    }
}

pub open spec fn digit_chars(s: Seq<u8>) -> Seq<char> {
    s.map_values(|d: u8| digit_char_of(d as int))
}

/// Canonical rendering of a decimal value.
pub open spec fn dec_text(d: DecimalS) -> Seq<char> {
    let sign: Seq<char> = if d.negative {
        seq!['-']
    } else {
        Seq::<char>::empty()
    };
    let frac: Seq<char> = if d.frac_digits.len() > 0 {
        seq!['.'] + digit_chars(d.frac_digits)
    } else {
        Seq::<char>::empty()
    };
    sign + digit_chars(d.int_digits) + frac
}

/// Lexicographic order on digit sequences; a proper prefix is smaller.
pub open spec fn lex_lt(a: Seq<u8>, b: Seq<u8>) -> bool
    decreases a.len(),
{
    if a.len() == 0 {
        b.len() > 0
    } else if b.len() == 0 {
        false
    } else if a[0] != b[0] {
        a[0] < b[0]
    } else {
        lex_lt(a.skip(1), b.skip(1))
    }
}

/// Magnitude order of two well-formed decimals.
pub open spec fn dec_mag_lt(a: DecimalS, b: DecimalS) -> bool {
    if a.int_digits.len() != b.int_digits.len() {
        a.int_digits.len() < b.int_digits.len()
    } else if a.int_digits != b.int_digits {
        lex_lt(a.int_digits, b.int_digits)
    } else {
        lex_lt(a.frac_digits, b.frac_digits)
    }
}

/// Value order of two well-formed decimals.
pub open spec fn dec_lt(a: DecimalS, b: DecimalS) -> bool {
    if a.negative != b.negative {
        a.negative
    } else if a.negative {
        dec_mag_lt(b, a)
    } else {
        dec_mag_lt(a, b)
    }
}

pub open spec fn dec_le(a: DecimalS, b: DecimalS) -> bool {
    a == b || dec_lt(a, b)
}

pub proof fn lemma_lex_lt_irreflexive(a: Seq<u8>)
    ensures
        !lex_lt(a, a),
    decreases a.len(),
{
    if a.len() > 0 {
        lemma_lex_lt_irreflexive(a.skip(1));
    }
}

pub proof fn lemma_lex_lt_asymmetric(a: Seq<u8>, b: Seq<u8>)
    ensures
        !(lex_lt(a, b) && lex_lt(b, a)),
    decreases a.len(),
{
    if a.len() > 0 && b.len() > 0 && a[0] == b[0] {
        lemma_lex_lt_asymmetric(a.skip(1), b.skip(1));
    }
}

/// The decimal order is antisymmetric: a value at or under another is
/// never also strictly above it.
pub proof fn lemma_dec_le_excludes_gt(a: DecimalS, b: DecimalS)
    requires
        dec_le(a, b),
    ensures
        !dec_lt(b, a),
{
    if a == b {
        lemma_lex_lt_irreflexive(a.int_digits);
        lemma_lex_lt_irreflexive(a.frac_digits);
    } else {
        lemma_lex_lt_asymmetric(a.int_digits, b.int_digits);
        lemma_lex_lt_asymmetric(a.frac_digits, b.frac_digits);
    }
}

pub proof fn lemma_char_index_from(s: Seq<char>, c: char, i: int, k: int)
    requires
        0 <= i <= k <= s.len(),
        forall|m: int| i <= m < k ==> s[m] != c,
        k == s.len() || s[k] == c,
    ensures
        char_index_of(s, c, i) == k,
    decreases k - i,
{
    if i < k {
        lemma_char_index_from(s, c, i + 1, k);
    }
}

proof fn lemma_exp_index_from(s: Seq<char>, i: int, k: int)
    requires
        0 <= i <= k <= s.len(),
        forall|m: int| i <= m < k ==> s[m] != 'e' && s[m] != 'E',
        k == s.len() || s[k] == 'e' || s[k] == 'E',
    ensures
        exp_index_of(s, i) == k,
    decreases k - i,
{
    if i < k {
        lemma_exp_index_from(s, i + 1, k);
    }
}

proof fn lemma_drop_leading_from(s: Seq<u8>, k: int)
    requires
        0 <= k <= s.len(),
        forall|m: int| 0 <= m < k ==> s[m] == 0,
        k == s.len() || s[k] != 0,
    ensures
        drop_leading_zeros(s) == s.skip(k),
    decreases k,
{
    if k == 0 {
        assert(s.skip(0) =~= s);
    } else {
        let t = s.skip(1);
        assert(forall|m: int| 0 <= m < k - 1 ==> t[m] == 0);
        assert(k - 1 == t.len() || t[k - 1] != 0);
        lemma_drop_leading_from(t, k - 1);
        assert(t.skip(k - 1) =~= s.skip(k));
    }
}

proof fn lemma_drop_trailing_from(s: Seq<u8>, k: int)
    requires
        0 <= k <= s.len(),
        forall|m: int| k <= m < s.len() ==> s[m] == 0,
        k == 0 || s[k - 1] != 0,
    ensures
        drop_trailing_zeros(s) == s.take(k),
    decreases s.len() - k,
{
    if k == s.len() {
        assert(s.take(k) =~= s);
    } else {
        let t = s.drop_last();
        assert(forall|m: int| k <= m < t.len() ==> t[m] == 0);
        lemma_drop_trailing_from(t, k);
        assert(t.take(k) =~= s.take(k));
    }
}

/// Dropped leading zeros keep a digit sequence's digits, and what is
/// left starts with a nonzero digit.
proof fn lemma_drop_leading_props(s: Seq<u8>)
    requires
        digit_seq(s),
    ensures
        digit_seq(drop_leading_zeros(s)),
        drop_leading_zeros(s).len() > 0 ==> drop_leading_zeros(s)[0] != 0,
    decreases s.len(),
{
    if s.len() > 0 && s[0] == 0 {
        assert(digit_seq(s.skip(1))) by {
            assert(forall|m: int| 0 <= m < s.skip(1).len() ==> s.skip(1)[m] == s[m + 1]);
        }
        lemma_drop_leading_props(s.skip(1));
    }
}

/// Dropped trailing zeros keep a digit sequence's digits, and what is
/// left ends with a nonzero digit.
proof fn lemma_drop_trailing_props(s: Seq<u8>)
    requires
        digit_seq(s),
    ensures
        digit_seq(drop_trailing_zeros(s)),
        drop_trailing_zeros(s).len() > 0 ==> drop_trailing_zeros(s).last() != 0,
    decreases s.len(),
{
    if s.len() > 0 && s.last() == 0 {
        assert(digit_seq(s.drop_last()));
        lemma_drop_trailing_props(s.drop_last());
    }
}

/// Normalization of any raw digit pair gives a well-formed decimal.
pub proof fn lemma_dec_norm_wf(neg: bool, ip: Seq<u8>, fp: Seq<u8>)
    requires
        digit_seq(ip),
        digit_seq(fp),
    ensures
        dec_wf(dec_norm(neg, ip, fp)),
{
    lemma_drop_leading_props(ip);
    lemma_drop_trailing_props(fp);
    let d = dec_norm(neg, ip, fp);
    assert(seq![0u8].len() == 1 && seq![0u8][0] == 0u8);
    if d.negative {
        assert(!(d.int_digits == seq![0u8] && d.frac_digits.len() == 0));
    }
    if dec_is_zero(d) {
        assert(d.int_digits[0] == 0);
    }
}

/// Whatever the decimal grammar accepts is in normal form.
pub proof fn lemma_dec_parse_wf(s: Seq<char>)
    ensures
        dec_parse(s) matches Some(d) ==> dec_wf(d),
{
    let (neg, body) = dec_split_sign(s);
    let epos = exp_index_of(body, 0);
    let mant = body.take(epos);
    let dot = char_index_of(mant, '.', 0);
    let ip = mant.take(dot);
    let fp: Seq<char> = if dot < mant.len() {
        mant.skip(dot + 1)
    } else {
        Seq::<char>::empty()
    };
    if all_digits(ip) && all_digits(fp) && ip.len() + fp.len() >= 1 {
        let iv = digit_vals(ip);
        let fv = digit_vals(fp);
        assert(digit_seq(iv)) by {
            assert(forall|m: int|
                0 <= m < iv.len() ==> is_digit(ip[m]) && iv[m] == digit_of(ip[m]) as u8);
        }
        assert(digit_seq(fv)) by {
            assert(forall|m: int|
                0 <= m < fv.len() ==> is_digit(fp[m]) && fv[m] == digit_of(fp[m]) as u8);
        }
        if epos == body.len() {
            lemma_dec_norm_wf(neg, iv, fv);
        } else {
            match crate::text::signed32_of(body.skip(epos + 1)) {
                Some(e) => {
                    if -1024 <= e <= 1024 {
                        let parts = dec_shift(iv, fv, e as int);
                        assert(digit_seq(iv + fv));
                        assert(digit_seq(parts.0) && digit_seq(parts.1)) by {
                            let all = iv + fv;
                            let pp = iv.len() + e;
                            if pp <= 0 {
                                assert(forall|m: int|
                                    0 <= m < parts.1.len() ==> parts.1[m] == (if m < -pp {
                                        0u8
                                    } else {
                                        all[m + pp]
                                    }));
                            } else if pp >= all.len() {
                                assert(forall|m: int|
                                    0 <= m < parts.0.len() ==> parts.0[m] == (if m < all.len() {
                                        all[m]
                                    } else {
                                        0u8
                                    }));
                            } else {
                                assert(forall|m: int|
                                    0 <= m < parts.0.len() ==> parts.0[m] == all[m]);
                                assert(forall|m: int|
                                    0 <= m < parts.1.len() ==> parts.1[m] == all[m + pp]);
                            }
                        }
                        lemma_dec_norm_wf(neg, parts.0, parts.1);
                    }
                },
                None => {},
            }
        }
    }
}

/// Any two digit sequences are ordered or equal.
proof fn lemma_lex_total(a: Seq<u8>, b: Seq<u8>)
    ensures
        lex_lt(a, b) || lex_lt(b, a) || a == b,
    decreases a.len(),
{
    if a.len() == 0 && b.len() == 0 {
        assert(a =~= b);
    } else if a.len() > 0 && b.len() > 0 && a[0] == b[0] {
        lemma_lex_total(a.skip(1), b.skip(1));
        if a.skip(1) == b.skip(1) {
            assert(a.skip(1).len() == a.len() - 1);
            assert(b.skip(1).len() == b.len() - 1);
            assert(a.len() == b.len());
            assert forall|m: int| 0 <= m < a.len() implies a[m] == b[m] by {
                if m > 0 {
                    assert(a[m] == a.skip(1)[m - 1]);
                    assert(b[m] == b.skip(1)[m - 1]);
                }
            }
            assert(a =~= b);
        }
    }
}

/// Any two decimal values are ordered or equal.
pub proof fn lemma_dec_total(a: DecimalS, b: DecimalS)
    ensures
        dec_lt(a, b) || dec_lt(b, a) || a == b,
{
    if a.negative == b.negative && a.int_digits.len() == b.int_digits.len() {
        lemma_lex_total(a.int_digits, b.int_digits);
        if a.int_digits == b.int_digits {
            lemma_lex_total(a.frac_digits, b.frac_digits);
        }
    }
}

impl Decimal {
    /// The value zero.
    pub fn zero() -> (r: Decimal)
        ensures
            r.deep_view() == dec_norm(false, seq![0u8], Seq::<u8>::empty()),
            dec_wf(r.deep_view()),
    {
        let r = Decimal { negative: false, int_digits: vec![0u8], frac_digits: Vec::new() };
        proof {
            assert(r.int_digits@ =~= seq![0u8]);
            assert(seq![0u8].len() == 1 && seq![0u8][0] == 0u8);
            assert(drop_leading_zeros(seq![0u8]) == drop_leading_zeros(seq![0u8].skip(1)));
            assert(seq![0u8].skip(1) =~= Seq::<u8>::empty());
            assert(drop_leading_zeros(Seq::<u8>::empty()) =~= Seq::<u8>::empty());
            assert(r.deep_view() =~= dec_norm(false, seq![0u8], Seq::<u8>::empty()));
        }
        r
    }

    /// Parses the decimal grammar; `None` is the grammar's rejection.
    /// Parses the decimal grammar; `None` is the grammar's rejection.
    #[verifier::rlimit(100)]
    pub fn parse(s: &str) -> (r: Option<Decimal>)
        ensures
            r matches Some(d) ==> dec_parse(s@) == Some(d.deep_view()) && dec_wf(d.deep_view()),
            r is None ==> dec_parse(s@) is None,
    {
        let len = s.unicode_len();
        let mut start: usize = 0;
        let mut neg = false;
        if len > 0 && s.get_char(0) == '-' {
            neg = true;
            start = 1;
        } else if len > 0 && s.get_char(0) == '+' {
            start = 1;
        }
        let ghost body = dec_split_sign(s@).1;
        proof {
            assert(body =~= s@.subrange(start as int, len as int));
            assert(dec_split_sign(s@).0 == neg);
        }
        // locate the exponent mark, if any
        let mut es: usize = start;
        while es < len && s.get_char(es) != 'e' && s.get_char(es) != 'E'
            invariant
                start <= es <= len,
                len == s@.len(),
                body == dec_split_sign(s@).1,
                body =~= s@.subrange(start as int, len as int),
                forall|m: int| 0 <= m < es - start ==> body[m] != 'e' && body[m] != 'E',
            decreases len - es,
        {
            es += 1;
        }
        proof {
            if es < len {
                assert(body[es - start] == s@[es as int]);
            }
            lemma_exp_index_from(body, 0, es - start);
        }
        let ghost mant = body.take(es - start);
        proof {
            assert(mant =~= s@.subrange(start as int, es as int));
        }
        // locate the first point of the mantissa, checking digits before it
        let mut j: usize = start;
        let mut ip: Vec<u8> = Vec::new();
        while j < es && s.get_char(j) != '.'
            invariant
                start <= j <= es <= len,
                len == s@.len(),
                body == dec_split_sign(s@).1,
                body =~= s@.subrange(start as int, len as int),
                mant == body.take(es - start),
                mant =~= s@.subrange(start as int, es as int),
                exp_index_of(body, 0) == es - start,
                forall|m: int| 0 <= m < j - start ==> mant[m] != '.' && is_digit(mant[m]),
                ip@ =~= digit_vals(mant.take(j - start)),
            decreases es - j,
        {
            let c = s.get_char(j);
            if !char_is_digit_exec(c) {
                proof {
                    assert(mant[j - start] == s@[j as int]);
                    let mdot = char_index_of(mant, '.', 0);
                    lemma_char_index_unreached(mant, j - start);
                    lemma_char_index_found(mant, '.', 0);
                    assert(mdot > j - start);
                    assert(!all_digits(mant.take(mdot))) by {
                        assert(mant.take(mdot)[j - start] == mant[j - start]);
                    }
                }
                return None;
            }
            let d = (c as u32 - 48) as u8;
            ip.push(d);
            proof {
                assert(ip@ =~= digit_vals(mant.take(j + 1 - start)));
            }
            j += 1;
        }
        let dot: usize = j;
        let mut fp: Vec<u8> = Vec::new();
        if dot == es {
            // no point: integer digits only
            proof {
                lemma_char_index_from(mant, '.', 0, mant.len() as int);
                assert(mant.take(mant.len() as int) =~= mant);
                assert(all_digits(mant));
            }
            if ip.len() == 0 {
                return None;
            }
            proof {
                assert(digit_vals(Seq::<char>::empty()) =~= Seq::<u8>::empty());
                assert(digit_seq(ip@)) by {
                    assert(forall|m: int|
                        0 <= m < ip@.len() ==> is_digit(mant[m]) && ip@[m] == digit_of(
                            mant[m],
                        ) as u8);
                }
                assert(digit_seq(fp@)) by {
                    assert(fp@ =~= Seq::<u8>::empty());
                }
            }
        } else {
            // point found at `dot`; fraction digits follow up to the mark
            proof {
                assert(mant[dot - start] == s@[dot as int]);
                lemma_char_index_from(mant, '.', 0, dot - start);
            }
            let mut k: usize = dot + 1;
            while k < es
                invariant
                    dot < k <= es <= len,
                    start <= dot < es,
                    len == s@.len(),
                    body == dec_split_sign(s@).1,
                    body =~= s@.subrange(start as int, len as int),
                    mant == body.take(es - start),
                    mant =~= s@.subrange(start as int, es as int),
                    exp_index_of(body, 0) == es - start,
                    char_index_of(mant, '.', 0) == dot - start,
                    forall|m: int| 0 <= m < dot - start ==> is_digit(mant[m]),
                    ip@ =~= digit_vals(mant.take(dot - start)),
                    forall|m: int| dot - start < m < k - start ==> is_digit(mant[m]),
                    fp@ =~= digit_vals(mant.subrange(dot - start + 1, k - start)),
                decreases es - k,
            {
                let c = s.get_char(k);
                if !char_is_digit_exec(c) {
                    proof {
                        let fpc = mant.skip(dot - start + 1);
                        assert(!all_digits(fpc)) by {
                            assert(fpc[k - dot - 1] == mant[k - start]);
                            assert(mant[k - start] == s@[k as int]);
                        }
                    }
                    return None;
                }
                fp.push((c as u32 - 48) as u8);
                proof {
                    assert(fp@ =~= digit_vals(mant.subrange(dot - start + 1, k + 1 - start)));
                }
                k += 1;
            }
            let ghost ipc = mant.take(dot - start);
            let ghost fpc = mant.skip(dot - start + 1);
            proof {
                assert(fpc =~= mant.subrange(dot - start + 1, es - start));
                assert(all_digits(ipc)) by {
                    assert(forall|m: int| 0 <= m < ipc.len() ==> ipc[m] == mant[m]);
                }
                assert(all_digits(fpc)) by {
                    assert(forall|m: int|
                        0 <= m < fpc.len() ==> fpc[m] == mant[m + (dot - start + 1)]);
                }
            }
            if ip.len() == 0 && fp.len() == 0 {
                return None;
            }
            proof {
                assert(digit_seq(ip@)) by {
                    assert(forall|m: int|
                        0 <= m < ip@.len() ==> is_digit(ipc[m]) && ip@[m] == digit_of(
                            ipc[m],
                        ) as u8);
                }
                assert(digit_seq(fp@)) by {
                    assert(forall|m: int|
                        0 <= m < fp@.len() ==> is_digit(fpc[m]) && fp@[m] == digit_of(
                            fpc[m],
                        ) as u8);
                }
            }
        }
        if es == len {
            let r = normalize(neg, ip, fp);
            return Some(r);
        }
        // an exponent follows the mark; the point shifts by its value
        let exp_str = s.substring_char(es + 1, len);
        proof {
            assert(exp_str@ =~= body.skip(es - start + 1));
        }
        let e = match crate::text::parse_i32(exp_str) {
            Some(e) => e,
            None => {
                return None;
            },
        };
        if e < -1024 || e > 1024 {
            return None;
        }
        let parts = shift_digits(ip, fp, e);
        let r = normalize(neg, parts.0, parts.1);
        Some(r)
    }

    /// Renders the value back in its canonical written form.
    pub fn to_text(&self) -> (r: String)
        requires
            dec_wf(self.deep_view()),
        ensures
            r@ == dec_text(self.deep_view()),
    {
        let mut r = String::new();
        if self.negative {
            r.append("-");
            proof {
                reveal_strlit("-");
                assert(r@ =~= seq!['-']);
            }
        }
        let ghost sign: Seq<char> = if self.negative {
            seq!['-']
        } else {
            Seq::<char>::empty()
        };
        proof {
            assert(r@ =~= sign);
        }
        let mut i: usize = 0;
        while i < self.int_digits.len()
            invariant
                0 <= i <= self.int_digits@.len(),
                digit_seq(self.int_digits@),
                r@ =~= sign + digit_chars(self.int_digits@.take(i as int)),
                sign == (if self.negative {
                    seq!['-']
                } else {
                    Seq::<char>::empty()
                }),
            decreases self.int_digits@.len() - i,
        {
            r.append(crate::text::digit_str(self.int_digits[i]));
            proof {
                assert(r@ =~= sign + digit_chars(self.int_digits@.take(i + 1)));
            }
            i += 1;
        }
        proof {
            assert(self.int_digits@.take(self.int_digits@.len() as int) =~= self.int_digits@);
        }
        if self.frac_digits.len() > 0 {
            r.append(".");
            proof {
                reveal_strlit(".");
                assert(r@ =~= sign + digit_chars(self.int_digits@) + seq!['.']);
            }
            let mut k: usize = 0;
            while k < self.frac_digits.len()
                invariant
                    0 <= k <= self.frac_digits@.len(),
                    digit_seq(self.frac_digits@),
                    r@ =~= sign + digit_chars(self.int_digits@) + seq!['.'] + digit_chars(
                        self.frac_digits@.take(k as int),
                    ),
                    sign == (if self.negative {
                        seq!['-']
                    } else {
                        Seq::<char>::empty()
                    }),
                decreases self.frac_digits@.len() - k,
            {
                r.append(crate::text::digit_str(self.frac_digits[k]));
                proof {
                    assert(r@ =~= sign + digit_chars(self.int_digits@) + seq!['.'] + digit_chars(
                        self.frac_digits@.take(k + 1),
                    ));
                }
                k += 1;
            }
            proof {
                assert(self.frac_digits@.take(self.frac_digits@.len() as int)
                    =~= self.frac_digits@);
                assert(r@ =~= dec_text(self.deep_view()));
            }
        } else {
            proof {
                assert(r@ =~= dec_text(self.deep_view()));
            }
        }
        r
    }

    /// The value is in normal form, as `dec_wf` says.
    pub fn is_well_formed(&self) -> (r: bool)
        ensures
            r == dec_wf(self.deep_view()),
    {
        if !(digit_vec_ok(&self.int_digits) && digit_vec_ok(&self.frac_digits)) {
            return false;
        }
        if self.int_digits.len() < 1 {
            return false;
        }
        if !(self.int_digits.len() == 1 || self.int_digits[0] != 0) {
            return false;
        }
        if !(self.frac_digits.len() == 0 || self.frac_digits[self.frac_digits.len() - 1] != 0) {
            return false;
        }
        if self.negative && self.int_digits.len() == 1 && self.int_digits[0] == 0
            && self.frac_digits.len() == 0 {
            proof {
                assert(self.int_digits@ =~= seq![0u8]);
            }
            return false;
        }
        proof {
            if dec_is_zero(self.deep_view()) {
                assert(self.int_digits@ == seq![0u8]);
                assert(self.int_digits@.len() == 1 && self.int_digits@[0] == 0);
            }
        }
        true
    }

    /// A copy of the value, with its model unchanged.
    pub fn clone_dec(&self) -> (r: Decimal)
        ensures
            r.deep_view() == self.deep_view(),
    {
        let r = Decimal {
            negative: self.negative,
            int_digits: clone_vec_u8(&self.int_digits),
            frac_digits: clone_vec_u8(&self.frac_digits),
        };
        proof {
            assert(r.deep_view() =~= self.deep_view());
        }
        r
    }

    /// Value order, `self < other`.
    pub fn lt(&self, other: &Decimal) -> (r: bool)
        ensures
            r == dec_lt(self.deep_view(), other.deep_view()),
    {
        if self.negative != other.negative {
            self.negative
        } else if self.negative {
            mag_lt(other, self)
        } else {
            mag_lt(self, other)
        }
    }

    /// Value order, `self <= other`, on well-formed decimals.
    pub fn le(&self, other: &Decimal) -> (r: bool)
        ensures
            r == dec_le(self.deep_view(), other.deep_view()),
    {
        if dec_eq(self, other) {
            true
        } else {
            self.lt(other)
        }
    }
}

fn char_is_digit_exec(c: char) -> (r: bool)
    ensures
        r == is_digit(c),
{
    let u = c as u32;
    48 <= u && u <= 57
}

fn digit_vec_ok(v: &Vec<u8>) -> (r: bool)
    ensures
        r == digit_seq(v@),
{
    let mut i: usize = 0;
    while i < v.len()
        invariant
            0 <= i <= v@.len(),
            forall|k: int| 0 <= k < i ==> v@[k] < 10,
        decreases v@.len() - i,
    {
        if v[i] >= 10 {
            return false;
        }
        i += 1;
    }
    true
}

fn clone_vec_u8(v: &Vec<u8>) -> (r: Vec<u8>)
    ensures
        r@ == v@,
{
    let mut r: Vec<u8> = Vec::new();
    let mut i: usize = 0;
    while i < v.len()
        invariant
            0 <= i <= v@.len(),
            r@ =~= v@.take(i as int),
        decreases v@.len() - i,
    {
        r.push(v[i]);
        proof {
            assert(r@ =~= v@.take(i + 1));
        }
        i += 1;
    }
    proof {
        assert(v@.take(v@.len() as int) =~= v@);
    }
    r
}

fn vec_u8_eq(a: &Vec<u8>, b: &Vec<u8>) -> (r: bool)
    ensures
        r == (a@ == b@),
{
    if a.len() != b.len() {
        return false;
    }
    let mut i: usize = 0;
    while i < a.len()
        invariant
            0 <= i <= a@.len(),
            a@.len() == b@.len(),
            forall|j: int| 0 <= j < i ==> a@[j] == b@[j],
        decreases a@.len() - i,
    {
        if a[i] != b[i] {
            return false;
        }
        i += 1;
    }
    proof {
        assert(a@ =~= b@);
    }
    true
}

fn dec_eq(a: &Decimal, b: &Decimal) -> (r: bool)
    ensures
        r == (a.deep_view() == b.deep_view()),
{
    let r = a.negative == b.negative && vec_u8_eq(&a.int_digits, &b.int_digits) && vec_u8_eq(
        &a.frac_digits,
        &b.frac_digits,
    );
    proof {
        if r {
            assert(a.deep_view() =~= b.deep_view());
        }
    }
    r
}

fn lex_lt_exec(a: &Vec<u8>, b: &Vec<u8>) -> (r: bool)
    ensures
        r == lex_lt(a@, b@),
{
    let mut i: usize = 0;
    proof {
        assert(a@.skip(0) =~= a@);
        assert(b@.skip(0) =~= b@);
    }
    while i < a.len() && i < b.len()
        invariant
            0 <= i <= a@.len(),
            0 <= i <= b@.len(),
            lex_lt(a@, b@) == lex_lt(a@.skip(i as int), b@.skip(i as int)),
        decreases a@.len() - i,
    {
        if a[i] < b[i] {
            proof {
                assert(a@.skip(i as int)[0] == a@[i as int]);
                assert(b@.skip(i as int)[0] == b@[i as int]);
            }
            return true;
        }
        if a[i] > b[i] {
            proof {
                assert(a@.skip(i as int)[0] == a@[i as int]);
                assert(b@.skip(i as int)[0] == b@[i as int]);
            }
            return false;
        }
        proof {
            assert(a@.skip(i as int)[0] == a@[i as int]);
            assert(b@.skip(i as int)[0] == b@[i as int]);
            assert(a@.skip(i as int).skip(1) =~= a@.skip(i + 1));
            assert(b@.skip(i as int).skip(1) =~= b@.skip(i + 1));
        }
        i += 1;
    }
    proof {
        assert(a@.skip(i as int).len() == a@.len() - i);
        assert(b@.skip(i as int).len() == b@.len() - i);
    }
    b.len() > a.len()
}

fn mag_lt(a: &Decimal, b: &Decimal) -> (r: bool)
    ensures
        r == dec_mag_lt(a.deep_view(), b.deep_view()),
{
    if a.int_digits.len() != b.int_digits.len() {
        a.int_digits.len() < b.int_digits.len()
    } else if !vec_u8_eq(&a.int_digits, &b.int_digits) {
        lex_lt_exec(&a.int_digits, &b.int_digits)
    } else {
        lex_lt_exec(&a.frac_digits, &b.frac_digits)
    }
}

/// Moves the point by the exponent, per `dec_shift`.
fn shift_digits(ip: Vec<u8>, fp: Vec<u8>, e: i32) -> (r: (Vec<u8>, Vec<u8>))
    requires
        digit_seq(ip@),
        digit_seq(fp@),
        -1024 <= e <= 1024,
    ensures
        r.0@ == dec_shift(ip@, fp@, e as int).0,
        r.1@ == dec_shift(ip@, fp@, e as int).1,
        digit_seq(r.0@),
        digit_seq(r.1@),
{
    let ghost ipg = ip@;
    let ghost fpg = fp@;
    let ip_len = ip.len();
    let mut all = ip;
    let mut i: usize = 0;
    while i < fp.len()
        invariant
            0 <= i <= fp@.len(),
            fpg == fp@,
            all@ =~= ipg + fpg.take(i as int),
        decreases fp@.len() - i,
    {
        all.push(fp[i]);
        proof {
            assert(all@ =~= ipg + fpg.take(i + 1));
        }
        i += 1;
    }
    proof {
        assert(fpg.take(fpg.len() as int) =~= fpg);
        assert(all@ =~= ipg + fpg);
        assert(digit_seq(all@));
    }
    let pp: i128 = ip_len as i128 + e as i128;
    if pp <= 0 {
        let pad = (-pp) as usize;
        let mut f2: Vec<u8> = Vec::new();
        let mut z: usize = 0;
        while z < pad
            invariant
                0 <= z <= pad,
                f2@ =~= zero_digits(z as nat),
            decreases pad - z,
        {
            f2.push(0);
            proof {
                assert(f2@ =~= zero_digits((z + 1) as nat));
            }
            z += 1;
        }
        let mut m: usize = 0;
        while m < all.len()
            invariant
                0 <= m <= all@.len(),
                all@ == ipg + fpg,
                f2@ =~= zero_digits(pad as nat) + all@.take(m as int),
            decreases all@.len() - m,
        {
            f2.push(all[m]);
            proof {
                assert(f2@ =~= zero_digits(pad as nat) + all@.take(m + 1));
            }
            m += 1;
        }
        let i2: Vec<u8> = Vec::new();
        proof {
            assert(all@.take(all@.len() as int) =~= all@);
            assert(i2@ =~= Seq::<u8>::empty());
            assert(f2@ =~= dec_shift(ipg, fpg, e as int).1);
            assert(digit_seq(f2@)) by {
                assert(forall|k: int|
                    0 <= k < f2@.len() && k < pad ==> f2@[k] == 0);
                assert(forall|k: int|
                    pad <= k < f2@.len() ==> f2@[k] == all@[k - pad]);
            }
        }
        (i2, f2)
    } else if pp >= all.len() as i128 {
        let pad = (pp - all.len() as i128) as usize;
        let ghost base = all@;
        let mut z: usize = 0;
        let mut all = all;
        while z < pad
            invariant
                0 <= z <= pad,
                all@ =~= base + zero_digits(z as nat),
            decreases pad - z,
        {
            all.push(0);
            proof {
                assert(all@ =~= base + zero_digits((z + 1) as nat));
            }
            z += 1;
        }
        let f2: Vec<u8> = Vec::new();
        proof {
            assert(f2@ =~= Seq::<u8>::empty());
            assert(all@ =~= dec_shift(ipg, fpg, e as int).0);
            assert(digit_seq(all@)) by {
                assert(forall|k: int|
                    0 <= k < base.len() ==> all@[k] == base[k]);
                assert(forall|k: int|
                    base.len() <= k < all@.len() ==> all@[k] == 0);
            }
        }
        (all, f2)
    } else {
        let p = pp as usize;
        let mut i2: Vec<u8> = Vec::new();
        let mut m: usize = 0;
        while m < p
            invariant
                0 <= m <= p,
                p < all@.len(),
                all@ == ipg + fpg,
                i2@ =~= all@.take(m as int),
            decreases p - m,
        {
            i2.push(all[m]);
            proof {
                assert(i2@ =~= all@.take(m + 1));
            }
            m += 1;
        }
        let mut f2: Vec<u8> = Vec::new();
        let mut k: usize = p;
        while k < all.len()
            invariant
                p <= k <= all@.len(),
                all@ == ipg + fpg,
                f2@ =~= all@.subrange(p as int, k as int),
            decreases all@.len() - k,
        {
            f2.push(all[k]);
            proof {
                assert(f2@ =~= all@.subrange(p as int, k + 1));
            }
            k += 1;
        }
        proof {
            assert(all@.subrange(p as int, all@.len() as int) =~= all@.skip(p as int));
            assert(i2@ =~= dec_shift(ipg, fpg, e as int).0);
            assert(f2@ =~= dec_shift(ipg, fpg, e as int).1);
            assert(digit_seq(i2@));
            assert(digit_seq(f2@));
        }
        (i2, f2)
    }
}

/// Builds the normal form from raw sign and digits, as `dec_norm` says.
fn normalize(neg: bool, ip: Vec<u8>, fp: Vec<u8>) -> (r: Decimal)
    requires
        digit_seq(ip@),
        digit_seq(fp@),
    ensures
        r.deep_view() == dec_norm(neg, ip@, fp@),
        dec_wf(r.deep_view()),
{
    // strip leading zeros of the integer part
    let mut a: usize = 0;
    while a < ip.len() && ip[a] == 0
        invariant
            0 <= a <= ip@.len(),
            forall|m: int| 0 <= m < a ==> ip@[m] == 0,
        decreases ip@.len() - a,
    {
        a += 1;
    }
    proof {
        lemma_drop_leading_from(ip@, a as int);
    }
    let mut ipn: Vec<u8> = Vec::new();
    if a == ip.len() {
        ipn.push(0);
        proof {
            assert(ip@.skip(a as int) =~= Seq::<u8>::empty());
            assert(ipn@ =~= seq![0u8]);
        }
    } else {
        let mut m: usize = a;
        while m < ip.len()
            invariant
                a <= m <= ip@.len(),
                ipn@ =~= ip@.subrange(a as int, m as int),
            decreases ip@.len() - m,
        {
            ipn.push(ip[m]);
            proof {
                assert(ipn@ =~= ip@.subrange(a as int, m + 1));
            }
            m += 1;
        }
        proof {
            assert(ip@.subrange(a as int, ip@.len() as int) =~= ip@.skip(a as int));
        }
    }
    // strip trailing zeros of the fraction part
    let mut b: usize = fp.len();
    while b > 0 && fp[b - 1] == 0
        invariant
            0 <= b <= fp@.len(),
            forall|m: int| b <= m < fp@.len() ==> fp@[m] == 0,
        decreases b,
    {
        b -= 1;
    }
    proof {
        lemma_drop_trailing_from(fp@, b as int);
    }
    let mut fpn: Vec<u8> = Vec::new();
    let mut m: usize = 0;
    while m < b
        invariant
            0 <= m <= b <= fp@.len(),
            fpn@ =~= fp@.subrange(0, m as int),
        decreases b - m,
    {
        fpn.push(fp[m]);
        proof {
            assert(fpn@ =~= fp@.subrange(0, m + 1));
        }
        m += 1;
    }
    proof {
        assert(fp@.subrange(0, b as int) =~= fp@.take(b as int));
    }
    let zero = ipn.len() == 1 && ipn[0] == 0 && fpn.len() == 0;
    proof {
        if zero {
            assert(ipn@ =~= seq![0u8]);
        } else {
            if ipn@ == seq![0u8] && fpn@.len() == 0 {
                assert(ipn@.len() == 1 && ipn@[0] == 0);
            }
        }
    }
    let r = Decimal { negative: neg && !zero, int_digits: ipn, frac_digits: fpn };
    proof {
        assert(r.deep_view() =~= dec_norm(neg, ip@, fp@));
        assert(dec_wf(r.deep_view())) by {
            let dz = drop_leading_zeros(ip@);
            if a < ip@.len() {
                assert(dz == ip@.skip(a as int));
                assert(dz[0] == ip@[a as int]);
            }
            let ft = fp@.take(b as int);
            if b > 0 {
                assert(ft.last() == fp@[b - 1]);
            }
        }
    }
    r
}

/// A proof helper: while no point has been found up to position `k`,
/// the point index of the whole body is at least `k`.
proof fn lemma_char_index_unreached(s: Seq<char>, k: int)
    requires
        0 <= k <= s.len(),
        forall|m: int| 0 <= m < k ==> s[m] != '.',
    ensures
        char_index_of(s, '.', 0) >= k,
        char_index_of(s, '.', 0) <= s.len(),
    decreases s.len(),
{
    lemma_char_index_bounds(s, '.', 0, k);
}

proof fn lemma_char_index_bounds(s: Seq<char>, c: char, i: int, k: int)
    requires
        0 <= i <= k <= s.len(),
        forall|m: int| i <= m < k ==> s[m] != c,
    ensures
        char_index_of(s, c, i) >= k,
        char_index_of(s, c, i) <= s.len(),
    decreases s.len() - i,
{
    if i < k {
        lemma_char_index_bounds(s, c, i + 1, k);
    } else {
        lemma_char_index_in_range(s, c, i);
    }
}

pub proof fn lemma_char_index_found(s: Seq<char>, c: char, i: int)
    requires
        0 <= i <= s.len(),
    ensures
        char_index_of(s, c, i) == s.len() || s[char_index_of(s, c, i)] == c,
    decreases s.len() - i,
{
    if i < s.len() && s[i] != c {
        lemma_char_index_found(s, c, i + 1);
    }
}

pub proof fn lemma_char_index_in_range(s: Seq<char>, c: char, i: int)
    requires
        0 <= i <= s.len(),
    ensures
        i <= char_index_of(s, c, i) <= s.len(),
    decreases s.len() - i,
{
    if i < s.len() && s[i] != c {
        lemma_char_index_in_range(s, c, i + 1);
    }
}

/// Round trip: the canonical text of a well-formed decimal parses back
/// to the same value.
pub proof fn lemma_dec_round_trip(d: DecimalS)
    requires
        dec_wf(d),
    ensures
        dec_parse(dec_text(d)) == Some(d),
{
    let text = dec_text(d);
    let ic = digit_chars(d.int_digits);
    let fc = digit_chars(d.frac_digits);
    assert(forall|i: int|
        0 <= i < ic.len() ==> is_digit(ic[i]) && ic[i] != '.' && ic[i] != '-' && ic[i] != '+'
            && digit_of(ic[i]) == d.int_digits[i]);
    assert(forall|i: int|
        0 <= i < fc.len() ==> is_digit(fc[i]) && fc[i] != '.' && digit_of(fc[i])
            == d.frac_digits[i]);
    let (neg, body) = dec_split_sign(text);
    if d.negative {
        assert(text[0] == '-');
        assert(neg == true);
        assert(body =~= ic + (if d.frac_digits.len() > 0 {
            seq!['.'] + fc
        } else {
            Seq::<char>::empty()
        }));
    } else {
        assert(text[0] == ic[0]);
        assert(neg == false);
        assert(strip_plus(text) == text);
        assert(body =~= ic + (if d.frac_digits.len() > 0 {
            seq!['.'] + fc
        } else {
            Seq::<char>::empty()
        }));
    }
    assert forall|m: int| 0 <= m < body.len() implies body[m] != 'e' && body[m] != 'E' by {
        if m < ic.len() {
            assert(body[m] == ic[m]);
        } else if d.frac_digits.len() > 0 && m == ic.len() {
            assert(body[m] == '.');
        } else {
            assert(body[m] == fc[m - ic.len() - 1]);
        }
    }
    lemma_exp_index_from(body, 0, body.len() as int);
    assert(body.take(body.len() as int) =~= body);
    let n = ic.len() as int;
    if d.frac_digits.len() > 0 {
        assert(body[n] == '.');
        lemma_char_index_from(body, '.', 0, n);
        assert(body.take(n) =~= ic);
        assert(body.skip(n + 1) =~= fc);
        assert(digit_vals(ic) =~= d.int_digits);
        assert(digit_vals(fc) =~= d.frac_digits);
        lemma_norm_of_normalized(neg, d);
    } else {
        lemma_char_index_from(body, '.', 0, n);
        assert(body.take(n) =~= ic);
        assert(digit_vals(ic) =~= d.int_digits);
        assert(digit_vals(Seq::<char>::empty()) =~= Seq::<u8>::empty());
        assert(d.frac_digits =~= Seq::<u8>::empty());
        lemma_norm_of_normalized(neg, d);
    }
}

/// Normalization is the identity on already-normal digits.
proof fn lemma_norm_of_normalized(neg: bool, d: DecimalS)
    requires
        dec_wf(d),
        neg == d.negative,
    ensures
        dec_norm(neg, d.int_digits, d.frac_digits) == d,
{
    let ip = d.int_digits;
    let fp = d.frac_digits;
    if ip[0] == 0 {
        assert(ip =~= seq![0u8]);
        assert(drop_leading_zeros(ip) == drop_leading_zeros(ip.skip(1)));
        assert(ip.skip(1) =~= Seq::<u8>::empty());
    }
    assert(drop_trailing_zeros(fp) == fp);
    if d.negative {
        assert(!dec_is_zero(d));
        if drop_leading_zeros(ip).len() == 0 {
            assert(ip[0] == 0);
        }
    }
    assert(dec_norm(neg, ip, fp) =~= d);
}

} // verus!
