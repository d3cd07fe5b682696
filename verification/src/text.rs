//! Character-level helpers shared by the parser and the writer: string
//! equality, decimal digit sequences, and the integer grammars used by
//! GPX attribute and element content.

use vstd::prelude::*;
use vstd::string::*;

verus! {

/// A character is a decimal digit.
pub open spec fn is_digit(c: char) -> bool {
    48 <= c as int && c as int <= 57
}

/// Numeric value of a digit character.
pub open spec fn digit_of(c: char) -> int {
    c as int - 48
}

/// The digit character for a value in 0..=9.
pub open spec fn digit_char_of(d: int) -> char {
    if d == 0 {
        '0'
    } else if d == 1 {
        '1'
    } else if d == 2 {
        '2'
    } else if d == 3 {
        '3'
    } else if d == 4 {
        '4'
    } else if d == 5 {
        '5'
    } else if d == 6 {
        '6'
    } else if d == 7 {
        '7'
    } else if d == 8 {
        '8'
    } else {
        '9'
    }
}

pub open spec fn all_digits(s: Seq<char>) -> bool {
    forall|i: int| 0 <= i < s.len() ==> is_digit(s[i])
}

/// The integer denoted by a sequence of digit characters (most significant
/// first); 0 for the empty sequence.
pub open spec fn digits_val(s: Seq<char>) -> int
    decreases s.len(),
{
    if s.len() == 0 {
        0
    } else {
        10 * digits_val(s.drop_last()) + digit_of(s.last())
    }
}

/// A leading `+`, accepted by the unsigned integer grammars, is dropped.
pub open spec fn strip_plus(s: Seq<char>) -> Seq<char> {
    if s.len() > 0 && s[0] == '+' {
        s.skip(1)
    } else {
        s
    }
}

/// The unsigned-integer grammar: optional `+`, then one or more digits,
/// denoting a value of at most `max`.
pub open spec fn unsigned_of(s: Seq<char>, max: int) -> Option<u64> {
    let t = strip_plus(s);
    if t.len() > 0 && all_digits(t) && digits_val(t) <= max {
        Some(digits_val(t) as u64)
    } else {
        None
    }
}

/// The signed 32-bit grammar: optional sign, then one or more digits.
pub open spec fn signed32_of(s: Seq<char>) -> Option<i32> {
    if s.len() > 0 && s[0] == '-' {
        let t = s.skip(1);
        if t.len() > 0 && all_digits(t) && digits_val(t) <= 0x8000_0000 {
            Some((-digits_val(t)) as i32)
        } else {
            None
        }
    } else {
        let t = strip_plus(s);
        if t.len() > 0 && all_digits(t) && digits_val(t) <= 0x7fff_ffff {
            Some(digits_val(t) as i32)
        } else {
            None
        }
    }
}

/// Decimal rendering of a non-negative integer, without sign or padding.
pub open spec fn nat_text(n: int) -> Seq<char>
    decreases n,
{
    if n < 10 {
        seq![digit_char_of(n)]
    } else {
        nat_text(n / 10).push(digit_char_of(n % 10))
    }
}

/// Decimal rendering of a signed integer.
pub open spec fn int_text(n: int) -> Seq<char> {
    if n < 0 {
        seq!['-'] + nat_text(-n)
    } else {
        nat_text(n)
    }
}

pub proof fn lemma_digits_val_nonneg(s: Seq<char>)
    requires
        all_digits(s),
    ensures
        digits_val(s) >= 0,
    decreases s.len(),
{
    if s.len() > 0 {
        assert(all_digits(s.drop_last()));
        lemma_digits_val_nonneg(s.drop_last());
    }
}

/// Extending a digit string on the right cannot decrease its value.
pub proof fn lemma_digits_val_prefix(s: Seq<char>, i: int)
    requires
        all_digits(s),
        0 <= i <= s.len(),
    ensures
        digits_val(s) >= digits_val(s.take(i)),
    decreases s.len() - i,
{
    if i < s.len() {
        let t = s.take(i + 1);
        assert(t.drop_last() =~= s.take(i));
        assert(all_digits(t.drop_last()));
        lemma_digits_val_nonneg(t.drop_last());
        assert(digits_val(t) == 10 * digits_val(s.take(i)) + digit_of(s[i]));
        lemma_digits_val_prefix(s, i + 1);
    } else {
        assert(s.take(i) =~= s);
    }
}

pub fn char_is_digit(c: char) -> (r: bool)
    ensures
        r == is_digit(c),
{
    let u = c as u32;
    48 <= u && u <= 57
}

pub fn char_digit(c: char) -> (r: u8)
    requires
        is_digit(c),
    ensures
        r == digit_of(c),
{
    (c as u32 - 48) as u8
}

/// The one-character string for a digit value.
pub fn digit_str(d: u8) -> (r: &'static str)
    requires
        d < 10,
    ensures
        r@ =~= seq![digit_char_of(d as int)],
{
    proof {
        reveal_strlit("0");
        reveal_strlit("1");
        reveal_strlit("2");
        reveal_strlit("3");
        reveal_strlit("4");
        reveal_strlit("5");
        reveal_strlit("6");
        reveal_strlit("7");
        reveal_strlit("8");
        reveal_strlit("9");
    }
    match d {
        0 => "0",
        1 => "1",
        2 => "2",
        3 => "3",
        4 => "4",
        5 => "5",
        6 => "6",
        7 => "7",
        8 => "8",
        _ => "9",
    }
}

/// Character-by-character string equality.
pub fn str_eq(a: &str, b: &str) -> (r: bool)
    ensures
        r == (a@ == b@),
{
    let alen = a.unicode_len();
    let blen = b.unicode_len();
    if alen != blen {
        return false;
    }
    for i in 0..alen
        invariant
            alen == a@.len(),
            alen == b@.len(),
            forall|j: int| 0 <= j < i ==> a@[j] == b@[j],
    {
        if a.get_char(i) != b.get_char(i) {
            return false;
        }
    }
    proof {
        assert(a@ =~= b@);
    }
    true
}

/// Parses an unsigned integer of at most `max`, per `unsigned_of`.
pub fn parse_unsigned(s: &str, max: u64) -> (r: Option<u64>)
    ensures
        r == unsigned_of(s@, max as int),
        r matches Some(v) ==> v <= max,
{
    let len = s.unicode_len();
    let mut start: usize = 0;
    if len > 0 && s.get_char(0) == '+' {
        start = 1;
    }
    let ghost t = strip_plus(s@);
    proof {
        assert(t =~= s@.subrange(start as int, len as int));
    }
    if start == len {
        return None;
    }
    // first pass: the grammar admits digits only
    let mut j: usize = start;
    while j < len
        invariant
            start <= j <= len,
            len == s@.len(),
            t == strip_plus(s@),
            t =~= s@.subrange(start as int, len as int),
            forall|m: int| 0 <= m < j - start ==> is_digit(t[m]),
        decreases len - j,
    {
        if !char_is_digit(s.get_char(j)) {
            assert(!all_digits(t)) by {
                assert(t[j - start] == s@[j as int]);
            }
            return None;
        }
        j += 1;
    }
    proof {
        assert(all_digits(t));
    }
    // second pass: accumulate, rejecting once the value must exceed `max`
    let mut acc: u64 = 0;
    j = start;
    while j < len
        invariant
            start <= j <= len,
            len == s@.len(),
            t == strip_plus(s@),
            t =~= s@.subrange(start as int, len as int),
            all_digits(t),
            acc == digits_val(t.take(j - start)),
            acc <= max,
        decreases len - j,
    {
        let c = s.get_char(j);
        proof {
            assert(is_digit(s@[j as int])) by {
                assert(t[j - start] == s@[j as int]);
            }
        }
        let d = char_digit(c);
        let ghost t2 = t.take(j - start + 1);
        proof {
            assert(t2.drop_last() =~= t.take(j - start));
            assert(t2.last() == s@[j as int]);
            assert(digits_val(t2) == 10 * acc + digit_of(s@[j as int]));
        }
        if acc > max / 10 || (acc == max / 10 && (d as u64) > max % 10) {
            proof {
                vstd::arithmetic::div_mod::lemma_fundamental_div_mod(max as int, 10);
                assert(digits_val(t2) > max);
                lemma_digits_val_prefix(t, j - start + 1);
                assert(t.take(t.len() as int) =~= t);
                assert(digits_val(t) > max);
            }
            return None;
        }
        acc = acc * 10 + (d as u64);
        j += 1;
    }
    proof {
        assert(t.take(j - start) =~= t);
    }
    Some(acc)
}

/// Parses a signed 32-bit integer, per `signed32_of`.
pub fn parse_i32(s: &str) -> (r: Option<i32>)
    ensures
        r == signed32_of(s@),
{
    let len = s.unicode_len();
    if len > 0 && s.get_char(0) == '-' {
        let rest = s.substring_char(1, len);
        proof {
            assert(rest@ =~= s@.skip(1));
        }
        if rest.unicode_len() > 0 && rest.get_char(0) == '+' {
            proof {
                assert(!is_digit(rest@[0]));
                assert(!all_digits(s@.skip(1))) by {
                    assert(s@.skip(1)[0] == rest@[0]);
                }
            }
            return None;
        }
        proof {
            assert(strip_plus(rest@) == rest@);
        }
        match parse_unsigned(rest, 0x8000_0000) {
            Some(v) => {
                proof {
                    lemma_digits_val_nonneg(rest@);
                    assert(v as int == digits_val(rest@));
                    assert(v <= 0x8000_0000u64);
                    assert(signed32_of(s@) == Some(((-digits_val(s@.skip(1)))) as i32));
                }
                Some((-(v as i64)) as i32)
            },
            None => None,
        }
    } else {
        match parse_unsigned(s, 0x7fff_ffff) {
            Some(v) => {
                proof {
                    lemma_digits_val_nonneg(strip_plus(s@));
                    assert(v as int == digits_val(strip_plus(s@)));
                    assert(v <= 0x7fff_ffffu64);
                }
                Some(v as i32)
            },
            None => None,
        }
    }
}

/// Renders a non-negative integer in decimal, per `nat_text`.
pub fn format_u64(n: u64) -> (r: String)
    ensures
        r@ == nat_text(n as int),
    decreases n,
{
    if n < 10 {
        let s = digit_str(n as u8).to_owned();
        proof {
            assert(s@ =~= nat_text(n as int));
        }
        s
    } else {
        let mut r = format_u64(n / 10);
        r.append(digit_str((n % 10) as u8));
        proof {
            assert(r@ =~= nat_text(n as int));
        }
        r
    }
}

/// Renders a signed 32-bit integer in decimal, per `int_text`.
pub fn format_i32(n: i32) -> (r: String)
    ensures
        r@ == int_text(n as int),
{
    if n < 0 {
        let mag = (-(n as i64)) as u64;
        let mut r = String::from_str("-");
        proof {
            reveal_strlit("-");
            assert(r@ =~= seq!['-']);
        }
        r.append(format_u64(mag).as_str());
        proof {
            assert(r@ =~= int_text(n as int));
        }
        r
    } else {
        format_u64(n as u64)
    }
}

/// `nat_text` renders digits only, and its value reads back as written.
pub proof fn lemma_nat_text_digits(n: int)
    requires
        n >= 0,
    ensures
        nat_text(n).len() >= 1,
        all_digits(nat_text(n)),
        digits_val(nat_text(n)) == n,
        nat_text(n)[0] != '+',
        nat_text(n)[0] != '-',
    decreases n,
{
    if n < 10 {
        let s = nat_text(n);
        assert(s.len() == 1);
        assert(s.last() == digit_char_of(n));
        assert(s.drop_last() =~= Seq::<char>::empty());
        assert(digits_val(s.drop_last()) == 0);
        assert(digit_of(digit_char_of(n)) == n);
        assert(digits_val(s) == digit_of(digit_char_of(n)));
    } else {
        lemma_nat_text_digits(n / 10);
        let s = nat_text(n);
        assert(s.drop_last() =~= nat_text(n / 10));
        assert(s.last() == digit_char_of(n % 10));
        vstd::arithmetic::div_mod::lemma_fundamental_div_mod(n, 10);
        assert(digits_val(s) == 10 * (n / 10) + (n % 10));
    }
}

/// Round trip: an unsigned value rendered by `nat_text` parses back to
/// itself under the unsigned grammar.
pub proof fn lemma_unsigned_round_trip(n: int, max: int)
    requires
        0 <= n <= max,
    ensures
        unsigned_of(nat_text(n), max) == Some(n as u64),
{
    lemma_nat_text_digits(n);
    assert(strip_plus(nat_text(n)) == nat_text(n));
}

/// Round trip for the signed 32-bit grammar.
pub proof fn lemma_signed32_round_trip(n: int)
    requires
        -0x8000_0000 <= n <= 0x7fff_ffff,
    ensures
        signed32_of(int_text(n)) == Some(n as i32),
{
    if n < 0 {
        lemma_nat_text_digits(-n);
        let s = int_text(n);
        assert(s[0] == '-');
        assert(s.skip(1) =~= nat_text(-n));
    } else {
        lemma_nat_text_digits(n);
        assert(strip_plus(nat_text(n)) == nat_text(n));
    }
}

} // verus!
