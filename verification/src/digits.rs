//! Decimal text: the spec-level meaning of digit strings and the verified
//! conversions between unsigned integers and their decimal representation.

use vstd::prelude::*;

verus! {

/// Numeric value of a decimal digit character; ten marks a non-digit.
pub open spec fn digit_val(c: char) -> nat {
    if c == '0' {
        0
    } else if c == '1' {
        1
    } else if c == '2' {
        2
    } else if c == '3' {
        3
    } else if c == '4' {
        4
    } else if c == '5' {
        5
    } else if c == '6' {
        6
    } else if c == '7' {
        7
    } else if c == '8' {
        8
    } else if c == '9' {
        9
    } else {
        10
    }
}

pub open spec fn is_dec_digit(c: char) -> bool {
    digit_val(c) < 10
}

pub open spec fn all_dec_digits(s: Seq<char>) -> bool {
    forall|i: int| 0 <= i < s.len() ==> is_dec_digit(#[trigger] s[i])
}

/// A non-empty string of decimal digits.
pub open spec fn dec_digits_ok(s: Seq<char>) -> bool {
    s.len() > 0 && all_dec_digits(s)
}

/// Value denoted by a digit string, most significant digit first.
pub open spec fn dec_val(s: Seq<char>) -> nat
    decreases s.len(),
{
    if s.len() == 0 {
        0
    } else {
        dec_val(s.drop_last()) * 10 + digit_val(s.last())
    }
}

/// The digit character for a value below ten.
pub open spec fn dec_digit_of(n: nat) -> char {
    if n == 0 {
        '0'
    } else if n == 1 {
        '1'
    } else if n == 2 {
        '2'
    } else if n == 3 {
        '3'
    } else if n == 4 {
        '4'
    } else if n == 5 {
        '5'
    } else if n == 6 {
        '6'
    } else if n == 7 {
        '7'
    } else if n == 8 {
        '8'
    } else {
        '9'
    }
}

/// Canonical decimal representation of a natural number (no leading zeros,
/// except for zero itself).
pub open spec fn dec_str(n: nat) -> Seq<char>
    decreases n,
{
    if n < 10 {
        seq![dec_digit_of(n)]
    } else {
        dec_str(n / 10).push(dec_digit_of(n % 10))
    }
}

/// The canonical representation consists of digits and denotes the number
/// it was built from.
pub proof fn lemma_dec_str_val(n: nat)
    ensures
        dec_digits_ok(dec_str(n)),
        dec_val(dec_str(n)) == n,
    decreases n,
{
    if n < 10 {
        let s = dec_str(n);
        assert(s =~= seq![dec_digit_of(n)]);
        assert(s.drop_last() =~= Seq::<char>::empty());
        assert(dec_val(Seq::<char>::empty()) == 0);
        assert(s.last() == dec_digit_of(n));
        assert(digit_val(dec_digit_of(n)) == n);
        assert forall|i: int| 0 <= i < s.len() implies is_dec_digit(#[trigger] s[i]) by {
            assert(s[i] == dec_digit_of(n));
        }
    } else {
        lemma_dec_str_val(n / 10);
        let prefix = dec_str(n / 10);
        let whole = prefix.push(dec_digit_of(n % 10));
        assert(whole.drop_last() =~= prefix);
        assert(whole.last() == dec_digit_of(n % 10));
        assert(dec_val(whole) == dec_val(prefix) * 10 + digit_val(dec_digit_of(n % 10)));
        assert(digit_val(dec_digit_of(n % 10)) == n % 10);
        assert(dec_val(whole) == (n / 10) * 10 + n % 10);
        vstd::arithmetic::div_mod::lemma_fundamental_div_mod(n as int, 10);
        assert forall|i: int| 0 <= i < whole.len() implies is_dec_digit(#[trigger] whole[i]) by {
            if i < prefix.len() {
                assert(whole[i] == prefix[i]);
            } else {
                assert(whole[i] == dec_digit_of(n % 10));
            }
        }
    }
}

/// Digit strings denote nondecreasing values as they extend to the right.
pub proof fn lemma_dec_val_prefix_le(s: Seq<char>, i: int)
    requires
        0 <= i <= s.len(),
    ensures
        dec_val(s.take(i)) <= dec_val(s),
    decreases s.len() - i,
{
    if i == s.len() {
        assert(s.take(i) =~= s);
    } else {
        lemma_dec_val_prefix_le(s, i + 1);
        let a = s.take(i);
        let b = s.take(i + 1);
        assert(b.drop_last() =~= a);
        assert(b.last() == s[i]);
        assert(dec_val(b) == dec_val(a) * 10 + digit_val(s[i]));
        assert(dec_val(a) * 10 >= dec_val(a)) by (nonlinear_arith);
    }
}

pub open spec fn pow10(n: nat) -> nat
    decreases n,
{
    if n == 0 {
        1
    } else {
        10 * pow10((n - 1) as nat)
    }
}

/// A digit string denotes a value below ten to the power of its length.
pub proof fn lemma_dec_val_upper(s: Seq<char>)
    requires
        all_dec_digits(s),
    ensures
        dec_val(s) < pow10(s.len()),
    decreases s.len(),
{
    if s.len() == 0 {
    } else {
        assert(is_dec_digit(s[s.len() - 1]));
        assert forall|i: int| 0 <= i < s.drop_last().len() implies is_dec_digit(
            #[trigger] s.drop_last()[i],
        ) by {
            assert(s.drop_last()[i] == s[i]);
        }
        lemma_dec_val_upper(s.drop_last());
        assert(digit_val(s.last()) <= 9);
        assert(dec_val(s.drop_last()) * 10 <= (pow10((s.len() - 1) as nat) - 1) * 10) by (nonlinear_arith)
            requires
                dec_val(s.drop_last()) <= pow10((s.len() - 1) as nat) - 1,
        ;
    }
}

/// A value's decimal representation has as many digits as its magnitude
/// calls for.
pub proof fn lemma_dec_str_len(n: nat, k: nat)
    requires
        k >= 1,
        pow10((k - 1) as nat) <= n < pow10(k),
    ensures
        dec_str(n).len() == k,
    decreases k,
{
    if k == 1 {
        assert(pow10(0) == 1);
        assert(pow10(1) == 10);
    } else {
        assert(pow10(k) == 10 * pow10((k - 1) as nat));
        assert(pow10((k - 1) as nat) == 10 * pow10((k - 2) as nat));
        assert(n >= 10);
        assert(n / 10 >= pow10((k - 2) as nat)) by (nonlinear_arith)
            requires
                n >= 10 * pow10((k - 2) as nat),
        ;
        assert(n / 10 < pow10((k - 1) as nat)) by (nonlinear_arith)
            requires
                n < 10 * pow10((k - 1) as nat),
        ;
        lemma_dec_str_len(n / 10, (k - 1) as nat);
    }
}

/// Ten to the sixteenth and seventeenth, spelled out for bounds on
/// seventeen-digit strings.
pub proof fn lemma_pow10_17()
    ensures
        pow10(16) == 10000000000000000,
        pow10(17) == 100000000000000000,
{
    assert(pow10(0) == 1);
    assert(pow10(1) == 10);
    assert(pow10(2) == 100);
    assert(pow10(3) == 1000);
    assert(pow10(4) == 10000);
    assert(pow10(5) == 100000);
    assert(pow10(6) == 1000000);
    assert(pow10(7) == 10000000);
    assert(pow10(8) == 100000000);
    assert(pow10(9) == 1000000000);
    assert(pow10(10) == 10000000000);
    assert(pow10(11) == 100000000000);
    assert(pow10(12) == 1000000000000);
    assert(pow10(13) == 10000000000000);
    assert(pow10(14) == 100000000000000);
    assert(pow10(15) == 1000000000000000);
    assert(pow10(16) == 10000000000000000);
    assert(pow10(17) == 100000000000000000);
}

/// Single-character string for a digit value.
fn digit_str(d: u64) -> (r: &'static str)
    requires
        d < 10,
    ensures
        r@ =~= seq![dec_digit_of(d as nat)],
{
    let r: &'static str = if d == 0 {
        "0"
    } else if d == 1 {
        "1"
    } else if d == 2 {
        "2"
    } else if d == 3 {
        "3"
    } else if d == 4 {
        "4"
    } else if d == 5 {
        "5"
    } else if d == 6 {
        "6"
    } else if d == 7 {
        "7"
    } else if d == 8 {
        "8"
    } else {
        "9"
    };
    proof {
        reveal_strlit("0");
        reveal_strlit("1");
        reveal_strlit("2");
        reveal_strlit("3");
        reveal_strlit("4");
        reveal_strlit("5");
        reveal_strlit("6");
        reveal_strlit("7");
        reveal_strlit("8");
        reveal_strlit("9");
    }
    r
}

/// Render an unsigned integer in decimal.
pub fn u64_to_dec_string(n: u64) -> (r: String)
    ensures
        r@ == dec_str(n as nat),
    decreases n,
{
    if n < 10 {
        let s = digit_str(n).to_owned();
        proof {
            assert(s@ =~= dec_str(n as nat));
        }
        s
    } else {
        let mut s = u64_to_dec_string(n / 10);
        s.append(digit_str(n % 10));
        proof {
            assert(s@ =~= dec_str(n as nat));
        }
        s
    }
}

/// Digit value of a character, if it is a decimal digit.
fn char_digit(c: char) -> (r: Option<u64>)
    ensures
        r matches Some(v) ==> v < 10 && digit_val(c) == v,
        r is None ==> !is_dec_digit(c),
{
    match c {
        '0' => Some(0),
        '1' => Some(1),
        '2' => Some(2),
        '3' => Some(3),
        '4' => Some(4),
        '5' => Some(5),
        '6' => Some(6),
        '7' => Some(7),
        '8' => Some(8),
        '9' => Some(9),
        _ => None,
    }
}

/// Sequence of characters left after an optional leading plus sign.
pub open spec fn strip_plus(s: Seq<char>) -> Seq<char> {
    if s.len() > 0 && s[0] == '+' {
        s.skip(1)
    } else {
        s
    }
}

/// Parse an unsigned decimal integer, accepting an optional leading plus
/// sign, rejecting anything else that is not all digits, and rejecting
/// values that do not fit.
pub fn parse_u64(s: &str) -> (r: Option<u64>)
    ensures
        r is Some <==> dec_digits_ok(strip_plus(s@)) && dec_val(strip_plus(s@)) <= u64::MAX,
        r matches Some(v) ==> v == dec_val(strip_plus(s@)),
{
    let n = s.unicode_len();
    let start: usize = if n > 0 && s.get_char(0) == '+' {
        1
    } else {
        0
    };
    let ghost t = strip_plus(s@);
    proof {
        assert(t =~= s@.skip(start as int));
    }
    if start == n {
        return None;
    }
    let mut acc: u64 = 0;
    let mut i: usize = start;
    while i < n
        invariant
            start <= i <= n,
            start < n,
            n == s@.len(),
            start <= 1,
            t == strip_plus(s@),
            t == s@.skip(start as int),
            t.len() == n - start,
            all_dec_digits(t.take(i - start)),
            acc == dec_val(t.take(i - start)),
        decreases n - i,
    {
        let c = s.get_char(i);
        proof {
            assert(t[i - start] == s@[i as int]);
        }
        let d = match char_digit(c) {
            Some(d) => d,
            None => {
                proof {
                    assert(!is_dec_digit(t[i - start]));
                }
                return None;
            },
        };
        let ghost pre = t.take(i - start);
        let ghost ext = t.take(i + 1 - start);
        proof {
            assert(ext.drop_last() =~= pre);
            assert(ext.last() == t[i - start]);
            assert(dec_val(ext) == dec_val(pre) * 10 + digit_val(t[i - start]));
        }
        let m = match acc.checked_mul(10) {
            Some(m) => m,
            None => {
                proof {
                    assert(dec_val(ext) > u64::MAX);
                    lemma_dec_val_prefix_le(t, i + 1 - start);
                }
                return None;
            },
        };
        let v = match m.checked_add(d) {
            Some(v) => v,
            None => {
                proof {
                    assert(dec_val(ext) > u64::MAX);
                    lemma_dec_val_prefix_le(t, i + 1 - start);
                }
                return None;
            },
        };
        acc = v;
        proof {
            assert(acc == dec_val(t.take(i + 1 - start)));
        }
        i += 1;
    }
    proof {
        assert(t.take(n - start) =~= t);
    }
    Some(acc)
}

/// Decimal text of a signed value: a minus sign and the magnitude, or the
/// bare magnitude.
pub open spec fn signed_dec_str(v: int) -> Seq<char> {
    if v >= 0 {
        dec_str(v as nat)
    } else {
        seq!['-'] + dec_str((-v) as nat)
    }
}

/// Render a signed integer in decimal.
pub fn i64_to_dec_string(v: i64) -> (r: String)
    ensures
        r@ == signed_dec_str(v as int),
{
    if v >= 0 {
        u64_to_dec_string(v as u64)
    } else {
        let mag: u64 = ((-(v + 1)) as u64) + 1;
        proof {
            assert(mag as int == -(v as int));
        }
        let mut s = "-".to_owned();
        proof {
            reveal_strlit("-");
            assert(s@ =~= seq!['-']);
        }
        let digits = u64_to_dec_string(mag);
        s.append(digits.as_str());
        s
    }
}

/// Render a 32-bit signed integer in decimal.
pub fn i32_to_dec_string(v: i32) -> (r: String)
    ensures
        r@ == signed_dec_str(v as int),
{
    i64_to_dec_string(v as i64)
}

/// Meaning of signed decimal text: an optional sign, then digits, rejected
/// when the value does not fit.
pub open spec fn parse_i64_spec(s: Seq<char>) -> Option<i64> {
    if s.len() > 0 && s[0] == '-' {
        let t = s.skip(1);
        if dec_digits_ok(t) && dec_val(t) <= 0x8000000000000000 {
            Some((-(dec_val(t) as int)) as i64)
        } else {
            None
        }
    } else {
        let t = strip_plus(s);
        if dec_digits_ok(t) && dec_val(t) <= i64::MAX {
            Some(dec_val(t) as i64)
        } else {
            None
        }
    }
}

/// Parse a signed decimal integer.
pub fn parse_i64(s: &str) -> (r: Option<i64>)
    ensures
        r == parse_i64_spec(s@),
{
    let n = s.unicode_len();
    if n > 0 && s.get_char(0) == '-' {
        if n == 1 {
            return None;
        }
        if s.get_char(1) == '+' {
            proof {
                assert(!is_dec_digit(s@.skip(1)[0]));
            }
            return None;
        }
        let rest = s.substring_char(1, n);
        proof {
            assert(rest@ =~= s@.skip(1));
            assert(strip_plus(rest@) == rest@);
        }
        match parse_u64(rest) {
            Some(v) => {
                if v < 0x8000000000000000u64 {
                    Some(-(v as i64))
                } else if v == 0x8000000000000000u64 {
                    Some(i64::MIN)
                } else {
                    None
                }
            },
            None => None,
        }
    } else {
        match parse_u64(s) {
            Some(v) => {
                if v <= i64::MAX as u64 {
                    Some(v as i64)
                } else {
                    None
                }
            },
            None => None,
        }
    }
}

} // verus!
