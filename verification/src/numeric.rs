//! Decimal rendering and parsing of 64-bit sizes.
//!
//! The record store keeps `object_size` as its decimal string; these
//! functions render and re-read that string, and the round-trip lemma shows
//! that a size survives the trip unchanged.

use vstd::prelude::*;

verus! {

/// The character for one decimal digit value.
pub open spec fn digit_char(d: int) -> char {
    if d == 0 {
        '0'
    } else if d == 1 {
        '1'
    } else if d == 2 {
        '2'
    } else if d == 3 {
        '3'
    } else if d == 4 {
        '4'
    } else if d == 5 {
        '5'
    } else if d == 6 {
        '6'
    } else if d == 7 {
        '7'
    } else if d == 8 {
        '8'
    } else {
        '9'
    }
}

/// The decimal digit value of a character; 10 marks a non-digit.
pub open spec fn digit_val(c: char) -> int {
    if c == '0' {
        0
    } else if c == '1' {
        1
    } else if c == '2' {
        2
    } else if c == '3' {
        3
    } else if c == '4' {
        4
    } else if c == '5' {
        5
    } else if c == '6' {
        6
    } else if c == '7' {
        7
    } else if c == '8' {
        8
    } else if c == '9' {
        9
    } else {
        10
    }
}

pub open spec fn is_dec_digit(c: char) -> bool {
    digit_val(c) < 10
}

/// The canonical decimal rendering of a natural number, most significant
/// digit first, with no leading zero except for zero itself.
pub open spec fn dec_rep(n: nat) -> Seq<char>
    decreases n,
{
    if n < 10 {
        seq![digit_char(n as int)]
    } else {
        dec_rep(n / 10).push(digit_char((n % 10) as int))
    }
}

/// The canonical decimal rendering of a signed value: a minus sign before
/// the rendering of the magnitude.
pub open spec fn i64_dec_str(n: int) -> Seq<char> {
    if n >= 0 {
        dec_rep(n as nat)
    } else {
        seq!['-'] + dec_rep((-n) as nat)
    }
}

/// The value of a digit string, most significant digit first.
pub open spec fn digits_val(s: Seq<char>) -> int
    decreases s.len(),
{
    if s.len() == 0 {
        0
    } else {
        digits_val(s.drop_last()) * 10 + digit_val(s.last())
    }
}

pub open spec fn all_digits(s: Seq<char>) -> bool {
    forall|i: int| 0 <= i < s.len() ==> is_dec_digit(#[trigger] s[i])
}

/// A canonical digit string: non-empty, digits only, no leading zero
/// except for "0" itself.
pub open spec fn valid_dec(s: Seq<char>) -> bool {
    &&& s.len() > 0
    &&& all_digits(s)
    &&& (s.len() > 1 ==> s[0] != '0')
}

/// What `parse_i64` accepts: the canonical decimal rendering of a value in
/// the signed 64-bit range, and nothing else.
pub open spec fn parse_i64_spec(s: Seq<char>) -> Option<int> {
    if s.len() > 0 && s[0] == '-' {
        let m = s.subrange(1, s.len() as int);
        if valid_dec(m) && m[0] != '0' && digits_val(m) <= 0x8000_0000_0000_0000 {
            Some(-digits_val(m))
        } else {
            None
        }
    } else {
        if valid_dec(s) && digits_val(s) <= 0x7fff_ffff_ffff_ffff {
            Some(digits_val(s))
        } else {
            None
        }
    }
}

pub open spec fn pow10(n: nat) -> int
    decreases n,
{
    if n == 0 {
        1
    } else {
        10 * pow10((n - 1) as nat)
    }
}

proof fn lemma_pow10_pos(k: nat)
    ensures
        pow10(k) >= 1,
    decreases k,
{
    if k > 0 {
        lemma_pow10_pos((k - 1) as nat);
    }
}

proof fn lemma_pow10_mono(a: nat, b: nat)
    requires
        a <= b,
    ensures
        pow10(a) <= pow10(b),
    decreases b - a,
{
    if a < b {
        lemma_pow10_mono(a, (b - 1) as nat);
        lemma_pow10_pos((b - 1) as nat);
    }
}

proof fn lemma_pow10_values()
    ensures
        pow10(18) == 1_000_000_000_000_000_000,
        pow10(19) == 10_000_000_000_000_000_000,
{
    assert(pow10(0) == 1);
    assert(pow10(1) == 10);
    assert(pow10(2) == 100);
    assert(pow10(3) == 1000);
    assert(pow10(4) == 10000);
    assert(pow10(5) == 100000);
    assert(pow10(6) == 1000000);
    assert(pow10(7) == 10000000);
    assert(pow10(8) == 100000000);
    assert(pow10(9) == 1000000000);
    assert(pow10(10) == 10000000000);
    assert(pow10(11) == 100000000000);
    assert(pow10(12) == 1000000000000);
    assert(pow10(13) == 10000000000000);
    assert(pow10(14) == 100000000000000);
    assert(pow10(15) == 1000000000000000);
    assert(pow10(16) == 10000000000000000);
    assert(pow10(17) == 100000000000000000);
    assert(pow10(18) == 1000000000000000000);
    assert(pow10(19) == 10000000000000000000);
}

pub proof fn lemma_digits_val_lower(s: Seq<char>)
    requires
        all_digits(s),
        s.len() >= 1,
        s[0] != '0',
    ensures
        digits_val(s) >= pow10((s.len() - 1) as nat),
    decreases s.len(),
{
    if s.len() == 1 {
        assert(digit_val(s[0]) >= 1);
        assert(s.drop_last() =~= Seq::<char>::empty());
        assert(digits_val(s.drop_last()) == 0);
        assert(digits_val(s) == digit_val(s[0]));
    } else {
        let dl = s.drop_last();
        assert(dl[0] == s[0]);
        assert(forall|i: int| 0 <= i < dl.len() ==> is_dec_digit(#[trigger] dl[i]));
        lemma_digits_val_lower(dl);
        assert(digits_val(s) == digits_val(dl) * 10 + digit_val(s.last()));
        assert(digits_val(dl) >= pow10((s.len() - 2) as nat));
        assert(digit_val(s.last()) >= 0);
        assert(pow10((s.len() - 1) as nat) == 10 * pow10((s.len() - 2) as nat));
    }
}

/// Appends one decimal digit character to a string.
fn append_digit(out: &mut String, d: u64)
    requires
        d < 10,
    ensures
        final(out)@ == old(out)@.push(digit_char(d as int)),
{
    if d == 0 {
        out.append("0");
        proof {
            reveal_strlit("0");
            assert(out@ =~= old(out)@.push('0'));
        }
    } else if d == 1 {
        out.append("1");
        proof {
            reveal_strlit("1");
            assert(out@ =~= old(out)@.push('1'));
        }
    } else if d == 2 {
        out.append("2");
        proof {
            reveal_strlit("2");
            assert(out@ =~= old(out)@.push('2'));
        }
    } else if d == 3 {
        out.append("3");
        proof {
            reveal_strlit("3");
            assert(out@ =~= old(out)@.push('3'));
        }
    } else if d == 4 {
        out.append("4");
        proof {
            reveal_strlit("4");
            assert(out@ =~= old(out)@.push('4'));
        }
    } else if d == 5 {
        out.append("5");
        proof {
            reveal_strlit("5");
            assert(out@ =~= old(out)@.push('5'));
        }
    } else if d == 6 {
        out.append("6");
        proof {
            reveal_strlit("6");
            assert(out@ =~= old(out)@.push('6'));
        }
    } else if d == 7 {
        out.append("7");
        proof {
            reveal_strlit("7");
            assert(out@ =~= old(out)@.push('7'));
        }
    } else if d == 8 {
        out.append("8");
        proof {
            reveal_strlit("8");
            assert(out@ =~= old(out)@.push('8'));
        }
    } else {
        out.append("9");
        proof {
            reveal_strlit("9");
            assert(out@ =~= old(out)@.push('9'));
        }
    }
}

/// Appends the decimal rendering of a magnitude, most significant digit
/// first.
fn append_dec_u64(out: &mut String, n: u64)
    ensures
        final(out)@ == old(out)@ + dec_rep(n as nat),
    decreases n,
{
    if n < 10 {
        append_digit(out, n);
        proof {
            assert(out@ =~= old(out)@ + dec_rep(n as nat));
        }
    } else {
        append_dec_u64(out, n / 10);
        append_digit(out, n % 10);
        proof {
            assert(out@ =~= old(out)@ + dec_rep(n as nat));
        }
    }
}

/// Renders a signed 64-bit value as its canonical decimal string.
pub fn i64_to_string(n: i64) -> (r: String)
    ensures
        r@ == i64_dec_str(n as int),
{
    let mut out = String::new();
    if n < 0 {
        out.append("-");
        let m: u64 = if n == i64::MIN {
            9223372036854775808u64
        } else {
            (-n) as u64
        };
        assert(m as int == -(n as int));
        append_dec_u64(&mut out, m);
        proof {
            reveal_strlit("-");
            assert(out@ =~= i64_dec_str(n as int));
        }
    } else {
        append_dec_u64(&mut out, n as u64);
        proof {
            assert(out@ =~= i64_dec_str(n as int));
        }
    }
    out
}

/// The decimal digit value of a character, or 10 for any other character.
fn digit_of(c: char) -> (d: u64)
    ensures
        d as int == digit_val(c),
{
    if c == '0' {
        0
    } else if c == '1' {
        1
    } else if c == '2' {
        2
    } else if c == '3' {
        3
    } else if c == '4' {
        4
    } else if c == '5' {
        5
    } else if c == '6' {
        6
    } else if c == '7' {
        7
    } else if c == '8' {
        8
    } else if c == '9' {
        9
    } else {
        10
    }
}

/// Reads a signed 64-bit value back from its canonical decimal string;
/// returns `None` for every other string.
#[verifier::loop_isolation(false)]
#[verifier::rlimit(60)]
pub fn parse_i64(s: &str) -> (r: Option<i64>)
    ensures
        match r {
            Some(v) => parse_i64_spec(s@) == Some(v as int),
            None => parse_i64_spec(s@) is None,
        },
{
    let n = s.unicode_len();
    let neg = n > 0 && s.get_char(0) == '-';
    let start: usize = if neg {
        1
    } else {
        0
    };
    let ghost m = s@.subrange(start as int, s@.len() as int);
    proof {
        if !neg {
            assert(m =~= s@);
        }
    }
    if n - start == 0 {
        return None;
    }
    if n - start > 19 {
        proof {
            if valid_dec(m) {
                lemma_digits_val_lower(m);
                lemma_pow10_mono(19, (m.len() - 1) as nat);
                lemma_pow10_values();
            }
        }
        return None;
    }
    if neg {
        let c1 = s.get_char(1);
        if digit_of(c1) == 0 {
            proof {
                assert(m[0] == c1);
            }
            return None;
        }
    } else if n > 1 {
        let c0 = s.get_char(0);
        if digit_of(c0) == 0 {
            proof {
                assert(m[0] == c0);
            }
            return None;
        }
    }
    let mut acc: u64 = 0;
    let mut i: usize = start;
    while i < n
        invariant
            start <= i <= n,
            n == s@.len(),
            start <= 1,
            n - start <= 19,
            acc as int == digits_val(s@.subrange(start as int, i as int)),
            all_digits(s@.subrange(start as int, i as int)),
            acc < pow10((i - start) as nat),
        decreases n - i,
    {
        let c = s.get_char(i);
        let d = digit_of(c);
        if d >= 10 {
            proof {
                assert(m[i - start] == c);
                assert(!is_dec_digit(m[i - start]));
                assert(!all_digits(m));
            }
            return None;
        }
        proof {
            let pre = s@.subrange(start as int, i as int);
            let ext = s@.subrange(start as int, i as int + 1);
            assert(ext.drop_last() =~= pre);
            assert(ext.last() == c);
            assert(forall|j: int| 0 <= j < ext.len() ==> is_dec_digit(#[trigger] ext[j]));
            lemma_pow10_mono((i - start + 1) as nat, (n - start) as nat);
            lemma_pow10_mono((n - start) as nat, 19);
            lemma_pow10_values();
        }
        acc = acc * 10 + d;
        i = i + 1;
    }
    proof {
        assert(s@.subrange(start as int, i as int) == m);
        assert(valid_dec(m));
    }
    if neg {
        if acc > 9223372036854775808u64 {
            return None;
        }
        if acc == 9223372036854775808u64 {
            Some(i64::MIN)
        } else {
            Some(-(acc as i64))
        }
    } else {
        if acc > 9223372036854775807u64 {
            return None;
        }
        Some(acc as i64)
    }
}

/// The canonical rendering of a magnitude is a canonical digit string
/// whose value is that magnitude, and it never begins with a zero unless
/// the magnitude is zero.
pub proof fn lemma_dec_rep_valid(n: nat)
    ensures
        valid_dec(dec_rep(n)),
        digits_val(dec_rep(n)) == n,
        n >= 1 ==> dec_rep(n)[0] != '0',
    decreases n,
{
    if n < 10 {
        let s = dec_rep(n);
        assert(s == seq![digit_char(n as int)]);
        assert(s.drop_last() =~= Seq::<char>::empty());
        assert(digits_val(s.drop_last()) == 0);
        assert(digits_val(s) == digit_val(digit_char(n as int)));
    } else {
        lemma_dec_rep_valid(n / 10);
        let s = dec_rep(n);
        let p = dec_rep(n / 10);
        assert(s == p.push(digit_char((n % 10) as int)));
        assert(s.drop_last() =~= p);
        assert(forall|i: int|
            0 <= i < s.len() ==> #[trigger] s[i] == if i < p.len() {
                p[i]
            } else {
                digit_char((n % 10) as int)
            });
    }
}

/// Round trip: parsing the canonical rendering of any signed 64-bit value
/// yields that value back.
pub proof fn lemma_dec_str_round_trip(v: int)
    requires
        -0x8000_0000_0000_0000 <= v <= 0x7fff_ffff_ffff_ffff,
    ensures
        parse_i64_spec(i64_dec_str(v)) == Some(v),
{
    if v >= 0 {
        lemma_dec_rep_valid(v as nat);
        let s = i64_dec_str(v);
        assert(s == dec_rep(v as nat));
        assert(s[0] != '-') by {
            if v < 10 {
            } else {
                lemma_dec_rep_valid((v / 10) as nat);
                assert(s[0] == dec_rep((v / 10) as nat)[0]);
            }
        }
    } else {
        let mag = (-v) as nat;
        lemma_dec_rep_valid(mag);
        let s = i64_dec_str(v);
        let m = s.subrange(1, s.len() as int);
        assert(m =~= dec_rep(mag));
    }
}

} // verus!
