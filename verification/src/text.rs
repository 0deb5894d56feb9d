//! Decimal rendering of integers, the building block of every message and
//! label that the library produces.
use vstd::prelude::*;

verus! {

/// The ASCII digit for `d` (`d < 10`).
pub open spec fn digit_char(d: nat) -> char {
    (48 + d) as char
}

/// The decimal digits of `n`, most significant first, without leading zeros.
pub open spec fn decimal(n: nat) -> Seq<char>
    decreases n,
{
    if n < 10 {
        seq![digit_char(n)]
    } else {
        decimal(n / 10).push(digit_char(n % 10))
    }
}

/// `n` in decimal, with a leading `-` when negative (Rust's `{}`).
pub open spec fn signed_decimal(n: int) -> Seq<char> {
    if n < 0 {
        seq!['-'] + decimal((-n) as nat)
    } else {
        decimal(n as nat)
    }
}

/// `n` in decimal, always with its sign (Rust's `{:+}`).
pub open spec fn plus_signed_decimal(n: int) -> Seq<char> {
    if n < 0 {
        seq!['-'] + decimal((-n) as nat)
    } else {
        seq!['+'] + decimal(n as nat)
    }
}

/// The number that a string of decimal digits denotes (read left to right).
pub open spec fn digits_value(s: Seq<char>) -> int
    decreases s.len(),
{
    if s.len() == 0 {
        0
    } else {
        digits_value(s.drop_last()) * 10 + (s.last() as int - '0' as int)
    }
}

/// `s` is how a natural number is written in base 10: one or more ASCII
/// digits, with no leading zero unless the number is zero itself.
pub open spec fn is_plain_decimal(s: Seq<char>) -> bool {
    &&& s.len() > 0
    &&& forall|i: int| 0 <= i < s.len() ==> '0' <= #[trigger] s[i] <= '9'
    &&& (s.len() > 1 ==> s[0] != '0')
}

/// `decimal(n)` is the base-10 numeral of `n`: plain ASCII digits without
/// leading zeros whose value is `n`. So two numbers get the same digits only
/// when they are equal.
pub proof fn lemma_decimal_is_numeral(n: nat)
    ensures
        is_plain_decimal(decimal(n)),
        digits_value(decimal(n)) == n,
        forall|m: nat| decimal(m) == decimal(n) ==> m == n,
    decreases n,
{
    if n >= 10 {
        lemma_decimal_is_numeral(n / 10);
        let d = decimal(n);
        let prefix = decimal(n / 10);
        assert(d.drop_last() =~= prefix);
        assert forall|i: int| 0 <= i < d.len() implies '0' <= #[trigger] d[i] <= '9' by {
            if i < prefix.len() {
                assert(d[i] == prefix[i]);
            }
        }
        assert(d[0] == prefix[0]);
        if prefix.len() == 1 {
            assert(prefix[0] != '0') by {
                if prefix[0] == '0' {
                    assert(digits_value(prefix) == digits_value(prefix.drop_last()) * 10 + 0);
                    assert(prefix.drop_last().len() == 0);
                }
            }
        }
    }
    lemma_decimal_value(n);
    assert forall|m: nat| decimal(m) == decimal(n) implies m == n by {
        lemma_decimal_value(m);
        lemma_decimal_value(n);
    }
}

/// `s` is the base-10 numeral of `n`.
pub open spec fn is_numeral_of(s: Seq<char>, n: int) -> bool {
    is_plain_decimal(s) && digits_value(s) == n
}

/// `s` is `n` written with a sign only when negative (`-` then the numeral of `-n`).
pub open spec fn is_signed_numeral_of(s: Seq<char>, n: int) -> bool {
    if n < 0 {
        s.len() > 0 && s[0] == '-' && is_numeral_of(s.drop_first(), -n)
    } else {
        is_numeral_of(s, n)
    }
}

/// `s` is `n` written with its sign always (`+` or `-`, then the numeral of `|n|`).
pub open spec fn is_plus_signed_numeral_of(s: Seq<char>, n: int) -> bool {
    &&& s.len() > 0
    &&& s[0] == (if n < 0 { '-' } else { '+' })
    &&& is_numeral_of(s.drop_first(), if n < 0 { -n } else { n })
}

/// The signed renderings put the sign in front of the base-10 numeral of
/// the magnitude: `signed_decimal` only for negative numbers,
/// `plus_signed_decimal` always.
pub proof fn lemma_signed_decimal_is_numeral(n: int)
    ensures
        is_signed_numeral_of(signed_decimal(n), n),
        is_plus_signed_numeral_of(plus_signed_decimal(n), n),
{
    let m: nat = if n < 0 { (-n) as nat } else { n as nat };
    lemma_decimal_is_numeral(m);
    assert((seq!['-'] + decimal(m)).drop_first() =~= decimal(m));
    assert((seq!['+'] + decimal(m)).drop_first() =~= decimal(m));
}

proof fn lemma_decimal_value(n: nat)
    ensures
        digits_value(decimal(n)) == n,
    decreases n,
{
    let d = (n % 10) as nat;
    assert(digit_char(d) as int == 48 + d);
    assert('0' as int == 48);
    if n >= 10 {
        lemma_decimal_value(n / 10);
        assert(decimal(n).drop_last() =~= decimal(n / 10));
        assert(decimal(n).last() == digit_char(d));
        assert((n / 10) * 10 + d == n);
    } else {
        assert(decimal(n).drop_last() =~= Seq::<char>::empty());
        assert(decimal(n).last() == digit_char(d));
        assert(d == n);
    }
    assert(decimal(n).len() > 0);
    assert(digits_value(decimal(n)) == digits_value(decimal(n).drop_last()) * 10 + (decimal(n).last() as int - '0' as int));
}

fn digit_str(d: u64) -> (s: &'static str)
    requires
        d < 10,
    ensures
        s@ == seq![digit_char(d as nat)],
{
    if d == 0 {
        proof { reveal_strlit("0"); }
        "0"
    } else if d == 1 {
        proof { reveal_strlit("1"); }
        "1"
    } else if d == 2 {
        proof { reveal_strlit("2"); }
        "2"
    } else if d == 3 {
        proof { reveal_strlit("3"); }
        "3"
    } else if d == 4 {
        proof { reveal_strlit("4"); }
        "4"
    } else if d == 5 {
        proof { reveal_strlit("5"); }
        "5"
    } else if d == 6 {
        proof { reveal_strlit("6"); }
        "6"
    } else if d == 7 {
        proof { reveal_strlit("7"); }
        "7"
    } else if d == 8 {
        proof { reveal_strlit("8"); }
        "8"
    } else {
        proof { reveal_strlit("9"); }
        "9"
    }
}

/// Appends the decimal digits of `n` to `s`.
pub fn push_decimal(s: &mut String, n: u64)
    ensures
        final(s)@ == old(s)@ + decimal(n as nat),
    decreases n,
{
    if n >= 10 {
        push_decimal(s, n / 10);
    }
    s.append(digit_str(n % 10));
    proof {
        if n >= 10 {
            assert(old(s)@ + decimal((n / 10) as nat) + seq![digit_char((n % 10) as nat)]
                =~= old(s)@ + decimal(n as nat));
        } else {
            assert(decimal(n as nat) == seq![digit_char(n as nat)]);
        }
    }
}

/// Appends `n` in decimal, with a `-` when negative.
pub fn push_signed_decimal(s: &mut String, n: i64)
    ensures
        final(s)@ == old(s)@ + signed_decimal(n as int),
{
    if n < 0 {
        proof { reveal_strlit("-"); }
        s.append("-");
        let magnitude: u64 = (0i128 - n as i128) as u64;
        push_decimal(s, magnitude);
        proof {
            assert(old(s)@ + "-"@ + decimal(magnitude as nat) =~= old(s)@ + signed_decimal(n as int));
        }
    } else {
        push_decimal(s, n as u64);
    }
}

/// Appends `n` in decimal, always with its sign.
pub fn push_plus_signed_decimal(s: &mut String, n: i64)
    ensures
        final(s)@ == old(s)@ + plus_signed_decimal(n as int),
{
    if n < 0 {
        push_signed_decimal(s, n);
    } else {
        proof { reveal_strlit("+"); }
        s.append("+");
        push_decimal(s, n as u64);
        proof {
            assert(old(s)@ + "+"@ + decimal(n as nat) =~= old(s)@ + plus_signed_decimal(n as int));
        }
    }
}

/// The lowercase hexadecimal digit for `d` (`d < 16`).
pub open spec fn hex_char(d: nat) -> char {
    if d < 10 {
        (48 + d) as char
    } else {
        (87 + d) as char
    }
}

/// The lowest `width` hexadecimal digits of `n`, zero padded, most significant first.
pub open spec fn hex_padded(n: nat, width: nat) -> Seq<char>
    decreases width,
{
    if width == 0 {
        Seq::empty()
    } else {
        hex_padded(n / 16, (width - 1) as nat).push(hex_char(n % 16))
    }
}

/// The value of a lowercase hexadecimal digit.
pub open spec fn hex_digit_value(c: char) -> int {
    if '0' <= c <= '9' {
        c as int - '0' as int
    } else {
        c as int - 'a' as int + 10
    }
}

/// The number that a string of hexadecimal digits denotes.
pub open spec fn hex_digits_value(s: Seq<char>) -> int
    decreases s.len(),
{
    if s.len() == 0 {
        0
    } else {
        hex_digits_value(s.drop_last()) * 16 + hex_digit_value(s.last())
    }
}

/// Sixteen to the power `w`.
pub open spec fn sixteen_to(w: nat) -> nat
    decreases w,
{
    if w == 0 {
        1
    } else {
        16 * sixteen_to((w - 1) as nat)
    }
}

/// `hex_padded(n, w)` is `n` modulo `16^w` written with exactly `w`
/// lowercase hexadecimal digits (`0-9`, `a-f`).
pub proof fn lemma_hex_padded_is_numeral(n: nat, w: nat)
    ensures
        hex_padded(n, w).len() == w,
        forall|i: int| 0 <= i < w ==> ('0' <= #[trigger] hex_padded(n, w)[i] <= '9' || 'a' <= hex_padded(n, w)[i] <= 'f'),
        hex_digits_value(hex_padded(n, w)) == n % sixteen_to(w),
    decreases w,
{
    if w > 0 {
        let w1 = (w - 1) as nat;
        lemma_hex_padded_is_numeral(n / 16, w1);
        let h = hex_padded(n, w);
        let prefix = hex_padded(n / 16, w1);
        assert(h.drop_last() =~= prefix);
        assert forall|i: int| 0 <= i < w implies ('0' <= #[trigger] h[i] <= '9' || 'a' <= h[i] <= 'f') by {
            if i < w1 {
                assert(h[i] == prefix[i]);
            }
        }
        let d = (n % 16) as nat;
        assert(hex_digit_value(hex_char(d)) == d);
        assert(h.last() == hex_char(d));
        assert(hex_digits_value(h) == hex_digits_value(prefix) * 16 + hex_digit_value(h.last()));
        assert(sixteen_to(w1) > 0) by {
            lemma_sixteen_to_positive(w1);
        }
        vstd::arithmetic::div_mod::lemma_breakdown(n as int, 16, sixteen_to(w1) as int);
        assert(16 * sixteen_to(w1) == sixteen_to(w));
    } else {
        assert(n % 1 == 0);
    }
}

proof fn lemma_sixteen_to_positive(w: nat)
    ensures
        sixteen_to(w) > 0,
    decreases w,
{
    if w > 0 {
        lemma_sixteen_to_positive((w - 1) as nat);
    }
}

fn hex_digit_str(d: u32) -> (s: &'static str)
    requires
        d < 16,
    ensures
        s@ == seq![hex_char(d as nat)],
{
    if d < 10 {
        digit_str(d as u64)
    } else if d == 10 {
        proof { reveal_strlit("a"); }
        "a"
    } else if d == 11 {
        proof { reveal_strlit("b"); }
        "b"
    } else if d == 12 {
        proof { reveal_strlit("c"); }
        "c"
    } else if d == 13 {
        proof { reveal_strlit("d"); }
        "d"
    } else if d == 14 {
        proof { reveal_strlit("e"); }
        "e"
    } else {
        proof { reveal_strlit("f"); }
        "f"
    }
}

/// Appends the lowest `width` hexadecimal digits of `n`, zero padded (Rust's `{:0width$x}`
/// for values below `16^width`).
pub fn push_hex_padded(s: &mut String, n: u32, width: u32)
    ensures
        final(s)@ == old(s)@ + hex_padded(n as nat, width as nat),
    decreases width,
{
    if width > 0 {
        push_hex_padded(s, n / 16, width - 1);
        s.append(hex_digit_str(n % 16));
        proof {
            assert(old(s)@ + hex_padded((n / 16) as nat, (width - 1) as nat) + seq![hex_char((n % 16) as nat)]
                =~= old(s)@ + hex_padded(n as nat, width as nat));
        }
    } else {
        proof {
            assert(old(s)@ + hex_padded(n as nat, 0) =~= old(s)@);
        }
    }
}

/// A fresh string holding `literal`.
pub fn string_of(literal: &str) -> (r: String)
    ensures
        r@ == literal@,
{
    String::from_str(literal)
}

} // verus!
