use vstd::prelude::*;
use vstd::string::{StrSliceExecFns, StringExecFns};

verus! {

/// The longest amount text accepted. With at most this many characters the
/// digits of an amount, read as one integer, fit in a `u64`.
pub const MAX_AMOUNT_LEN: usize = 19;

pub open spec fn is_digit(c: char) -> bool {
    '0' <= c && c <= '9'
}

pub open spec fn digit_value(c: char) -> nat {
    ((c as u32) - 48) as nat
}

pub open spec fn pow10(n: nat) -> nat
    decreases n,
{
    if n == 0 {
        1
    } else {
        10 * pow10((n - 1) as nat)
    }
}

/// Reads a text of digits with at most one dot: the digits taken together as
/// one integer, the number of digits after the dot, and whether a dot was seen.
/// `None` where any other character, or a second dot, occurs.
pub open spec fn scan_decimal(s: Seq<char>) -> Option<(nat, nat, bool)>
    decreases s.len(),
{
    if s.len() == 0 {
        Some((0nat, 0nat, false))
    } else {
        match scan_decimal(s.drop_last()) {
            None => None,
            Some((m, f, dot)) => {
                let c = s.last();
                if is_digit(c) {
                    Some((m * 10 + digit_value(c), if dot { f + 1 } else { f }, dot))
                } else if c == '.' && !dot {
                    Some((m, f, true))
                } else {
                    None
                }
            },
        }
    }
}

/// An amount is one or more digits, optionally followed by a dot and one or
/// more digits, at most `MAX_AMOUNT_LEN` characters in all.
pub open spec fn is_amount(s: Seq<char>) -> bool {
    &&& 0 < s.len() <= MAX_AMOUNT_LEN
    &&& is_digit(s[0])
    &&& is_digit(s.last())
    &&& scan_decimal(s) is Some
}

/// The amount's digits read as one integer: its value is
/// `amount_mantissa(s) / 10^amount_scale(s)`.
pub open spec fn amount_mantissa(s: Seq<char>) -> nat {
    let t = scan_decimal(s)->0;
    t.0
}

/// The number of digits after the amount's dot.
pub open spec fn amount_scale(s: Seq<char>) -> nat {
    let t = scan_decimal(s)->0;
    t.1
}

pub open spec fn all_amounts(v: Seq<Seq<char>>) -> bool {
    forall|i: int| 0 <= i < v.len() ==> is_amount(#[trigger] v[i])
}

/// The largest number of fraction digits among the amounts.
pub open spec fn max_scale(v: Seq<Seq<char>>) -> nat
    decreases v.len(),
{
    if v.len() == 0 {
        0
    } else {
        let a = max_scale(v.drop_last());
        let b = amount_scale(v.last());
        if a >= b { a } else { b }
    }
}

/// The sum of the amounts, counted in units of `10^-scale`.
pub open spec fn scaled_sum(v: Seq<Seq<char>>, scale: nat) -> nat
    decreases v.len(),
{
    if v.len() == 0 {
        0
    } else {
        scaled_sum(v.drop_last(), scale) + amount_mantissa(v.last()) * pow10(
            (scale - amount_scale(v.last())) as nat,
        )
    }
}

/// The sum of the amounts can be computed: each is an amount, and the sum at
/// the common scale fits in a `u128`.
pub open spec fn summable(v: Seq<Seq<char>>) -> bool {
    all_amounts(v) && scaled_sum(v, max_scale(v)) <= u128::MAX
}

pub open spec fn digit_char(d: nat) -> char {
    if d == 0 {
        '0'
    } else if d == 1 {
        '1'
    } else if d == 2 {
        '2'
    } else if d == 3 {
        '3'
    } else if d == 4 {
        '4'
    } else if d == 5 {
        '5'
    } else if d == 6 {
        '6'
    } else if d == 7 {
        '7'
    } else if d == 8 {
        '8'
    } else {
        '9'
    }
}

/// The last `w` decimal digits of `v`, leading zeros included.
pub open spec fn padded_digits(v: nat, w: nat) -> Seq<char>
    decreases w,
{
    if w == 0 {
        Seq::empty()
    } else {
        padded_digits(v / 10, (w - 1) as nat).push(digit_char(v % 10))
    }
}

/// The number of decimal digits of `v`; one for zero.
pub open spec fn digit_count(v: nat) -> nat
    decreases v,
{
    if v < 10 {
        1
    } else {
        1 + digit_count(v / 10)
    }
}

/// The decimal digits of `v`, without leading zeros.
pub open spec fn whole_text(v: nat) -> Seq<char> {
    padded_digits(v, digit_count(v))
}

/// `v / 10^scale` with the trailing zeros of the fraction removed.
pub open spec fn strip_zeros(v: nat, scale: nat) -> (nat, nat)
    decreases scale,
{
    if scale > 0 && v % 10 == 0 {
        strip_zeros(v / 10, (scale - 1) as nat)
    } else {
        (v, scale)
    }
}

/// The shortest decimal text of `v / 10^scale`: no trailing zero after the
/// dot, and no dot for a whole number (`20`, `7.25`, `0`).
pub open spec fn decimal_text(v: nat, scale: nat) -> Seq<char> {
    let (w, f) = strip_zeros(v, scale);
    let q = w / pow10(f);
    let r = w % pow10(f);
    if f == 0 {
        whole_text(q)
    } else {
        whole_text(q) + seq!['.'] + padded_digits(r, f)
    }
}

/// The decimal text of the sum of the amounts.
pub open spec fn sum_text(v: Seq<Seq<char>>) -> Seq<char> {
    decimal_text(scaled_sum(v, max_scale(v)), max_scale(v))
}

pub proof fn lemma_pow10_positive(n: nat)
    ensures
        pow10(n) >= 1,
    decreases n,
{
    if n > 0 {
        lemma_pow10_positive((n - 1) as nat);
    }
}

pub proof fn lemma_pow10_monotone(a: nat, b: nat)
    requires
        a <= b,
    ensures
        pow10(a) <= pow10(b),
    decreases b,
{
    if a < b {
        lemma_pow10_monotone(a, (b - 1) as nat);
        lemma_pow10_positive((b - 1) as nat);
    }
}

/// Once a prefix is rejected, so is the whole text.
proof fn lemma_scan_rejects_extension(s: Seq<char>, i: nat)
    requires
        i <= s.len(),
        scan_decimal(s.take(i as int)) is None,
    ensures
        scan_decimal(s) is None,
    decreases s.len(),
{
    if s.len() == i {
        assert(s.take(i as int) =~= s);
    } else {
        assert(s.drop_last().take(i as int) =~= s.take(i as int));
        lemma_scan_rejects_extension(s.drop_last(), i);
    }
}

proof fn lemma_pow10_values()
    ensures
        pow10(18) == 1_000_000_000_000_000_000nat,
        pow10(19) == 10_000_000_000_000_000_000nat,
{
    reveal_with_fuel(pow10, 20);
}

/// An amount parsed into its integer digits and its number of fraction digits.
pub struct DecimalAmount {
    pub mantissa: u64,
    pub scale: usize,
}

/// Parses an amount. Returns `None` exactly when the text is not an amount.
pub fn parse_amount(s: &str) -> (r: Option<DecimalAmount>)
    ensures
        r is Some <==> is_amount(s@),
        r is Some ==> r->0.mantissa == amount_mantissa(s@) && r->0.scale == amount_scale(s@),
        r is Some ==> r->0.scale <= 18,
{
    let n = s.unicode_len();
    if n == 0 || n > MAX_AMOUNT_LEN {
        return None;
    }
    let mut m: u64 = 0;
    let mut f: usize = 0;
    let mut dot = false;
    let mut i: usize = 0;
    proof {
        lemma_pow10_values();
        assert(s@.take(0) =~= Seq::<char>::empty());
    }
    while i < n
        invariant
            0 <= i <= n,
            n == s@.len(),
            n <= MAX_AMOUNT_LEN,
            scan_decimal(s@.take(i as int)) == Some((m as nat, f as nat, dot)),
            m < pow10(i as nat),
            dot ==> f < i,
            !dot ==> f == 0,
            pow10(19) == 10_000_000_000_000_000_000nat,
        decreases n - i,
    {
        let c = s.get_char(i);
        proof {
            assert(s@.take(i + 1).drop_last() =~= s@.take(i as int));
            assert(s@.take(i + 1).last() == c);
            lemma_pow10_monotone(i as nat + 1, 19);
        }
        if '0' <= c && c <= '9' {
            let d = (c as u32 - 48) as u64;
            assert(m * 10 + d < pow10(i as nat + 1)) by (nonlinear_arith)
                requires
                    m < pow10(i as nat),
                    d < 10,
                    pow10(i as nat + 1) == 10 * pow10(i as nat),
            ;
            m = m * 10 + d;
            if dot {
                f = f + 1;
            }
        } else if c == '.' && !dot {
            dot = true;
            proof {
                lemma_pow10_monotone(i as nat, i as nat + 1);
            }
        } else {
            proof {
                lemma_scan_rejects_extension(s@, i as nat + 1);
            }
            return None;
        }
        i = i + 1;
    }
    proof {
        assert(s@.take(n as int) =~= s@);
    }
    let first = s.get_char(0);
    let last = s.get_char(n - 1);
    if !('0' <= first && first <= '9') || !('0' <= last && last <= '9') {
        return None;
    }
    Some(DecimalAmount { mantissa: m, scale: f })
}

/// `10^k` for the exponents an amount's scale can have.
pub fn pow10_exec(k: usize) -> (r: u128)
    requires
        k <= 18,
    ensures
        r == pow10(k as nat),
{
    let mut p: u128 = 1;
    let mut i: usize = 0;
    proof {
        lemma_pow10_values();
    }
    while i < k
        invariant
            i <= k,
            k <= 18,
            p == pow10(i as nat),
            pow10(18) == 1_000_000_000_000_000_000nat,
        decreases k - i,
    {
        proof {
            lemma_pow10_monotone(i as nat + 1, 18);
        }
        p = p * 10;
        i = i + 1;
    }
    p
}

/// Each amount's scale is at most the largest.
pub proof fn lemma_max_scale_bounds(v: Seq<Seq<char>>, i: int)
    requires
        0 <= i < v.len(),
    ensures
        amount_scale(v[i]) <= max_scale(v),
    decreases v.len(),
{
    if i < v.len() - 1 {
        lemma_max_scale_bounds(v.drop_last(), i);
    }
}

/// The sum over a prefix is at most the sum over the whole.
pub proof fn lemma_scaled_sum_prefix(v: Seq<Seq<char>>, i: int, scale: nat)
    requires
        0 <= i <= v.len(),
    ensures
        scaled_sum(v.take(i), scale) <= scaled_sum(v, scale),
    decreases v.len(),
{
    if i == v.len() {
        assert(v.take(i) =~= v);
    } else {
        assert(v.drop_last().take(i) =~= v.take(i));
        lemma_scaled_sum_prefix(v.drop_last(), i, scale);
    }
}

pub(crate) fn digit_str(d: u128) -> (r: &'static str)
    requires
        d < 10,
    ensures
        r@ == seq![digit_char(d as nat)],
{
    proof {
        reveal_strlit("0");
        reveal_strlit("1");
        reveal_strlit("2");
        reveal_strlit("3");
        reveal_strlit("4");
        reveal_strlit("5");
        reveal_strlit("6");
        reveal_strlit("7");
        reveal_strlit("8");
        reveal_strlit("9");
    }
    if d == 0 {
        "0"
    } else if d == 1 {
        "1"
    } else if d == 2 {
        "2"
    } else if d == 3 {
        "3"
    } else if d == 4 {
        "4"
    } else if d == 5 {
        "5"
    } else if d == 6 {
        "6"
    } else if d == 7 {
        "7"
    } else if d == 8 {
        "8"
    } else {
        "9"
    }
}

fn write_padded(out: &mut String, v: u128, w: usize)
    ensures
        final(out)@ == old(out)@ + padded_digits(v as nat, w as nat),
    decreases w,
{
    if w > 0 {
        write_padded(out, v / 10, w - 1);
        out.append(digit_str(v % 10));
        assert(final(out)@ =~= old(out)@ + padded_digits(v as nat, w as nat));
    } else {
        assert(final(out)@ =~= old(out)@ + padded_digits(v as nat, w as nat));
    }
}

pub(crate) fn write_whole(out: &mut String, v: u128)
    ensures
        final(out)@ == old(out)@ + whole_text(v as nat),
    decreases v,
{
    if v >= 10 {
        write_whole(out, v / 10);
        assert(digit_count(v as nat) == 1 + digit_count((v / 10) as nat));
        assert(whole_text(v as nat) == whole_text((v / 10) as nat).push(digit_char((v % 10) as nat)));
    } else {
        assert(digit_count(v as nat) == 1);
        assert(padded_digits((v / 10) as nat, 0) =~= Seq::<char>::empty());
        assert(whole_text(v as nat) =~= seq![digit_char((v % 10) as nat)]);
    }
    out.append(digit_str(v % 10));
    assert(final(out)@ =~= old(out)@ + whole_text(v as nat));
}

/// The shortest decimal text of `v / 10^scale`.
pub fn format_decimal(v: u128, scale: usize) -> (r: String)
    requires
        scale <= 18,
    ensures
        r@ == decimal_text(v as nat, scale as nat),
{
    let mut w = v;
    let mut f = scale;
    while f > 0 && w % 10 == 0
        invariant
            f <= scale,
            strip_zeros(w as nat, f as nat) == strip_zeros(v as nat, scale as nat),
        decreases f,
    {
        w = w / 10;
        f = f - 1;
    }
    let p = pow10_exec(f);
    proof {
        lemma_pow10_positive(f as nat);
    }
    let q = w / p;
    let rem = w % p;
    let mut out = String::new();
    write_whole(&mut out, q);
    if f > 0 {
        out.append(".");
        write_padded(&mut out, rem, f);
        proof {
            reveal_strlit(".");
        }
        assert(out@ =~= decimal_text(v as nat, scale as nat));
    } else {
        assert(out@ =~= decimal_text(v as nat, scale as nat));
    }
    out
}

} // verus!
