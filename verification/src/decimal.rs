//! Exact decimal numbers, as written in programs.
use vstd::prelude::*;
use crate::table::Dup;
use crate::text::{digit_char, nat_text, push_char};

verus! {

/// An exact decimal number `mantissa / 10^scale`.
#[derive(Debug, Clone, Copy, PartialEq, Eq, Hash, Structural)]
pub struct Decimal {
    pub mantissa: u64,
    pub scale: u32,
}

impl View for Decimal {
    type V = Decimal;

    open spec fn view(&self) -> Decimal {
        *self
    }
}

impl Dup for Decimal {
    fn dup(&self) -> (r: Self) {
        *self
    }
}

/// Ten to the power `n`.
pub open spec fn pow10(n: nat) -> nat
    decreases n,
{
    if n == 0 {
        1
    } else {
        10 * pow10((n - 1) as nat)
    }
}

proof fn lemma_pow10_add(a: nat, b: nat)
    ensures
        pow10(a + b) == pow10(a) * pow10(b),
        pow10(b) >= 1,
    decreases b,
{
    if b == 0 {
        assert(a + b == a);
        assert(pow10(0) == 1);
        assert(pow10(a) * 1 == pow10(a));
    } else {
        lemma_pow10_add(a, (b - 1) as nat);
        assert((a + b - 1) as nat == a + ((b - 1) as nat));
        assert(pow10(a + b) == 10 * pow10((a + b - 1) as nat));
        assert(pow10(a) * pow10(b) == pow10(a) * (10 * pow10((b - 1) as nat)));
        assert(pow10(a) * (10 * pow10((b - 1) as nat)) == 10 * (pow10(a) * pow10((b - 1) as nat)))
            by (nonlinear_arith);
    }
}

impl Decimal {
    /// `num / den >= self`, for a positive denominator.
    pub open spec fn at_most_ratio(self, num: nat, den: nat) -> bool {
        num * pow10(self.scale as nat) >= self.mantissa * den
    }

    /// A whole number as a decimal.
    pub fn whole(n: u64) -> (r: Decimal)
        ensures
            r == (Decimal { mantissa: n, scale: 0 }),
    {
        Decimal { mantissa: n, scale: 0 }
    }
}

/// The ratio that a loan requires when none is recorded: 1.5.
pub open spec fn default_ratio() -> Decimal {
    Decimal { mantissa: 15, scale: 1 }
}

/// The ratio that a loan requires when none is recorded: 1.5.
pub fn default_required_ratio() -> (r: Decimal)
    ensures
        r == default_ratio(),
{
    Decimal { mantissa: 15, scale: 1 }
}

/// Whether `num / den >= d`, computed exactly.
pub fn ratio_at_least(num: u64, den: u64, d: Decimal) -> (r: bool)
    ensures
        r == d.at_most_ratio(num as nat, den as nat),
{
    proof {
        vstd::arithmetic::mul::lemma_mul_upper_bound(d.mantissa as int, u64::MAX as int, den as int, u64::MAX as int);
    }
    let rhs: u128 = (d.mantissa as u128) * (den as u128);
    let mut lhs: u128 = num as u128;
    if lhs == 0 {
        assert(num * pow10(d.scale as nat) == 0);
        return rhs == 0;
    }
    let mut i: u32 = 0;
    assert(pow10(0) == 1);
    while i < d.scale
        invariant
            i <= d.scale,
            lhs == num * pow10(i as nat),
            lhs >= 1,
            rhs == d.mantissa * den,
        decreases d.scale - i,
    {
        if lhs > rhs / 10 {
            proof {
                let rest = (d.scale - i) as nat;
                lemma_pow10_add(i as nat, rest);
                lemma_pow10_add(1, (rest - 1) as nat);
                assert(pow10(1) == 10) by {
                    reveal_with_fuel(pow10, 2);
                }
                assert(pow10(rest) >= 10);
                assert(num * pow10(d.scale as nat) == lhs * pow10(rest)) by (nonlinear_arith)
                    requires
                        lhs == num * pow10(i as nat),
                        pow10(d.scale as nat) == pow10(i as nat) * pow10(rest),
                ;
                assert(lhs * pow10(rest) >= lhs * 10) by (nonlinear_arith)
                    requires
                        pow10(rest) >= 10,
                        lhs >= 1,
                ;
                assert(lhs * 10 > rhs) by (nonlinear_arith)
                    requires
                        lhs > rhs / 10,
                ;
            }
            return true;
        }
        proof {
            assert(lhs * 10 <= rhs) by (nonlinear_arith)
                requires
                    lhs <= rhs / 10,
            ;
            assert(num * pow10((i + 1) as nat) == (num * pow10(i as nat)) * 10) by (nonlinear_arith)
                requires
                    pow10((i + 1) as nat) == 10 * pow10(i as nat),
            ;
        }
        lhs = lhs * 10;
        i = i + 1;
    }
    lhs >= rhs
}

// ---------------------------------------------------------------------------------------------
// Writing decimals.

/// The text without its trailing zeros.
pub open spec fn strip_zeros(s: Seq<char>) -> Seq<char>
    decreases s.len(),
{
    if s.len() > 0 && s.last() == '0' {
        strip_zeros(s.drop_last())
    } else {
        s
    }
}

/// `n` zero digits.
pub open spec fn zeros(n: nat) -> Seq<char> {
    Seq::new(n, |i: int| '0')
}

/// The shortest plain decimal writing of the number: no exponent, no trailing zeros after the
/// point, and no point for a whole number.
pub open spec fn decimal_text(d: Decimal) -> Seq<char> {
    let ds = nat_text(d.mantissa as nat);
    let n = ds.len();
    let k = d.scale as nat;
    if k == 0 {
        ds
    } else if n > k {
        let ip = ds.take(n - k);
        let fr = strip_zeros(ds.skip(n - k));
        if fr.len() == 0 {
            ip
        } else {
            ip + "."@ + fr
        }
    } else {
        let fr = strip_zeros(zeros((k - n) as nat) + ds);
        if fr.len() == 0 {
            "0"@
        } else {
            "0."@ + fr
        }
    }
}

/// The digits of a number.
fn digits(n: u64) -> (r: Vec<char>)
    ensures
        r@ == nat_text(n as nat),
    decreases n,
{
    if n < 10 {
        let mut v: Vec<char> = Vec::new();
        v.push(digit_of(n));
        assert(v@ =~= nat_text(n as nat));
        v
    } else {
        let mut v = digits(n / 10);
        v.push(digit_of(n % 10));
        assert(v@ =~= nat_text(n as nat));
        v
    }
}

fn digit_of(d: u64) -> (c: char)
    requires
        d < 10,
    ensures
        c == digit_char(d as nat),
{
    if d == 0 { '0' }
    else if d == 1 { '1' }
    else if d == 2 { '2' }
    else if d == 3 { '3' }
    else if d == 4 { '4' }
    else if d == 5 { '5' }
    else if d == 6 { '6' }
    else if d == 7 { '7' }
    else if d == 8 { '8' }
    else { '9' }
}

proof fn lemma_strip_prefix(a: Seq<char>, b: Seq<char>)
    requires
        strip_zeros(b).len() > 0,
    ensures
        strip_zeros(a + b) == a + strip_zeros(b),
    decreases b.len(),
{
    if b.len() > 0 && b.last() == '0' {
        lemma_strip_prefix(a, b.drop_last());
        assert((a + b).drop_last() =~= a + b.drop_last());
    } else {
        assert(b.len() > 0);
        assert((a + b).last() == b.last());
    }
}

proof fn lemma_strip_all_zeros(a: Seq<char>, b: Seq<char>)
    requires
        strip_zeros(b).len() == 0,
        forall|i: int| 0 <= i < a.len() ==> a[i] == '0',
    ensures
        strip_zeros(a + b).len() == 0,
    decreases a.len() + b.len(),
{
    if b.len() > 0 {
        assert(b.last() == '0');
        assert((a + b).drop_last() =~= a + b.drop_last());
        lemma_strip_all_zeros(a, b.drop_last());
    } else if a.len() > 0 {
        assert(a + b =~= a);
        assert(a.drop_last() + b =~= a.drop_last());
        lemma_strip_all_zeros(a.drop_last(), b);
    } else {
        assert(a + b =~= Seq::<char>::empty());
    }
}

/// Appends the characters `v[from..to]`.
fn push_range(s: &mut String, v: &Vec<char>, from: usize, to: usize)
    requires
        from <= to <= v@.len(),
    ensures
        final(s)@ == old(s)@ + v@.subrange(from as int, to as int),
{
    let mut i = from;
    while i < to
        invariant
            from <= i <= to <= v@.len(),
            s@ == old(s)@ + v@.subrange(from as int, i as int),
        decreases to - i,
    {
        push_char(s, v[i]);
        assert(v@.subrange(from as int, i + 1) =~= v@.subrange(from as int, i as int).push(v@[i as int]));
        i = i + 1;
    }
}

/// Where the digits `v[from..to]` end once trailing zeros are dropped.
fn stripped_end(v: &Vec<char>, from: usize, to: usize) -> (e: usize)
    requires
        from <= to <= v@.len(),
    ensures
        from <= e <= to,
        strip_zeros(v@.subrange(from as int, to as int)) == v@.subrange(from as int, e as int),
{
    let mut e = to;
    while e > from && v[e - 1] == '0'
        invariant
            from <= e <= to <= v@.len(),
            strip_zeros(v@.subrange(from as int, to as int)) == strip_zeros(v@.subrange(from as int, e as int)),
        decreases e,
    {
        assert(v@.subrange(from as int, e as int).drop_last() =~= v@.subrange(from as int, e - 1));
        e = e - 1;
    }
    e
}

/// Appends the plain decimal writing of a number.
pub fn push_decimal(s: &mut String, d: Decimal)
    ensures
        final(s)@ == old(s)@ + decimal_text(d),
{
    let ds = digits(d.mantissa);
    let n = ds.len();
    let ghost dv = ds@;
    if d.scale == 0 {
        push_range(s, &ds, 0, n);
        assert(dv.subrange(0, n as int) =~= dv);
        return;
    }
    let k = d.scale as usize;
    if n > k {
        let cut = n - k;
        push_range(s, &ds, 0, cut);
        let e = stripped_end(&ds, cut, n);
        assert(dv.subrange(cut as int, n as int) =~= dv.skip(cut as int));
        assert(dv.subrange(0, cut as int) =~= dv.take(cut as int));
        proof {
            reveal_strlit(".");
        }
        if e > cut {
            push_char(s, '.');
            push_range(s, &ds, cut, e);
        }
        assert(s@ =~= old(s)@ + decimal_text(d));
    } else {
        let e = stripped_end(&ds, 0, n);
        assert(dv.subrange(0, n as int) =~= dv);
        let ghost z = zeros((k - n) as nat);
        if e == 0 {
            proof {
                lemma_strip_all_zeros(z, dv);
            }
            push_char(s, '0');
            proof {
                reveal_strlit("0");
            }
            assert(s@ =~= old(s)@ + decimal_text(d));
        } else {
            proof {
                lemma_strip_prefix(z, dv);
            }
            push_char(s, '0');
            push_char(s, '.');
            proof {
                reveal_strlit("0.");
            }
            assert(s@ =~= old(s)@ + "0."@ + zeros(0));
            let mut j: usize = 0;
            while j < k - n
                invariant
                    j <= k - n,
                    s@ == old(s)@ + "0."@ + zeros(j as nat),
                decreases k - n - j,
            {
                push_char(s, '0');
                assert(zeros((j + 1) as nat) =~= zeros(j as nat).push('0'));
                j = j + 1;
            }
            push_range(s, &ds, 0, e);
            proof {
                reveal_strlit("0.");
            }
            assert(s@ =~= old(s)@ + decimal_text(d));
        }
    }
}

} // verus!
