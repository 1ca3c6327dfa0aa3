//! Fixed-point units shared by the whole engine, and small integer helpers.
use vstd::prelude::*;

verus! {

/// Full scale of a gain or a sample value: `UNIT` stands for 1.0.
pub const UNIT: i64 = 1_000_000;

/// Number of distinct phase values in one oscillator cycle.
pub const PHASE_CYCLE: u64 = 4_294_967_296;

/// Phase advance (in cycle fractions of `PHASE_CYCLE`) that one full-scale
/// unit of modulation input adds: one cycle per unit, rounded.
pub const PHASE_PER_UNIT: i64 = 4295;

/// `2` raised to `k`.
pub open spec fn two_pow(k: nat) -> nat
    decreases k,
{
    if k == 0 {
        1
    } else {
        2 * two_pow((k - 1) as nat)
    }
}

pub proof fn lemma_two_pow_positive(k: nat)
    ensures
        two_pow(k) >= 1,
    decreases k,
{
    if k > 0 {
        lemma_two_pow_positive((k - 1) as nat);
    }
}

pub proof fn lemma_two_pow_monotone(a: nat, b: nat)
    requires
        a <= b,
    ensures
        two_pow(a) <= two_pow(b),
    decreases b,
{
    if a < b {
        lemma_two_pow_monotone(a, (b - 1) as nat);
        lemma_two_pow_positive((b - 1) as nat);
    }
}

pub proof fn lemma_two_pow_add(a: nat, b: nat)
    ensures
        two_pow(a + b) == two_pow(a) * two_pow(b),
    decreases b,
{
    if b == 0 {
        assert(two_pow(0) == 1);
        assert(a + b == a);
    } else {
        lemma_two_pow_add(a, (b - 1) as nat);
        assert(two_pow(b) == 2 * two_pow((b - 1) as nat));
        assert(two_pow(a + b) == 2 * two_pow((a + b - 1) as nat));
        assert((a + b - 1) as nat == a + (b - 1) as nat);
        assert(two_pow(a) * (2 * two_pow((b - 1) as nat)) == 2 * (two_pow(a) * two_pow(
            (b - 1) as nat,
        ))) by (nonlinear_arith);
    }
}

pub proof fn lemma_two_pow_40()
    ensures
        two_pow(10) == 1024,
        two_pow(20) == 1048576,
        two_pow(30) == 1073741824,
        two_pow(34) == 17179869184,
        two_pow(40) == 1099511627776,
{
    assert(two_pow(10) == 1024) by {
        reveal_with_fuel(two_pow, 11);
    }
    lemma_two_pow_add(10, 10);
    assert(two_pow(20) == two_pow(10) * two_pow(10));
    lemma_two_pow_add(20, 10);
    assert(two_pow(30) == two_pow(20) * two_pow(10));
    assert(two_pow(4) == 16) by {
        reveal_with_fuel(two_pow, 5);
    }
    lemma_two_pow_add(30, 4);
    assert(two_pow(34) == two_pow(30) * two_pow(4));
    lemma_two_pow_add(20, 20);
    assert(two_pow(40) == two_pow(20) * two_pow(20));
}

/// Floor division of a signed value by a positive divisor.
pub fn floor_div(a: i64, b: i64) -> (r: i64)
    requires
        b > 0,
    ensures
        r == a / b,
{
    if a >= 0 {
        a / b
    } else {
        let n: i64 = -(a + 1);
        let q: i64 = n / b;
        proof {
            let nn = n as int;
            let bb = b as int;
            let qq = q as int;
            let rr = nn % bb;
            assert(nn == qq * bb + rr && 0 <= rr < bb) by (nonlinear_arith)
                requires
                    qq == nn / bb,
                    rr == nn % bb,
                    bb > 0,
                    nn >= 0,
            ;
            // a == -n - 1 == (-q - 1) * b + (b - 1 - r)
            let aa = a as int;
            assert(aa == (-qq - 1) * bb + (bb - 1 - rr)) by (nonlinear_arith)
                requires
                    aa == -nn - 1,
                    nn == qq * bb + rr,
            ;
            vstd::arithmetic::div_mod::lemma_fundamental_div_mod_converse(
                aa,
                bb,
                -qq - 1,
                bb - 1 - rr,
            );
        }
        -q - 1
    }
}

/// Euclidean remainder of a signed value by a positive divisor.
pub fn floor_mod(a: i64, b: i64) -> (r: i64)
    requires
        b > 0,
    ensures
        r == a % b,
        0 <= r < b,
{
    let q = floor_div(a, b);
    proof {
        vstd::arithmetic::div_mod::lemma_fundamental_div_mod(a as int, b as int);
        assert(q * b >= a - b + 1 && q * b <= a) by (nonlinear_arith)
            requires
                a as int == b * (a / b) + a % b,
                0 <= a % b < b,
                q == a / b,
        ;
    }
    let wide: i128 = a as i128 - (q as i128) * (b as i128);
    wide as i64
}

} // verus!
