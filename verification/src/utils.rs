//! Small arithmetic helpers shared by the codecs.

use vstd::prelude::*;

verus! {

/// `x` rounded up to the next multiple of `to`.
pub open spec fn spec_round_up(x: int, to: int) -> int {
    ((x + to - 1) / to) * to
}

/// `x / to` rounded towards positive infinity.
pub open spec fn spec_div_round_up(x: int, to: int) -> int {
    (x + to - 1) / to
}

pub proof fn lemma_round_up_properties(x: int, to: int)
    requires
        0 <= x,
        0 < to,
    ensures
        x <= spec_round_up(x, to) < x + to,
        spec_round_up(x, to) % to == 0,
{
    let q = (x + to - 1) / to;
    vstd::arithmetic::div_mod::lemma_fundamental_div_mod(x + to - 1, to);
    vstd::arithmetic::div_mod::lemma_mod_bound(x + to - 1, to);
    assert(q * to == x + to - 1 - ((x + to - 1) % to));
    vstd::arithmetic::div_mod::lemma_mod_multiples_basic(q, to);
}

pub proof fn lemma_div_round_up_properties(x: int, to: int)
    requires
        0 <= x,
        0 < to,
    ensures
        to * spec_div_round_up(x, to) == spec_round_up(x, to),
        x <= to * spec_div_round_up(x, to),
        x > 0 ==> spec_div_round_up(x, to) >= 1,
{
    lemma_round_up_properties(x, to);
    assert(to * spec_div_round_up(x, to) == spec_round_up(x, to)) by (nonlinear_arith)
        requires
            0 < to,
            spec_round_up(x, to) == ((x + to - 1) / to) * to,
            spec_div_round_up(x, to) == (x + to - 1) / to,
    ;
    if x > 0 {
        assert(spec_div_round_up(x, to) >= 1) by (nonlinear_arith)
            requires
                0 < to,
                0 < x,
                spec_div_round_up(x, to) == (x + to - 1) / to,
        ;
    }
}

/// Rounds `x` up to the next multiple of `to`.
pub fn round_up(x: usize, to: usize) -> (r: usize)
    requires
        0 < to,
        x + to <= usize::MAX,
    ensures
        r == spec_round_up(x as int, to as int),
{
    let q = (x + to - 1) / to;
    proof {
        lemma_round_up_properties(x as int, to as int);
        assert(q == spec_div_round_up(x as int, to as int));
        assert(q * to == spec_round_up(x as int, to as int));
    }
    q * to
}

/// Divides `x` by `to`, rounding the quotient up.
pub fn div_round_up(x: usize, to: usize) -> (r: usize)
    requires
        0 < to,
        x + to <= usize::MAX,
    ensures
        r == spec_div_round_up(x as int, to as int),
{
    (x + to - 1) / to
}

} // verus!
