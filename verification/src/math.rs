use vstd::prelude::*;

use vstd::arithmetic::div_mod::{
    lemma_div_is_ordered, lemma_div_multiples_vanish, lemma_div_pos_is_pos,
    lemma_fundamental_div_mod, lemma_fundamental_div_mod_converse_div, lemma_mod_bound,
};
use vstd::arithmetic::mul::{lemma_mul_inequality, lemma_mul_is_distributive_add};

verus! {

/// Relies on `cosmwasm_std::Uint128::multiply_ratio`: it returns
/// `floor(amount * numerator / denominator)`, computed over a 256-bit
/// intermediate product, and panics only on a zero denominator or when the
/// quotient does not fit the result type. Both are excluded here: with
/// `numerator <= denominator` the quotient is at most `amount`.
#[verifier::external_body]
pub(crate) fn mul_ratio(amount: u128, numerator: u128, denominator: u128) -> (r: u128)
    requires
        0 < denominator,
        numerator <= denominator,
    ensures
        r == (amount as int) * (numerator as int) / (denominator as int),
{
    cosmwasm_std::Uint128::new(amount).multiply_ratio(numerator, denominator).u128()
}

/// Floor division distributes over addition of the dividends up to one unit:
/// `x/d + y/d <= (x+y)/d <= x/d + y/d + 1`.
pub proof fn lemma_div_superadd(x: int, y: int, d: int)
    requires
        0 <= x,
        0 <= y,
        0 < d,
    ensures
        x / d + y / d <= (x + y) / d,
        (x + y) / d <= x / d + y / d + 1,
{
    lemma_fundamental_div_mod(x, d);
    lemma_fundamental_div_mod(y, d);
    lemma_mod_bound(x, d);
    lemma_mod_bound(y, d);
    let q = x / d + y / d;
    lemma_mul_is_distributive_add(d, x / d, y / d);
    assert(x + y == d * q + (x % d + y % d));
    if x % d + y % d < d {
        lemma_fundamental_div_mod_converse_div(x + y, d, q, x % d + y % d);
    } else {
        lemma_mul_is_distributive_add(d, q, 1);
        lemma_fundamental_div_mod_converse_div(x + y, d, q + 1, x % d + y % d - d);
    }
}

/// A quotient of non-negative operands is non-negative.
pub proof fn lemma_div_nonneg(x: int, d: int)
    requires
        0 <= x,
        0 < d,
    ensures
        0 <= x / d,
{
    lemma_div_pos_is_pos(x, d);
}

/// A weighted fraction with `num <= den` never exceeds the whole:
/// `amount * num / den <= amount`.
pub proof fn lemma_fraction_le_whole(amount: int, num: int, den: int)
    requires
        0 <= amount,
        0 <= num <= den,
        0 < den,
    ensures
        amount * num / den <= amount,
{
    lemma_mul_inequality(num, den, amount);
    assert(amount * num == num * amount);
    assert(amount * den == den * amount);
    lemma_div_is_ordered(amount * num, amount * den, den);
    lemma_div_multiples_vanish(amount, den);
    assert(den * amount == amount * den);
}

} // verus!
