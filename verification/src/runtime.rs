//! What the runtimes share: the fee of a weight and the conversions between
//! balances and 256-bit numbers.

use crate::primitives::Balance;
use vstd::prelude::*;

verus! {

/// Parts of a fraction, in a billion.
pub const BILLION: u32 = 1_000_000_000;

/// A fraction between zero and one, in parts of a billion.
#[derive(Clone, Copy, Debug, PartialEq, Eq, Structural)]
pub struct Perbill {
    pub parts: u32,
}

/// The fraction `p / q` in parts of a billion, rounded down; a fraction
/// above one, or with the denominator zero, counts as one.
pub open spec fn rational_parts(p: u128, q: u128) -> u32 {
    if q == 0 || p > q {
        BILLION
    } else {
        ((p * BILLION) / (q as int)) as u32
    }
}

/// `Perbill::from_rational` of sp-arithmetic, read back with
/// `deconstruct`.  It approximates `p / q` in parts of a billion and rounds
/// down; where `q` is zero or `p` exceeds `q` it answers one.
#[verifier::external_body]
fn perbill_from_rational(p: u128, q: u128) -> (parts: u32)
    ensures
        parts == rational_parts(p, q),
{
    sp_arithmetic::Perbill::from_rational(p, q).deconstruct()
}

/// One term of a fee polynomial: `(coeff_integer + coeff_frac) * x^degree`,
/// added to the fee or, if `negative`, subtracted from it.
#[derive(Clone, Copy, Debug, PartialEq, Eq, Structural)]
pub struct WeightToFeeCoefficient {
    /// The integral part of the coefficient.
    pub coeff_integer: Balance,
    /// The fractional part of the coefficient.
    pub coeff_frac: Perbill,
    /// Whether the term is subtracted.
    pub negative: bool,
    /// The exponent of the weight.
    pub degree: u8,
}

/// The fee of a weight: linear in the computation time, such that the base
/// weight of an extrinsic costs a hundred micro units.
#[derive(Clone, Copy, Debug)]
pub struct WeightToFee {
    /// A millionth of the unit of the currency.
    pub micro_unit: Balance,
    /// The computation time that every extrinsic takes.
    pub extrinsic_base_ref_time: u64,
}

impl WeightToFee {
    /// What the base weight of an extrinsic costs.
    pub open spec fn base_fee(&self) -> int {
        100 * self.micro_unit
    }

    /// The one term of the polynomial: degree one, added, with the
    /// coefficient `base_fee / extrinsic_base_ref_time` split into its
    /// integral part and the rest in parts of a billion.
    pub open spec fn term(&self) -> WeightToFeeCoefficient {
        let p = self.base_fee();
        let q = self.extrinsic_base_ref_time as int;
        WeightToFeeCoefficient {
            coeff_integer: (p / q) as Balance,
            coeff_frac: Perbill { parts: rational_parts((p % q) as u128, q as u128) },
            negative: false,
            degree: 1,
        }
    }

    /// The polynomial that turns the computation time of a weight into a
    /// fee.  The base weight must not be zero, and a hundred micro units
    /// must be an amount.
    pub fn polynomial(&self) -> (coefficients: Vec<WeightToFeeCoefficient>)
        requires
            self.extrinsic_base_ref_time != 0,
            self.base_fee() <= Balance::MAX,
        ensures
            coefficients@ == seq![self.term()],
    {
        let p: Balance = 100 * self.micro_unit;
        let q: Balance = self.extrinsic_base_ref_time as Balance;
        let coefficient = WeightToFeeCoefficient {
            coeff_integer: p / q,
            coeff_frac: Perbill { parts: perbill_from_rational(p % q, q) },
            negative: false,
            degree: 1,
        };
        let mut coefficients: Vec<WeightToFeeCoefficient> = Vec::new();
        coefficients.push(coefficient);
        coefficients
    }
}

/// The fraction of the one term never reaches one, and integral part and
/// rest make up the whole quotient: nothing of the fee is lost but what
/// the rounding of the rest takes, less than a billionth per unit of
/// weight.
pub proof fn lemma_term_is_exact(fee: WeightToFee)
    requires
        fee.extrinsic_base_ref_time != 0,
        fee.base_fee() <= Balance::MAX,
    ensures
        fee.term().coeff_frac.parts < BILLION,
        fee.term().coeff_integer * fee.extrinsic_base_ref_time + fee.base_fee()
            % (fee.extrinsic_base_ref_time as int) == fee.base_fee(),
        fee.term().coeff_frac.parts * fee.extrinsic_base_ref_time <= (fee.base_fee() % (
        fee.extrinsic_base_ref_time as int)) * BILLION < (fee.term().coeff_frac.parts + 1)
            * fee.extrinsic_base_ref_time,
{
    let p = fee.base_fee();
    let q = fee.extrinsic_base_ref_time as int;
    let r = p % q;
    assert(0 <= r < q);
    assert(p == q * (p / q) + r) by {
        vstd::arithmetic::div_mod::lemma_fundamental_div_mod(p, q);
    }
    assert(0 <= p / q <= p) by (nonlinear_arith)
        requires
            p >= 0,
            q > 0,
    ;
    let n = r * BILLION;
    assert(0 <= n < q * BILLION) by (nonlinear_arith)
        requires
            0 <= r < q,
            BILLION == 1_000_000_000,
            n == r * BILLION,
    ;
    assert(n == q * (n / q) + n % q && 0 <= n % q < q) by {
        vstd::arithmetic::div_mod::lemma_fundamental_div_mod(n, q);
        vstd::arithmetic::div_mod::lemma_mod_bound(n, q);
    }
    assert(0 <= n / q < BILLION) by (nonlinear_arith)
        requires
            0 <= n < q * BILLION,
            q > 0,
            n == q * (n / q) + n % q,
            0 <= n % q < q,
    ;
    assert((n / q + 1) * q == q * (n / q) + q) by (nonlinear_arith);
    assert((n / q) * q == q * (n / q)) by (nonlinear_arith);
    assert((p / q) * q == q * (p / q)) by (nonlinear_arith);
}

/// An unsigned 256-bit number, held as two halves.
#[derive(Clone, Copy, Debug, PartialEq, Eq, Structural)]
pub struct U256 {
    pub high: u128,
    pub low: u128,
}

impl U256 {
    /// The number that the two halves stand for.
    pub open spec fn value(self) -> nat {
        (self.high * 0x1_0000_0000_0000_0000_0000_0000_0000_0000 + self.low) as nat
    }
}

/// Turns a balance into a 256-bit number.
pub struct BalanceToU256;

impl BalanceToU256 {
    /// The same number, in 256 bits.
    pub fn convert(n: Balance) -> (wide: U256)
        ensures
            wide.value() == n,
            wide == (U256 { high: 0, low: n }),
    {
        U256 { high: 0, low: n }
    }
}

/// Turns a 256-bit number into a balance.
pub struct U256ToBalance;

impl U256ToBalance {
    /// The same number if it is a balance, and the largest balance if it is
    /// too large to be one.
    pub fn convert(n: U256) -> (balance: Balance)
        ensures
            n.value() <= Balance::MAX ==> balance == n.value(),
            n.value() > Balance::MAX ==> balance == Balance::MAX,
    {
        if n.high == 0 {
            n.low
        } else {
            assert(n.high * 0x1_0000_0000_0000_0000_0000_0000_0000_0000 >= 0x1_0000_0000_0000_0000_0000_0000_0000_0000)
                by (nonlinear_arith)
                requires
                    n.high >= 1,
            ;
            Balance::MAX
        }
    }
}

} // verus!
