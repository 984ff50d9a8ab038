//! The tip paid to the block engine, which grows with the difficulty of the solution.
use vstd::prelude::*;

use crate::double;

verus! {

/// Up to this difficulty the tip is paid as it is.
pub const BASE_DIFFICULTY: u32 = 20;

/// Above this difficulty the surcharge has the larger factor and the higher cap.
pub const HIGH_DIFFICULTY: u32 = 25;

/// One unit of the surcharge: `tip * (difficulty - 20) / 20` in double precision (the tip, the
/// product and the quotient each rounded to the nearest double), without its fraction and
/// capped at the largest `u64`.
pub open spec fn surcharge(difficulty: u32, tip: u64) -> nat {
    let wide = double::double_trunc(tip as nat, 1);
    let product = double::double_trunc(wide * ((difficulty - 20) as nat), 1);
    let quotient = double::double_trunc(product, 20);
    if quotient > u64::MAX {
        u64::MAX as nat
    } else {
        quotient
    }
}

/// How many units of the surcharge are added.
pub open spec fn factor(difficulty: u32) -> nat {
    if difficulty > HIGH_DIFFICULTY {
        6
    } else if difficulty > BASE_DIFFICULTY {
        4
    } else {
        0
    }
}

/// How many times the tip the fee may be.
pub open spec fn cap(difficulty: u32) -> nat {
    if difficulty > HIGH_DIFFICULTY {
        5
    } else if difficulty > BASE_DIFFICULTY {
        3
    } else {
        1
    }
}

/// The fee before the cap.
pub open spec fn raised_fee(difficulty: u32, tip: u64) -> nat {
    if difficulty > BASE_DIFFICULTY {
        tip as nat + factor(difficulty) * surcharge(difficulty, tip)
    } else {
        tip as nat
    }
}

/// The fee for a solution of the given difficulty.
pub open spec fn adjusted_fee(difficulty: u32, tip: u64) -> nat {
    let raised = raised_fee(difficulty, tip);
    let most = cap(difficulty) * tip as nat;
    if raised > most {
        most
    } else {
        raised
    }
}

/// The fee can be computed in 64 bits, the uncapped one and the cap too.
pub open spec fn fee_fits(difficulty: u32, tip: u64) -> bool {
    &&& raised_fee(difficulty, tip) <= u64::MAX
    &&& cap(difficulty) * tip <= u64::MAX
}

/// Computes one unit of the surcharge.
pub fn surcharge_unit(difficulty: u32, tip: u64) -> (r: u64)
    requires
        difficulty > BASE_DIFFICULTY,
    ensures
        r == surcharge(difficulty, tip),
{
    let wide: u128 = double::nearest_double_trunc(tip as u128, 1);
    let excess: u128 = (difficulty - BASE_DIFFICULTY) as u128;
    proof {
        double::lemma_double_trunc_upper(tip as nat, 1);
        assert(wide * excess <= 0x2_0000_0000_0000_0000 * 0x1_0000_0000) by (nonlinear_arith)
            requires
                wide <= 0x2_0000_0000_0000_0000,
                excess <= 0x1_0000_0000,
        ;
        double::lemma_double_trunc_upper((wide * excess) as nat, 1);
    }
    let product: u128 = double::nearest_double_trunc(wide * excess, 1);
    let quotient: u128 = double::nearest_double_trunc(product, 20);
    if quotient > u64::MAX as u128 {
        u64::MAX
    } else {
        quotient as u64
    }
}

/// Tells whether the fee can be computed in 64 bits.
pub fn fee_in_range(difficulty: u32, tip: u64) -> (r: bool)
    ensures
        r == fee_fits(difficulty, tip),
{
    if difficulty > HIGH_DIFFICULTY {
        let unit: u64 = surcharge_unit(difficulty, tip);
        tip as u128 + 6 * unit as u128 <= u64::MAX as u128 && 5 * tip as u128 <= u64::MAX as u128
    } else if difficulty > BASE_DIFFICULTY {
        let unit: u64 = surcharge_unit(difficulty, tip);
        tip as u128 + 4 * unit as u128 <= u64::MAX as u128 && 3 * tip as u128 <= u64::MAX as u128
    } else {
        true
    }
}

/// The fee for a solution: the tip, and for a difficulty above 20 a surcharge on it,
/// up to three times the tip, or five times for a difficulty above 25.
pub fn adjust_fee(difficulty: u32, jito_tip_lamports: u64) -> (fee: u64)
    requires
        fee_fits(difficulty, jito_tip_lamports),
    ensures
        fee == adjusted_fee(difficulty, jito_tip_lamports),
        difficulty <= 20 ==> fee == jito_tip_lamports,
        20 < difficulty <= 25 ==> ({
            let raised = jito_tip_lamports + 4 * surcharge(difficulty, jito_tip_lamports);
            fee == if raised > 3 * jito_tip_lamports {
                3 * jito_tip_lamports
            } else {
                raised
            }
        }),
        difficulty > 25 ==> ({
            let raised = jito_tip_lamports + 6 * surcharge(difficulty, jito_tip_lamports);
            fee == if raised > 5 * jito_tip_lamports {
                5 * jito_tip_lamports
            } else {
                raised
            }
        }),
{
    let mut extra_fee: u64 = jito_tip_lamports;
    if difficulty > HIGH_DIFFICULTY {
        extra_fee = extra_fee + surcharge_unit(difficulty, jito_tip_lamports) * 6;
        if extra_fee > 5 * jito_tip_lamports {
            extra_fee = 5 * jito_tip_lamports;
        }
    } else if difficulty > BASE_DIFFICULTY {
        extra_fee = extra_fee + surcharge_unit(difficulty, jito_tip_lamports) * 4;
        if extra_fee > 3 * jito_tip_lamports {
            extra_fee = 3 * jito_tip_lamports;
        }
    }
    extra_fee
}

/// The fee is never below the tip, and never above three times the tip, or five times
/// for a difficulty above 25.
pub proof fn law_fee_bounds(difficulty: u32, tip: u64)
    ensures
        tip <= adjusted_fee(difficulty, tip) <= cap(difficulty) * tip,
        adjusted_fee(difficulty, tip) <= 5 * tip,
        difficulty <= HIGH_DIFFICULTY ==> adjusted_fee(difficulty, tip) <= 3 * tip,
        difficulty <= BASE_DIFFICULTY ==> adjusted_fee(difficulty, tip) == tip,
{
}

/// Where the product of the tip and the excess difficulty is 2^53 at most, the surcharge is
/// the plain integer quotient.
pub proof fn law_surcharge_exact(difficulty: u32, tip: u64)
    requires
        difficulty > BASE_DIFFICULTY,
        tip * (difficulty - 20) <= 0x20_0000_0000_0000,
    ensures
        surcharge(difficulty, tip) == tip * (difficulty - 20) / 20,
{
    let excess = (difficulty - 20) as nat;
    assert(tip <= tip * excess) by (nonlinear_arith)
        requires
            excess >= 1,
    ;
    double::lemma_double_trunc_integer(tip as nat);
    double::lemma_double_trunc_integer(tip as nat * excess);
    double::lemma_double_trunc_quotient(tip as nat * excess, 20);
}

/// Up to a difficulty of 256, the highest that a solution can reach, the fee for any tip of a
/// hundredth of the largest `u64` at most can be computed in 64 bits.
pub proof fn law_fee_fits(difficulty: u32, tip: u64)
    requires
        difficulty <= 256,
        tip <= u64::MAX / 100,
    ensures
        fee_fits(difficulty, tip),
{
    if difficulty > BASE_DIFFICULTY {
        let excess = (difficulty - 20) as nat;
        let wide = double::double_trunc(tip as nat, 1);
        let product = double::double_trunc(wide * excess, 1);
        double::lemma_double_trunc_upper(tip as nat, 1);
        assert(wide * excess <= wide * 236) by (nonlinear_arith)
            requires
                excess <= 236,
        ;
        double::lemma_double_trunc_upper(wide * excess, 1);
        double::lemma_double_trunc_upper(product, 20);
    }
}

/// What the surcharge is, step by step as in double precision: the tip as a double, times the excess
/// difficulty as a double, divided by 20 as a double, and of that the integer part, if it fits.
pub proof fn law_surcharge_steps(difficulty: u32, tip: u64, a: nat, b: nat, c: nat)
    requires
        difficulty > 20,
        a == double::double_trunc(tip as nat, 1),
        b == double::double_trunc(a * ((difficulty - 20) as nat), 1),
        c == double::double_trunc(b, 20),
    ensures
        surcharge(difficulty, tip) == if c <= 0xffff_ffff_ffff_ffff {
            c
        } else {
            0xffff_ffff_ffff_ffff
        },
{
}

/// What the fee is, for every difficulty and every tip: the tip up to a difficulty of 20; four
/// surcharges more up to 25, and three tips at most; six surcharges more above, and five tips at
/// most. And when it can be computed in 64 bits: where the sum before the cap and the cap itself do.
pub proof fn law_fee_formula(difficulty: u32, tip: u64)
    ensures
        difficulty <= 20 ==> adjusted_fee(difficulty, tip) == tip && fee_fits(difficulty, tip),
        20 < difficulty <= 25 ==> ({
            let raised = tip + 4 * surcharge(difficulty, tip);
            &&& adjusted_fee(difficulty, tip) == if raised > 3 * tip {
                3 * tip
            } else {
                raised
            }
            &&& fee_fits(difficulty, tip) <==> raised <= 0xffff_ffff_ffff_ffff && 3 * tip
                <= 0xffff_ffff_ffff_ffff
        }),
        difficulty > 25 ==> ({
            let raised = tip + 6 * surcharge(difficulty, tip);
            &&& adjusted_fee(difficulty, tip) == if raised > 5 * tip {
                5 * tip
            } else {
                raised
            }
            &&& fee_fits(difficulty, tip) <==> raised <= 0xffff_ffff_ffff_ffff && 5 * tip
                <= 0xffff_ffff_ffff_ffff
        }),
{
}

/// The fee in whole numbers, where the product of the tip and the excess difficulty is 2^53 at
/// most: a fifth of the tip more for every step of difficulty from 21 to 25, each time with the
/// twentieths cut off, and above that six twentieths, up to five tips.
pub proof fn law_fee_exact(difficulty: u32, tip: u64)
    requires
        difficulty > 20,
        tip * (difficulty - 20) <= 0x20_0000_0000_0000,
    ensures
        difficulty <= 25 ==> adjusted_fee(difficulty, tip) == tip + 4 * (tip * (difficulty - 20)
            / 20),
        difficulty > 25 ==> adjusted_fee(difficulty, tip) == if tip + 6 * (tip * (difficulty - 20)
            / 20) > 5 * tip {
            5 * tip
        } else {
            tip + 6 * (tip * (difficulty - 20) / 20)
        },
{
    law_surcharge_exact(difficulty, tip);
    if difficulty <= 25 {
        law_lower_cap_is_slack(difficulty, tip);
    }
}

/// A higher difficulty never lowers the surcharge on a tip, nor does a higher tip.
pub proof fn law_surcharge_monotone(
    difficulty1: u32,
    difficulty2: u32,
    tip1: u64,
    tip2: u64,
)
    requires
        BASE_DIFFICULTY < difficulty1 <= difficulty2,
        tip1 <= tip2,
    ensures
        surcharge(difficulty1, tip1) <= surcharge(difficulty2, tip2),
{
    let wide1 = double::double_trunc(tip1 as nat, 1);
    let wide2 = double::double_trunc(tip2 as nat, 1);
    let excess1 = (difficulty1 - 20) as nat;
    let excess2 = (difficulty2 - 20) as nat;
    double::lemma_double_trunc_monotone(tip1 as nat, tip2 as nat, 1);
    assert(wide1 * excess1 <= wide2 * excess2) by (nonlinear_arith)
        requires
            wide1 <= wide2,
            excess1 <= excess2,
    ;
    double::lemma_double_trunc_monotone(wide1 * excess1, wide2 * excess2, 1);
    double::lemma_double_trunc_monotone(
        double::double_trunc(wide1 * excess1, 1),
        double::double_trunc(wide2 * excess2, 1),
        20,
    );
}

/// A higher difficulty never lowers the fee, nor does a higher tip.
pub proof fn law_fee_monotone(difficulty1: u32, difficulty2: u32, tip1: u64, tip2: u64)
    requires
        difficulty1 <= difficulty2,
        tip1 <= tip2,
    ensures
        adjusted_fee(difficulty1, tip1) <= adjusted_fee(difficulty2, tip2),
{
    if difficulty1 > BASE_DIFFICULTY {
        law_surcharge_monotone(difficulty1, difficulty2, tip1, tip2);
        let s1 = surcharge(difficulty1, tip1);
        let s2 = surcharge(difficulty2, tip2);
        assert(factor(difficulty1) * s1 <= factor(difficulty2) * s2) by (nonlinear_arith)
            requires
                factor(difficulty1) <= factor(difficulty2),
                s1 <= s2,
        ;
    }
    assert(cap(difficulty1) * tip1 <= cap(difficulty2) * tip2) by (nonlinear_arith)
        requires
            cap(difficulty1) <= cap(difficulty2),
            tip1 <= tip2,
    ;
}

/// Up to a difficulty of 25 the surcharge alone keeps the fee under three times the tip:
/// the cap there takes nothing off.
pub proof fn law_lower_cap_is_slack(difficulty: u32, tip: u64)
    requires
        difficulty <= HIGH_DIFFICULTY,
    ensures
        adjusted_fee(difficulty, tip) == raised_fee(difficulty, tip),
{
    if difficulty > BASE_DIFFICULTY {
        let excess = (difficulty - 20) as nat;
        let wide = double::double_trunc(tip as nat, 1);
        let product = double::double_trunc(wide * excess, 1);
        double::lemma_double_trunc_upper(tip as nat, 1);
        assert(wide * excess <= wide * 5) by (nonlinear_arith)
            requires
                excess <= 5,
        ;
        double::lemma_double_trunc_upper(wide * excess, 1);
        double::lemma_double_trunc_upper(product, 20);
    }
}

} // verus!
