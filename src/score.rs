//! Session statistics and the effects that change them.

use crate::content::Effect;
use vstd::prelude::*;

verus! {

/// Score, money and income of the session. Sums stop at the bounds of `i32`.
#[derive(Clone, Copy, Debug, PartialEq, Eq, Structural)]
pub struct Statistics {
    pub score: i32,
    pub money: i32,
    pub income: i32,
}

/// `a + b`, held to the range of `i32`.
pub open spec fn clamped_sum(a: i32, b: i32) -> i32 {
    if a + b > i32::MAX {
        i32::MAX
    } else if a + b < i32::MIN {
        i32::MIN
    } else {
        (a + b) as i32
    }
}

/// The statistics after `effect` fires once.
pub open spec fn with_effect(s: Statistics, effect: Effect) -> Statistics {
    match effect {
        Effect::Score(n) => Statistics { score: clamped_sum(s.score, n), ..s },
        Effect::Money(n) => Statistics { money: clamped_sum(s.money, n), ..s },
        Effect::Income(n) => Statistics { income: clamped_sum(s.income, n), ..s },
        Effect::Noop => s,
    }
}

/// The statistics after payroll: the income is paid into the money.
pub open spec fn paid(s: Statistics) -> Statistics {
    Statistics { money: clamped_sum(s.money, s.income), ..s }
}

fn add_clamped(a: i32, b: i32) -> (r: i32)
    ensures
        r == clamped_sum(a, b),
{
    let sum = a as i64 + b as i64;
    if sum > i32::MAX as i64 {
        i32::MAX
    } else if sum < i32::MIN as i64 {
        i32::MIN
    } else {
        sum as i32
    }
}

impl Default for Statistics {
    fn default() -> (r: Self)
        ensures
            r == (Statistics { score: 0, money: 0, income: 0 }),
    {
        Statistics { score: 0, money: 0, income: 0 }
    }
}

impl Statistics {
    /// Fires `effect` once: a score, money or income effect adds its amount to
    /// that field; `Noop` changes nothing.
    pub fn apply_effect(&mut self, effect: Effect)
        ensures
            *final(self) == with_effect(*old(self), effect),
    {
        match effect {
            Effect::Score(n) => {
                self.score = add_clamped(self.score, n);
            },
            Effect::Money(n) => {
                self.money = add_clamped(self.money, n);
            },
            Effect::Income(n) => {
                self.income = add_clamped(self.income, n);
            },
            Effect::Noop => {},
        }
    }

    /// Pays the income into the money, as at the clear of a letter.
    pub fn payroll(&mut self)
        ensures
            *final(self) == paid(*old(self)),
    {
        self.money = add_clamped(self.money, self.income);
    }
}

} // verus!
