//! How much a rating counts, by its age.

use super::pallet::Pallet;
use vstd::arithmetic::div_mod::lemma_div_is_ordered;
use vstd::arithmetic::div_mod::lemma_div_multiples_vanish;
use vstd::prelude::*;

verus! {

/// The weight, in percent, of a rating that is `age` blocks old when ratings
/// live for `max_age` blocks: 100 for a new rating, falling by one point for
/// every fiftieth of `max_age`, and never under 50.
pub open spec fn time_weight(age: int, max_age: int) -> int {
    if max_age == 0 {
        100
    } else {
        let decay = (age * 50) / max_age;
        if 100 - decay < 50 {
            50
        } else {
            100 - decay
        }
    }
}

impl Pallet {
    /// The weight of a rating of the given age, between 50 and 100.
    pub fn calculate_time_weight(age: u32, max_age: u32) -> (weight: u32)
        ensures
            weight == time_weight(age as int, max_age as int),
            50 <= weight <= 100,
    {
        if max_age == 0 {
            return 100;
        }
        let decay: u64 = (age as u64 * 50) / (max_age as u64);
        if decay >= 50 {
            50
        } else {
            (100 - decay) as u32
        }
    }
}

/// A weight lies between 50 and 100, whatever the age.
pub proof fn time_weight_is_bounded(age: int, max_age: int)
    requires
        0 <= age,
        0 <= max_age,
    ensures
        50 <= time_weight(age, max_age) <= 100,
{
    if max_age > 0 {
        lemma_div_is_ordered(0, age * 50, max_age);
    }
}

/// A rating that has just been created has the full weight.
pub proof fn time_weight_of_new_rating(max_age: int)
    requires
        0 <= max_age,
    ensures
        time_weight(0, max_age) == 100,
{
}

/// A rating as old as ratings can get has half the weight.
pub proof fn time_weight_at_expiry(max_age: int)
    requires
        0 < max_age,
    ensures
        time_weight(max_age, max_age) == 50,
{
    assert(max_age * 50 == 50 * max_age) by (nonlinear_arith);
    lemma_div_multiples_vanish(50, max_age);
}

/// An older rating never weighs more than a younger one.
pub proof fn time_weight_falls_with_age(younger: int, older: int, max_age: int)
    requires
        0 <= younger <= older,
        0 <= max_age,
    ensures
        time_weight(older, max_age) <= time_weight(younger, max_age),
{
    if max_age > 0 {
        lemma_div_is_ordered(younger * 50, older * 50, max_age);
    }
}

} // verus!
