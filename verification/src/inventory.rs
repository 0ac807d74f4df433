//! The resource vector: a four-axis signed quantity used both as an absolute
//! inventory and as a signed delta (a price, where negative entries are
//! consumed and positive entries produced).

use vstd::prelude::*;

verus! {

/// One quantity per resource axis.
pub type Inventory = [i8; 4];

/// A delta is affordable against an inventory iff on every axis the holding
/// stays strictly positive once the delta is applied: `inv[j] > -delta[j]`.
/// Holdings may never be driven to exactly zero by a paid cost.
pub open spec fn affordable(inv: Seq<i8>, delta: Seq<i8>) -> bool {
    forall|j: int| #![trigger inv[j]] 0 <= j < 4 ==> inv[j] + delta[j] > 0
}

/// Every axis of the sums `inv[j] + delta[j]` stays within `i8`.
pub open spec fn sum_fits(inv: Seq<i8>, delta: Seq<i8>) -> bool {
    forall|j: int| #![trigger inv[j]] 0 <= j < 4 ==> i8::MIN <= inv[j] + delta[j] <= i8::MAX
}

/// Whether an inventory is affordable, per the strict rule above.
pub fn can_afford(inventory: Inventory, cost: Inventory) -> (r: bool)
    ensures
        r == affordable(inventory@, cost@),
{
    (inventory[0] as i16) + (cost[0] as i16) > 0
        && (inventory[1] as i16) + (cost[1] as i16) > 0
        && (inventory[2] as i16) + (cost[2] as i16) > 0
        && (inventory[3] as i16) + (cost[3] as i16) > 0
}

/// Whether every axis sum `inventory[j] + cost[j]` stays within `i8`.
pub fn sums_fit(inventory: Inventory, cost: Inventory) -> (r: bool)
    ensures
        r == sum_fits(inventory@, cost@),
{
    let lo: i16 = i8::MIN as i16;
    let hi: i16 = i8::MAX as i16;
    lo <= (inventory[0] as i16) + (cost[0] as i16) && (inventory[0] as i16) + (cost[0] as i16) <= hi
        && lo <= (inventory[1] as i16) + (cost[1] as i16) && (inventory[1] as i16) + (cost[1] as i16) <= hi
        && lo <= (inventory[2] as i16) + (cost[2] as i16) && (inventory[2] as i16) + (cost[2] as i16) <= hi
        && lo <= (inventory[3] as i16) + (cost[3] as i16) && (inventory[3] as i16) + (cost[3] as i16) <= hi
}

/// Applies a delta to an inventory, axis by axis.
pub fn cast(inventory: &mut Inventory, cost: Inventory)
    requires
        sum_fits(old(inventory)@, cost@),
    ensures
        forall|j: int| 0 <= j < 4 ==> final(inventory)@[j] == old(inventory)@[j] + cost@[j],
{
    *inventory = [
        inventory[0] + cost[0],
        inventory[1] + cost[1],
        inventory[2] + cost[2],
        inventory[3] + cost[3],
    ];
}

/// Law, one direction, for every inventory and delta: strictly positive
/// post-cost holdings on every axis make the delta affordable.
pub proof fn lemma_positive_after_cost_affordable(inv: Seq<i8>, delta: Seq<i8>)
    ensures
        (forall|j: int| #![trigger inv[j]]
            0 <= j < 4 ==> inv[j] + vstd::math::min(delta[j] as int, 0) > 0) ==> affordable(
            inv,
            delta,
        ),
{
}

/// Law: a delta is affordable exactly when every axis keeps a strictly
/// positive holding after the delta's negative part is paid. The rule and
/// this reading agree only on axes that either cost something or start
/// positive; the premise restricts each axis to that case.
pub proof fn lemma_affordable_iff_positive_after_cost(inv: Seq<i8>, delta: Seq<i8>)
    requires
        forall|j: int| #![trigger inv[j]] 0 <= j < 4 ==> delta[j] <= 0 || inv[j] > 0,
    ensures
        affordable(inv, delta) <==> (forall|j: int| #![trigger inv[j]]
            0 <= j < 4 ==> inv[j] + vstd::math::min(delta[j] as int, 0) > 0),
{
}

} // verus!
