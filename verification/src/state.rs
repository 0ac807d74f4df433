//! The catalog entities, the player-state snapshot the search works on, and
//! the move rules: which moves are legal in a state and what state each one
//! leads to. Every transition is stated twice: as a spec-level relation
//! between state views, and as an executable constructor of the child state
//! that is proved to realize that relation.

use crate::inventory::affordable;
use crate::inventory::can_afford;
use crate::inventory::cast;
use crate::inventory::sum_fits;
use crate::inventory::sums_fit;
use crate::inventory::Inventory;
use vstd::prelude::*;

verus! {

/// Immutable definition of a transformation spell: its casting delta, a
/// unique action identifier, and whether it may be cast with a multiplier.
#[derive(Clone, Copy, Debug)]
pub struct SpellDescriptor {
    pub casting_price: Inventory,
    pub action_id: u32,
    pub repeatable: bool,
}

/// An owned spell: a descriptor plus a per-cycle `exhausted` flag. A spell is
/// used up for the rest of the turn cycle once cast; a Wait refreshes it.
#[derive(Clone, Copy, Debug)]
pub struct Spell {
    pub descriptor: SpellDescriptor,
    pub exhausted: bool,
}

/// A spell offered for learning, with its accrued tome reward: the reward of
/// an offer grows by one whenever an offer positioned after it is learned.
#[derive(Clone, Copy, Debug)]
pub struct LearnableSpell {
    pub descriptor: SpellDescriptor,
    pub reward: u32,
}

/// An open potion order: a brewing delta (a pure cost), its score reward,
/// and a unique action identifier.
#[derive(Clone, Copy, Debug)]
pub struct Order {
    pub brewing_price: Inventory,
    pub reward: u32,
    pub action_id: u32,
}

/// One action the player can take in a turn.
#[derive(Clone, Copy, Debug)]
pub enum Move {
    Wait,
    Brew { action_id: u32 },
    Learn { action_id: u32 },
    Cast { action_id: u32, times: u32 },
}

/// A snapshot of one hypothetical game situation: inventory, owned spells,
/// offered spells, open orders, and the counters. A child state is always a
/// fresh value; a parent is never mutated in place.
pub struct PlayerState {
    pub inventory: Inventory,
    pub spells: Vec<Spell>,
    pub learnable_spells: Vec<LearnableSpell>,
    pub orders: Vec<Order>,
    pub potions_brewed: u32,
    pub score: u32,
    pub moves: u32,
}

/// The mathematical model of a player state.
#[verifier::ext_equal]
pub struct StateView {
    pub inventory: Seq<i8>,
    pub spells: Seq<Spell>,
    pub learnable_spells: Seq<LearnableSpell>,
    pub orders: Seq<Order>,
    pub potions_brewed: int,
    pub score: int,
    pub moves: int,
}

impl View for PlayerState {
    type V = StateView;

    open spec fn view(&self) -> StateView {
        StateView {
            inventory: self.inventory@,
            spells: self.spells@,
            learnable_spells: self.learnable_spells@,
            orders: self.orders@,
            potions_brewed: self.potions_brewed as int,
            score: self.score as int,
            moves: self.moves as int,
        }
    }
}

// ---------------------------------------------------------------------------
// Legality of moves
// ---------------------------------------------------------------------------

/// Brewing the order at position `i` is legal: the order exists and its
/// brewing delta is affordable.
pub open spec fn legal_brew_at(s: StateView, i: int) -> bool {
    &&& 0 <= i < s.orders.len()
    &&& affordable(s.inventory, s.orders[i].brewing_price@)
}

/// Learning at offer position `i` costs `i` units of the first resource;
/// under the strict affordability rule every other axis must stay positive.
pub open spec fn learn_affordable(inv: Seq<i8>, i: int) -> bool {
    &&& inv[0] > i
    &&& inv[1] > 0
    &&& inv[2] > 0
    &&& inv[3] > 0
}

/// Learning the offer at position `i` is legal.
pub open spec fn legal_learn_at(s: StateView, i: int) -> bool {
    &&& 0 <= i < s.learnable_spells.len()
    &&& learn_affordable(s.inventory, i)
}

/// Casting the owned spell at position `i`, `times` times, is legal: the
/// spell is not exhausted this cycle, a multiplier above one needs the
/// `repeatable` flag, and the single casting delta is affordable.
pub open spec fn legal_cast_at(s: StateView, i: int, times: u32) -> bool {
    &&& 0 <= i < s.spells.len()
    &&& !s.spells[i].exhausted
    &&& times >= 1
    &&& (times == 1 || s.spells[i].descriptor.repeatable)
    &&& affordable(s.inventory, s.spells[i].descriptor.casting_price@)
}

/// A move is legal in a state. A Wait always is; the others must name the
/// action identifier of an entity for which the move is legal.
pub open spec fn legal_move(s: StateView, m: Move) -> bool {
    match m {
        Move::Wait => true,
        Move::Brew { action_id } => exists|i: int|
            #[trigger] legal_brew_at(s, i) && s.orders[i].action_id == action_id,
        Move::Learn { action_id } => exists|i: int|
            #[trigger] legal_learn_at(s, i) && s.learnable_spells[i].descriptor.action_id
                == action_id,
        Move::Cast { action_id, times } => exists|i: int|
            #[trigger] legal_cast_at(s, i, times) && s.spells[i].descriptor.action_id == action_id,
    }
}

// ---------------------------------------------------------------------------
// The effect of each move
// ---------------------------------------------------------------------------

/// The spell list once a Wait has refreshed every spell.
pub open spec fn waited_spells(spells: Seq<Spell>) -> Seq<Spell> {
    spells.map_values(|sp: Spell| Spell { descriptor: sp.descriptor, exhausted: false })
}

/// `post` is `pre` after a Wait: every owned spell refreshed, all else kept.
pub open spec fn wait_applied(pre: StateView, post: StateView) -> bool {
    post == StateView { spells: waited_spells(pre.spells), ..pre }
}

/// `post` is `pre` after brewing the order at position `i`: the brewing
/// delta is applied, the score grows by the order's reward, the potion count
/// by one, and the order leaves the open set (the last order takes its slot).
pub open spec fn brew_applied(pre: StateView, i: int, post: StateView) -> bool {
    &&& legal_brew_at(pre, i)
    &&& post.inventory.len() == 4
    &&& forall|j: int| #![trigger post.inventory[j]]
        0 <= j < 4 ==> post.inventory[j] == pre.inventory[j] + pre.orders[i].brewing_price@[j]
    &&& post.score == pre.score + pre.orders[i].reward
    &&& post.potions_brewed == pre.potions_brewed + 1
    &&& post.orders == pre.orders.update(i, pre.orders.last()).drop_last()
    &&& post.spells == pre.spells
    &&& post.learnable_spells == pre.learnable_spells
    &&& post.moves == pre.moves
}

/// The offer set once the offer at position `i` has been learned: every
/// offer before `i` gains one reward, and the learned offer leaves the set
/// (the last offer takes its slot).
pub open spec fn offers_learned(pre: Seq<LearnableSpell>, i: int, post: Seq<LearnableSpell>) -> bool {
    &&& post.len() == pre.len() - 1
    &&& forall|k: int| #![trigger post[k]]
        0 <= k < i ==> post[k].descriptor == pre[k].descriptor && post[k].reward == pre[k].reward
            + 1
    &&& forall|k: int| #![trigger post[k]]
        i <= k < post.len() ==> post[k] == pre.update(i, pre.last()).drop_last()[k]
}

/// `post` is `pre` after learning the offer at position `i`: the first
/// resource moves by the offer's accrued reward net of the position cost,
/// the learned spell joins the owned set fresh, and the offer set is updated
/// as `offers_learned` says.
pub open spec fn learn_applied(pre: StateView, i: int, post: StateView) -> bool {
    &&& legal_learn_at(pre, i)
    &&& post.inventory.len() == 4
    &&& post.inventory[0] == pre.inventory[0] + pre.learnable_spells[i].reward - i
    &&& forall|j: int| #![trigger post.inventory[j]]
        1 <= j < 4 ==> post.inventory[j] == pre.inventory[j]
    &&& post.spells == pre.spells.push(
        Spell { descriptor: pre.learnable_spells[i].descriptor, exhausted: false },
    )
    &&& offers_learned(pre.learnable_spells, i, post.learnable_spells)
    &&& post.orders == pre.orders
    &&& post.score == pre.score
    &&& post.potions_brewed == pre.potions_brewed
    &&& post.moves == pre.moves
}

/// The integer image of an inventory.
pub open spec fn as_ints(s: Seq<i8>) -> Seq<int> {
    s.map_values(|x: i8| x as int)
}

/// An inventory after a delta has been applied `t` times in a row.
pub open spec fn applied_times(inv: Seq<int>, delta: Seq<i8>, t: nat) -> Seq<int>
    decreases t,
{
    if t == 0 {
        inv
    } else {
        Seq::new(4, |j: int| applied_times(inv, delta, (t - 1) as nat)[j] + delta[j])
    }
}

/// Every axis of a vector of integers fits in `i8`.
pub open spec fn in_i8_range(s: Seq<int>) -> bool {
    forall|j: int| #![trigger s[j]] 0 <= j < s.len() ==> i8::MIN <= s[j] <= i8::MAX
}

/// Each of the `t` successive applications keeps the inventory within `i8`.
pub open spec fn steps_fit(inv: Seq<int>, delta: Seq<i8>, t: nat) -> bool {
    forall|k: nat| 1 <= k <= t ==> in_i8_range(#[trigger] applied_times(inv, delta, k))
}

/// `post` is `pre` after casting the spell at position `i` with multiplier
/// `times`: the casting delta is applied `times` times and the spell is
/// marked exhausted for the rest of the cycle.
pub open spec fn cast_applied(pre: StateView, i: int, times: u32, post: StateView) -> bool {
    &&& legal_cast_at(pre, i, times)
    &&& as_ints(post.inventory) == applied_times(
        as_ints(pre.inventory),
        pre.spells[i].descriptor.casting_price@,
        times as nat,
    )
    &&& post.spells == pre.spells.update(
        i,
        Spell { descriptor: pre.spells[i].descriptor, exhausted: true },
    )
    &&& post.learnable_spells == pre.learnable_spells
    &&& post.orders == pre.orders
    &&& post.score == pre.score
    &&& post.potions_brewed == pre.potions_brewed
    &&& post.moves == pre.moves
}

/// A move carries a state to another: the named entity exists at some
/// position for which the move is legal, and the effect holds.
pub open spec fn move_applied(pre: StateView, m: Move, post: StateView) -> bool {
    match m {
        Move::Wait => wait_applied(pre, post),
        Move::Brew { action_id } => exists|i: int|
            #[trigger] brew_applied(pre, i, post) && pre.orders[i].action_id == action_id,
        Move::Learn { action_id } => exists|i: int|
            #[trigger] learn_applied(pre, i, post) && pre.learnable_spells[i].descriptor.action_id
                == action_id,
        Move::Cast { action_id, times } => exists|i: int|
            #![trigger cast_applied(pre, i, times, post)]
            #![trigger pre.spells[i].descriptor]
            (cast_applied(pre, i, times, post) && pre.spells[i].descriptor.action_id == action_id),
    }
}

/// A move that was applied was legal.
pub proof fn lemma_move_applied_is_legal(pre: StateView, m: Move, post: StateView)
    requires
        move_applied(pre, m, post),
    ensures
        legal_move(pre, m),
{
}

// ---------------------------------------------------------------------------
// Bounds that the machine types force on a child state
// ---------------------------------------------------------------------------

/// The counters and the inventory of the brewed child stay in range.
pub open spec fn brew_in_range(s: StateView, i: int) -> bool {
    &&& s.score + s.orders[i].reward <= u32::MAX
    &&& s.potions_brewed + 1 <= u32::MAX
    &&& sum_fits(s.inventory, s.orders[i].brewing_price@)
}

/// The adjusted first resource and the bumped rewards stay in range.
pub open spec fn learn_in_range(s: StateView, i: int) -> bool {
    &&& i8::MIN <= s.inventory[0] + s.learnable_spells[i].reward - i <= i8::MAX
    &&& forall|k: int| #![trigger s.learnable_spells[k]]
        0 <= k < i ==> s.learnable_spells[k].reward + 1 <= u32::MAX
}

/// Every intermediate inventory of the repeated cast stays in range.
pub open spec fn cast_in_range(s: StateView, i: int, times: u32) -> bool {
    steps_fit(as_ints(s.inventory), s.spells[i].descriptor.casting_price@, times as nat)
}

// ---------------------------------------------------------------------------
// Executable child-state constructors
// ---------------------------------------------------------------------------

/// A structural copy of a vector of plain values.
pub fn copy_vec<T: Copy>(v: &Vec<T>) -> (r: Vec<T>)
    ensures
        r@ == v@,
{
    let mut r: Vec<T> = Vec::new();
    let mut i: usize = 0;
    while i < v.len()
        invariant
            i <= v@.len(),
            r@ == v@.subrange(0, i as int),
        decreases v@.len() - i,
    {
        r.push(v[i]);
        proof {
            assert(v@.subrange(0, i as int).push(v@[i as int]) =~= v@.subrange(0, i + 1 as int));
        }
        i += 1;
    }
    proof {
        assert(v@.subrange(0, v@.len() as int) =~= v@);
    }
    r
}

/// A structural copy of a slice of plain values.
pub fn copy_slice<T: Copy>(s: &[T]) -> (r: Vec<T>)
    ensures
        r@ == s@,
{
    let mut r: Vec<T> = Vec::new();
    let mut i: usize = 0;
    while i < s.len()
        invariant
            i <= s@.len(),
            r@ == s@.subrange(0, i as int),
        decreases s@.len() - i,
    {
        r.push(s[i]);
        proof {
            assert(s@.subrange(0, i as int).push(s@[i as int]) =~= s@.subrange(0, i + 1 as int));
        }
        i += 1;
    }
    proof {
        assert(s@.subrange(0, s@.len() as int) =~= s@);
    }
    r
}

impl PlayerState {
    /// The child state from brewing the order at position `index`, or `None`
    /// where the move is illegal or a value would leave its machine range.
    pub fn brew(&self, index: usize) -> (r: Option<PlayerState>)
        requires
            index < self@.orders.len(),
        ensures
            r is Some <==> legal_brew_at(self@, index as int) && brew_in_range(
                self@,
                index as int,
            ),
            r matches Some(st) ==> brew_applied(self@, index as int, st@),
    {
        let order = self.orders[index];
        if !can_afford(self.inventory, order.brewing_price) {
            return None;
        }
        if !sums_fit(self.inventory, order.brewing_price) {
            return None;
        }
        if self.score > u32::MAX - order.reward {
            return None;
        }
        if self.potions_brewed == u32::MAX {
            return None;
        }
        let mut inventory = self.inventory;
        cast(&mut inventory, order.brewing_price);
        let mut orders = copy_vec(&self.orders);
        orders.swap_remove(index);
        Some(
            PlayerState {
                inventory,
                spells: copy_vec(&self.spells),
                learnable_spells: copy_vec(&self.learnable_spells),
                orders,
                potions_brewed: self.potions_brewed + 1,
                score: self.score + order.reward,
                moves: self.moves,
            },
        )
    }

    /// The child state from learning the offer at position `index`, or `None`
    /// where the move is illegal or a value would leave its machine range.
    pub fn learn(&self, index: usize) -> (r: Option<PlayerState>)
        requires
            index < self@.learnable_spells.len(),
        ensures
            r is Some <==> legal_learn_at(self@, index as int) && learn_in_range(
                self@,
                index as int,
            ),
            r matches Some(st) ==> learn_applied(self@, index as int, st@),
    {
        let offer = self.learnable_spells[index];
        if index >= 127 {
            // no i8 holding exceeds 127, so the position cost is out of reach
            return None;
        }
        let position_cost = index as i8;
        if !(self.inventory[0] > position_cost && self.inventory[1] > 0 && self.inventory[2] > 0
            && self.inventory[3] > 0) {
            return None;
        }
        let net: i64 = self.inventory[0] as i64 + offer.reward as i64 - index as i64;
        if net < i8::MIN as i64 || net > i8::MAX as i64 {
            return None;
        }
        let mut k: usize = 0;
        while k < index
            invariant
                k <= index,
                index < self@.learnable_spells.len(),
                forall|j: int| #![trigger self@.learnable_spells[j]]
                    0 <= j < k ==> self@.learnable_spells[j].reward + 1 <= u32::MAX,
            decreases index - k,
        {
            if self.learnable_spells[k].reward == u32::MAX {
                return None;
            }
            k += 1;
        }
        let mut spells = copy_vec(&self.spells);
        spells.push(Spell { descriptor: offer.descriptor, exhausted: false });
        let mut offers = copy_vec(&self.learnable_spells);
        offers.swap_remove(index);
        let ghost swapped = self@.learnable_spells.update(
            index as int,
            self@.learnable_spells.last(),
        ).drop_last();
        let mut k: usize = 0;
        while k < index
            invariant
                k <= index,
                index <= offers@.len(),
                offers@.len() == self@.learnable_spells.len() - 1,
                swapped == self@.learnable_spells.update(
                    index as int,
                    self@.learnable_spells.last(),
                ).drop_last(),
                forall|j: int| #![trigger offers@[j]]
                    0 <= j < k ==> offers@[j].descriptor == self@.learnable_spells[j].descriptor
                        && offers@[j].reward == self@.learnable_spells[j].reward + 1,
                forall|j: int| #![trigger offers@[j]] k <= j < offers@.len() ==> offers@[j]
                    == swapped[j],
                forall|j: int| #![trigger self@.learnable_spells[j]]
                    0 <= j < index ==> self@.learnable_spells[j].reward + 1 <= u32::MAX,
            decreases index - k,
        {
            let cur = offers[k];
            proof {
                assert(swapped[k as int] == self@.learnable_spells[k as int]);
            }
            offers.set(k, LearnableSpell { descriptor: cur.descriptor, reward: cur.reward + 1 });
            k += 1;
        }
        Some(
            PlayerState {
                inventory: [net as i8, self.inventory[1], self.inventory[2], self.inventory[3]],
                spells,
                learnable_spells: offers,
                orders: copy_vec(&self.orders),
                potions_brewed: self.potions_brewed,
                score: self.score,
                moves: self.moves,
            },
        )
    }

    /// The child state from casting the spell at position `index` with
    /// multiplier `times`, or `None` where the move is illegal or some
    /// intermediate inventory would leave its machine range.
    pub fn cast_spell(&self, index: usize, times: u32) -> (r: Option<PlayerState>)
        requires
            index < self@.spells.len(),
        ensures
            r is Some <==> legal_cast_at(self@, index as int, times) && cast_in_range(
                self@,
                index as int,
                times,
            ),
            r matches Some(st) ==> cast_applied(self@, index as int, times, st@),
    {
        let spell = self.spells[index];
        if spell.exhausted {
            return None;
        }
        if times < 1 {
            return None;
        }
        if times > 1 && !spell.descriptor.repeatable {
            return None;
        }
        if !can_afford(self.inventory, spell.descriptor.casting_price) {
            return None;
        }
        let ghost start = as_ints(self@.inventory);
        let ghost delta = spell.descriptor.casting_price@;
        let mut inventory = self.inventory;
        let mut k: u32 = 0;
        while k < times
            invariant
                k <= times,
                spell == self@.spells[index as int],
                legal_cast_at(self@, index as int, times),
                delta == spell.descriptor.casting_price@,
                start == as_ints(self@.inventory),
                as_ints(inventory@) == applied_times(start, delta, k as nat),
                steps_fit(start, delta, k as nat),
            decreases times - k,
        {
            if !sums_fit(inventory, spell.descriptor.casting_price) {
                proof {
                    let next = applied_times(start, delta, (k + 1) as nat);
                    assert(next == Seq::new(4, |j: int| applied_times(start, delta, k as nat)[j] + delta[j]));
                    let bad = choose|j: int| #![trigger inventory@[j]]
                        0 <= j < 4 && !(i8::MIN <= inventory@[j] + delta[j] <= i8::MAX);
                    assert(next[bad] == inventory@[bad] + delta[bad]);
                    assert(!in_i8_range(next));
                    assert(!steps_fit(start, delta, times as nat));
                }
                return None;
            }
            cast(&mut inventory, spell.descriptor.casting_price);
            proof {
                let next = applied_times(start, delta, (k + 1) as nat);
                assert(as_ints(inventory@) =~= next);
                assert forall|kk: nat| 1 <= kk <= k + 1 implies in_i8_range(
                    #[trigger] applied_times(start, delta, kk),
                ) by {
                    if kk == k + 1 {
                        assert(applied_times(start, delta, kk) == as_ints(inventory@));
                    }
                }
            }
            k += 1;
        }
        let mut spells = copy_vec(&self.spells);
        spells.set(index, Spell { descriptor: spell.descriptor, exhausted: true });
        Some(
            PlayerState {
                inventory,
                spells,
                learnable_spells: copy_vec(&self.learnable_spells),
                orders: copy_vec(&self.orders),
                potions_brewed: self.potions_brewed,
                score: self.score,
                moves: self.moves,
            },
        )
    }

    /// The state after a Wait: every owned spell refreshed, all else kept.
    pub fn wait(&self) -> (r: PlayerState)
        ensures
            wait_applied(self@, r@),
    {
        let mut spells: Vec<Spell> = Vec::new();
        let mut i: usize = 0;
        while i < self.spells.len()
            invariant
                i <= self@.spells.len(),
                spells@.len() == i,
                forall|k: int| #![trigger spells@[k]] 0 <= k < i ==> spells@[k] == waited_spells(
                    self@.spells,
                )[k],
            decreases self@.spells.len() - i,
        {
            let sp = self.spells[i];
            spells.push(Spell { descriptor: sp.descriptor, exhausted: false });
            i += 1;
        }
        proof {
            assert(spells@ =~= waited_spells(self@.spells));
        }
        let r = PlayerState {
            inventory: self.inventory,
            spells,
            learnable_spells: copy_vec(&self.learnable_spells),
            orders: copy_vec(&self.orders),
            potions_brewed: self.potions_brewed,
            score: self.score,
            moves: self.moves,
        };
        proof {
            assert(r@ =~= StateView { spells: waited_spells(self@.spells), ..self@ });
        }
        r
    }
}

// ---------------------------------------------------------------------------
// Laws of the move rules
// ---------------------------------------------------------------------------

/// Law: waiting twice in a row, with no cast between, yields the same state
/// as waiting once — every spell is already refreshed.
pub proof fn lemma_wait_idempotent(s0: StateView, s1: StateView, s2: StateView)
    requires
        wait_applied(s0, s1),
        wait_applied(s1, s2),
    ensures
        s2 == s1,
{
    assert(waited_spells(waited_spells(s0.spells)) =~= waited_spells(s0.spells));
    assert(s2 =~= s1);
}

/// Law: a spell just cast is exhausted, so casting it again in the same
/// cycle is illegal whatever the multiplier and whatever it would cost.
pub proof fn lemma_cast_exhausts(pre: StateView, i: int, times: u32, post: StateView, again: u32)
    requires
        cast_applied(pre, i, times, post),
    ensures
        !legal_cast_at(post, i, again),
{
    assert(post.spells[i].exhausted);
}

/// Law: learning the offer at position `k` raises the reward of every offer
/// before `k` by exactly one, and every offer after `k` keeps its value in
/// the new offer set.
pub proof fn lemma_learn_reward_accrual(pre: StateView, k: int, post: StateView)
    requires
        learn_applied(pre, k, post),
    ensures
        forall|j: int| #![trigger post.learnable_spells[j]]
            0 <= j < k ==> post.learnable_spells[j].reward == pre.learnable_spells[j].reward + 1,
        forall|j: int| #![trigger pre.learnable_spells[j]]
            k < j < pre.learnable_spells.len() ==> exists|j2: int|
                0 <= j2 < post.learnable_spells.len() && post.learnable_spells[j2]
                    == pre.learnable_spells[j],
{
    let swapped = pre.learnable_spells.update(k, pre.learnable_spells.last()).drop_last();
    assert forall|j: int| k < j < pre.learnable_spells.len() implies exists|j2: int|
        0 <= j2 < post.learnable_spells.len() && post.learnable_spells[j2]
            == #[trigger] pre.learnable_spells[j] by {
        if j < pre.learnable_spells.len() - 1 {
            assert(post.learnable_spells[j] == swapped[j]);
            assert(swapped[j] == pre.learnable_spells[j]);
        } else {
            assert(post.learnable_spells[k] == swapped[k]);
            assert(swapped[k] == pre.learnable_spells[j]);
        }
    }
}

/// Law: a multiplier of two is legal exactly for a repeatable, unexhausted,
/// affordable spell; a non-repeatable spell only ever takes multiplier one.
pub proof fn lemma_repeatable_gating(s: StateView, i: int)
    requires
        0 <= i < s.spells.len(),
    ensures
        legal_cast_at(s, i, 2) <==> (s.spells[i].descriptor.repeatable && !s.spells[i].exhausted
            && affordable(s.inventory, s.spells[i].descriptor.casting_price@)),
        !s.spells[i].descriptor.repeatable ==> (forall|t: u32| legal_cast_at(s, i, t) ==> t == 1),
{
}

} // verus!
