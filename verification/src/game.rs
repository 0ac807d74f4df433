//! The live game state and its rules: how the starting state is drawn from
//! the catalogs, and how one chosen move is applied to the live state, with
//! the visible window refilled from the queued catalog entries.

use crate::inventory::cast;
use crate::inventory::Inventory;
use crate::rng::seeded_rng;
use crate::rng::shuffle_in_place;
use crate::state::applied_times;
use crate::state::as_ints;
use crate::state::cast_applied;
use crate::state::cast_in_range;
use crate::state::copy_slice;
use crate::state::learn_affordable;
use crate::state::learn_in_range;
use crate::state::legal_brew_at;
use crate::state::legal_cast_at;
use crate::state::legal_learn_at;
use crate::state::offers_learned;
use crate::state::steps_fit;
use crate::state::waited_spells;
use crate::state::LearnableSpell;
use crate::state::Move;
use crate::state::Order;
use crate::state::Spell;
use crate::state::SpellDescriptor;
use crate::state::StateView;
use std::collections::VecDeque;
use vstd::prelude::*;
use vstd::seq_lib::lemma_multiset_commutative;

verus! {

/// The live game situation: the visible window the search works on, plus the
/// queues of upcoming catalog entries that refill the window as orders are
/// brewed and offers are learned.
pub struct GameState {
    pub inventory: Inventory,
    pub score: u32,
    pub spells: Vec<Spell>,
    pub learnable_spells: Vec<LearnableSpell>,
    pub next_learnable_spells: VecDeque<SpellDescriptor>,
    pub orders: VecDeque<Order>,
    pub next_orders: VecDeque<Order>,
    pub potions_brewed: u32,
    pub next_id: u32,
    pub moves: u32,
}

/// The mathematical model of the live game state.
#[verifier::ext_equal]
pub struct GameView {
    pub inventory: Seq<i8>,
    pub score: int,
    pub spells: Seq<Spell>,
    pub learnable_spells: Seq<LearnableSpell>,
    pub next_learnable_spells: Seq<SpellDescriptor>,
    pub orders: Seq<Order>,
    pub next_orders: Seq<Order>,
    pub potions_brewed: int,
    pub next_id: int,
    pub moves: int,
}

impl View for GameState {
    type V = GameView;

    open spec fn view(&self) -> GameView {
        GameView {
            inventory: self.inventory@,
            score: self.score as int,
            spells: self.spells@,
            learnable_spells: self.learnable_spells@,
            next_learnable_spells: self.next_learnable_spells@,
            orders: self.orders@,
            next_orders: self.next_orders@,
            potions_brewed: self.potions_brewed as int,
            next_id: self.next_id as int,
            moves: self.moves as int,
        }
    }
}

/// The window of the live game that the search sees.
pub open spec fn visible_state(g: GameView) -> StateView {
    StateView {
        inventory: g.inventory,
        spells: g.spells,
        learnable_spells: g.learnable_spells,
        orders: g.orders,
        potions_brewed: g.potions_brewed,
        score: g.score,
        moves: g.moves,
    }
}

// ---------------------------------------------------------------------------
// Locating an entity by its action identifier
// ---------------------------------------------------------------------------

/// `i` is the first position in `orders` carrying `action_id`.
pub open spec fn first_order_match(orders: Seq<Order>, action_id: u32, i: int) -> bool {
    &&& 0 <= i < orders.len()
    &&& orders[i].action_id == action_id
    &&& forall|j: int| #![trigger orders[j]] 0 <= j < i ==> orders[j].action_id != action_id
}

/// `i` is the first position in `offers` carrying `action_id`.
pub open spec fn first_offer_match(offers: Seq<LearnableSpell>, action_id: u32, i: int) -> bool {
    &&& 0 <= i < offers.len()
    &&& offers[i].descriptor.action_id == action_id
    &&& forall|j: int| #![trigger offers[j]]
        0 <= j < i ==> offers[j].descriptor.action_id != action_id
}

/// `i` is the first position in `spells` carrying `action_id`.
pub open spec fn first_spell_match(spells: Seq<Spell>, action_id: u32, i: int) -> bool {
    &&& 0 <= i < spells.len()
    &&& spells[i].descriptor.action_id == action_id
    &&& forall|j: int| #![trigger spells[j]]
        0 <= j < i ==> spells[j].descriptor.action_id != action_id
}

fn find_order(orders: &VecDeque<Order>, action_id: u32) -> (r: usize)
    requires
        exists|i: int| 0 <= i < orders@.len() && (#[trigger] orders@[i]).action_id == action_id,
    ensures
        first_order_match(orders@, action_id, r as int),
{
    let mut i: usize = 0;
    while i < orders.len()
        invariant
            i <= orders@.len(),
            exists|k: int| 0 <= k < orders@.len() && (#[trigger] orders@[k]).action_id
                == action_id,
            forall|j: int| #![trigger orders@[j]] 0 <= j < i ==> orders@[j].action_id != action_id,
        decreases orders@.len() - i,
    {
        if orders[i].action_id == action_id {
            return i;
        }
        i += 1;
    }
    proof {
        assert(false);
    }
    0
}

fn find_offer(offers: &Vec<LearnableSpell>, action_id: u32) -> (r: usize)
    requires
        exists|i: int| 0 <= i < offers@.len() && (#[trigger] offers@[i]).descriptor.action_id
            == action_id,
    ensures
        first_offer_match(offers@, action_id, r as int),
{
    let mut i: usize = 0;
    while i < offers.len()
        invariant
            i <= offers@.len(),
            exists|k: int| 0 <= k < offers@.len() && (#[trigger] offers@[k]).descriptor.action_id
                == action_id,
            forall|j: int| #![trigger offers@[j]]
                0 <= j < i ==> offers@[j].descriptor.action_id != action_id,
        decreases offers@.len() - i,
    {
        if offers[i].descriptor.action_id == action_id {
            return i;
        }
        i += 1;
    }
    proof {
        assert(false);
    }
    0
}

fn find_spell(spells: &Vec<Spell>, action_id: u32) -> (r: usize)
    requires
        exists|i: int| 0 <= i < spells@.len() && (#[trigger] spells@[i]).descriptor.action_id
            == action_id,
    ensures
        first_spell_match(spells@, action_id, r as int),
{
    let mut i: usize = 0;
    while i < spells.len()
        invariant
            i <= spells@.len(),
            exists|k: int| 0 <= k < spells@.len() && (#[trigger] spells@[k]).descriptor.action_id
                == action_id,
            forall|j: int| #![trigger spells@[j]]
                0 <= j < i ==> spells@[j].descriptor.action_id != action_id,
        decreases spells@.len() - i,
    {
        if spells[i].descriptor.action_id == action_id {
            return i;
        }
        i += 1;
    }
    proof {
        assert(false);
    }
    0
}

// ---------------------------------------------------------------------------
// The effect of each move on the live state
// ---------------------------------------------------------------------------

/// `post` is `pre` after a live Wait: every spell refreshed, all else kept.
pub open spec fn game_wait_applied(pre: GameView, post: GameView) -> bool {
    post == GameView { spells: waited_spells(pre.spells), ..pre }
}

/// `post` is `pre` after a live Brew of the order at position `i`: the order
/// is paid and scored, leaves the open set in place, and the next queued
/// order joins the back of the window.
pub open spec fn game_brew_applied(pre: GameView, i: int, post: GameView) -> bool {
    &&& legal_brew_at(visible_state(pre), i)
    &&& pre.next_orders.len() > 0
    &&& post.inventory.len() == 4
    &&& forall|j: int| #![trigger post.inventory[j]]
        0 <= j < 4 ==> post.inventory[j] == pre.inventory[j] + pre.orders[i].brewing_price@[j]
    &&& post.score == pre.score + pre.orders[i].reward
    &&& post.potions_brewed == pre.potions_brewed + 1
    &&& post.orders == pre.orders.remove(i).push(pre.next_orders[0])
    &&& post.next_orders == pre.next_orders.drop_first()
    &&& post.spells == pre.spells
    &&& post.learnable_spells == pre.learnable_spells
    &&& post.next_learnable_spells == pre.next_learnable_spells
    &&& post.next_id == pre.next_id
    &&& post.moves == pre.moves
}

/// `post` is `pre` after a live Learn of the offer at position `i`: as in
/// the search model, and then the next queued descriptor, if any, joins the
/// back of the offer window with no accrued reward.
pub open spec fn game_learn_applied(pre: GameView, i: int, post: GameView) -> bool {
    &&& legal_learn_at(visible_state(pre), i)
    &&& post.inventory.len() == 4
    &&& post.inventory[0] == pre.inventory[0] + pre.learnable_spells[i].reward - i
    &&& forall|j: int| #![trigger post.inventory[j]]
        1 <= j < 4 ==> post.inventory[j] == pre.inventory[j]
    &&& post.spells == pre.spells.push(
        Spell { descriptor: pre.learnable_spells[i].descriptor, exhausted: false },
    )
    &&& if pre.next_learnable_spells.len() > 0 {
        &&& post.learnable_spells.len() == pre.learnable_spells.len()
        &&& offers_learned(pre.learnable_spells, i, post.learnable_spells.drop_last())
        &&& post.learnable_spells.last() == LearnableSpell {
            descriptor: pre.next_learnable_spells[0],
            reward: 0,
        }
        &&& post.next_learnable_spells == pre.next_learnable_spells.drop_first()
    } else {
        &&& offers_learned(pre.learnable_spells, i, post.learnable_spells)
        &&& post.next_learnable_spells == pre.next_learnable_spells
    }
    &&& post.orders == pre.orders
    &&& post.next_orders == pre.next_orders
    &&& post.score == pre.score
    &&& post.potions_brewed == pre.potions_brewed
    &&& post.next_id == pre.next_id
    &&& post.moves == pre.moves
}

/// `post` is `pre` after a live Cast of the spell at position `i` with
/// multiplier `times`: exactly the search model's effect.
pub open spec fn game_cast_applied(pre: GameView, i: int, times: u32, post: GameView) -> bool {
    &&& cast_applied(visible_state(pre), i, times, visible_state(post))
    &&& post.next_orders == pre.next_orders
    &&& post.next_learnable_spells == pre.next_learnable_spells
    &&& post.next_id == pre.next_id
}

/// What applying a move demands of the live state: the move must be legal
/// for the first entity carrying its action identifier, every touched value
/// must stay within its machine range, and a Brew needs a queued order to
/// refill the window.
pub open spec fn may_apply(g: GameView, m: Move) -> bool {
    match m {
        Move::Wait => true,
        Move::Brew { action_id } => exists|i: int|
            #[trigger] first_order_match(g.orders, action_id, i) && legal_brew_at(
                visible_state(g),
                i,
            ) && crate::state::brew_in_range(visible_state(g), i) && g.next_orders.len() > 0,
        Move::Learn { action_id } => exists|i: int|
            #[trigger] first_offer_match(g.learnable_spells, action_id, i) && legal_learn_at(
                visible_state(g),
                i,
            ) && learn_in_range(visible_state(g), i),
        Move::Cast { action_id, times } => exists|i: int|
            #[trigger] first_spell_match(g.spells, action_id, i) && legal_cast_at(
                visible_state(g),
                i,
                times,
            ) && cast_in_range(visible_state(g), i, times),
    }
}

/// Applies one chosen move to the live state. The caller owes a legal move:
/// an illegal application is a programming error and is ruled out here
/// rather than detected at run time.
pub fn apply_move(state: &mut GameState, m: &Move)
    requires
        may_apply(old(state)@, *m),
    ensures
        match *m {
            Move::Wait => game_wait_applied(old(state)@, final(state)@),
            Move::Brew { action_id } => exists|i: int|
                #[trigger] first_order_match(old(state)@.orders, action_id, i)
                    && game_brew_applied(old(state)@, i, final(state)@),
            Move::Learn { action_id } => exists|i: int|
                #[trigger] first_offer_match(old(state)@.learnable_spells, action_id, i)
                    && game_learn_applied(old(state)@, i, final(state)@),
            Move::Cast { action_id, times } => exists|i: int|
                #[trigger] first_spell_match(old(state)@.spells, action_id, i)
                    && game_cast_applied(old(state)@, i, times, final(state)@),
        },
{
    match *m {
        Move::Wait => {
            let mut spells: Vec<Spell> = Vec::new();
            let mut i: usize = 0;
            while i < state.spells.len()
                invariant
                    i <= state.spells@.len(),
                    spells@.len() == i,
                    forall|k: int| #![trigger spells@[k]]
                        0 <= k < i ==> spells@[k] == waited_spells(state.spells@)[k],
                decreases state.spells@.len() - i,
            {
                let sp = state.spells[i];
                spells.push(Spell { descriptor: sp.descriptor, exhausted: false });
                i += 1;
            }
            proof {
                assert(spells@ =~= waited_spells(state.spells@));
            }
            state.spells = spells;
            proof {
                assert(state@ =~= GameView { spells: waited_spells(old(state)@.spells), ..old(state)@ });
                assert(game_wait_applied(old(state)@, state@));
            }
        },
        Move::Brew { action_id } => {
            let index = find_order(&state.orders, action_id);
            let order = state.orders[index];
            let mut inventory = state.inventory;
            cast(&mut inventory, order.brewing_price);
            state.inventory = inventory;
            state.score = state.score + order.reward;
            state.potions_brewed = state.potions_brewed + 1;
            state.orders.remove(index);
            let next = state.next_orders.pop_front();
            match next {
                Some(o) => state.orders.push_back(o),
                None => proof {
                    assert(false);
                },
            }
        },
        Move::Learn { action_id } => {
            let index = find_offer(&state.learnable_spells, action_id);
            let offer = state.learnable_spells[index];
            proof {
                let g0 = old(state)@;
                let w = choose|i: int|
                    #[trigger] first_offer_match(g0.learnable_spells, action_id, i)
                        && legal_learn_at(visible_state(g0), i) && learn_in_range(
                        visible_state(g0),
                        i,
                    );
                if w < (index as int) {
                    assert(g0.learnable_spells[w].descriptor.action_id != action_id);
                }
                if (index as int) < w {
                    assert(g0.learnable_spells[index as int].descriptor.action_id != action_id);
                }
                assert(w == index as int);
                assert(legal_learn_at(visible_state(g0), index as int));
                assert(learn_in_range(visible_state(g0), index as int));
                assert(index < 127) by {
                    assert(learn_affordable(g0.inventory, index as int));
                }
            }
            let net: i64 = state.inventory[0] as i64 + offer.reward as i64 - index as i64;
            state.inventory = [
                net as i8,
                state.inventory[1],
                state.inventory[2],
                state.inventory[3],
            ];
            state.spells.push(Spell { descriptor: offer.descriptor, exhausted: false });
            let ghost pre_offers = old(state)@.learnable_spells;
            let ghost swapped = pre_offers.update(index as int, pre_offers.last()).drop_last();
            state.learnable_spells.swap_remove(index);
            let mut k: usize = 0;
            while k < index
                invariant
                    k <= index,
                    index <= state.learnable_spells@.len(),
                    state.learnable_spells@.len() == pre_offers.len() - 1,
                    pre_offers == old(state)@.learnable_spells,
                    swapped == pre_offers.update(index as int, pre_offers.last()).drop_last(),
                    forall|j: int| #![trigger state.learnable_spells@[j]]
                        0 <= j < k ==> state.learnable_spells@[j].descriptor
                            == pre_offers[j].descriptor && state.learnable_spells@[j].reward
                            == pre_offers[j].reward + 1,
                    forall|j: int| #![trigger state.learnable_spells@[j]]
                        k <= j < state.learnable_spells@.len() ==> state.learnable_spells@[j]
                            == swapped[j],
                    forall|j: int| #![trigger pre_offers[j]]
                        0 <= j < index ==> pre_offers[j].reward + 1 <= u32::MAX,
                    state.inventory@ == seq![
                        (old(state)@.inventory[0] + old(state)@.learnable_spells[index as int].reward
                            - index) as i8,
                        old(state)@.inventory[1],
                        old(state)@.inventory[2],
                        old(state)@.inventory[3],
                    ],
                    state.spells@ == old(state)@.spells.push(
                        Spell {
                            descriptor: old(state)@.learnable_spells[index as int].descriptor,
                            exhausted: false,
                        },
                    ),
                    state.next_learnable_spells@ == old(state)@.next_learnable_spells,
                    state.orders@ == old(state)@.orders,
                    state.next_orders@ == old(state)@.next_orders,
                    state.score == old(state).score,
                    state.potions_brewed == old(state).potions_brewed,
                    state.next_id == old(state).next_id,
                    state.moves == old(state).moves,
                decreases index - k,
            {
                let cur = state.learnable_spells[k];
                proof {
                    assert(swapped[k as int] == pre_offers[k as int]);
                }
                state.learnable_spells.set(
                    k,
                    LearnableSpell { descriptor: cur.descriptor, reward: cur.reward + 1 },
                );
                k += 1;
            }
            let ghost mid = state.learnable_spells@;
            proof {
                assert(offers_learned(pre_offers, index as int, mid));
            }
            let next = state.next_learnable_spells.pop_front();
            match next {
                Some(d) => {
                    state.learnable_spells.push(LearnableSpell { descriptor: d, reward: 0 });
                    proof {
                        assert(state.learnable_spells@.drop_last() =~= mid);
                        assert(state.next_learnable_spells@
                            =~= old(state)@.next_learnable_spells.drop_first());
                    }
                },
                None => {},
            }
            proof {
                assert(first_offer_match(old(state)@.learnable_spells, action_id, index as int)
                    && game_learn_applied(old(state)@, index as int, state@));
            }
        },
        Move::Cast { action_id, times } => {
            let index = find_spell(&state.spells, action_id);
            let spell = state.spells[index];
            let ghost start = as_ints(old(state)@.inventory);
            let ghost delta = spell.descriptor.casting_price@;
            let mut inventory = state.inventory;
            let mut k: u32 = 0;
            while k < times
                invariant
                    k <= times,
                    index < old(state)@.spells.len(),
                    spell == old(state)@.spells[index as int],
                    delta == spell.descriptor.casting_price@,
                    start == as_ints(old(state)@.inventory),
                    steps_fit(start, delta, times as nat),
                    as_ints(inventory@) == applied_times(start, delta, k as nat),
                decreases times - k,
            {
                proof {
                    let next = applied_times(start, delta, (k + 1) as nat);
                    assert(crate::state::in_i8_range(next));
                    assert forall|j: int| 0 <= j < 4 implies i8::MIN <= #[trigger] inventory@[j]
                        + delta[j] <= i8::MAX by {
                        assert(next[j] == inventory@[j] + delta[j]);
                        assert(next.len() == 4);
                    }
                }
                cast(&mut inventory, spell.descriptor.casting_price);
                proof {
                    assert(as_ints(inventory@) =~= applied_times(start, delta, (k + 1) as nat));
                }
                k += 1;
            }
            state.inventory = inventory;
            state.spells.set(index, Spell { descriptor: spell.descriptor, exhausted: true });
        },
    }
}

// ---------------------------------------------------------------------------
// Drawing the starting state from the catalogs
// ---------------------------------------------------------------------------

/// Builds the starting game state: six learnable offers and five open orders
/// are drawn from the shuffled catalogs, the rest is queued for refilling,
/// the given spells are owned from the start, and the inventory holds three
/// units of the first resource.
pub fn make_initial_state(
    all_potions: &[Order],
    all_spells: &[SpellDescriptor],
    initial_spells: &[SpellDescriptor],
) -> (r: GameState)
    requires
        all_spells@.len() >= 6,
        all_potions@.len() >= 5,
    ensures
        r@.inventory == seq![3i8, 0i8, 0i8, 0i8],
        r@.score == 0,
        r@.potions_brewed == 0,
        r@.moves == 0,
        r@.next_id == 0,
        r@.spells.len() == initial_spells@.len(),
        forall|i: int| #![trigger r@.spells[i]]
            0 <= i < initial_spells@.len() ==> r@.spells[i].descriptor == initial_spells@[i]
                && !r@.spells[i].exhausted,
        r@.learnable_spells.len() == 6,
        forall|i: int| #![trigger r@.learnable_spells[i]]
            0 <= i < 6 ==> r@.learnable_spells[i].reward == 0,
        r@.learnable_spells.map_values(|l: LearnableSpell| l.descriptor).to_multiset().add(
            r@.next_learnable_spells.to_multiset(),
        ) == all_spells@.to_multiset(),
        r@.orders.len() == 5,
        r@.orders.to_multiset().add(r@.next_orders.to_multiset()) == all_potions@.to_multiset(),
{
    let mut rng = seeded_rng(42);

    let mut shuffled_spells = copy_slice(all_spells);
    shuffle_in_place(&mut shuffled_spells, &mut rng);
    let mut learnable_spells: Vec<LearnableSpell> = Vec::new();
    let mut i: usize = 0;
    while i < 6
        invariant
            i <= 6,
            shuffled_spells@.len() >= 6,
            learnable_spells@.len() == i,
            forall|k: int| #![trigger learnable_spells@[k]]
                0 <= k < i ==> learnable_spells@[k] == (LearnableSpell {
                    descriptor: shuffled_spells@[k],
                    reward: 0,
                }),
        decreases 6 - i,
    {
        learnable_spells.push(LearnableSpell { descriptor: shuffled_spells[i], reward: 0 });
        i += 1;
    }
    let mut next_learnable_spells: VecDeque<SpellDescriptor> = VecDeque::new();
    let mut i: usize = 6;
    while i < shuffled_spells.len()
        invariant
            6 <= i <= shuffled_spells@.len(),
            next_learnable_spells@ == shuffled_spells@.subrange(6, i as int),
        decreases shuffled_spells@.len() - i,
    {
        next_learnable_spells.push_back(shuffled_spells[i]);
        proof {
            assert(shuffled_spells@.subrange(6, i as int).push(shuffled_spells@[i as int])
                =~= shuffled_spells@.subrange(6, i + 1 as int));
        }
        i += 1;
    }

    let mut shuffled_orders = copy_slice(all_potions);
    shuffle_in_place(&mut shuffled_orders, &mut rng);
    let mut orders: VecDeque<Order> = VecDeque::new();
    let mut i: usize = 0;
    while i < 5
        invariant
            i <= 5,
            shuffled_orders@.len() >= 5,
            orders@ == shuffled_orders@.subrange(0, i as int),
        decreases 5 - i,
    {
        orders.push_back(shuffled_orders[i]);
        proof {
            assert(shuffled_orders@.subrange(0, i as int).push(shuffled_orders@[i as int])
                =~= shuffled_orders@.subrange(0, i + 1 as int));
        }
        i += 1;
    }
    let mut next_orders: VecDeque<Order> = VecDeque::new();
    let mut i: usize = 5;
    while i < shuffled_orders.len()
        invariant
            5 <= i <= shuffled_orders@.len(),
            next_orders@ == shuffled_orders@.subrange(5, i as int),
        decreases shuffled_orders@.len() - i,
    {
        next_orders.push_back(shuffled_orders[i]);
        proof {
            assert(shuffled_orders@.subrange(5, i as int).push(shuffled_orders@[i as int])
                =~= shuffled_orders@.subrange(5, i + 1 as int));
        }
        i += 1;
    }

    let mut spells: Vec<Spell> = Vec::new();
    let mut i: usize = 0;
    while i < initial_spells.len()
        invariant
            i <= initial_spells@.len(),
            spells@.len() == i,
            forall|k: int| #![trigger spells@[k]]
                0 <= k < i ==> spells@[k] == (Spell {
                    descriptor: initial_spells@[k],
                    exhausted: false,
                }),
        decreases initial_spells@.len() - i,
    {
        spells.push(Spell { descriptor: initial_spells[i], exhausted: false });
        i += 1;
    }

    proof {
        let n = shuffled_spells@.len() as int;
        assert(learnable_spells@.map_values(|l: LearnableSpell| l.descriptor)
            =~= shuffled_spells@.subrange(0, 6));
        assert(shuffled_spells@.subrange(0, 6) + shuffled_spells@.subrange(6, n)
            =~= shuffled_spells@);
        lemma_multiset_commutative(
            shuffled_spells@.subrange(0, 6),
            shuffled_spells@.subrange(6, n),
        );
        let p = shuffled_orders@.len() as int;
        assert(shuffled_orders@.subrange(0, 5) + shuffled_orders@.subrange(5, p)
            =~= shuffled_orders@);
        lemma_multiset_commutative(
            shuffled_orders@.subrange(0, 5),
            shuffled_orders@.subrange(5, p),
        );
        assert([3i8, 0i8, 0i8, 0i8]@ =~= seq![3i8, 0i8, 0i8, 0i8]);
    }
    GameState {
        inventory: [3, 0, 0, 0],
        next_id: 0,
        learnable_spells,
        next_learnable_spells,
        orders,
        next_orders,
        potions_brewed: 0,
        score: 0,
        moves: 0,
        spells,
    }
}

} // verus!
