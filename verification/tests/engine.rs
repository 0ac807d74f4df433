use witch_brew::can_afford;
use witch_brew::cast;
use witch_brew::get_move;
use witch_brew::state::LearnableSpell;
use witch_brew::state::Move;
use witch_brew::state::Order;
use witch_brew::state::PlayerState;
use witch_brew::state::Spell;
use witch_brew::state::SpellDescriptor;

fn descriptor(price: [i8; 4], action_id: u32, repeatable: bool) -> SpellDescriptor {
    SpellDescriptor { casting_price: price, action_id, repeatable }
}

fn spell(price: [i8; 4], action_id: u32, repeatable: bool, exhausted: bool) -> Spell {
    Spell { descriptor: descriptor(price, action_id, repeatable), exhausted }
}

fn state(
    inventory: [i8; 4],
    spells: Vec<Spell>,
    learnable_spells: Vec<LearnableSpell>,
    orders: Vec<Order>,
) -> PlayerState {
    PlayerState { inventory, spells, learnable_spells, orders, potions_brewed: 0, score: 0, moves: 0 }
}

#[test]
fn affordability_is_strict() {
    // paying a cost may never drive a holding to zero or below
    assert!(!can_afford([3, 0, 0, 0], [-2, -2, 0, 0]));
    assert!(!can_afford([2, 2, 1, 1], [-2, 0, 0, 0]));
    assert!(can_afford([3, 2, 1, 1], [-2, -1, 0, 0]));
    // an axis holding zero fails even a free axis
    assert!(!can_afford([3, 3, 3, 0], [-1, 0, 0, 0]));
    // a produced resource helps the strict rule on its own axis
    assert!(can_afford([0, 1, 1, 1], [1, 0, 0, 0]));
}

#[test]
fn cast_applies_delta_per_axis() {
    let mut inventory: [i8; 4] = [3, 2, 1, 5];
    cast(&mut inventory, [-2, 0, 1, -1]);
    assert_eq!(inventory, [1, 2, 2, 4]);
}

#[test]
fn wait_refreshes_spells_and_is_idempotent() {
    let s = state(
        [1, 1, 1, 1],
        vec![spell([1, 0, 0, 0], 1, false, true), spell([-1, 1, 0, 0], 2, true, false)],
        Vec::new(),
        Vec::new(),
    );
    let once = s.wait();
    assert!(once.spells.iter().all(|sp| !sp.exhausted));
    let twice = once.wait();
    assert_eq!(once.spells.len(), twice.spells.len());
    for (a, b) in once.spells.iter().zip(twice.spells.iter()) {
        assert_eq!(a.exhausted, b.exhausted);
        assert_eq!(a.descriptor.action_id, b.descriptor.action_id);
    }
    assert_eq!(once.inventory, twice.inventory);
    assert_eq!(once.score, twice.score);
}

#[test]
fn cast_exhausts_the_spell_for_the_cycle() {
    let s = state([2, 1, 1, 1], vec![spell([1, 0, 0, 0], 7, false, false)], Vec::new(), Vec::new());
    let after = s.cast_spell(0, 1).expect("a fresh affordable spell casts");
    assert!(after.spells[0].exhausted);
    assert_eq!(after.inventory, [3, 1, 1, 1]);
    // the same spell cannot be cast again before a Wait, whatever the cost
    assert!(after.cast_spell(0, 1).is_none());
    // a Wait makes it castable again
    let rested = after.wait();
    assert!(rested.cast_spell(0, 1).is_some());
}

#[test]
fn repeatable_gating_on_multipliers() {
    let plain = state(
        [2, 1, 1, 1],
        vec![spell([1, 0, 0, 0], 3, false, false)],
        Vec::new(),
        Vec::new(),
    );
    assert!(plain.cast_spell(0, 1).is_some());
    assert!(plain.cast_spell(0, 2).is_none());
    assert!(plain.cast_spell(0, 3).is_none());
    let repeatable = state(
        [4, 1, 1, 1],
        vec![spell([-1, 1, 0, 0], 4, true, false)],
        Vec::new(),
        Vec::new(),
    );
    assert!(repeatable.cast_spell(0, 2).is_some());
    let after = repeatable.cast_spell(0, 2).unwrap();
    assert_eq!(after.inventory, [2, 3, 1, 1]);
}

#[test]
fn learn_accrues_rewards_of_earlier_offers() {
    let offers = vec![
        LearnableSpell { descriptor: descriptor([1, 0, 0, 0], 10, false), reward: 0 },
        LearnableSpell { descriptor: descriptor([0, 1, 0, 0], 11, false), reward: 5 },
        LearnableSpell { descriptor: descriptor([0, 0, 1, 0], 12, false), reward: 1 },
        LearnableSpell { descriptor: descriptor([0, 0, 0, 1], 13, false), reward: 0 },
    ];
    let s = state([5, 1, 1, 1], Vec::new(), offers, Vec::new());
    let after = s.learn(2).expect("learning position 2 is affordable");
    // net first-axis adjustment: 5 + reward(1) - position(2)
    assert_eq!(after.inventory, [4, 1, 1, 1]);
    // the learned spell joined the owned set, fresh
    assert_eq!(after.spells.len(), 1);
    assert_eq!(after.spells[0].descriptor.action_id, 12);
    assert!(!after.spells[0].exhausted);
    // offers before position 2 gained one reward; the last offer moved up
    assert_eq!(after.learnable_spells.len(), 3);
    assert_eq!(after.learnable_spells[0].descriptor.action_id, 10);
    assert_eq!(after.learnable_spells[0].reward, 1);
    assert_eq!(after.learnable_spells[1].descriptor.action_id, 11);
    assert_eq!(after.learnable_spells[1].reward, 6);
    assert_eq!(after.learnable_spells[2].descriptor.action_id, 13);
    assert_eq!(after.learnable_spells[2].reward, 0);
}

#[test]
fn learn_position_cost_is_gated_by_first_axis() {
    let offers = vec![
        LearnableSpell { descriptor: descriptor([1, 0, 0, 0], 10, false), reward: 0 },
        LearnableSpell { descriptor: descriptor([0, 1, 0, 0], 11, false), reward: 0 },
        LearnableSpell { descriptor: descriptor([0, 0, 1, 0], 12, false), reward: 0 },
    ];
    let s = state([2, 1, 1, 1], Vec::new(), offers, Vec::new());
    assert!(s.learn(0).is_some());
    assert!(s.learn(1).is_some());
    // position 2 needs a first-axis holding above 2
    assert!(s.learn(2).is_none());
}

#[test]
fn brew_pays_scores_and_removes_the_order() {
    let orders = vec![
        Order { brewing_price: [-2, -1, 0, 0], reward: 6, action_id: 20 },
        Order { brewing_price: [0, 0, -1, 0], reward: 9, action_id: 21 },
    ];
    let s = state([3, 2, 1, 1], Vec::new(), Vec::new(), orders);
    let after = s.brew(0).expect("the first order is affordable");
    assert_eq!(after.inventory, [1, 1, 1, 1]);
    assert_eq!(after.score, 6);
    assert_eq!(after.potions_brewed, 1);
    assert_eq!(after.orders.len(), 1);
    assert_eq!(after.orders[0].action_id, 21);
    // the second order costs a third-axis unit the player cannot spare
    assert!(s.brew(1).is_none());
}

#[test]
fn engine_prefers_an_affordable_brew() {
    // one affordable order and nothing else: the search must find the Brew
    let orders = vec![Order { brewing_price: [-2, -1, 0, 0], reward: 6, action_id: 42 }];
    let game = witch_brew::GameState {
        inventory: [3, 2, 1, 1],
        score: 0,
        spells: Vec::new(),
        learnable_spells: Vec::new(),
        next_learnable_spells: std::collections::VecDeque::new(),
        orders: orders.into_iter().collect(),
        next_orders: std::collections::VecDeque::new(),
        potions_brewed: 0,
        next_id: 0,
        moves: 0,
    };
    let m = get_move(&game);
    match m {
        Move::Brew { action_id } => assert_eq!(action_id, 42),
        _ => panic!("the engine did not choose the affordable brew"),
    }
}

#[test]
fn engine_rejects_unaffordable_brew_and_returns_within_budget() {
    // starting inventory [3,0,0,0], one order costing [-2,-2,0,0] for 6, one
    // owned spell with delta [-3,0,0,1]: the strict rule makes both the brew
    // and the cast illegal, so the engine must not pick Brew and falls back
    // to the always-legal Wait -- and it must return at all, within the
    // fixed expansion budget.
    let orders = vec![Order { brewing_price: [-2, -2, 0, 0], reward: 6, action_id: 1 }];
    let game = witch_brew::GameState {
        inventory: [3, 0, 0, 0],
        score: 0,
        spells: vec![spell([-3, 0, 0, 1], 2, true, false)],
        learnable_spells: Vec::new(),
        next_learnable_spells: std::collections::VecDeque::new(),
        orders: orders.into_iter().collect(),
        next_orders: std::collections::VecDeque::new(),
        potions_brewed: 0,
        next_id: 0,
        moves: 0,
    };
    let m = get_move(&game);
    assert!(!matches!(m, Move::Brew { .. }));
    assert!(matches!(m, Move::Wait));
}

#[test]
fn search_terminates_on_a_rich_state() {
    // plenty of branching: the expansion budget alone bounds the search
    let spells = vec![
        spell([2, 0, 0, 0], 1, false, false),
        spell([-1, 1, 0, 0], 2, true, false),
        spell([0, -1, 1, 0], 3, true, false),
        spell([0, 0, -1, 1], 4, true, false),
    ];
    let orders = vec![
        Order { brewing_price: [-2, -2, 0, 0], reward: 6, action_id: 30 },
        Order { brewing_price: [0, -4, 0, 0], reward: 8, action_id: 31 },
    ];
    let game = witch_brew::GameState {
        inventory: [3, 1, 1, 1],
        score: 0,
        spells,
        learnable_spells: vec![
            LearnableSpell { descriptor: descriptor([3, 0, 0, 0], 40, false), reward: 0 },
            LearnableSpell { descriptor: descriptor([-2, 2, 0, 0], 41, true), reward: 0 },
        ],
        next_learnable_spells: std::collections::VecDeque::new(),
        orders: orders.into_iter().collect(),
        next_orders: std::collections::VecDeque::new(),
        potions_brewed: 0,
        next_id: 0,
        moves: 0,
    };
    // a legal move comes back; reaching this line is the termination check
    let _m = get_move(&game);
}

#[test]
fn engine_casts_when_only_a_cast_is_open() {
    // no orders, no offers, one affordable spell: the engine must act, not wait
    let game = witch_brew::GameState {
        inventory: [1, 1, 1, 1],
        score: 0,
        spells: vec![spell([1, 0, 0, 0], 9, false, false)],
        learnable_spells: Vec::new(),
        next_learnable_spells: std::collections::VecDeque::new(),
        orders: std::collections::VecDeque::new(),
        next_orders: std::collections::VecDeque::new(),
        potions_brewed: 0,
        next_id: 0,
        moves: 0,
    };
    let m = get_move(&game);
    match m {
        Move::Cast { action_id, times } => {
            assert_eq!(action_id, 9);
            assert_eq!(times, 1);
        }
        _ => panic!("the engine did not choose the only open cast"),
    }
}

#[test]
fn engine_waits_when_nothing_is_open() {
    let game = witch_brew::GameState {
        inventory: [0, 0, 0, 0],
        score: 0,
        spells: Vec::new(),
        learnable_spells: Vec::new(),
        next_learnable_spells: std::collections::VecDeque::new(),
        orders: std::collections::VecDeque::new(),
        next_orders: std::collections::VecDeque::new(),
        potions_brewed: 0,
        next_id: 0,
        moves: 0,
    };
    assert!(matches!(get_move(&game), Move::Wait));
}
