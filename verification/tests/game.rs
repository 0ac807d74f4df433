use witch_brew::apply_move;
use witch_brew::make_initial_state;
use witch_brew::state::LearnableSpell;
use witch_brew::state::Move;
use witch_brew::state::Order;
use witch_brew::state::Spell;
use witch_brew::state::SpellDescriptor;
use witch_brew::GameState;

fn descriptor(price: [i8; 4], action_id: u32, repeatable: bool) -> SpellDescriptor {
    SpellDescriptor { casting_price: price, action_id, repeatable }
}

fn small_game() -> GameState {
    let orders: Vec<Order> = vec![
        Order { brewing_price: [-2, -1, 0, 0], reward: 6, action_id: 20 },
        Order { brewing_price: [0, 0, -1, 0], reward: 9, action_id: 21 },
    ];
    let next_orders: Vec<Order> = vec![Order {
        brewing_price: [0, 0, 0, -1],
        reward: 12,
        action_id: 22,
    }];
    GameState {
        inventory: [3, 2, 1, 1],
        score: 0,
        spells: vec![
            Spell { descriptor: descriptor([2, 0, 0, 0], 1, false), exhausted: false },
            Spell { descriptor: descriptor([-1, 1, 0, 0], 2, true), exhausted: true },
        ],
        learnable_spells: vec![
            LearnableSpell { descriptor: descriptor([3, 0, 0, 0], 40, false), reward: 0 },
            LearnableSpell { descriptor: descriptor([-2, 2, 0, 0], 41, true), reward: 3 },
        ],
        next_learnable_spells: vec![descriptor([0, 2, 0, 0], 42, false)].into_iter().collect(),
        orders: orders.into_iter().collect(),
        next_orders: next_orders.into_iter().collect(),
        potions_brewed: 0,
        next_id: 0,
        moves: 0,
    }
}

#[test]
fn apply_wait_refreshes_all_spells() {
    let mut game = small_game();
    apply_move(&mut game, &Move::Wait);
    assert!(game.spells.iter().all(|sp| !sp.exhausted));
    assert_eq!(game.inventory, [3, 2, 1, 1]);
    assert_eq!(game.score, 0);
}

#[test]
fn apply_brew_scores_and_refills_the_window() {
    let mut game = small_game();
    apply_move(&mut game, &Move::Brew { action_id: 20 });
    assert_eq!(game.inventory, [1, 1, 1, 1]);
    assert_eq!(game.score, 6);
    assert_eq!(game.potions_brewed, 1);
    // the brewed order left the window; the queued order joined at the back
    assert_eq!(game.orders.len(), 2);
    assert_eq!(game.orders[0].action_id, 21);
    assert_eq!(game.orders[1].action_id, 22);
    assert!(game.next_orders.is_empty());
}

#[test]
fn apply_cast_spends_and_exhausts() {
    let mut game = small_game();
    apply_move(&mut game, &Move::Cast { action_id: 1, times: 1 });
    assert_eq!(game.inventory, [5, 2, 1, 1]);
    assert!(game.spells[0].exhausted);
    assert_eq!(game.score, 0);
}

#[test]
fn apply_repeatable_cast_applies_the_delta_each_time() {
    let mut game = small_game();
    apply_move(&mut game, &Move::Wait);
    apply_move(&mut game, &Move::Cast { action_id: 2, times: 2 });
    assert_eq!(game.inventory, [1, 4, 1, 1]);
    assert!(game.spells[1].exhausted);
}

#[test]
fn apply_learn_moves_offer_refills_and_accrues() {
    let mut game = small_game();
    apply_move(&mut game, &Move::Learn { action_id: 41 });
    // net first-axis adjustment: 3 + reward(3) - position(1)
    assert_eq!(game.inventory, [5, 2, 1, 1]);
    // the learned spell joined the owned set, fresh
    assert_eq!(game.spells.len(), 3);
    assert_eq!(game.spells[2].descriptor.action_id, 41);
    assert!(!game.spells[2].exhausted);
    // the earlier offer gained one reward; the queued offer joined the window
    assert_eq!(game.learnable_spells.len(), 2);
    assert_eq!(game.learnable_spells[0].descriptor.action_id, 40);
    assert_eq!(game.learnable_spells[0].reward, 1);
    assert_eq!(game.learnable_spells[1].descriptor.action_id, 42);
    assert_eq!(game.learnable_spells[1].reward, 0);
    assert!(game.next_learnable_spells.is_empty());
}

fn catalog_spells() -> Vec<SpellDescriptor> {
    let deltas: [[i8; 4]; 8] = [
        [-3, 0, 0, 1],
        [3, -1, 0, 0],
        [1, 1, 0, 0],
        [0, 0, 1, 0],
        [3, 0, 0, 0],
        [2, 3, -2, 0],
        [2, 1, -2, 1],
        [3, 0, 1, -1],
    ];
    let mut out = Vec::new();
    let mut id = 100;
    for d in deltas.iter() {
        out.push(SpellDescriptor {
            casting_price: *d,
            action_id: id,
            repeatable: d.iter().any(|x| *x < 0),
        });
        id += 1;
    }
    out
}

fn catalog_orders() -> Vec<Order> {
    let rows: [[i8; 5]; 7] = [
        [-2, -2, 0, 0, 6],
        [-3, -2, 0, 0, 7],
        [0, -4, 0, 0, 8],
        [-2, 0, -2, 0, 8],
        [-2, -3, 0, 0, 8],
        [-3, 0, -2, 0, 9],
        [0, -2, -2, 0, 10],
    ];
    let mut out = Vec::new();
    let mut id = 200;
    for r in rows.iter() {
        out.push(Order {
            brewing_price: [r[0], r[1], r[2], r[3]],
            reward: r[4] as u32,
            action_id: id,
        });
        id += 1;
    }
    out
}

#[test]
fn initial_state_draws_the_windows_from_the_catalogs() {
    let potions = catalog_orders();
    let spells = catalog_spells();
    let initial = vec![
        descriptor([2, 0, 0, 0], 300, false),
        descriptor([-1, 1, 0, 0], 301, true),
    ];
    let game = make_initial_state(&potions, &spells, &initial);
    assert_eq!(game.inventory, [3, 0, 0, 0]);
    assert_eq!(game.score, 0);
    assert_eq!(game.potions_brewed, 0);
    assert_eq!(game.moves, 0);
    assert_eq!(game.spells.len(), 2);
    assert_eq!(game.spells[0].descriptor.action_id, 300);
    assert_eq!(game.spells[1].descriptor.action_id, 301);
    assert!(game.spells.iter().all(|sp| !sp.exhausted));
    // six offers drawn, the remaining two queued; together the whole catalog
    assert_eq!(game.learnable_spells.len(), 6);
    assert!(game.learnable_spells.iter().all(|l| l.reward == 0));
    assert_eq!(game.next_learnable_spells.len(), 2);
    let mut spell_ids: Vec<u32> = game
        .learnable_spells
        .iter()
        .map(|l| l.descriptor.action_id)
        .chain(game.next_learnable_spells.iter().map(|d| d.action_id))
        .collect();
    spell_ids.sort();
    let mut expected: Vec<u32> = spells.iter().map(|d| d.action_id).collect();
    expected.sort();
    assert_eq!(spell_ids, expected);
    // five orders open, the remaining two queued; together the whole catalog
    assert_eq!(game.orders.len(), 5);
    assert_eq!(game.next_orders.len(), 2);
    let mut order_ids: Vec<u32> = game
        .orders
        .iter()
        .map(|o| o.action_id)
        .chain(game.next_orders.iter().map(|o| o.action_id))
        .collect();
    order_ids.sort();
    let mut expected_orders: Vec<u32> = potions.iter().map(|o| o.action_id).collect();
    expected_orders.sort();
    assert_eq!(order_ids, expected_orders);
}
