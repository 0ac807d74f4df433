//! The best-first search over hypothetical futures. Explored states form a
//! tree held in an arena: each node names its parent by index, so the chain
//! of moves behind any node can be walked back to the root. A priority
//! frontier of not-yet-expanded nodes is popped best-score-first until a
//! fixed expansion budget runs out, and the first move on the path to the
//! best node found is the engine's answer.

use crate::game::visible_state;
use crate::game::GameState;
use crate::state::brew_in_range;
use crate::state::cast_in_range;
use crate::state::copy_vec;
use crate::state::learn_in_range;
use crate::state::legal_brew_at;
use crate::state::legal_cast_at;
use crate::state::legal_learn_at;
use crate::state::legal_move;
use crate::state::lemma_move_applied_is_legal;
use crate::state::move_applied;
use crate::state::Move;
use crate::state::PlayerState;
use std::collections::VecDeque;
use vstd::prelude::*;

verus! {

/// The expansion budget of one search invocation: how many frontier nodes
/// may be popped and expanded before the search stops.
pub const SEARCH_BUDGET: u32 = 1000;

/// The move that produced a node, or the marker of the root.
#[derive(Clone, Copy)]
pub(crate) enum SearchMove {
    GameMove(Move),
    Initial,
}

/// One point of the explored decision tree: the state a move led to, the
/// move itself, and the arena index of the parent node. The root carries the
/// `Initial` marker and points at itself.
pub(crate) struct SearchNode {
    pub(crate) last_move: SearchMove,
    pub(crate) state_after_move: PlayerState,
    pub(crate) previous: usize,
}

/// The move of a node; the root marker counts as a Wait.
pub(crate) open spec fn node_move(n: SearchNode) -> Move {
    match n.last_move {
        SearchMove::GameMove(m) => m,
        SearchMove::Initial => Move::Wait,
    }
}

/// A well-formed arena: a tree rooted at position 0, every other node naming
/// a parent earlier in the arena and holding the move that led from the
/// parent's state to its own.
pub(crate) open spec fn arena_wf(nodes: Seq<SearchNode>) -> bool {
    &&& nodes.len() >= 1
    &&& nodes[0].last_move is Initial
    &&& nodes[0].previous == 0
    &&& forall|i: int| #![trigger nodes[i]] 1 <= i < nodes.len() ==> {
        &&& (nodes[i].previous as int) < i
        &&& nodes[i].last_move is GameMove
        &&& !(node_move(nodes[i]) is Wait)
        &&& move_applied(
            nodes[nodes[i].previous as int].state_after_move@,
            node_move(nodes[i]),
            nodes[i].state_after_move@,
        )
    }
}

/// Every node in `children` is a child of `parent`, which sits at `ix`.
pub(crate) open spec fn children_ok(children: Seq<SearchNode>, parent: SearchNode, ix: usize) -> bool {
    forall|k: int| #![trigger children[k]] 0 <= k < children.len() ==> {
        &&& children[k].previous == ix
        &&& children[k].last_move is GameMove
        &&& !(node_move(children[k]) is Wait)
        &&& move_applied(
            parent.state_after_move@,
            node_move(children[k]),
            children[k].state_after_move@,
        )
    }
}

/// The move generator can produce at least one child of `s`: some order is
/// brewable, some offer learnable, or some spell castable at a multiplier of
/// one, two or three, each within machine range.
pub open spec fn expandable(s: crate::state::StateView) -> bool {
    ||| exists|i: int| #[trigger] legal_brew_at(s, i) && brew_in_range(s, i)
    ||| exists|i: int| #[trigger] legal_learn_at(s, i) && learn_in_range(s, i)
    ||| exists|i: int, t: u32|
        1 <= t <= 3 && #[trigger] legal_cast_at(s, i, t) && cast_in_range(s, i, t)
}

/// The node reached by brewing the order at `index` in `previous`'s state,
/// or `None` where that move is illegal or out of machine range there.
fn make_brew(previous: &SearchNode, previous_ix: usize, index: usize) -> (r: Option<SearchNode>)
    requires
        index < previous.state_after_move@.orders.len(),
    ensures
        r is Some <==> legal_brew_at(previous.state_after_move@, index as int) && brew_in_range(
            previous.state_after_move@,
            index as int,
        ),
        r matches Some(n) ==> {
            &&& n.previous == previous_ix
            &&& n.last_move is GameMove
            &&& !(node_move(n) is Wait)
            &&& move_applied(previous.state_after_move@, node_move(n), n.state_after_move@)
        },
{
    let order = previous.state_after_move.orders[index];
    match previous.state_after_move.brew(index) {
        Some(st) => {
            let n = SearchNode {
                last_move: SearchMove::GameMove(Move::Brew { action_id: order.action_id }),
                state_after_move: st,
                previous: previous_ix,
            };
            proof {
                assert(crate::state::brew_applied(
                    previous.state_after_move@,
                    index as int,
                    n.state_after_move@,
                ));
            }
            Some(n)
        },
        None => None,
    }
}

/// The node reached by learning the offer at `index` in `previous`'s state,
/// or `None` where that move is illegal or out of machine range there.
fn make_learn(previous: &SearchNode, previous_ix: usize, index: usize) -> (r: Option<SearchNode>)
    requires
        index < previous.state_after_move@.learnable_spells.len(),
    ensures
        r is Some <==> legal_learn_at(previous.state_after_move@, index as int) && learn_in_range(
            previous.state_after_move@,
            index as int,
        ),
        r matches Some(n) ==> {
            &&& n.previous == previous_ix
            &&& n.last_move is GameMove
            &&& !(node_move(n) is Wait)
            &&& move_applied(previous.state_after_move@, node_move(n), n.state_after_move@)
        },
{
    let offer = previous.state_after_move.learnable_spells[index];
    match previous.state_after_move.learn(index) {
        Some(st) => {
            let n = SearchNode {
                last_move: SearchMove::GameMove(
                    Move::Learn { action_id: offer.descriptor.action_id },
                ),
                state_after_move: st,
                previous: previous_ix,
            };
            proof {
                assert(crate::state::learn_applied(
                    previous.state_after_move@,
                    index as int,
                    n.state_after_move@,
                ));
            }
            Some(n)
        },
        None => None,
    }
}

/// The node reached by casting the spell at `index`, `times` times, in
/// `previous`'s state, or `None` where that move is illegal or out of
/// machine range there.
fn make_cast(previous: &SearchNode, previous_ix: usize, index: usize, times: u32) -> (r: Option<
    SearchNode,
>)
    requires
        index < previous.state_after_move@.spells.len(),
    ensures
        r is Some <==> legal_cast_at(previous.state_after_move@, index as int, times)
            && cast_in_range(previous.state_after_move@, index as int, times),
        r matches Some(n) ==> {
            &&& n.previous == previous_ix
            &&& n.last_move is GameMove
            &&& !(node_move(n) is Wait)
            &&& move_applied(previous.state_after_move@, node_move(n), n.state_after_move@)
        },
{
    let spell = previous.state_after_move.spells[index];
    match previous.state_after_move.cast_spell(index, times) {
        Some(st) => {
            let n = SearchNode {
                last_move: SearchMove::GameMove(
                    Move::Cast { action_id: spell.descriptor.action_id, times },
                ),
                state_after_move: st,
                previous: previous_ix,
            };
            proof {
                assert(crate::state::cast_applied(
                    previous.state_after_move@,
                    index as int,
                    times,
                    n.state_after_move@,
                ));
            }
            Some(n)
        },
        None => None,
    }
}

/// Expands the node at `ix`: generates every legal Brew, Learn and Cast
/// child (the latter at multipliers one, two and three) and admits each to
/// the arena and the frontier.
fn expand(nodes: &mut Vec<SearchNode>, frontier: &mut Vec<usize>, ix: usize)
    requires
        arena_wf(old(nodes)@),
        (ix as int) < old(nodes)@.len(),
        forall|k: int| #![trigger old(frontier)@[k]]
            0 <= k < old(frontier)@.len() ==> (old(frontier)@[k] as int) < old(nodes)@.len(),
    ensures
        arena_wf(final(nodes)@),
        final(nodes)@.len() >= old(nodes)@.len(),
        final(nodes)@[0] == old(nodes)@[0],
        forall|k: int| #![trigger final(frontier)@[k]]
            0 <= k < final(frontier)@.len() ==> (final(frontier)@[k] as int) < final(nodes)@.len(),
        final(frontier)@.len() >= old(frontier)@.len(),
        expandable(old(nodes)@[ix as int].state_after_move@) ==> final(frontier)@.len() > old(
            frontier,
        )@.len(),
        forall|k: int| #![trigger final(frontier)@[k]]
            0 <= k < final(frontier)@.len() ==> ((final(frontier)@[k] as int) >= 1 || exists|p: int|
                0 <= p < old(frontier)@.len() && old(frontier)@[p] == final(frontier)@[k]),
{
    let mut children: Vec<SearchNode> = Vec::new();
    let ghost parent = nodes@[ix as int];
    let mut i: usize = 0;
    while i < nodes[ix].state_after_move.orders.len()
        invariant
            nodes@ == old(nodes)@,
            (ix as int) < nodes@.len(),
            parent == nodes@[ix as int],
            i <= parent.state_after_move@.orders.len(),
            children_ok(children@, parent, ix),
            (exists|j: int|
                0 <= j < i && #[trigger] legal_brew_at(parent.state_after_move@, j)
                    && brew_in_range(parent.state_after_move@, j)) ==> children@.len() > 0,
        decreases parent.state_after_move@.orders.len() - i,
    {
        let child = make_brew(&nodes[ix], ix, i);
        if let Some(c) = child {
            children.push(c);
        }
        i += 1;
    }
    let mut i: usize = 0;
    while i < nodes[ix].state_after_move.learnable_spells.len()
        invariant
            nodes@ == old(nodes)@,
            (ix as int) < nodes@.len(),
            parent == nodes@[ix as int],
            i <= parent.state_after_move@.learnable_spells.len(),
            children_ok(children@, parent, ix),
            (exists|j: int|
                #[trigger] legal_brew_at(parent.state_after_move@, j) && brew_in_range(
                    parent.state_after_move@,
                    j,
                )) ==> children@.len() > 0,
            (exists|j: int|
                0 <= j < i && #[trigger] legal_learn_at(parent.state_after_move@, j)
                    && learn_in_range(parent.state_after_move@, j)) ==> children@.len() > 0,
        decreases parent.state_after_move@.learnable_spells.len() - i,
    {
        let child = make_learn(&nodes[ix], ix, i);
        if let Some(c) = child {
            children.push(c);
        }
        i += 1;
    }
    let mut i: usize = 0;
    while i < nodes[ix].state_after_move.spells.len()
        invariant
            nodes@ == old(nodes)@,
            (ix as int) < nodes@.len(),
            parent == nodes@[ix as int],
            i <= parent.state_after_move@.spells.len(),
            children_ok(children@, parent, ix),
            (exists|j: int|
                #[trigger] legal_brew_at(parent.state_after_move@, j) && brew_in_range(
                    parent.state_after_move@,
                    j,
                )) ==> children@.len() > 0,
            (exists|j: int|
                #[trigger] legal_learn_at(parent.state_after_move@, j) && learn_in_range(
                    parent.state_after_move@,
                    j,
                )) ==> children@.len() > 0,
            (exists|j: int, t: u32|
                (0 <= j < i && 1 <= t <= 3) && #[trigger] legal_cast_at(
                    parent.state_after_move@,
                    j,
                    t,
                ) && cast_in_range(parent.state_after_move@, j, t)) ==> children@.len() > 0,
        decreases parent.state_after_move@.spells.len() - i,
    {
        let mut times: u32 = 1;
        while times <= 3
            invariant
                nodes@ == old(nodes)@,
                (ix as int) < nodes@.len(),
                parent == nodes@[ix as int],
                i < parent.state_after_move@.spells.len(),
                1 <= times <= 4,
                children_ok(children@, parent, ix),
                (exists|j: int|
                    #[trigger] legal_brew_at(parent.state_after_move@, j) && brew_in_range(
                        parent.state_after_move@,
                        j,
                    )) ==> children@.len() > 0,
                (exists|j: int|
                    #[trigger] legal_learn_at(parent.state_after_move@, j) && learn_in_range(
                        parent.state_after_move@,
                        j,
                    )) ==> children@.len() > 0,
                (exists|j: int, t: u32|
                    (0 <= j < i && 1 <= t <= 3) && #[trigger] legal_cast_at(
                        parent.state_after_move@,
                        j,
                        t,
                    ) && cast_in_range(parent.state_after_move@, j, t)) ==> children@.len() > 0,
                (exists|t: u32|
                    1 <= t < times && #[trigger] legal_cast_at(parent.state_after_move@, i as int, t)
                        && cast_in_range(parent.state_after_move@, i as int, t)) ==> children@.len()
                    > 0,
            decreases 4 - times,
        {
            let child = make_cast(&nodes[ix], ix, i, times);
            if let Some(c) = child {
                children.push(c);
            }
            times += 1;
        }
        i += 1;
    }
    let ghost n_children = children@.len();
    proof {
        if expandable(parent.state_after_move@) {
            assert(children@.len() > 0);
        }
    }
    while children.len() > 0
        invariant
            arena_wf(nodes@),
            nodes@.len() >= old(nodes)@.len(),
            nodes@[0] == old(nodes)@[0],
            (ix as int) < nodes@.len(),
            parent == nodes@[ix as int],
            children_ok(children@, parent, ix),
            frontier@.len() + children@.len() == old(frontier)@.len() + n_children,
            forall|k: int| #![trigger frontier@[k]]
                0 <= k < frontier@.len() ==> (frontier@[k] as int) < nodes@.len(),
            forall|k: int| #![trigger frontier@[k]]
                0 <= k < frontier@.len() ==> ((frontier@[k] as int) >= 1 || exists|p: int|
                    0 <= p < old(frontier)@.len() && old(frontier)@[p] == frontier@[k]),
        decreases children@.len(),
    {
        let c = children.pop().unwrap();
        frontier.push(nodes.len());
        nodes.push(c);
    }
}

/// Pops the frontier entry whose node has the highest score; among equal
/// scores the earliest frontier entry wins.
fn pop_best(nodes: &Vec<SearchNode>, frontier: &mut Vec<usize>) -> (ix: usize)
    requires
        old(frontier)@.len() > 0,
        forall|k: int| #![trigger old(frontier)@[k]]
            0 <= k < old(frontier)@.len() ==> (old(frontier)@[k] as int) < nodes@.len(),
    ensures
        (ix as int) < nodes@.len(),
        exists|p: int| 0 <= p < old(frontier)@.len() && old(frontier)@[p] == ix,
        final(frontier)@.len() == old(frontier)@.len() - 1,
        forall|k: int| #![trigger final(frontier)@[k]]
            0 <= k < final(frontier)@.len() ==> (final(frontier)@[k] as int) < nodes@.len(),
        forall|k: int| #![trigger old(frontier)@[k]]
            0 <= k < old(frontier)@.len() ==> nodes@[old(frontier)@[k] as int].state_after_move.score
                <= nodes@[ix as int].state_after_move.score,
        forall|k: int| #![trigger final(frontier)@[k]]
            0 <= k < final(frontier)@.len() ==> exists|p: int|
                0 <= p < old(frontier)@.len() && old(frontier)@[p] == final(frontier)@[k],
{
    let mut best_pos: usize = 0;
    let mut p: usize = 1;
    while p < frontier.len()
        invariant
            frontier@ == old(frontier)@,
            frontier@.len() > 0,
            forall|k: int| #![trigger frontier@[k]]
                0 <= k < frontier@.len() ==> (frontier@[k] as int) < nodes@.len(),
            best_pos < p <= frontier@.len() || (best_pos == 0 && p <= frontier@.len()),
            best_pos < frontier@.len(),
            forall|k: int| #![trigger frontier@[k]]
                0 <= k < p ==> nodes@[frontier@[k] as int].state_after_move.score
                    <= nodes@[frontier@[best_pos as int] as int].state_after_move.score,
        decreases frontier@.len() - p,
    {
        if nodes[frontier[p]].state_after_move.score
            > nodes[frontier[best_pos]].state_after_move.score {
            best_pos = p;
        }
        p += 1;
    }
    let ix = frontier[best_pos];
    frontier.swap_remove(best_pos);
    proof {
        assert forall|k: int| 0 <= k < frontier@.len() implies exists|p: int|
            0 <= p < old(frontier)@.len() && old(frontier)@[p] == #[trigger] frontier@[k] by {
            if k == best_pos as int {
                assert(old(frontier)@[old(frontier)@.len() - 1] == frontier@[k]);
            } else {
                assert(old(frontier)@[k] == frontier@[k]);
            }
        }
    }
    ix
}

/// Runs the best-first search from `state`, expanding at most `budget`
/// nodes; the loop's budget bound is what guarantees the search terminates.
/// Returns the arena and the index of the best node found: the top of the
/// frontier, or the last node popped if the frontier ran empty.
pub(crate) fn do_search(state: PlayerState, budget: u32) -> (r: (Vec<SearchNode>, usize))
    ensures
        arena_wf(r.0@),
        r.0@[0].state_after_move@ == state@,
        (r.1 as int) < r.0@.len(),
        budget >= 1 && expandable(state@) ==> (r.1 as int) >= 1,
{
    let ghost root_view = state@;
    let root = SearchNode {
        last_move: SearchMove::Initial,
        state_after_move: state,
        previous: 0,
    };
    let mut nodes: Vec<SearchNode> = Vec::new();
    nodes.push(root);
    let mut frontier: Vec<usize> = Vec::new();
    frontier.push(0);
    let mut last_popped: usize = 0;
    let mut steps: u32 = 0;
    while steps < budget && frontier.len() > 0
        invariant
            arena_wf(nodes@),
            nodes@[0].state_after_move@ == root_view,
            (last_popped as int) < nodes@.len(),
            forall|k: int| #![trigger frontier@[k]]
                0 <= k < frontier@.len() ==> (frontier@[k] as int) < nodes@.len(),
            steps <= budget,
            steps == 0 ==> frontier@.len() == 1 && frontier@[0] == 0usize,
            steps >= 1 ==> forall|k: int| #![trigger frontier@[k]]
                0 <= k < frontier@.len() ==> (frontier@[k] as int) >= 1,
            steps >= 1 && expandable(root_view) ==> ((last_popped as int) >= 1 || frontier@.len()
                > 0),
        decreases budget - steps,
    {
        let ghost frontier_before = frontier@;
        let ix = pop_best(&nodes, &mut frontier);
        last_popped = ix;
        proof {
            if steps == 0 {
                assert(frontier_before[0] == ix);
                assert(nodes@[ix as int].state_after_move@ == root_view);
            }
        }
        expand(&mut nodes, &mut frontier, ix);
        steps += 1;
    }
    let best = if frontier.len() > 0 {
        pop_best(&nodes, &mut frontier)
    } else {
        last_popped
    };
    proof {
        if budget >= 1 && expandable(root_view) {
            assert(steps >= 1);
            assert((best as int) >= 1);
        }
    }
    (nodes, best)
}

/// Walks the parent chain from `best` back to the root and returns the move
/// of the node adjacent to the root: the first move of the winning path. The
/// root itself yields the Wait fallback.
pub(crate) fn first_move(nodes: &Vec<SearchNode>, best: usize) -> (m: Move)
    requires
        arena_wf(nodes@),
        (best as int) < nodes@.len(),
    ensures
        legal_move(nodes@[0].state_after_move@, m),
        (best as int) >= 1 ==> !(m is Wait),
{
    if best == 0 {
        return Move::Wait;
    }
    let mut cur: usize = best;
    while nodes[cur].previous != 0
        invariant
            arena_wf(nodes@),
            1 <= cur < nodes@.len(),
        decreases cur,
    {
        cur = nodes[cur].previous;
    }
    proof {
        lemma_move_applied_is_legal(
            nodes@[0].state_after_move@,
            node_move(nodes@[cur as int]),
            nodes@[cur as int].state_after_move@,
        );
    }
    match nodes[cur].last_move {
        SearchMove::GameMove(mv) => mv,
        SearchMove::Initial => Move::Wait,
    }
}

/// A structural copy of the queued window as a vector.
fn deque_to_vec<T: Copy>(d: &VecDeque<T>) -> (r: Vec<T>)
    ensures
        r@ == d@,
{
    let mut r: Vec<T> = Vec::new();
    let mut i: usize = 0;
    while i < d.len()
        invariant
            i <= d@.len(),
            r@ == d@.subrange(0, i as int),
        decreases d@.len() - i,
    {
        r.push(d[i]);
        proof {
            assert(d@.subrange(0, i as int).push(d@[i as int]) =~= d@.subrange(0, i + 1 as int));
        }
        i += 1;
    }
    proof {
        assert(d@.subrange(0, d@.len() as int) =~= d@);
    }
    r
}

/// Chooses the next move for the live state: a snapshot of the visible
/// window is explored by a bounded best-first search, and the first move of
/// the best path found comes back. The move is always legal in the given
/// state, with Wait as the guaranteed fallback.
pub fn get_move(state: &GameState) -> (m: Move)
    ensures
        legal_move(visible_state(state@), m),
        expandable(visible_state(state@)) ==> !(m is Wait),
{
    let snapshot = PlayerState {
        inventory: state.inventory,
        spells: copy_vec(&state.spells),
        learnable_spells: copy_vec(&state.learnable_spells),
        orders: deque_to_vec(&state.orders),
        potions_brewed: state.potions_brewed,
        score: state.score,
        moves: state.moves,
    };
    let ghost snapshot_view = snapshot@;
    proof {
        assert(snapshot_view =~= visible_state(state@));
    }
    let (nodes, best) = do_search(snapshot, SEARCH_BUDGET);
    first_move(&nodes, best)
}

} // verus!
