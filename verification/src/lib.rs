//! A move-selection engine for a turn-based brewing game: a player holds an
//! inventory of four resource kinds and, once per turn, may wait, cast a
//! transformation spell, learn a new spell, or brew a potion order for score.
//! The engine explores hypothetical futures with a bounded best-first search
//! and returns the first move of the best path it found.

pub mod game;
pub mod inventory;
pub mod rng;
pub mod search;
pub mod state;

pub use game::apply_move;
pub use game::make_initial_state;
pub use game::GameState;
pub use search::get_move;

pub use inventory::can_afford;
pub use inventory::cast;
pub use inventory::Inventory;
pub use state::LearnableSpell;
pub use state::Move;
pub use state::Order;
pub use state::PlayerState;
pub use state::Spell;
pub use state::SpellDescriptor;
