//! A toroidal Game of Life engine whose cells live in a packed bit set.
//!
//! `Universe` is the engine; `GridModel` is its mathematical model, against
//! which every operation is specified, and the `lemma_*` proof functions state
//! what holds of the rule and of the operations.
mod bits;
mod grid;
mod laws;
mod random;
mod rules;

pub use bits::{bits_of, block_bit};
pub use grid::{GridError, Universe, DENSITY_DENOMINATOR, DENSITY_NUMERATOR};
pub use laws::{
    lemma_birth_rule,
    lemma_blank_is_dead,
    lemma_blinker_period_two,
    lemma_block_is_still_life,
    lemma_determinism,
    lemma_set_alive_cells,
    lemma_set_one_cell,
    lemma_survival_rule,
};
pub use rules::{
    block_shape,
    default_pattern,
    glyph,
    horizontal_bar,
    lemma_wrap_values,
    next_state,
    valid_dims,
    vertical_bar,
    wrap,
    GridModel,
};
