//! Core of a fractal flame renderer: the histogram that the chaos game fills,
//! the variation catalogue and its parameter arities, and the integer decisions
//! of the chaos game (which action to take, when to start plotting, how the
//! iteration budget is shared between workers).
pub mod bucket;
pub mod buffer;
pub mod chaos;
pub mod color;
pub mod error;
pub mod variation;

pub use bucket::Bucket;
pub use buffer::Buffer;
pub use chaos::{Action, RunConfig, BURN_IN};
pub use color::Color;
pub use error::{FunctionEntryError, PaletteError};
pub use variation::{Variation, VariationDiscriminant, VARIATION_COUNT};
