//! figtree: a layered runtime configuration library.
pub mod text;
pub mod numeric;
pub mod strmap;
pub mod error;
pub mod rules;
pub mod duration;
pub mod value;
pub mod clock;
pub mod fig;
pub mod sources;
pub mod naming;
pub mod attributes;
pub mod validators;
pub mod callbacks;
pub mod priority;
pub mod mutation;
pub mod tree;
pub mod laws;
pub mod value_laws;
pub mod render;

pub use error::{FigtreeError, FigtreeResult};
pub use fig::{Fig, FigHistoryEntry, FigSource, FigState};
pub use mutation::Mutation;
pub use rules::Rule;
pub use tree::{Options, Tree};
pub use value::FigValue;
pub use callbacks::CallbackPhase;
