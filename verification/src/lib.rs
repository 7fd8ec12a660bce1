//! What the user has selected in the application that has the focus.
//!
//! A selection can be read in several ways, none of which works everywhere.
//! This library decides which way to try and in which order, and remembers
//! for each application what worked. It reads nothing itself: the caller
//! runs the methods and hands their readings in.
//!
//! - `selection`: `get_selected_text`, a whole call.
//! - `selector`: the steps of a call, one method at a time.
//! - `call`: what a call amounts to, and what holds of every call.
//! - `cache`: the memory of what worked, bounded and least recently used.
//! - `window`, `script`, `accessibility`, `lines`: reading what the window
//!   system, a script or the accessibility tree told.
//! - `recency`, `lru_store`: the model of the `lru` crate's cache, and the
//!   calls into it.

pub mod accessibility;
pub mod cache;
pub mod call;
pub mod lines;
pub mod lru_store;
pub mod recency;
pub mod script;
pub mod selection;
pub mod selector;
pub mod window;

pub use cache::MethodCache;
pub use selection::get_selected_text;
pub use selector::{ExtractionError, SelectedText};
pub use window::{get_window_meta, in_finder_or_empty_window, ActiveWindow};
