//! Rendering core for interactive terminal prompts.
//!
//! The crate models width-aware styled text (wrapping, pagination,
//! truncation), a composite cursor spanning several content blocks, a
//! diffing draw planner that survives terminal resize, and the state
//! machine of a blocking read-dispatch-redraw prompt session.  The
//! physical terminal driver (raw mode, key decoding, escape sequences)
//! is left to the embedding application.

pub mod style;
pub mod grapheme;
pub mod cursor;
pub mod selectbox;
pub mod pane;
pub mod terminal;
pub mod prompt;

pub use style::{Attribute, Attributes, Color, ContentStyle, StyleBuilder};
pub use grapheme::{StyledGrapheme, StyledGraphemes, StyledGraphemesDisplay};
pub use cursor::{CompositeCursor, Len};
pub use selectbox::SelectBox;
pub use pane::Pane;
pub use terminal::{DrawPlan, Terminal};
pub use prompt::{Error, Event, EventAction, Evaluator, Key, Producer, Prompt, Renderer, SessionState, TickOutcome};
