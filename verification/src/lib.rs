//! The navigation core of an interactive terminal directory picker.
//!
//! The crate holds the decisions of the picker and none of its input or
//! output: how a directory listing is ordered, which entry a typed query
//! selects, how key events change the cursors and the query, and which
//! rows of a long listing are drawn.

pub mod entry;
pub mod nav;
pub mod render;
pub mod select;
pub mod window;
