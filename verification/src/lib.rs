//! The logic of an embedded browser panel: an omnibox that turns typed text
//! into a URL, and the decisions that drive a native web view.

pub mod text;
pub mod omnibox;
pub mod panel;
