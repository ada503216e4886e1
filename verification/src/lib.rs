//! Core of a plain-text editing engine.
//!
//! The crate maintains an editable character buffer, a primary/secondary
//! cursor pair, and the geometric mapping between character offsets and
//! on-screen rows and columns, and it drives every edit, navigation and
//! selection operation from discrete input events.  Rendering, window
//! management and file dialogs are left to an unverified shell that feeds
//! events in and draws the resulting layout.

pub mod bridge;
pub mod engine;
pub mod highlight;
pub mod layout;
pub mod selection;
pub mod text;
