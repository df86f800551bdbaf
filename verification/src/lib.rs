//! A store of pastebooks: named, ordered collections of text clips captured
//! from the clipboard, with the rules for adding, editing, reordering and
//! merging clips and for suppressing repeated captures.
//!
//! Every operation carries a contract over the mathematical view of the
//! store, and the laws that relate the operations are proved in [`laws`].
//!
//! [`storage`] holds the store and its operations, [`clips`] the work on one
//! pastebook's list of clips, and [`capture`] the way from captured text to a
//! stored clip. [`window`], [`input`] and [`assistant`] hold what the store's
//! surroundings need decided: what to record about a window, which keys make
//! the desktop copy, and how to talk to the optional sorting assistant.

pub mod assistant;
pub mod capture;
pub mod clip;
pub mod clips;
pub mod clock;
pub mod ident;
pub mod input;
pub mod laws;
pub mod pastebook;
pub mod storage;
pub mod text;
pub mod window;
