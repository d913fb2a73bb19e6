//! Keystroke statistics: a three-slot window over a stream of key events,
//! frequency tables of single keystrokes, pairs and triples, and a generator
//! that draws new keystrokes from those tables.

pub mod codec;
pub mod corpus;
pub mod event;
pub mod generator;
pub mod heatmap;
pub mod key;
pub mod store;
pub mod totals;
pub mod tribuf;
pub mod weights;
