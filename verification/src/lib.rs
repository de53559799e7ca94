//! Battery levels of a wireless Dygma keyboard on a Stream Deck key: the key
//! title and key art, the per-key settings, and the polling state machine.

pub mod text;
pub mod battery;
pub mod visual;
pub mod plugin;
pub mod marketplace;
