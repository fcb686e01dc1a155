//! Real-time core of a step sequencer: the pattern store and its editing API,
//! the dirty-flag bus, the double-buffered runtime cache and the
//! drift-compensated step clock, with the display's layout and the keyboard
//! decoding around them.

pub mod bits;
pub mod bus;
pub mod cache;
pub mod clock;
pub mod context;
pub mod dirty;
pub mod input;
pub mod layout;
pub mod store;
pub mod text;
