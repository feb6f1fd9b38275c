//! A terminal Game of Life library.
//!
//! The grid model, the automaton's transition rule, the classification of
//! raw terminal input into semantic events, and the per-frame decisions of
//! the simulation loop all live here, each with a contract. The thin layer
//! that talks to the terminal (raw mode, mouse capture, drawing, the input
//! thread) lives outside the library and only hands plain values in and out.

pub mod events;
pub mod grid;
pub mod sim;
