//! A playground for discrete-time linear systems.
//!
//! The engine holds transfer functions ([`transfer_function`]), state-space
//! models ([`state_space`]), block diagrams that wire them together by the
//! names of their signals ([`dynamic_system`]) and the simulation of their
//! unit step response ([`simulation`]). The interpreter reads a small
//! language ([`lexer`], [`grammar`], [`ast`]) and evaluates it on the engine
//! ([`execution`]).
//!
//! The engine calculates with any numbers that implement
//! [`scalar::Scalar`]; [`whole::Whole`] are the whole numbers. What every
//! function computes is stated over the mathematical views of the values, and
//! verified.

pub mod arx;
pub mod ast;
pub mod display;
pub mod dynamic_system;
pub mod execution;
pub mod grammar;
pub mod lexer;
pub mod matrix;
pub mod number;
pub mod scalar;
pub mod simulation;
pub mod state_space;
pub mod text;
pub mod transfer_function;
pub mod whole;

pub use crate::display::NiceFloat;
