//! A verified IsZero gadget for PLONK-style arithmetic circuits over the
//! Pallas base field.
//!
//! The gadget decides, inside a polynomial constraint system, whether a
//! witnessed field element is zero. It reserves one helper column that holds
//! the inverse of the value (or zero when the value is zero) and declares the
//! identity `enable * value * (1 - value * helper) = 0`, whose factor
//! `1 - value * helper` then serves other gates as a 0/1 indicator.

pub mod chip;
pub mod circuit;
pub mod expr;
pub mod field;
pub mod laws;
