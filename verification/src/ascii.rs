//! The ASCII bytes that the wire protocol is written in.

use vstd::prelude::*;

verus! {

/// The digit `0`; the other decimal digits follow it in order.
pub const DIGIT_0: u8 = 48;

/// The digit `9`.
pub const DIGIT_9: u8 = 57;

/// The letter `A`; the hexadecimal digits above nine follow it in order.
pub const UPPER_A: u8 = 65;

/// The letter `F`.
pub const UPPER_F: u8 = 70;

/// The letter `P`.
pub const UPPER_P: u8 = 80;

/// The letter `X`.
pub const UPPER_X: u8 = 88;

/// The space that separates the fields of a command.
pub const SPACE: u8 = 32;

/// The line feed that ends a command.
pub const LINE_FEED: u8 = 10;

} // verus!
