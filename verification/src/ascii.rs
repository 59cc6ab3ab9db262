//! The ASCII characters that the two format syntaxes are made of.

use vstd::prelude::*;

verus! {

/// NUL, which ends a C string.
pub const NUL: u8 = 0x00;

/// Line feed.
pub const NEWLINE: u8 = 0x0a;

/// `%`
pub const PERCENT: u8 = 0x25;

/// `*`
pub const STAR: u8 = 0x2a;

/// `.`
pub const DOT: u8 = 0x2e;

/// `0`
pub const ZERO: u8 = 0x30;

/// `9`
pub const NINE: u8 = 0x39;

/// `:`
pub const COLON: u8 = 0x3a;

/// `X`
pub const UPPER_X: u8 = 0x58;

/// `c`
pub const LOWER_C: u8 = 0x63;

/// `d`
pub const LOWER_D: u8 = 0x64;

/// `s`
pub const LOWER_S: u8 = 0x73;

/// `u`
pub const LOWER_U: u8 = 0x75;

/// `x`
pub const LOWER_X: u8 = 0x78;

/// `{`
pub const OPEN_BRACE: u8 = 0x7b;

/// `}`
pub const CLOSE_BRACE: u8 = 0x7d;

} // verus!
