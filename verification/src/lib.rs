//! Conversion of C `printf`-style format strings, and of the arguments that
//! follow them, into the placeholder syntax of `format_args!`.
//!
//! A format string is cut into pieces by [`parser::Parser`]. Each specifier
//! among them is a [`conv::Conv`], which knows its placeholder and the casts
//! that its arguments need. [`assemble::convert_format`] puts the new format
//! string together and fills the table of casts, and
//! [`mac::build_format_macro`] builds the macro invocation that takes the
//! place of the call. [`transform`] decides which calls are converted.

pub mod ascii;
pub mod assemble;
pub mod conv;
pub mod decimal;
pub mod error;
pub mod expr;
pub mod laws;
pub mod mac;
pub mod parser;
pub mod scan;
pub mod text;
pub mod transform;

pub use crate::assemble::{convert_format, Converted};
pub use crate::conv::{Amount, CastType, Conv, ConvType};
pub use crate::error::FormatError;
pub use crate::expr::{Expr, Func, Method, Ty};
pub use crate::mac::{build_format_macro, Excess, Mac};
pub use crate::parser::{Parser, Piece};
pub use crate::transform::{
    ConvertFormatArgs, ConvertPrintfs, ForeignKind, FormatArgs, Libc, Print, Stream,
};
