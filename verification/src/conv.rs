//! One conversion specifier: what it converts, how it is written as a
//! placeholder, and which casts it asks of the arguments that it consumes.

use crate::ascii::{CLOSE_BRACE, COLON, DOT, LOWER_X, OPEN_BRACE, STAR, UPPER_X};
use crate::decimal::{decimal, push_decimal};
use std::collections::HashMap;
use vstd::prelude::*;

verus! {

broadcast use vstd::std_specs::hash::group_hash_axioms;

/// The cast that an argument needs before it is handed to the placeholder.
#[derive(Clone, Copy, PartialEq, Eq, Debug, Structural)]
pub enum CastType {
    /// To a signed 32-bit integer.
    Int,
    /// To an unsigned 32-bit integer.
    Uint,
    /// To `usize`: the argument is a width or a precision.
    Usize,
    /// To a byte, and from the byte to a character.
    Char,
    /// From a pointer to a NUL-terminated C string to text.
    Str,
}

/// What a specifier converts, as its type letter says.
#[derive(Clone, Copy, PartialEq, Eq, Debug, Structural)]
pub enum ConvType {
    /// `%d`
    Int,
    /// `%u`
    Uint,
    /// `%x`, or `%X` where the flag is set.
    Hex(bool),
    /// `%c`
    Char,
    /// `%s`
    Str,
}

/// A width or a precision.
#[derive(Clone, Copy, PartialEq, Eq, Debug, Structural)]
pub enum Amount {
    /// Written in the format string.
    Number(usize),
    /// `*`: taken from the next argument.
    NextArg,
}

/// A conversion specifier.
#[derive(Clone, Copy, PartialEq, Eq, Debug)]
pub struct Conv {
    pub ty: ConvType,
    pub width: Option<Amount>,
    pub prec: Option<Amount>,
}

impl ConvType {
    /// The cast for the value that a specifier of this type converts.
    pub open spec fn cast(self) -> CastType {
        match self {
            ConvType::Int => CastType::Int,
            ConvType::Uint => CastType::Uint,
            ConvType::Hex(_) => CastType::Uint,
            ConvType::Char => CastType::Char,
            ConvType::Str => CastType::Str,
        }
    }

    /// What follows width and precision in a placeholder: `x` or `X` for the
    /// hexadecimal forms, nothing for the others, which print as the cast
    /// argument prints by itself.
    pub open spec fn suffix(self) -> Seq<u8> {
        match self {
            ConvType::Hex(false) => seq![LOWER_X],
            ConvType::Hex(true) => seq![UPPER_X],
            _ => Seq::<u8>::empty(),
        }
    }
}

impl Amount {
    /// How the amount is written in a placeholder: a number in decimal, or `*`.
    pub open spec fn text(self) -> Seq<u8> {
        match self {
            Amount::Number(n) => decimal(n as nat),
            Amount::NextArg => seq![STAR],
        }
    }
}

/// The casts for an optional width or precision: one `Usize` where it is taken
/// from an argument, none otherwise.
pub open spec fn amount_casts(a: Option<Amount>) -> Seq<CastType> {
    if a == Some(Amount::NextArg) {
        seq![CastType::Usize]
    } else {
        Seq::<CastType>::empty()
    }
}

/// How an optional width is written in a placeholder.
pub open spec fn width_text(a: Option<Amount>) -> Seq<u8> {
    match a {
        Some(amt) => amt.text(),
        None => Seq::<u8>::empty(),
    }
}

/// How an optional precision is written in a placeholder: after a dot.
pub open spec fn prec_text(a: Option<Amount>) -> Seq<u8> {
    match a {
        Some(amt) => seq![DOT] + amt.text(),
        None => Seq::<u8>::empty(),
    }
}

/// The table `m` with the casts `cs` entered for the arguments `idx`,
/// `idx + 1`, and so on, one each. Entries of `m` at other arguments stay.
pub open spec fn table_with(m: Map<usize, CastType>, idx: int, cs: Seq<CastType>) -> Map<
    usize,
    CastType,
> {
    Map::new(
        |k: usize| m.contains_key(k) || idx <= k < idx + cs.len(),
        |k: usize|
            if idx <= k < idx + cs.len() {
                cs[k - idx]
            } else {
                m[k]
            },
    )
}

impl Conv {
    /// The placeholder for this specifier: `{:`, the width, a dot and the
    /// precision, the type's suffix, `}`.
    pub open spec fn placeholder(self) -> Seq<u8> {
        seq![OPEN_BRACE, COLON] + width_text(self.width) + prec_text(self.prec) + self.ty.suffix()
            + seq![CLOSE_BRACE]
    }

    /// The casts for the arguments that this specifier consumes, in the order
    /// in which it consumes them: the width, the precision, the value.
    pub open spec fn casts(self) -> Seq<CastType> {
        amount_casts(self.width) + amount_casts(self.prec) + seq![self.ty.cast()]
    }

    /// A `%d` without width or precision.
    pub fn new() -> (r: Conv)
        ensures
            r == (Conv { ty: ConvType::Int, width: None, prec: None }),
    {
        Conv { ty: ConvType::Int, width: None, prec: None }
    }

    /// The number of arguments that this specifier consumes.
    pub fn arity(&self) -> (n: usize)
        ensures
            n == self.casts().len(),
            1 <= n <= 3,
    {
        let mut n: usize = 1;
        if let Some(Amount::NextArg) = self.width {
            n += 1;
        }
        if let Some(Amount::NextArg) = self.prec {
            n += 1;
        }
        n
    }

    /// Enters this specifier's casts into `casts`, for the arguments from
    /// `*idx` on, and moves `*idx` past them.
    pub fn add_casts(&self, idx: &mut usize, casts: &mut HashMap<usize, CastType>)
        requires
            *old(idx) + self.casts().len() <= usize::MAX,
        ensures
            *final(idx) == *old(idx) + self.casts().len(),
            final(casts)@ == table_with(old(casts)@, *old(idx) as int, self.casts()),
    {
        if let Some(Amount::NextArg) = self.width {
            casts.insert(*idx, CastType::Usize);
            *idx += 1;
        }
        if let Some(Amount::NextArg) = self.prec {
            casts.insert(*idx, CastType::Usize);
            *idx += 1;
        }
        let cast = match self.ty {
            ConvType::Int => CastType::Int,
            ConvType::Uint | ConvType::Hex(_) => CastType::Uint,
            ConvType::Char => CastType::Char,
            ConvType::Str => CastType::Str,
        };
        casts.insert(*idx, cast);
        *idx += 1;
    }

    /// Appends this specifier's placeholder to `buf`.
    pub fn push_spec(&self, buf: &mut Vec<u8>)
        ensures
            final(buf)@ == old(buf)@ + self.placeholder(),
    {
        buf.push(OPEN_BRACE);
        buf.push(COLON);
        if let Some(amt) = self.width {
            amt.push_text(buf);
        }
        if let Some(amt) = self.prec {
            buf.push(DOT);
            amt.push_text(buf);
        }
        match self.ty {
            ConvType::Hex(false) => buf.push(LOWER_X),
            ConvType::Hex(true) => buf.push(UPPER_X),
            _ => {},
        }
        buf.push(CLOSE_BRACE);
    }
}

impl Amount {
    /// Appends the amount to `buf`, as a placeholder writes it.
    pub fn push_text(&self, buf: &mut Vec<u8>)
        ensures
            final(buf)@ == old(buf)@ + self.text(),
    {
        match *self {
            Amount::Number(n) => push_decimal(buf, n),
            Amount::NextArg => {
                buf.push(STAR);
            },
        }
    }
}

} // verus!
