//! Expressions, as far as the conversion reads and builds them: the literals,
//! casts and type ascriptions under which a format string is found, and the
//! casts and calls that are put around an argument.

use crate::ascii::NUL;
use crate::conv::CastType;
use crate::scan::{find, position_of};
use vstd::prelude::*;
use vstd::slice::slice_subrange;
use vstd::utf8::{encode_utf8, valid_utf8};

verus! {

/// A type that an expression is cast to.
#[derive(Clone, Copy, PartialEq, Eq, Debug, Structural)]
pub enum Ty {
    /// `i32`
    I32,
    /// `u32`
    U32,
    /// `usize`
    Usize,
    /// `u8`
    U8,
    /// `char`
    Char,
    /// `*const libc::c_char`
    CCharPtr,
    /// Any other type. The conversion builds none of these; it meets them in
    /// the casts that stand around a literal.
    Other,
}

/// A function that a cast expression calls.
#[derive(Clone, Copy, PartialEq, Eq, Debug, Structural)]
pub enum Func {
    /// `std::ffi::CStr::from_ptr`
    CStrFromPtr,
}

/// A method that a cast expression calls, without arguments.
#[derive(Clone, Copy, PartialEq, Eq, Debug, Structural)]
pub enum Method {
    /// `to_str`
    ToStr,
    /// `unwrap`
    Unwrap,
}

/// An expression.
#[derive(PartialEq, Eq, Debug)]
pub enum Expr {
    /// A string literal.
    Str(String),
    /// A byte-string literal.
    ByteStr(Vec<u8>),
    /// `e as T`
    Cast(Box<Expr>, Ty),
    /// `e: T`
    Type(Box<Expr>, Ty),
    /// `f(e)`
    Call(Func, Box<Expr>),
    /// `e.m()`
    MethodCall(Box<Expr>, Method),
    /// `unsafe { e }`
    Unsafe(Box<Expr>),
    /// The argument at this index of the call that is being converted, taken
    /// as it is. Index 0 is the format string.
    Arg(usize),
    /// Any other expression. The conversion does not look into it.
    Other,
}

/// The bytes of `b` before its first NUL, or all of them where it has none:
/// the C string that begins where `b` begins.
pub open spec fn until_nul(b: Seq<u8>) -> Seq<u8> {
    b.subrange(0, position_of(b, NUL, 0))
}

impl CastType {
    /// The expression that casts `e`:
    /// `e as i32`, `e as u32`, `e as usize`, `e as u8 as char`, or
    /// `unsafe { CStr::from_ptr(e as *const c_char).to_str().unwrap() }`.
    pub open spec fn applied(self, e: Expr) -> Expr {
        match self {
            CastType::Int => Expr::Cast(Box::new(e), Ty::I32),
            CastType::Uint => Expr::Cast(Box::new(e), Ty::U32),
            CastType::Usize => Expr::Cast(Box::new(e), Ty::Usize),
            CastType::Char => Expr::Cast(Box::new(Expr::Cast(Box::new(e), Ty::U8)), Ty::Char),
            CastType::Str => Expr::Unsafe(
                Box::new(
                    Expr::MethodCall(
                        Box::new(
                            Expr::MethodCall(
                                Box::new(
                                    Expr::Call(
                                        Func::CStrFromPtr,
                                        Box::new(Expr::Cast(Box::new(e), Ty::CCharPtr)),
                                    ),
                                ),
                                Method::ToStr,
                            ),
                        ),
                        Method::Unwrap,
                    ),
                ),
            ),
        }
    }

    /// Puts the cast around `e`.
    pub fn apply(&self, e: Expr) -> (r: Expr)
        ensures
            r == self.applied(e),
    {
        match *self {
            CastType::Int => Expr::Cast(Box::new(e), Ty::I32),
            CastType::Uint => Expr::Cast(Box::new(e), Ty::U32),
            CastType::Usize => Expr::Cast(Box::new(e), Ty::Usize),
            CastType::Char => {
                let byte = Expr::Cast(Box::new(e), Ty::U8);
                Expr::Cast(Box::new(byte), Ty::Char)
            },
            CastType::Str => {
                let ptr = Expr::Cast(Box::new(e), Ty::CCharPtr);
                let c_str = Expr::Call(Func::CStrFromPtr, Box::new(ptr));
                let text = Expr::MethodCall(Box::new(c_str), Method::ToStr);
                let call = Expr::MethodCall(Box::new(text), Method::Unwrap);
                Expr::Unsafe(Box::new(call))
            },
        }
    }
}

impl Expr {
    /// The bytes of the literal that this expression is, under any number of
    /// casts and type ascriptions: for a string literal its UTF-8 encoding.
    /// `None` where something else is found under them.
    pub open spec fn literal_bytes(self) -> Option<Seq<u8>>
        decreases self,
    {
        match self {
            Expr::Str(s) => Some(encode_utf8(s@)),
            Expr::ByteStr(b) => Some(b@),
            Expr::Cast(e, _) => e.literal_bytes(),
            Expr::Type(e, _) => e.literal_bytes(),
            _ => None,
        }
    }

    /// Whether this expression can be decoded as a C string, as far as can be
    /// told from it: where it is a literal, the bytes before its first NUL are
    /// valid UTF-8.
    pub open spec fn decodes_as_c_str(self) -> bool {
        match self.literal_bytes() {
            Some(b) => valid_utf8(until_nul(b)),
            None => true,
        }
    }

    /// Peels off casts and type ascriptions and gives the bytes of the
    /// literal under them.
    pub fn literal(&self) -> (r: Option<&[u8]>)
        ensures
            match self.literal_bytes() {
                Some(b) => r matches Some(found) && found@ == b,
                None => r is None,
            },
        decreases self,
    {
        match self {
            Expr::Str(s) => Some(s.as_str().as_bytes()),
            Expr::ByteStr(b) => Some(b.as_slice()),
            Expr::Cast(e, _) => e.literal(),
            Expr::Type(e, _) => e.literal(),
            _ => None,
        }
    }

    /// Tells whether this expression can be decoded as a C string, as far as
    /// can be told from it.
    pub fn is_c_str(&self) -> (r: bool)
        ensures
            r == self.decodes_as_c_str(),
    {
        match self.literal() {
            Some(b) => {
                let n: usize = find(b, NUL, 0);
                is_utf8(slice_subrange(b, 0, n))
            },
            None => true,
        }
    }
}

/// Tells whether `bytes` are valid UTF-8.
///
/// This calls `std::str::from_utf8` and says whether it gave a string. The
/// contract is not proved. It claims that `from_utf8` accepts a byte string
/// exactly when the bytes are well-formed UTF-8, as its documentation says,
/// and that `valid_utf8` is what well-formed means.
#[verifier::external_body]
pub(crate) fn is_utf8(bytes: &[u8]) -> (r: bool)
    ensures
        r == valid_utf8(bytes@),
{
    std::str::from_utf8(bytes).is_ok()
}

} // verus!
