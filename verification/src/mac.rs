//! From a call in the `printf` family to a macro invocation: the format
//! string is found under its casts and converted, and each argument that a
//! specifier consumes is put into its cast.

use crate::assemble::{conversion, convert_format, Conversion};
use crate::conv::CastType;
use crate::error::FormatError;
use crate::expr::{is_utf8, Expr};
use crate::text::law_text_stays_valid;
use vstd::prelude::*;
use vstd::utf8::valid_utf8;

verus! {

broadcast use vstd::std_specs::hash::group_hash_axioms;

/// What becomes of the arguments that no specifier consumes.
#[derive(Clone, Copy, PartialEq, Eq, Debug, Structural)]
pub enum Excess {
    /// They are left out of the macro invocation.
    Omit,
    /// They are handed on as they are.
    Keep,
}

/// A macro invocation: `name!(format, args..)`.
#[derive(PartialEq, Eq, Debug)]
pub struct Mac {
    /// The name of the macro.
    pub name: String,
    /// The format string.
    pub format: Vec<u8>,
    /// The arguments after the format string.
    pub args: Vec<Expr>,
}

/// A macro invocation, as a value of specification.
pub struct MacView {
    pub name: Seq<char>,
    pub format: Seq<u8>,
    pub args: Seq<Expr>,
}

impl View for Mac {
    type V = MacView;

    open spec fn view(&self) -> MacView {
        MacView { name: self.name@, format: self.format@, args: self.args@ }
    }
}

/// The text of an optional name.
pub open spec fn name_of(name: Option<&str>) -> Option<Seq<char>> {
    match name {
        Some(n) => Some(n@),
        None => None,
    }
}

/// The expression that an optional reference points to.
pub open spec fn expr_of(e: Option<&Expr>) -> Option<Expr> {
    match e {
        Some(e) => Some(*e),
        None => None,
    }
}

/// The text of the format string of a call with the arguments `fmt_args`, of
/// which the first is the format string: the bytes of the literal under the
/// casts of `old_fmt_str_expr`, or of the first argument where that is
/// `None`. There is none where the call has no arguments, where no literal is
/// found, and where the literal is not valid UTF-8.
pub open spec fn format_source(old_fmt_str_expr: Option<Expr>, fmt_args: Seq<Expr>) -> Option<
    Seq<u8>,
> {
    if fmt_args.len() == 0 {
        None
    } else {
        let e = match old_fmt_str_expr {
            Some(e) => e,
            None => fmt_args[0],
        };
        match e.literal_bytes() {
            Some(b) if valid_utf8(b) => Some(b),
            _ => None,
        }
    }
}

/// Whether the argument at `i` is cast to text and cannot be decoded.
pub open spec fn undecodable(casts: Map<usize, CastType>, fmt_args: Seq<Expr>, i: int) -> bool {
    &&& 0 <= i < fmt_args.len()
    &&& casts.contains_key(i as usize)
    &&& casts[i as usize] == CastType::Str
    &&& !fmt_args[i].decodes_as_c_str()
}

/// The first argument at or after `from` that is cast to text and cannot be
/// decoded, if there is one.
pub open spec fn first_undecodable(
    casts: Map<usize, CastType>,
    fmt_args: Seq<Expr>,
    from: int,
) -> Option<usize>
    decreases fmt_args.len() - from,
{
    if from < 0 || from >= fmt_args.len() {
        None
    } else if undecodable(casts, fmt_args, from) {
        Some(from as usize)
    } else {
        first_undecodable(casts, fmt_args, from + 1)
    }
}

/// The arguments of the macro invocation that come from the arguments 1 to
/// `upto - 1` of the call, in their order: one that has a cast is put into
/// it, one that has none is kept or left out as `excess` says.
pub open spec fn coerced(casts: Map<usize, CastType>, excess: Excess, upto: int) -> Seq<Expr>
    decreases upto,
{
    if upto <= 1 {
        Seq::<Expr>::empty()
    } else {
        let i = (upto - 1) as usize;
        let before = coerced(casts, excess, upto - 1);
        if casts.contains_key(i) {
            before.push(casts[i].applied(Expr::Arg(i)))
        } else if excess == Excess::Keep {
            before.push(Expr::Arg(i))
        } else {
            before
        }
    }
}

/// The macro invocation that a call becomes.
///
/// `fmt_args` are the arguments of the call from the format string on.
/// `macro_name` is the macro to invoke; `ln_macro_name`, where there is one,
/// is the macro to invoke in its place where the new format string ends in a
/// line feed, which is then taken off.
pub open spec fn format_macro(
    macro_name: Seq<char>,
    ln_macro_name: Option<Seq<char>>,
    old_fmt_str_expr: Option<Expr>,
    fmt_args: Seq<Expr>,
    excess: Excess,
) -> Result<MacView, FormatError> {
    match format_source(old_fmt_str_expr, fmt_args) {
        None => Err(FormatError::InvalidTextArgument { index: 0 }),
        Some(src) => match conversion(src, fmt_args.len() - 1, ln_macro_name is Some) {
            Err(e) => Err(e),
            Ok(c) => match first_undecodable(c.casts, fmt_args, 1) {
                Some(index) => Err(FormatError::InvalidTextArgument { index }),
                None => Ok(
                    MacView {
                        name: match ln_macro_name {
                            Some(ln) if c.newline => ln,
                            _ => macro_name,
                        },
                        format: c.text,
                        args: coerced(c.casts, excess, fmt_args.len() as int),
                    },
                ),
            },
        },
    }
}

/// Builds the macro invocation that a call with the arguments `fmt_args`
/// becomes. The first of them is the format string; `old_fmt_str_expr`, where
/// it is given, is the expression in it to take the literal from.
///
/// The result is an error, and nothing is built, where the format string is
/// no valid text, where a specifier is malformed or consumes an argument that
/// the call does not have, and where an argument that is cast to text is a
/// literal that cannot be decoded.
pub fn build_format_macro(
    macro_name: &str,
    ln_macro_name: Option<&str>,
    old_fmt_str_expr: Option<&Expr>,
    fmt_args: &[Expr],
    excess: Excess,
) -> (r: Result<Mac, FormatError>)
    ensures
        match format_macro(
            macro_name@,
            name_of(ln_macro_name),
            expr_of(old_fmt_str_expr),
            fmt_args@,
            excess,
        ) {
            Ok(m) => r matches Ok(mac) && mac@ == m,
            Err(e) => r == Err::<Mac, FormatError>(e),
        },
        r matches Ok(mac) ==> valid_utf8(mac.format@),
{
    let n: usize = fmt_args.len();
    if n == 0 {
        return Err(FormatError::InvalidTextArgument { index: 0 });
    }
    let fmt_expr: &Expr = match old_fmt_str_expr {
        Some(e) => e,
        None => &fmt_args[0],
    };
    let src: &[u8] = match fmt_expr.literal() {
        Some(b) => b,
        None => {
            return Err(FormatError::InvalidTextArgument { index: 0 });
        },
    };
    if !is_utf8(src) {
        return Err(FormatError::InvalidTextArgument { index: 0 });
    }
    let converted = match convert_format(src, n - 1, ln_macro_name.is_some()) {
        Ok(c) => c,
        Err(e) => {
            return Err(e);
        },
    };
    let mut args: Vec<Expr> = Vec::new();
    let mut i: usize = 1;
    while i < n
        invariant
            1 <= i <= n,
            n == fmt_args@.len(),
            format_source(expr_of(old_fmt_str_expr), fmt_args@) == Some(src@),
            conversion(src@, n - 1, ln_macro_name is Some) == Ok::<Conversion, FormatError>(
                converted@,
            ),
            args@ == coerced(converted.casts@, excess, i as int),
            first_undecodable(converted.casts@, fmt_args@, 1) == first_undecodable(
                converted.casts@,
                fmt_args@,
                i as int,
            ),
        decreases n - i,
    {
        match converted.casts.get(&i) {
            Some(cast) => {
                if let CastType::Str = *cast {
                    if !fmt_args[i].is_c_str() {
                        return Err(FormatError::InvalidTextArgument { index: i });
                    }
                }
                args.push(cast.apply(Expr::Arg(i)));
            },
            None => {
                if let Excess::Keep = excess {
                    args.push(Expr::Arg(i));
                }
            },
        }
        i = i + 1;
    }
    proof {
        assert(src@.len() == src.len());
        law_text_stays_valid(src@, n - 1, ln_macro_name is Some);
    }
    let name: &str = match ln_macro_name {
        Some(ln) if converted.newline => ln,
        _ => macro_name,
    };
    Ok(Mac { name: name.to_owned(), format: converted.text, args })
}

} // verus!
