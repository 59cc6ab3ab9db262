//! The two conversions of calls: of a call whose format string is marked, into
//! `format_args!`, and of calls of `printf` and of `fprintf` to `stderr`, into
//! the printing macros.
//!
//! Walking the program, reading the marks and resolving names is the caller's
//! part. What is decided here is which calls are converted, and into what.

use crate::error::FormatError;
use crate::expr::Expr;
use crate::mac::{build_format_macro, format_macro, Excess, Mac, MacView};
use vstd::prelude::*;
use vstd::slice::slice_subrange;
use vstd::utf8::{encode_utf8, encode_utf8_decode_utf8};

verus! {

/// The position of the first `true` in `marked` at or after `from`, if there
/// is one.
pub open spec fn first_marked(marked: Seq<bool>, from: int) -> Option<usize>
    decreases marked.len() - from,
{
    if from < 0 || from >= marked.len() {
        None
    } else if marked[from] {
        Some(from as usize)
    } else {
        first_marked(marked, from + 1)
    }
}

/// The arguments of a call from the format string on, where the format
/// string is the argument at `fmt_idx`.
pub open spec fn args_from(args: Seq<Expr>, fmt_idx: int) -> Seq<Expr> {
    if 0 <= fmt_idx <= args.len() {
        args.subrange(fmt_idx, args.len() as int)
    } else {
        Seq::<Expr>::empty()
    }
}

/// The first of the marked expressions, if there is any.
pub open spec fn first_of(fmt_str: Seq<Expr>) -> Option<Expr> {
    if fmt_str.len() > 0 {
        Some(fmt_str[0])
    } else {
        None
    }
}

/// What a call with a marked format string becomes.
#[derive(PartialEq, Eq, Debug)]
pub struct FormatArgs {
    /// The number of arguments of the call that stay as they are: those
    /// before the format string.
    pub kept: usize,
    /// The macro invocation that takes the place of the format string and of
    /// all the arguments after it. In it, `Expr::Arg(i)` is the argument
    /// `i` places after the format string.
    pub mac: Mac,
    /// Whether more than one expression was marked as the format string. The
    /// first was taken; the caller may warn.
    pub ambiguous: bool,
}

/// The conversion of a call whose format string is marked into an invocation
/// of `format_args!`.
pub struct ConvertFormatArgs;

impl ConvertFormatArgs {
    /// The position of the format string among the arguments of a call:
    /// that of the first argument that is marked. `marked` says of each
    /// argument whether it is.
    pub fn target(&self, marked: &[bool]) -> (r: Option<usize>)
        ensures
            r == first_marked(marked@, 0),
    {
        let mut i: usize = 0;
        while i < marked.len()
            invariant
                i <= marked@.len(),
                first_marked(marked@, 0) == first_marked(marked@, i as int),
            decreases marked@.len() - i,
        {
            if marked[i] {
                return Some(i);
            }
            i = i + 1;
        }
        None
    }

    /// Converts a call with the arguments `args`, of which the one at
    /// `fmt_idx` is the format string. `fmt_str` holds the expressions inside
    /// that argument that are marked as the literal to read, in the order in
    /// which a walk meets them: the first is read, or the argument itself
    /// where there is none.
    ///
    /// The arguments before `fmt_idx` stay. The macro invocation takes the
    /// place of the others; arguments that no specifier consumes are left
    /// out of it.
    pub fn transform(&self, args: &[Expr], fmt_idx: usize, fmt_str: &[Expr]) -> (r: Result<
        FormatArgs,
        FormatError,
    >)
        ensures
            match format_macro(
                "format_args"@,
                None,
                first_of(fmt_str@),
                args_from(args@, fmt_idx as int),
                Excess::Omit,
            ) {
                Ok(m) => r matches Ok(out) && out.kept == fmt_idx && out.mac@ == m
                    && out.ambiguous == (fmt_str@.len() > 1),
                Err(e) => r == Err::<FormatArgs, FormatError>(e),
            },
    {
        let old_fmt_str_expr: Option<&Expr> = if fmt_str.len() > 0 {
            Some(&fmt_str[0])
        } else {
            None
        };
        let fmt_args: &[Expr] = if fmt_idx <= args.len() {
            slice_subrange(args, fmt_idx, args.len())
        } else {
            slice_subrange(args, 0, 0)
        };
        match build_format_macro("format_args", None, old_fmt_str_expr, fmt_args, Excess::Omit) {
            Ok(mac) => Ok(FormatArgs { kept: fmt_idx, mac, ambiguous: fmt_str.len() > 1 }),
            Err(e) => Err(e),
        }
    }
}

/// A foreign item of the C library that the conversion of `printf` calls
/// knows.
#[derive(Clone, Copy, PartialEq, Eq, Debug, Structural)]
pub enum Libc {
    /// The function `printf`.
    Printf,
    /// The function `fprintf`.
    Fprintf,
    /// The static `stderr`.
    Stderr,
}

/// What kind of item a foreign item is.
#[derive(Clone, Copy, PartialEq, Eq, Debug, Structural)]
pub enum ForeignKind {
    /// A function.
    Fn,
    /// A static.
    Static,
    /// Anything else.
    Other,
}

/// Which item of the C library a foreign item is, by its name and kind. Only
/// an item that is `no_mangle` is one.
pub open spec fn libc_item(name: Seq<char>, kind: ForeignKind, no_mangle: bool) -> Option<Libc> {
    if !no_mangle {
        None
    } else if name == "printf"@ && kind == ForeignKind::Fn {
        Some(Libc::Printf)
    } else if name == "fprintf"@ && kind == ForeignKind::Fn {
        Some(Libc::Fprintf)
    } else if name == "stderr"@ && kind == ForeignKind::Static {
        Some(Libc::Stderr)
    } else {
        None
    }
}

/// Where a call prints to.
#[derive(Clone, Copy, PartialEq, Eq, Debug, Structural)]
pub enum Stream {
    /// The standard output: the call is `printf(format, ..)`.
    Stdout,
    /// The standard error: the call is `fprintf(stderr, format, ..)`.
    Stderr,
}

/// Where a call prints to, if it is one that is converted. `callee` is the
/// item of the C library that the called expression resolves to and
/// `first_arg` the one that the first argument resolves to, if they resolve to
/// any.
pub open spec fn stream_of(callee: Option<Libc>, first_arg: Option<Libc>) -> Option<Stream> {
    if callee == Some(Libc::Fprintf) && first_arg == Some(Libc::Stderr) {
        Some(Stream::Stderr)
    } else if callee == Some(Libc::Printf) {
        Some(Stream::Stdout)
    } else {
        None
    }
}

impl Stream {
    /// The position of the format string among the arguments of the call.
    pub open spec fn format_index(self) -> int {
        match self {
            Stream::Stdout => 0,
            Stream::Stderr => 1,
        }
    }

    /// The macro that prints to the stream.
    pub open spec fn macro_name(self) -> Seq<char> {
        match self {
            Stream::Stdout => "print"@,
            Stream::Stderr => "eprint"@,
        }
    }

    /// The macro that prints to the stream and ends the line.
    pub open spec fn ln_macro_name(self) -> Seq<char> {
        match self {
            Stream::Stdout => "println"@,
            Stream::Stderr => "eprintln"@,
        }
    }
}

/// What a statement that is a call becomes: nothing new for a call that is
/// not converted or has no arguments; else the invocation of the stream's
/// macro on the arguments from the format string on, without those that no
/// specifier consumes. A format string that ends in a line feed gives the
/// macro that ends the line.
pub open spec fn printf_macro(callee: Option<Libc>, first_arg: Option<Libc>, args: Seq<Expr>)
    -> Result<Option<(Stream, MacView)>, FormatError> {
    match stream_of(callee, first_arg) {
        Some(stream) if args.len() >= 1 => match format_macro(
            stream.macro_name(),
            Some(stream.ln_macro_name()),
            None,
            args_from(args, stream.format_index()),
            Excess::Omit,
        ) {
            Ok(m) => Ok(Some((stream, m))),
            Err(e) => Err(e),
        },
        _ => Ok(None),
    }
}

/// What a call of `printf` or `fprintf` becomes.
#[derive(PartialEq, Eq, Debug)]
pub struct Print {
    /// Where the call prints to. This says where its format string is.
    pub stream: Stream,
    /// The macro invocation that takes the place of the call. In it,
    /// `Expr::Arg(i)` is the argument `i` places after the format string.
    pub mac: Mac,
}

/// The conversion of calls of `printf` and of `fprintf` to `stderr` into
/// invocations of `print!`, `println!`, `eprint!` and `eprintln!`.
pub struct ConvertPrintfs;

impl ConvertPrintfs {
    /// Tells which item of the C library a foreign item is, if any.
    pub fn foreign_item(&self, name: &str, kind: ForeignKind, no_mangle: bool) -> (r: Option<
        Libc,
    >)
        ensures
            r == libc_item(name@, kind, no_mangle),
    {
        if !no_mangle {
            return None;
        }
        match kind {
            ForeignKind::Fn => {
                if same_text(name, "printf") {
                    Some(Libc::Printf)
                } else if same_text(name, "fprintf") {
                    Some(Libc::Fprintf)
                } else {
                    None
                }
            },
            ForeignKind::Static => {
                if same_text(name, "stderr") {
                    Some(Libc::Stderr)
                } else {
                    None
                }
            },
            ForeignKind::Other => None,
        }
    }

    /// Converts a statement that is a call with the arguments `args`.
    /// `callee` and `first_arg` say what the called expression and the first
    /// argument resolve to. `Ok(None)` means that the statement stays as it
    /// is.
    pub fn transform(&self, callee: Option<Libc>, first_arg: Option<Libc>, args: &[Expr]) -> (r:
        Result<Option<Print>, FormatError>)
        ensures
            match printf_macro(callee, first_arg, args@) {
                Ok(Some((stream, m))) => r matches Ok(Some(out)) && out.stream == stream
                    && out.mac@ == m,
                Ok(None) => r matches Ok(None),
                Err(e) => r == Err::<Option<Print>, FormatError>(e),
            },
    {
        if args.len() < 1 {
            return Ok(None);
        }
        let stream = match (callee, first_arg) {
            (Some(Libc::Fprintf), Some(Libc::Stderr)) => Stream::Stderr,
            (Some(Libc::Printf), _) => Stream::Stdout,
            _ => {
                return Ok(None);
            },
        };
        let built = match stream {
            Stream::Stderr => build_format_macro(
                "eprint",
                Some("eprintln"),
                None,
                slice_subrange(args, 1, args.len()),
                Excess::Omit,
            ),
            Stream::Stdout => build_format_macro(
                "print",
                Some("println"),
                None,
                slice_subrange(args, 0, args.len()),
                Excess::Omit,
            ),
        };
        match built {
            Ok(mac) => Ok(Some(Print { stream, mac })),
            Err(e) => Err(e),
        }
    }
}

impl Stream {
    /// The position of the format string among the arguments of a call that
    /// prints to the stream.
    pub fn fmt_idx(&self) -> (r: usize)
        ensures
            r == self.format_index(),
    {
        match *self {
            Stream::Stdout => 0,
            Stream::Stderr => 1,
        }
    }
}

/// Tells whether two strings are the same text.
pub fn same_text(a: &str, b: &str) -> (r: bool)
    ensures
        r == (a@ == b@),
{
    let x = a.as_bytes();
    let y = b.as_bytes();
    proof {
        encode_utf8_decode_utf8(a@);
        encode_utf8_decode_utf8(b@);
    }
    if x.len() != y.len() {
        return false;
    }
    let mut i: usize = 0;
    while i < x.len()
        invariant
            i <= x@.len(),
            x@.len() == y@.len(),
            x@.subrange(0, i as int) == y@.subrange(0, i as int),
            x@ == encode_utf8(a@),
            y@ == encode_utf8(b@),
            x@ == y@ ==> a@ == b@,
        decreases x@.len() - i,
    {
        if x[i] != y[i] {
            return false;
        }
        i = i + 1;
    }
    proof {
        assert(x@.subrange(0, i as int) =~= x@);
        assert(y@.subrange(0, i as int) =~= y@);
    }
    true
}

} // verus!
