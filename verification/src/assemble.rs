//! From a format string to the text of the new format string and the table of
//! casts for the arguments that follow it.

use crate::ascii::{NEWLINE, NUL, PERCENT};
use crate::conv::{table_with, CastType};
use crate::error::FormatError;
use crate::parser::{lemma_conv_at_extent, piece_at, scan_from, Parser, Piece};
use crate::scan::lemma_position_of;
use std::collections::HashMap;
use vstd::prelude::*;
use vstd::slice::slice_subrange;

verus! {

broadcast use vstd::std_specs::hash::group_hash_axioms;

/// What a piece contributes to the new format string: its text as it is, or
/// the placeholder of its specifier.
pub open spec fn piece_text(s: Seq<u8>, p: Piece) -> Seq<u8> {
    match p {
        Piece::Text { start, end } => s.subrange(start as int, end as int),
        Piece::Conv { conv, .. } => conv.placeholder(),
    }
}

/// The casts that a piece asks for: those of its specifier, none for text.
pub open spec fn piece_casts(p: Piece) -> Seq<CastType> {
    match p {
        Piece::Text { .. } => Seq::<CastType>::empty(),
        Piece::Conv { conv, .. } => conv.casts(),
    }
}

/// The contributions of the pieces of `s`, one after the other.
pub open spec fn rendered(s: Seq<u8>, pieces: Seq<Piece>) -> Seq<u8>
    decreases pieces.len(),
{
    if pieces.len() == 0 {
        Seq::<u8>::empty()
    } else {
        rendered(s, pieces.drop_last()) + piece_text(s, pieces.last())
    }
}

/// The casts that the pieces ask for, in the order in which their specifiers
/// consume arguments: the first cast is for the first argument after the
/// format string.
pub open spec fn all_casts(pieces: Seq<Piece>) -> Seq<CastType>
    decreases pieces.len(),
{
    if pieces.len() == 0 {
        Seq::<CastType>::empty()
    } else {
        all_casts(pieces.drop_last()) + piece_casts(pieces.last())
    }
}

/// The offset of the first specifier that consumes more arguments than the
/// `avail` that follow the format string, if there is one.
pub open spec fn overrun(pieces: Seq<Piece>, avail: int) -> Option<usize>
    decreases pieces.len(),
{
    if pieces.len() == 0 {
        None
    } else {
        match overrun(pieces.drop_last(), avail) {
            Some(at) => Some(at),
            None => match pieces.last() {
                Piece::Conv { at, .. } if all_casts(pieces).len() > avail => Some(at),
                _ => None,
            },
        }
    }
}

/// `t` without the NULs at its end.
pub open spec fn strip_nuls(t: Seq<u8>) -> Seq<u8>
    decreases t.len(),
{
    if t.len() > 0 && t.last() == NUL {
        strip_nuls(t.drop_last())
    } else {
        t
    }
}

/// Whether `t` ends in a line feed.
pub open spec fn ends_in_newline(t: Seq<u8>) -> bool {
    t.len() > 0 && t.last() == NEWLINE
}

/// The outcome of converting a format string, as a value of specification.
pub struct Conversion {
    /// The new format string.
    pub text: Seq<u8>,
    /// Whether a line feed was taken from the end of the text, for an
    /// operation that ends the line by itself.
    pub newline: bool,
    /// The cast for each argument that a specifier consumes, by the index of
    /// the argument in the call. The format string has index 0.
    pub casts: Map<usize, CastType>,
}

/// What converting the format string `s` gives, where `avail` arguments follow
/// it in the call and `fold_newline` says whether a line feed at the end may
/// be left to the operation.
///
/// The first specifier, in the order of reading, that is malformed or that
/// consumes an argument that is not there is an error. Else the pieces are
/// rendered one after the other, NULs at the end are dropped, and the casts
/// are entered from argument 1 on.
pub open spec fn conversion(s: Seq<u8>, avail: int, fold_newline: bool) -> Result<
    Conversion,
    FormatError,
> {
    let scan = scan_from(s, 0);
    match overrun(scan.pieces, avail) {
        Some(at) => Err(FormatError::MalformedSpecifier { offset: at }),
        None => match scan.stopped {
            Some(offset) => Err(FormatError::MalformedSpecifier { offset }),
            None => {
                let full = strip_nuls(rendered(s, scan.pieces));
                let newline = fold_newline && ends_in_newline(full);
                Ok(
                    Conversion {
                        text: if newline {
                            full.drop_last()
                        } else {
                            full
                        },
                        newline,
                        casts: table_with(Map::empty(), 1, all_casts(scan.pieces)),
                    },
                )
            },
        },
    }
}

/// A converted format string.
pub struct Converted {
    /// The new format string.
    pub text: Vec<u8>,
    /// Whether a line feed was taken from the end of the text, for an
    /// operation that ends the line by itself.
    pub newline: bool,
    /// The cast for each argument that a specifier consumes, by the index of
    /// the argument in the call. The format string has index 0.
    pub casts: HashMap<usize, CastType>,
}

impl View for Converted {
    type V = Conversion;

    open spec fn view(&self) -> Conversion {
        Conversion { text: self.text@, newline: self.newline, casts: self.casts@ }
    }
}

/// The casts of one piece alone.
pub proof fn lemma_all_casts_one(p: Piece)
    ensures
        all_casts(seq![p]) == piece_casts(p),
{
    assert(all_casts(seq![p].drop_last()) =~= Seq::<CastType>::empty());
}

/// What one piece alone renders.
pub proof fn lemma_rendered_one(s: Seq<u8>, p: Piece)
    ensures
        rendered(s, seq![p]) == piece_text(s, p),
{
    assert(rendered(s, seq![p].drop_last()) =~= Seq::<u8>::empty());
}

/// The casts of pieces put end to end are their casts put end to end.
pub proof fn lemma_all_casts_concat(a: Seq<Piece>, b: Seq<Piece>)
    ensures
        all_casts(a + b) == all_casts(a) + all_casts(b),
    decreases b.len(),
{
    if b.len() > 0 {
        assert((a + b).drop_last() =~= a + b.drop_last());
        lemma_all_casts_concat(a, b.drop_last());
    }
}

/// A format string is longer than the number of arguments that its
/// specifiers consume.
pub proof fn lemma_casts_fit(s: Seq<u8>, pos: int)
    requires
        0 <= pos <= s.len(),
    ensures
        ({
            let casts = all_casts(scan_from(s, pos).pieces);
            casts.len() <= s.len() - pos && (casts.len() == 0 || casts.len() < s.len() - pos)
        }),
    decreases s.len() - pos,
{
    if pos < s.len() {
        if let Some((piece, next)) = piece_at(s, pos) {
            lemma_position_of(s, PERCENT, pos + 1);
            lemma_conv_at_extent(s, pos + 1);
            lemma_casts_fit(s, next);
            lemma_all_casts_concat(seq![piece], scan_from(s, next).pieces);
            lemma_all_casts_one(piece);
        }
    }
}

/// A specifier that overruns the arguments among the first pieces overruns
/// them among all.
pub proof fn lemma_overrun_prefix(pieces: Seq<Piece>, k: int, avail: int)
    requires
        0 <= k <= pieces.len(),
        overrun(pieces.take(k), avail) is Some,
    ensures
        overrun(pieces, avail) == overrun(pieces.take(k), avail),
    decreases pieces.len() - k,
{
    if k == pieces.len() {
        assert(pieces.take(k) =~= pieces);
    } else {
        assert(pieces.drop_last().take(k) =~= pieces.take(k));
        lemma_overrun_prefix(pieces.drop_last(), k, avail);
    }
}

/// Converts the format string `fmt` of a call in which `avail` arguments
/// follow it. With `fold_newline`, a line feed at the end of the new text is
/// taken off and reported.
///
/// The pieces are taken from the scanner one by one and used up as they
/// come: text is copied, a specifier is rendered and its casts are entered.
pub fn convert_format(fmt: &[u8], avail: usize, fold_newline: bool) -> (r: Result<
    Converted,
    FormatError,
>)
    ensures
        match conversion(fmt@, avail as int, fold_newline) {
            Ok(c) => r matches Ok(out) && out@ == c,
            Err(e) => r == Err::<Converted, FormatError>(e),
        },
{
    let mut parser = Parser::new(fmt);
    let mut new_s: Vec<u8> = Vec::with_capacity(fmt.len());
    let mut casts: HashMap<usize, CastType> = HashMap::new();
    let mut idx: usize = 1;
    let mut at_end = false;
    let ghost mut done = Seq::<Piece>::empty();
    proof {
        lemma_casts_fit(fmt@, 0);
    }
    while !at_end
        invariant
            parser.source() == fmt@,
            0 <= parser.position() <= fmt@.len() <= usize::MAX,
            at_end ==> parser.position() == fmt@.len(),
            scan_from(fmt@, 0).pieces == done + scan_from(fmt@, parser.position()).pieces,
            scan_from(fmt@, 0).stopped == scan_from(fmt@, parser.position()).stopped,
            new_s@ == rendered(fmt@, done),
            casts@ == table_with(Map::empty(), 1, all_casts(done)),
            idx == 1 + all_casts(done).len(),
            idx - 1 <= avail,
            all_casts(scan_from(fmt@, 0).pieces).len() < fmt@.len() || all_casts(
                scan_from(fmt@, 0).pieces,
            ).len() == 0,
            overrun(done, avail as int) is None,
        decreases
                (if at_end {
                    0
                } else {
                    1 + fmt@.len() - parser.position()
                }),
    {
        let ghost had = done;
        match parser.next_piece() {
            Err(e) => {
                return Err(e);
            },
            Ok(None) => {
                at_end = true;
            },
            Ok(Some(piece)) => {
                proof {
                    done = had.push(piece);
                    let rest = scan_from(fmt@, parser.position()).pieces;
                    assert(had + (seq![piece] + rest) =~= done + rest);
                    assert(done.drop_last() =~= had);
                    lemma_all_casts_concat(done, rest);
                }
                match piece {
                    Piece::Text { start, end } => {
                        new_s.extend_from_slice(slice_subrange(fmt, start, end));
                    },
                    Piece::Conv { at, conv } => {
                        if conv.arity() > avail - (idx - 1) {
                            proof {
                                let all = scan_from(fmt@, 0).pieces;
                                assert(all.take(done.len() as int) =~= done);
                                lemma_overrun_prefix(all, done.len() as int, avail as int);
                            }
                            return Err(FormatError::MalformedSpecifier { offset: at });
                        }
                        conv.push_spec(&mut new_s);
                        conv.add_casts(&mut idx, &mut casts);
                    },
                }
            },
        }
    }
    let ghost full = new_s@;
    while new_s.len() > 0 && new_s[new_s.len() - 1] == NUL
        invariant
            strip_nuls(new_s@) == strip_nuls(full),
        decreases new_s@.len(),
    {
        new_s.pop();
    }
    let newline = fold_newline && new_s.len() > 0 && new_s[new_s.len() - 1] == NEWLINE;
    if newline {
        new_s.pop();
    }
    Ok(Converted { text: new_s, newline, casts })
}

} // verus!
