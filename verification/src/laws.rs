//! What holds of every conversion.

use crate::ascii::{DOT, NUL, PERCENT, STAR};
use crate::assemble::{
    all_casts, conversion, lemma_all_casts_one, lemma_casts_fit, lemma_rendered_one, overrun,
    ends_in_newline, piece_casts, piece_text, rendered, strip_nuls, Conversion,
};
use crate::conv::{table_with, Amount, CastType, Conv};
use crate::decimal::{decimal, is_digit, lemma_decimal_is_digits, lemma_decimal_round_trip};
use crate::error::FormatError;
use crate::expr::Expr;
use crate::mac::{coerced, first_undecodable, format_macro, format_source, Excess};
use crate::parser::{
    amount_at, conv_at, lemma_digits_end, lemma_piece_at, piece_at, pieces, pieces_from,
    scan_from, type_of, Piece,
};
use crate::scan::lemma_position_of;
use vstd::prelude::*;

verus! {

/// A format string without `%` is text from end to end: it has no piece, or
/// one piece that spans it.
pub proof fn lemma_pieces_of_text(s: Seq<u8>)
    requires
        s.len() <= usize::MAX,
        forall|i: int| 0 <= i < s.len() ==> s[i] != PERCENT,
    ensures
        pieces(s) == Ok::<Seq<Piece>, FormatError>(
            if s.len() == 0 {
                Seq::<Piece>::empty()
            } else {
                seq![Piece::Text { start: 0, end: s.len() as usize }]
            },
        ),
{
    if s.len() > 0 {
        lemma_position_of(s, PERCENT, 0);
        assert(scan_from(s, s.len() as int).pieces == Seq::<Piece>::empty());
    }
}

/// A format string without `%` is converted to itself, less the NULs at its
/// end and less the line feed that is left to the operation, and no argument
/// is cast.
pub proof fn law_text_is_kept(s: Seq<u8>, avail: int, fold_newline: bool)
    requires
        s.len() <= usize::MAX,
        0 <= avail,
        forall|i: int| 0 <= i < s.len() ==> s[i] != PERCENT,
    ensures
        conversion(s, avail, fold_newline) matches Ok(c) && c.casts == Map::<
            usize,
            CastType,
        >::empty() && c.newline == (fold_newline && ends_in_newline(strip_nuls(s))) && c.text
            == if c.newline {
            strip_nuls(s).drop_last()
        } else {
            strip_nuls(s)
        },
        !fold_newline ==> conversion(s, avail, fold_newline) == Ok::<Conversion, FormatError>(
            Conversion { text: strip_nuls(s), newline: false, casts: Map::empty() },
        ),
{
    lemma_pieces_of_text(s);
    let ps = pieces(s)->Ok_0;
    if s.len() > 0 {
        let whole = Piece::Text { start: 0, end: s.len() as usize };
        lemma_all_casts_one(whole);
        lemma_rendered_one(s, whole);
        assert(overrun(ps.drop_last(), avail) is None);
    }
    assert(rendered(s, ps) == s);
}

/// `%%` is the text `%` and consumes no argument: where one `%` follows
/// another at the beginning of a piece, the piece is the text of the second,
/// no cast is asked for, and reading goes on after the two.
pub proof fn law_escaped_percent(s: Seq<u8>, pos: int)
    requires
        0 <= pos,
        pos + 1 < s.len() <= usize::MAX,
        s[pos] == PERCENT,
        s[pos + 1] == PERCENT,
    ensures
        ({
            let escaped = Piece::Text { start: (pos + 1) as usize, end: (pos + 2) as usize };
            &&& piece_at(s, pos) == Some((escaped, pos + 2))
            &&& piece_text(s, escaped) == seq![PERCENT]
            &&& piece_casts(escaped) == Seq::<CastType>::empty()
        }),
{
}

/// The part of the format string that a piece stands for, as the positions
/// of its first byte and after its last: for text its span, from the first
/// `%` on where the text is an escaped `%`, and for a specifier the span from
/// its `%` to its type letter.
pub open spec fn piece_span(s: Seq<u8>, p: Piece) -> (int, int) {
    match p {
        Piece::Text { start, end } => if start < s.len() && s[start as int] == PERCENT {
            (start - 1, end as int)
        } else {
            (start as int, end as int)
        },
        Piece::Conv { at, .. } => match conv_at(s, at + 1) {
            Some((_, next)) => (at as int, next),
            None => (at as int, at as int),
        },
    }
}

/// Whether the pieces stand for the part `from..to` of the format string, one
/// after the other, without a gap and without an overlap, and none of them for
/// nothing.
pub open spec fn tiles(s: Seq<u8>, ps: Seq<Piece>, from: int, to: int) -> bool
    decreases ps.len(),
{
    if ps.len() == 0 {
        from == to
    } else {
        let (first, next) = piece_span(s, ps[0]);
        first == from && from < next && tiles(s, ps.drop_first(), next, to)
    }
}

/// The pieces of a format string cover it: from any position on, the pieces
/// that are read stand for all that follows, in order, each byte in one
/// piece, up to the end or to the first malformed specifier.
pub proof fn law_pieces_cover(s: Seq<u8>, pos: int)
    requires
        0 <= pos <= s.len() <= usize::MAX,
    ensures
        ({
            let scan = scan_from(s, pos);
            tiles(
                s,
                scan.pieces,
                pos,
                match scan.stopped {
                    Some(offset) => offset as int,
                    None => s.len() as int,
                },
            )
        }),
    decreases s.len() - pos,
{
    if pos < s.len() {
        lemma_piece_at(s, pos);
        if let Some((piece, next)) = piece_at(s, pos) {
            law_pieces_cover(s, next);
            let rest = scan_from(s, next).pieces;
            assert((seq![piece] + rest).drop_first() =~= rest);
        }
    }
}

/// A `%` that is followed by the end of the string, or by a byte that begins
/// neither a width nor a precision and is no type letter, is a malformed
/// specifier, and the pieces from there on are that error.
pub proof fn law_unrecognized_letter(s: Seq<u8>, pos: int)
    requires
        0 <= pos < s.len() <= usize::MAX,
        s[pos] == PERCENT,
        pos + 1 < s.len() ==> {
            let b = s[pos + 1];
            b != PERCENT && b != STAR && b != DOT && !is_digit(b) && type_of(b) is None
        },
    ensures
        pieces_from(s, pos) == Err::<Seq<Piece>, FormatError>(
            FormatError::MalformedSpecifier { offset: pos as usize },
        ),
{
}

/// A format string with a malformed specifier is not converted, whatever
/// stands before the specifier and however many arguments there are: the
/// outcome is an error, and no text or table comes with it.
pub proof fn law_malformed_is_not_converted(s: Seq<u8>, avail: int, fold_newline: bool)
    ensures
        pieces(s) is Err ==> conversion(s, avail, fold_newline) is Err,
{
}

/// An amount is read as it is written: the text that a placeholder holds for
/// a width or a precision is, for the scanner, that same amount.
pub proof fn law_amount_round_trip(amount: Amount)
    ensures
        amount_at(amount.text(), 0) == Some((amount, amount.text().len() as int)),
{
    match amount {
        Amount::NextArg => {},
        Amount::Number(n) => {
            let d = decimal(n as nat);
            lemma_decimal_is_digits(n as nat);
            lemma_decimal_round_trip(n as nat);
            lemma_digits_end(d, 0);
            assert(d.subrange(0, d.len() as int) =~= d);
        },
    }
}

/// The table of casts has one entry for each argument that a specifier
/// consumes and no other: the arguments 1 to `n`, where `n` is the number of
/// casts that the specifiers ask for, and `n` arguments are there. The
/// entries are the casts in the order of the specifiers.
pub proof fn law_table_is_contiguous(s: Seq<u8>, avail: int, fold_newline: bool)
    requires
        s.len() <= usize::MAX,
        0 <= avail,
    ensures
        conversion(s, avail, fold_newline) matches Ok(c) ==> ({
            let casts = all_casts(scan_from(s, 0).pieces);
            &&& casts.len() <= avail
            &&& casts.len() < usize::MAX
            &&& forall|k: usize| c.casts.contains_key(k) <==> 1 <= k <= casts.len()
            &&& forall|k: usize| 1 <= k <= casts.len() ==> c.casts[k] == casts[k - 1]
        }),
{
    if let Ok(c) = conversion(s, avail, fold_newline) {
        lemma_casts_fit(s, 0);
        lemma_no_overrun(scan_from(s, 0).pieces, avail);
    }
}

/// Where no specifier overruns the arguments, the casts are no more than the
/// arguments.
pub proof fn lemma_no_overrun(pieces: Seq<Piece>, avail: int)
    requires
        0 <= avail,
        overrun(pieces, avail) is None,
    ensures
        all_casts(pieces).len() <= avail,
    decreases pieces.len(),
{
    if pieces.len() > 0 {
        lemma_no_overrun(pieces.drop_last(), avail);
    }
}

/// The table of casts depends on the format string alone: not on how many
/// arguments follow it, as long as they are enough, nor on what is done with
/// a line feed at its end.
pub proof fn law_table_is_stable(
    s: Seq<u8>,
    avail: int,
    fold_newline: bool,
    other_avail: int,
    other_fold_newline: bool,
)
    ensures
        conversion(s, avail, fold_newline) matches Ok(c) ==> (conversion(
            s,
            other_avail,
            other_fold_newline,
        ) matches Ok(d) ==> c.casts == d.casts),
{
}

/// The arguments of the macro invocation, one by one. Where the specifiers
/// ask for the casts `casts` and the call has `nargs` arguments with the
/// format string, the first arguments of the invocation are the arguments
/// 1, 2, .. of the call, each in its cast. The others follow as they are
/// where they are kept, and are missing where they are left out.
pub proof fn law_arguments(casts: Seq<CastType>, nargs: int, excess: Excess)
    requires
        casts.len() < nargs <= usize::MAX,
    ensures
        ({
            let out = coerced(table_with(Map::empty(), 1, casts), excess, nargs);
            &&& out.len() == if excess == Excess::Keep {
                nargs - 1
            } else {
                casts.len() as int
            }
            &&& forall|j: int|
                0 <= j < casts.len() ==> #[trigger] out[j] == casts[j].applied(
                    Expr::Arg((j + 1) as usize),
                )
            &&& forall|j: int|
                casts.len() <= j < out.len() ==> #[trigger] out[j] == Expr::Arg((j + 1) as usize)
        }),
{
    lemma_arguments_upto(casts, nargs, excess);
}

/// The arguments of the macro invocation that come from the arguments before
/// `upto`, one by one.
proof fn lemma_arguments_upto(casts: Seq<CastType>, upto: int, excess: Excess)
    requires
        1 <= upto <= usize::MAX,
    ensures
        ({
            let out = coerced(table_with(Map::empty(), 1, casts), excess, upto);
            let cast = if upto - 1 < casts.len() {
                upto - 1
            } else {
                casts.len() as int
            };
            &&& out.len() == if excess == Excess::Keep {
                upto - 1
            } else {
                cast
            }
            &&& forall|j: int|
                0 <= j < cast ==> #[trigger] out[j] == casts[j].applied(
                    Expr::Arg((j + 1) as usize),
                )
            &&& forall|j: int|
                cast <= j < out.len() ==> #[trigger] out[j] == Expr::Arg((j + 1) as usize)
        }),
    decreases upto,
{
    if upto > 1 {
        lemma_arguments_upto(casts, upto - 1, excess);
    }
}

/// What `strip_nuls` leaves: the longest beginning of the text that does not
/// end in NUL. All that it drops is NUL.
pub proof fn law_strip_nuls(t: Seq<u8>)
    ensures
        ({
            let kept = strip_nuls(t);
            &&& kept.len() <= t.len()
            &&& kept == t.take(kept.len() as int)
            &&& kept.len() > 0 ==> kept.last() != NUL
            &&& forall|i: int| kept.len() <= i < t.len() ==> t[i] == NUL
        }),
    decreases t.len(),
{
    if t.len() > 0 && t.last() == NUL {
        law_strip_nuls(t.drop_last());
        let kept = strip_nuls(t);
        let front = t.drop_last();
        assert forall|i: int| kept.len() <= i < t.len() implies t[i] == NUL by {
            if i < front.len() {
                assert(front[i] == NUL);
            }
        }
    }
}

/// Without a cast in the table no argument is undecodable.
proof fn lemma_nothing_undecodable(fmt_args: Seq<Expr>, from: int)
    ensures
        first_undecodable(Map::<usize, CastType>::empty(), fmt_args, from) is None,
    decreases fmt_args.len() - from,
{
    if 0 <= from < fmt_args.len() {
        lemma_nothing_undecodable(fmt_args, from + 1);
    }
}

/// A call whose format string holds no `%` becomes a macro invocation in
/// which no argument is cast, whatever follows the format string: the
/// invocation has no arguments where those that no specifier consumes are
/// left out, and has them as they are where they are kept. Its format string
/// is the old one, less the NULs at its end and less the line feed that is
/// left to the macro that ends the line.
///
/// The format string is that of the first argument: no other expression is
/// marked as the literal to read.
pub proof fn law_text_has_no_casts(
    macro_name: Seq<char>,
    ln_macro_name: Option<Seq<char>>,
    fmt_args: Seq<Expr>,
    excess: Excess,
)
    requires
        fmt_args.len() <= usize::MAX,
        format_source(None, fmt_args) matches Some(src) && src.len() <= usize::MAX && forall|
            i: int,
        | 0 <= i < src.len() ==> src[i] != PERCENT,
    ensures
        format_macro(macro_name, ln_macro_name, None, fmt_args, excess) matches Ok(m) && ({
            let src = format_source(None, fmt_args)->Some_0;
            let folded = ln_macro_name is Some && ends_in_newline(strip_nuls(src));
            &&& m.name == if folded {
                ln_macro_name->Some_0
            } else {
                macro_name
            }
            &&& m.format == if folded {
                strip_nuls(src).drop_last()
            } else {
                strip_nuls(src)
            }
            &&& excess == Excess::Omit ==> m.args == Seq::<Expr>::empty()
            &&& excess == Excess::Keep ==> m.args.len() == fmt_args.len() - 1 && forall|j: int|
                0 <= j < m.args.len() ==> #[trigger] m.args[j] == Expr::Arg((j + 1) as usize)
        }),
{
    let src = format_source(None, fmt_args)->Some_0;
    law_text_is_kept(src, fmt_args.len() - 1, ln_macro_name is Some);
    lemma_nothing_undecodable(fmt_args, 1);
    assert(table_with(Map::empty(), 1, Seq::<CastType>::empty()) =~= Map::<
        usize,
        CastType,
    >::empty());
    law_arguments(Seq::<CastType>::empty(), fmt_args.len() as int, excess);
}

/// What `Conv::add_casts` leaves behind is fixed by what it is given: two
/// calls for the same specifier that begin with the same index and the same
/// table end with the same index and the same table, whatever went before
/// and however the table is kept.
pub proof fn law_casts_are_determined(
    conv: Conv,
    idx: usize,
    table: Map<usize, CastType>,
    idx_once: usize,
    table_once: Map<usize, CastType>,
    idx_again: usize,
    table_again: Map<usize, CastType>,
)
    requires
        idx_once == idx + conv.casts().len(),
        table_once == table_with(table, idx as int, conv.casts()),
        idx_again == idx + conv.casts().len(),
        table_again == table_with(table, idx as int, conv.casts()),
    ensures
        idx_once == idx_again,
        table_once == table_again,
{
}

} // verus!
