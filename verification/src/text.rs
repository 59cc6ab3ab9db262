//! The conversion keeps text valid: a format string that is valid UTF-8 is
//! converted to one that is. The scanner cuts only at ASCII characters, and
//! what it puts in is ASCII.

use crate::ascii::{NUL, PERCENT};
use crate::assemble::{conversion, ends_in_newline, piece_text, rendered, strip_nuls};
use crate::conv::{Amount, Conv};
use crate::decimal::lemma_decimal_is_digits;
use crate::parser::{conv_at, find_percent, lemma_piece_at, piece_at, scan_from, Piece};
use crate::scan::lemma_position_of;
use vstd::prelude::*;
use vstd::utf8::{
    encode_utf8, encode_utf8_valid_utf8, is_ascii_chars_encode_utf8, is_char_boundary,
    is_char_boundary_iff_not_is_continuation_byte, is_char_boundary_start_end_of_seq,
    is_continuation_byte, valid_utf8, valid_utf8_concat, valid_utf8_split,
};

verus! {

/// Whether every byte of `b` is ASCII.
pub open spec fn is_ascii(b: Seq<u8>) -> bool {
    forall|i: int| 0 <= i < b.len() ==> #[trigger] b[i] <= 0x7f
}

/// Whether a character can begin at `p`: `p` is the end of `s`, or the byte
/// at `p` does not continue a character.
pub open spec fn starts_char(s: Seq<u8>, p: int) -> bool {
    p >= s.len() || !is_continuation_byte(s[p])
}

/// ASCII is valid UTF-8.
pub proof fn lemma_ascii_is_valid(b: Seq<u8>)
    requires
        is_ascii(b),
    ensures
        valid_utf8(b),
{
    let chars = Seq::new(b.len(), |i: int| b[i] as char);
    is_ascii_chars_encode_utf8(chars);
    encode_utf8_valid_utf8(chars);
    assert(encode_utf8(chars) =~= b);
}

/// In valid text, a position where a character can begin is a character
/// boundary.
proof fn lemma_boundary(s: Seq<u8>, p: int)
    requires
        valid_utf8(s),
        0 <= p <= s.len(),
        starts_char(s, p),
    ensures
        is_char_boundary(s, p),
{
    if p == s.len() {
        is_char_boundary_start_end_of_seq(s);
    } else {
        is_char_boundary_iff_not_is_continuation_byte(s, p);
    }
}

/// A slice of valid text between two positions where characters can begin is
/// valid text.
pub proof fn lemma_valid_slice(s: Seq<u8>, a: int, b: int)
    requires
        valid_utf8(s),
        0 <= a <= b <= s.len(),
        starts_char(s, a),
        starts_char(s, b),
    ensures
        valid_utf8(s.subrange(a, b)),
{
    lemma_boundary(s, a);
    valid_utf8_split(s, a);
    let t = s.subrange(a, s.len() as int);
    lemma_boundary(t, b - a);
    valid_utf8_split(t, b - a);
    assert(t.subrange(0, b - a) =~= s.subrange(a, b));
}

/// In valid text, a character can begin after an ASCII byte.
pub proof fn lemma_after_ascii(s: Seq<u8>, p: int)
    requires
        valid_utf8(s),
        0 <= p < s.len(),
        s[p] <= 0x7f,
    ensures
        starts_char(s, p + 1),
{
    if p + 1 < s.len() {
        lemma_boundary(s, p);
        valid_utf8_split(s, p);
        let t = s.subrange(p, s.len() as int);
        assert(is_char_boundary(t, 1)) by {
            reveal_with_fuel(is_char_boundary, 2);
        }
        is_char_boundary_iff_not_is_continuation_byte(t, 1);
    }
}

/// A placeholder is ASCII.
pub proof fn lemma_placeholder_is_ascii(conv: Conv)
    ensures
        is_ascii(conv.placeholder()),
{
    if let Some(Amount::Number(n)) = conv.width {
        lemma_decimal_is_digits(n as nat);
    }
    if let Some(Amount::Number(n)) = conv.prec {
        lemma_decimal_is_digits(n as nat);
    }
}

/// A piece of valid text that begins where a character can begin renders to
/// valid text, and a character can begin after it.
pub proof fn lemma_piece_is_valid(s: Seq<u8>, pos: int)
    requires
        valid_utf8(s),
        0 <= pos < s.len() <= usize::MAX,
        starts_char(s, pos),
    ensures
        piece_at(s, pos) matches Some((piece, next)) ==> valid_utf8(piece_text(s, piece))
            && starts_char(s, next),
{
    lemma_piece_at(s, pos);
    if s[pos] != PERCENT {
        lemma_position_of(s, PERCENT, pos + 1);
        lemma_valid_slice(s, pos, find_percent(s, pos));
    } else if pos + 1 < s.len() && s[pos + 1] == PERCENT {
        lemma_after_ascii(s, pos + 1);
        lemma_valid_slice(s, pos + 1, pos + 2);
    } else if let Some((conv, next)) = conv_at(s, pos + 1) {
        lemma_after_ascii(s, next - 1);
        lemma_placeholder_is_ascii(conv);
        lemma_ascii_is_valid(conv.placeholder());
    }
}

/// The pieces that are read from valid text, from a position where a
/// character can begin, render to valid text, each of them.
pub proof fn lemma_pieces_are_valid(s: Seq<u8>, pos: int)
    requires
        valid_utf8(s),
        0 <= pos <= s.len() <= usize::MAX,
        starts_char(s, pos),
    ensures
        forall|i: int|
            0 <= i < scan_from(s, pos).pieces.len() ==> valid_utf8(
                #[trigger] piece_text(s, scan_from(s, pos).pieces[i]),
            ),
    decreases s.len() - pos,
{
    if pos < s.len() {
        lemma_piece_at(s, pos);
        lemma_piece_is_valid(s, pos);
        if let Some((_, next)) = piece_at(s, pos) {
            lemma_pieces_are_valid(s, next);
        }
    }
}

/// Pieces that each render to valid text render to valid text together.
pub proof fn lemma_rendered_is_valid(s: Seq<u8>, ps: Seq<Piece>)
    requires
        forall|i: int| 0 <= i < ps.len() ==> valid_utf8(#[trigger] piece_text(s, ps[i])),
    ensures
        valid_utf8(rendered(s, ps)),
    decreases ps.len(),
{
    if ps.len() > 0 {
        lemma_rendered_is_valid(s, ps.drop_last());
        valid_utf8_concat(rendered(s, ps.drop_last()), piece_text(s, ps.last()));
    }
}

/// Valid text without its last byte is valid text, where that byte is ASCII.
pub proof fn lemma_drop_last_ascii(t: Seq<u8>)
    requires
        valid_utf8(t),
        t.len() > 0,
        t.last() <= 0x7f,
    ensures
        valid_utf8(t.drop_last()),
{
    lemma_valid_slice(t, 0, t.len() - 1);
}

/// Valid text without the NULs at its end is valid text.
pub proof fn lemma_strip_nuls_is_valid(t: Seq<u8>)
    requires
        valid_utf8(t),
    ensures
        valid_utf8(strip_nuls(t)),
    decreases t.len(),
{
    if t.len() > 0 && t.last() == NUL {
        lemma_drop_last_ascii(t);
        lemma_strip_nuls_is_valid(t.drop_last());
    }
}

/// A format string that is valid UTF-8 is converted to one that is.
pub proof fn law_text_stays_valid(s: Seq<u8>, avail: int, fold_newline: bool)
    requires
        valid_utf8(s),
        s.len() <= usize::MAX,
    ensures
        conversion(s, avail, fold_newline) matches Ok(c) ==> valid_utf8(c.text),
{
    if let Ok(c) = conversion(s, avail, fold_newline) {
        let ps = scan_from(s, 0).pieces;
        lemma_pieces_are_valid(s, 0);
        lemma_rendered_is_valid(s, ps);
        lemma_strip_nuls_is_valid(rendered(s, ps));
        let full = strip_nuls(rendered(s, ps));
        if fold_newline && ends_in_newline(full) {
            lemma_drop_last_ascii(full);
        }
    }
}

} // verus!
