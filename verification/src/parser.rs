//! The scanner that cuts a `printf` format string into pieces: spans of
//! literal text and conversion specifiers.
//!
//! A specifier is `%`, an optional width, an optional precision after a dot,
//! and a type letter. Width and precision are each a run of decimal digits or
//! `*`. `%%` stands for a literal `%`.

use crate::ascii::{DOT, LOWER_C, LOWER_D, LOWER_S, LOWER_U, LOWER_X, PERCENT, STAR, UPPER_X};
use crate::conv::{Amount, Conv, ConvType};
use crate::decimal::{all_digits, digit, digits_value, is_digit, parse_decimal};
use crate::error::FormatError;
use crate::scan::{find, lemma_position_of, position_of};
use vstd::prelude::*;
use vstd::slice::slice_subrange;

verus! {

/// One piece of a format string.
#[derive(Clone, Copy, PartialEq, Eq, Debug)]
pub enum Piece {
    /// The bytes `start..end` of the format string, to be copied as they are.
    /// For `%%` this is the span of the second `%`.
    Text { start: usize, end: usize },
    /// The conversion specifier whose `%` stands at byte `at`.
    Conv { at: usize, conv: Conv },
}

/// The first position at or after `from` that holds `%`, or the length of `s`
/// where there is none.
pub open spec fn find_percent(s: Seq<u8>, from: int) -> int {
    position_of(s, PERCENT, from)
}

/// The first position at or after `from` that holds no decimal digit, or the
/// length of `s` where there is none.
pub open spec fn digits_end(s: Seq<u8>, from: int) -> int
    decreases s.len() - from,
{
    if from < 0 || from >= s.len() {
        s.len() as int
    } else if !is_digit(s[from]) {
        from
    } else {
        digits_end(s, from + 1)
    }
}

/// The width or precision that is written at `pos`, and where it ends: `*`,
/// or the longest run of digits, which must not be empty and must write a
/// number that fits in a `usize`. `None` where no amount stands at `pos`.
pub open spec fn amount_at(s: Seq<u8>, pos: int) -> Option<(Amount, int)> {
    if 0 <= pos < s.len() && s[pos] == STAR {
        Some((Amount::NextArg, pos + 1))
    } else {
        let end = digits_end(s, pos);
        let value = digits_value(s.subrange(pos, end));
        if 0 <= pos < end && value <= usize::MAX {
            Some((Amount::Number(value as usize), end))
        } else {
            None
        }
    }
}

/// The optional width at `pos` and where the specifier goes on after it. A
/// width is there if a digit or `*` stands at `pos`. `None` where a width is
/// there and is not an amount.
pub open spec fn width_at(s: Seq<u8>, pos: int) -> Option<(Option<Amount>, int)> {
    if 0 <= pos < s.len() && (is_digit(s[pos]) || s[pos] == STAR) {
        match amount_at(s, pos) {
            Some((amount, end)) => Some((Some(amount), end)),
            None => None,
        }
    } else {
        Some((None, pos))
    }
}

/// The optional precision at `pos` and where the specifier goes on after it.
/// A precision is there if a dot stands at `pos`. `None` where no amount
/// follows the dot.
pub open spec fn prec_at(s: Seq<u8>, pos: int) -> Option<(Option<Amount>, int)> {
    if 0 <= pos < s.len() && s[pos] == DOT {
        match amount_at(s, pos + 1) {
            Some((amount, end)) => Some((Some(amount), end)),
            None => None,
        }
    } else {
        Some((None, pos))
    }
}

/// What the type letter `b` converts, if it is one.
pub open spec fn type_of(b: u8) -> Option<ConvType> {
    if b == LOWER_D {
        Some(ConvType::Int)
    } else if b == LOWER_U {
        Some(ConvType::Uint)
    } else if b == LOWER_X {
        Some(ConvType::Hex(false))
    } else if b == UPPER_X {
        Some(ConvType::Hex(true))
    } else if b == LOWER_C {
        Some(ConvType::Char)
    } else if b == LOWER_S {
        Some(ConvType::Str)
    } else {
        None
    }
}

/// The type letter at `pos`. `None` at the end of the string and at any other
/// byte.
pub open spec fn type_at(s: Seq<u8>, pos: int) -> Option<ConvType> {
    if 0 <= pos < s.len() {
        type_of(s[pos])
    } else {
        None
    }
}

/// The specifier whose text begins at `pos`, just after its `%`, and the
/// position after its type letter. `None` where the text is no specifier.
pub open spec fn conv_at(s: Seq<u8>, pos: int) -> Option<(Conv, int)> {
    match width_at(s, pos) {
        None => None,
        Some((width, after_width)) => match prec_at(s, after_width) {
            None => None,
            Some((prec, after_prec)) => match type_at(s, after_prec) {
                None => None,
                Some(ty) => Some((Conv { ty, width, prec }, after_prec + 1)),
            },
        },
    }
}

/// The piece that begins at `pos`, and the position after it. Text runs up to
/// the next `%` or to the end. At a `%`: `%%` is the text `%`; anything else
/// must be a specifier, and the result is `None` where it is none.
pub open spec fn piece_at(s: Seq<u8>, pos: int) -> Option<(Piece, int)> {
    if s[pos] != PERCENT {
        let end = find_percent(s, pos);
        Some((Piece::Text { start: pos as usize, end: end as usize }, end))
    } else if pos + 1 < s.len() && s[pos + 1] == PERCENT {
        Some((Piece::Text { start: (pos + 1) as usize, end: (pos + 2) as usize }, pos + 2))
    } else {
        match conv_at(s, pos + 1) {
            Some((conv, next)) => Some((Piece::Conv { at: pos as usize, conv }, next)),
            None => None,
        }
    }
}

/// Whether the piece lies between the positions `lo` and `hi`.
pub open spec fn piece_within(p: Piece, lo: int, hi: int) -> bool {
    match p {
        Piece::Text { start, end } => lo <= start <= end <= hi,
        Piece::Conv { at, .. } => lo <= at < hi,
    }
}

/// Where `digits_end` lands: at or after `from`, on a byte that is no digit or
/// at the end, with digits only on the way.
pub proof fn lemma_digits_end(s: Seq<u8>, from: int)
    requires
        0 <= from <= s.len(),
    ensures
        from <= digits_end(s, from) <= s.len(),
        digits_end(s, from) < s.len() ==> !is_digit(s[digits_end(s, from)]),
        all_digits(s.subrange(from, digits_end(s, from))),
    decreases s.len() - from,
{
    if from < s.len() && is_digit(s[from]) {
        lemma_digits_end(s, from + 1);
        let end = digits_end(s, from);
        assert forall|i: int| 0 <= i < end - from implies is_digit(
            #[trigger] s.subrange(from, end)[i],
        ) by {
            if i > 0 {
                assert(s.subrange(from, end)[i] == s.subrange(from + 1, end)[i - 1]);
            }
        }
    }
}

/// A specifier ends within the string, and it is at least as long as the
/// number of arguments that it consumes: each `*` and the type letter stand
/// for one.
pub proof fn lemma_conv_at_extent(s: Seq<u8>, pos: int)
    requires
        0 <= pos <= s.len(),
    ensures
        conv_at(s, pos) matches Some((conv, next)) ==> pos < pos + conv.casts().len() <= next
            <= s.len(),
{
    lemma_digits_end(s, pos);
    if let Some((_, after_width)) = width_at(s, pos) {
        if after_width < s.len() {
            lemma_digits_end(s, after_width + 1);
        }
    }
}

/// A piece is not empty, it lies between its beginning and the position
/// after it, and it ends within the string.
pub proof fn lemma_piece_at(s: Seq<u8>, pos: int)
    requires
        0 <= pos < s.len() <= usize::MAX,
    ensures
        piece_at(s, pos) matches Some((piece, next)) ==> pos < next <= s.len() && piece_within(
            piece,
            pos,
            next,
        ),
{
    lemma_position_of(s, PERCENT, pos + 1);
    lemma_conv_at_extent(s, pos + 1);
}

/// What reading a format string gives.
pub struct Scan {
    /// The pieces, in their order, up to the end of the format string or to
    /// the first malformed specifier.
    pub pieces: Seq<Piece>,
    /// The offset of the first malformed specifier, where there is one.
    pub stopped: Option<usize>,
}

/// What reading `s` from `pos` on gives.
pub open spec fn scan_from(s: Seq<u8>, pos: int) -> Scan
    decreases s.len() - pos,
{
    if pos < 0 || pos >= s.len() {
        Scan { pieces: Seq::empty(), stopped: None }
    } else {
        match piece_at(s, pos) {
            Some((piece, next)) => {
                proof {
                    lemma_position_of(s, PERCENT, pos + 1);
                    lemma_conv_at_extent(s, pos + 1);
                }
                let rest = scan_from(s, next);
                Scan { pieces: seq![piece] + rest.pieces, stopped: rest.stopped }
            },
            None => Scan { pieces: Seq::empty(), stopped: Some(pos as usize) },
        }
    }
}

/// The pieces of `s` from `pos` on, or the first malformed specifier.
pub open spec fn pieces_from(s: Seq<u8>, pos: int) -> Result<Seq<Piece>, FormatError> {
    let scan = scan_from(s, pos);
    match scan.stopped {
        None => Ok(scan.pieces),
        Some(offset) => Err(FormatError::MalformedSpecifier { offset }),
    }
}

/// The pieces of the format string `s`, or its first malformed specifier.
pub open spec fn pieces(s: Seq<u8>) -> Result<Seq<Piece>, FormatError> {
    pieces_from(s, 0)
}

/// The pieces that are read from `pos` on lie between `pos` and the end of
/// the string.
pub proof fn lemma_scan_in_bounds(s: Seq<u8>, pos: int)
    requires
        0 <= pos <= s.len() <= usize::MAX,
    ensures
        forall|i: int|
            0 <= i < scan_from(s, pos).pieces.len() ==> piece_within(
                #[trigger] scan_from(s, pos).pieces[i],
                pos,
                s.len() as int,
            ),
    decreases s.len() - pos,
{
    if pos < s.len() {
        lemma_piece_at(s, pos);
        if let Some((_, next)) = piece_at(s, pos) {
            lemma_scan_in_bounds(s, next);
        }
    }
}

/// A scanner over a format string. It makes one pass, forward only.
pub struct Parser<'a> {
    s: &'a [u8],
    pos: usize,
}

impl<'a> Parser<'a> {
    #[verifier::type_invariant]
    spec fn in_bounds(self) -> bool {
        self.pos <= self.s@.len()
    }

    /// The format string.
    pub closed spec fn source(self) -> Seq<u8> {
        self.s@
    }

    /// The position of the next byte to read.
    pub closed spec fn position(self) -> int {
        self.pos as int
    }

    /// A scanner at the start of `s`.
    pub fn new(s: &'a [u8]) -> (p: Self)
        ensures
            p.source() == s@,
            p.position() == 0,
            p.position() <= p.source().len(),
    {
        Parser { s, pos: 0 }
    }

    /// The next byte, or `None` at the end.
    pub fn peek(&self) -> (r: Option<u8>)
        ensures
            0 <= self.position() <= self.source().len(),
            r == if self.position() < self.source().len() {
                Some(self.source()[self.position()])
            } else {
                None
            },
    {
        proof {
            use_type_invariant(self);
        }
        if self.pos < self.s.len() {
            Some(self.s[self.pos])
        } else {
            None
        }
    }

    /// Moves past the next byte. At the end it does nothing.
    pub fn skip(&mut self)
        ensures
            final(self).source() == old(self).source(),
            0 <= final(self).position() <= final(self).source().len(),
            final(self).position() == if old(self).position() < old(self).source().len() {
                old(self).position() + 1
            } else {
                old(self).position()
            },
    {
        proof {
            use_type_invariant(&*self);
        }
        if self.pos < self.s.len() {
            self.pos += 1;
        }
    }

    /// Looks for the next `%`. Where there is one, the scanner moves to it; the
    /// result is the text passed on the way, if there is any, and `true`. Where
    /// there is none, the scanner stays where it is and the result is `false`,
    /// without text: what is left of the format string is for the caller to
    /// take.
    pub fn next_conv(&mut self) -> (r: (Option<Piece>, bool))
        ensures
            final(self).source() == old(self).source(),
            0 <= final(self).position() <= final(self).source().len(),
            r.1 == (find_percent(old(self).source(), old(self).position()) < old(
                self,
            ).source().len()),
            final(self).position() == if r.1 {
                find_percent(old(self).source(), old(self).position())
            } else {
                old(self).position()
            },
            r.0 == if r.1 && final(self).position() > old(self).position() {
                Some(
                    Piece::Text {
                        start: old(self).position() as usize,
                        end: final(self).position() as usize,
                    },
                )
            } else {
                None
            },
    {
        proof {
            use_type_invariant(&*self);
        }
        let start: usize = self.pos;
        let i: usize = find(self.s, PERCENT, start);
        if i < self.s.len() {
            self.pos = i;
            if i > start {
                (Some(Piece::Text { start, end: i }), true)
            } else {
                (None, true)
            }
        } else {
            (None, false)
        }
    }

    /// Reads a width or a precision: `*` or a run of digits. Where none stands
    /// at the position, or its number does not fit in a `usize`, the result is
    /// `None` and the scanner stays where it was.
    pub fn parse_amount(&mut self) -> (r: Option<Amount>)
        ensures
            final(self).source() == old(self).source(),
            0 <= final(self).position() <= final(self).source().len(),
            match amount_at(old(self).source(), old(self).position()) {
                Some((amount, end)) => r == Some(amount) && final(self).position() == end,
                None => r is None && final(self).position() == old(self).position(),
            },
    {
        proof {
            use_type_invariant(&*self);
            lemma_digits_end(self.s@, self.pos as int);
        }
        let start: usize = self.pos;
        if start < self.s.len() && self.s[start] == STAR {
            self.pos = start + 1;
            return Some(Amount::NextArg);
        }
        let mut end: usize = start;
        while end < self.s.len() && digit(self.s[end])
            invariant
                start <= end <= self.s@.len(),
                digits_end(self.s@, start as int) == digits_end(self.s@, end as int),
            decreases self.s@.len() - end,
        {
            end = end + 1;
        }
        if end == start {
            return None;
        }
        match parse_decimal(slice_subrange(self.s, start, end)) {
            Some(n) => {
                self.pos = end;
                Some(Amount::Number(n))
            },
            None => None,
        }
    }

    /// Reads the type letter of a specifier. At any other byte, and at the end,
    /// the result is `None` and the scanner stays where it was.
    pub fn parse_conv_type(&mut self) -> (r: Option<ConvType>)
        ensures
            final(self).source() == old(self).source(),
            0 <= final(self).position() <= final(self).source().len(),
            r == type_at(old(self).source(), old(self).position()),
            final(self).position() == if r is Some {
                old(self).position() + 1
            } else {
                old(self).position()
            },
    {
        proof {
            use_type_invariant(&*self);
        }
        if self.pos >= self.s.len() {
            return None;
        }
        let c: u8 = self.s[self.pos];
        let ty = if c == LOWER_D {
            ConvType::Int
        } else if c == LOWER_U {
            ConvType::Uint
        } else if c == LOWER_X {
            ConvType::Hex(false)
        } else if c == UPPER_X {
            ConvType::Hex(true)
        } else if c == LOWER_C {
            ConvType::Char
        } else if c == LOWER_S {
            ConvType::Str
        } else {
            return None;
        };
        self.pos += 1;
        Some(ty)
    }

    /// Reads what follows the `%` of a specifier: width, precision and type
    /// letter. Where that is no specifier the result is `None`.
    fn parse_conv(&mut self) -> (r: Option<Conv>)
        ensures
            final(self).source() == old(self).source(),
            0 <= final(self).position() <= final(self).source().len(),
            match conv_at(old(self).source(), old(self).position()) {
                Some((conv, next)) => r == Some(conv) && final(self).position() == next,
                None => r is None,
            },
    {
        let mut conv = Conv::new();
        match self.peek() {
            Some(b) if digit(b) || b == STAR => {
                match self.parse_amount() {
                    Some(amount) => {
                        conv.width = Some(amount);
                    },
                    None => {
                        return None;
                    },
                }
            },
            _ => {},
        }
        match self.peek() {
            Some(b) if b == DOT => {
                self.skip();
                match self.parse_amount() {
                    Some(amount) => {
                        conv.prec = Some(amount);
                    },
                    None => {
                        return None;
                    },
                }
            },
            _ => {},
        }
        match self.parse_conv_type() {
            Some(ty) => {
                conv.ty = ty;
                Some(conv)
            },
            None => None,
        }
    }

    /// Reads the next piece. At the end of the format string there is none:
    /// `Ok(None)`. A malformed specifier is an error, after which the scanner
    /// is of no more use.
    pub fn next_piece(&mut self) -> (r: Result<Option<Piece>, FormatError>)
        ensures
            final(self).source() == old(self).source(),
            0 <= final(self).position() <= final(self).source().len(),
            if old(self).position() >= old(self).source().len() {
                r == Ok::<Option<Piece>, FormatError>(None) && final(self).position() == old(
                    self,
                ).position()
            } else {
                match piece_at(old(self).source(), old(self).position()) {
                    Some((piece, next)) => r == Ok::<Option<Piece>, FormatError>(Some(piece))
                        && final(self).position() == next && old(self).position() < next <= old(
                        self,
                    ).source().len() && piece_within(piece, old(self).position(), next),
                    None => r == Err::<Option<Piece>, FormatError>(
                        FormatError::MalformedSpecifier { offset: old(self).position() as usize },
                    ),
                }
            },
    {
        proof {
            use_type_invariant(&*self);
            assert(self.s@.len() == self.s.len());
            if self.pos < self.s@.len() {
                lemma_piece_at(self.s@, self.pos as int);
            }
        }
        let at: usize = self.pos;
        match self.peek() {
            None => Ok(None),
            Some(b) if b != PERCENT => {
                let (text, found) = self.next_conv();
                if found {
                    Ok(text)
                } else {
                    let end: usize = self.s.len();
                    self.pos = end;
                    Ok(Some(Piece::Text { start: at, end }))
                }
            },
            Some(_) => {
                self.skip();
                match self.peek() {
                    Some(b) if b == PERCENT => {
                        self.skip();
                        Ok(Some(Piece::Text { start: at + 1, end: at + 2 }))
                    },
                    _ => match self.parse_conv() {
                        Some(conv) => Ok(Some(Piece::Conv { at, conv })),
                        None => Err(FormatError::MalformedSpecifier { offset: at }),
                    },
                }
            },
        }
    }

    /// Cuts the rest of the format string into its pieces, in order. The result
    /// is the first malformed specifier where there is one.
    pub fn parse(&mut self) -> (r: Result<Vec<Piece>, FormatError>)
        ensures
            final(self).source() == old(self).source(),
            0 <= final(self).position() <= final(self).source().len(),
            match pieces_from(old(self).source(), old(self).position()) {
                Ok(pieces) => r matches Ok(v) && v@ == pieces && final(self).position() == old(
                    self,
                ).source().len(),
                Err(e) => r == Err::<Vec<Piece>, FormatError>(e),
            },
            r matches Ok(v) ==> forall|i: int|
                0 <= i < v@.len() ==> piece_within(
                    #[trigger] v@[i],
                    old(self).position(),
                    old(self).source().len() as int,
                ),
    {
        let ghost s = self.s@;
        let ghost from = self.pos as int;
        let mut out: Vec<Piece> = Vec::new();
        let mut done = false;
        proof {
            use_type_invariant(&*self);
            assert(self.s@.len() == self.s.len());
            lemma_scan_in_bounds(s, from);
        }
        while !done
            invariant
                old(self).s@ == s,
                old(self).pos == from,
                self.s@ == s,
                self.pos <= s.len() <= usize::MAX,
                done ==> self.pos == s.len(),
                scan_from(s, from).pieces == out@ + scan_from(s, self.pos as int).pieces,
                scan_from(s, from).stopped == scan_from(s, self.pos as int).stopped,
            decreases
                    (if done {
                        0
                    } else {
                        1 + s.len() - self.pos
                    }),
        {
            match self.next_piece() {
                Ok(Some(piece)) => {
                    out.push(piece);
                    proof {
                        use_type_invariant(&*self);
                    }
                },
                Ok(None) => {
                    done = true;
                },
                Err(e) => {
                    return Err(e);
                },
            }
        }
        Ok(out)
    }
}

} // verus!
