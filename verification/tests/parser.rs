use printf_conv::{Amount, Conv, ConvType, FormatError, Parser, Piece};

fn conv(ty: ConvType, width: Option<Amount>, prec: Option<Amount>) -> Conv {
    Conv { ty, width, prec }
}

fn parse(s: &[u8]) -> Result<Vec<Piece>, FormatError> {
    Parser::new(s).parse()
}

#[test]
fn empty_string_has_no_pieces() {
    assert_eq!(parse(b""), Ok(vec![]));
}

#[test]
fn text_without_percent_is_one_piece() {
    assert_eq!(parse(b"hello"), Ok(vec![Piece::Text { start: 0, end: 5 }]));
}

#[test]
fn text_and_specifiers_alternate() {
    assert_eq!(
        parse(b"a=%d, b=%s\n"),
        Ok(vec![
            Piece::Text { start: 0, end: 2 },
            Piece::Conv { at: 2, conv: conv(ConvType::Int, None, None) },
            Piece::Text { start: 4, end: 8 },
            Piece::Conv { at: 8, conv: conv(ConvType::Str, None, None) },
            Piece::Text { start: 10, end: 11 },
        ])
    );
}

#[test]
fn every_type_letter_is_known() {
    let letters: [(&[u8], ConvType); 6] = [
        (b"%d", ConvType::Int),
        (b"%u", ConvType::Uint),
        (b"%x", ConvType::Hex(false)),
        (b"%X", ConvType::Hex(true)),
        (b"%c", ConvType::Char),
        (b"%s", ConvType::Str),
    ];
    for (text, ty) in letters {
        assert_eq!(parse(text), Ok(vec![Piece::Conv { at: 0, conv: conv(ty, None, None) }]));
    }
}

#[test]
fn escaped_percent_is_the_text_of_its_second_byte() {
    assert_eq!(parse(b"%%"), Ok(vec![Piece::Text { start: 1, end: 2 }]));
    assert_eq!(
        parse(b"100%% of %d"),
        Ok(vec![
            Piece::Text { start: 0, end: 3 },
            Piece::Text { start: 4, end: 5 },
            Piece::Text { start: 5, end: 9 },
            Piece::Conv { at: 9, conv: conv(ConvType::Int, None, None) },
        ])
    );
}

#[test]
fn escaped_percent_before_a_specifier() {
    assert_eq!(
        parse(b"%%%d"),
        Ok(vec![
            Piece::Text { start: 1, end: 2 },
            Piece::Conv { at: 2, conv: conv(ConvType::Int, None, None) },
        ])
    );
}

#[test]
fn width_digits_are_taken_greedily() {
    assert_eq!(
        parse(b"%120d"),
        Ok(vec![Piece::Conv {
            at: 0,
            conv: conv(ConvType::Int, Some(Amount::Number(120)), None),
        }])
    );
}

#[test]
fn width_and_precision() {
    assert_eq!(
        parse(b"%5.3x"),
        Ok(vec![Piece::Conv {
            at: 0,
            conv: conv(
                ConvType::Hex(false),
                Some(Amount::Number(5)),
                Some(Amount::Number(3)),
            ),
        }])
    );
}

#[test]
fn star_is_an_amount_from_the_next_argument() {
    assert_eq!(
        parse(b"%*.*s"),
        Ok(vec![Piece::Conv {
            at: 0,
            conv: conv(ConvType::Str, Some(Amount::NextArg), Some(Amount::NextArg)),
        }])
    );
}

#[test]
fn star_is_not_followed_by_digits() {
    assert_eq!(parse(b"%*5d"), Err(FormatError::MalformedSpecifier { offset: 0 }));
}

#[test]
fn precision_alone() {
    assert_eq!(
        parse(b"%.10s"),
        Ok(vec![Piece::Conv {
            at: 0,
            conv: conv(ConvType::Str, None, Some(Amount::Number(10))),
        }])
    );
}

#[test]
fn a_dot_needs_an_amount() {
    assert_eq!(parse(b"%.d"), Err(FormatError::MalformedSpecifier { offset: 0 }));
    assert_eq!(parse(b"ab%5."), Err(FormatError::MalformedSpecifier { offset: 2 }));
}

#[test]
fn unrecognized_letter_is_malformed() {
    assert_eq!(parse(b"%q"), Err(FormatError::MalformedSpecifier { offset: 0 }));
    assert_eq!(parse(b"ok %d then %q"), Err(FormatError::MalformedSpecifier { offset: 11 }));
}

#[test]
fn flags_are_not_recognized() {
    assert_eq!(parse(b"%-5d"), Err(FormatError::MalformedSpecifier { offset: 0 }));
    assert_eq!(parse(b"%+d"), Err(FormatError::MalformedSpecifier { offset: 0 }));
    assert_eq!(parse(b"%ld"), Err(FormatError::MalformedSpecifier { offset: 0 }));
}

#[test]
fn missing_letter_at_the_end_is_malformed() {
    assert_eq!(parse(b"abc%"), Err(FormatError::MalformedSpecifier { offset: 3 }));
    assert_eq!(parse(b"%5"), Err(FormatError::MalformedSpecifier { offset: 0 }));
    assert_eq!(parse(b"%*"), Err(FormatError::MalformedSpecifier { offset: 0 }));
    assert_eq!(parse(b"%.3"), Err(FormatError::MalformedSpecifier { offset: 0 }));
}

#[test]
fn a_width_that_does_not_fit_is_malformed() {
    assert_eq!(
        parse(b"x%99999999999999999999999999d"),
        Err(FormatError::MalformedSpecifier { offset: 1 })
    );
}

#[test]
fn the_first_malformed_specifier_is_reported() {
    assert_eq!(parse(b"%q%z"), Err(FormatError::MalformedSpecifier { offset: 0 }));
}

#[test]
fn text_may_hold_any_bytes() {
    let s = "é%dü".as_bytes();
    assert_eq!(
        parse(s),
        Ok(vec![
            Piece::Text { start: 0, end: 2 },
            Piece::Conv { at: 2, conv: conv(ConvType::Int, None, None) },
            Piece::Text { start: 4, end: 6 },
        ])
    );
}

#[test]
fn peek_and_skip_walk_the_bytes() {
    let mut p = Parser::new(b"ab");
    assert_eq!(p.peek(), Some(b'a'));
    p.skip();
    assert_eq!(p.peek(), Some(b'b'));
    p.skip();
    assert_eq!(p.peek(), None);
    p.skip();
    assert_eq!(p.peek(), None);
}

#[test]
fn next_conv_stops_at_the_percent() {
    let mut p = Parser::new(b"ab%d");
    assert_eq!(p.next_conv(), (Some(Piece::Text { start: 0, end: 2 }), true));
    assert_eq!(p.peek(), Some(b'%'));
    assert_eq!(p.next_conv(), (None, true));
    assert_eq!(p.peek(), Some(b'%'));
}

#[test]
fn next_conv_stays_where_no_percent_follows() {
    let mut p = Parser::new(b"abc");
    assert_eq!(p.next_conv(), (None, false));
    assert_eq!(p.peek(), Some(b'a'));
    p.skip();
    assert_eq!(p.next_conv(), (None, false));
    assert_eq!(p.peek(), Some(b'b'));
}

#[test]
fn next_conv_at_the_end_finds_nothing() {
    let mut p = Parser::new(b"");
    assert_eq!(p.next_conv(), (None, false));
    assert_eq!(p.peek(), None);

    let mut p = Parser::new(b"%d");
    p.skip();
    p.skip();
    assert_eq!(p.next_conv(), (None, false));
    assert_eq!(p.peek(), None);
}

#[test]
fn next_conv_leaves_the_text_after_the_last_percent() {
    let mut p = Parser::new(b"a%dbc");
    assert_eq!(p.next_conv(), (Some(Piece::Text { start: 0, end: 1 }), true));
    p.skip();
    p.skip();
    assert_eq!(p.next_conv(), (None, false));
    assert_eq!(p.peek(), Some(b'b'));
    assert_eq!(p.next_piece(), Ok(Some(Piece::Text { start: 3, end: 5 })));
    assert_eq!(p.peek(), None);
}

#[test]
fn the_text_that_is_left_is_the_last_piece() {
    let mut p = Parser::new(b"abc");
    assert_eq!(p.next_piece(), Ok(Some(Piece::Text { start: 0, end: 3 })));
    assert_eq!(p.next_piece(), Ok(None));
    assert_eq!(
        parse(b"%sabc"),
        Ok(vec![
            Piece::Conv { at: 0, conv: conv(ConvType::Str, None, None) },
            Piece::Text { start: 2, end: 5 },
        ])
    );
}

#[test]
fn parse_amount_reads_star_or_digits() {
    let mut p = Parser::new(b"*x");
    assert_eq!(p.parse_amount(), Some(Amount::NextArg));
    assert_eq!(p.peek(), Some(b'x'));

    let mut p = Parser::new(b"042x");
    assert_eq!(p.parse_amount(), Some(Amount::Number(42)));
    assert_eq!(p.peek(), Some(b'x'));
}

#[test]
fn parse_amount_stays_where_no_amount_is() {
    let mut p = Parser::new(b"x1");
    assert_eq!(p.parse_amount(), None);
    assert_eq!(p.peek(), Some(b'x'));

    let mut p = Parser::new(b"");
    assert_eq!(p.parse_amount(), None);

    let mut p = Parser::new(b"99999999999999999999999999d");
    assert_eq!(p.parse_amount(), None);
    assert_eq!(p.peek(), Some(b'9'));
}

#[test]
fn parse_conv_type_reads_one_letter() {
    let mut p = Parser::new(b"Xd");
    assert_eq!(p.parse_conv_type(), Some(ConvType::Hex(true)));
    assert_eq!(p.parse_conv_type(), Some(ConvType::Int));
    assert_eq!(p.parse_conv_type(), None);
}

#[test]
fn parse_conv_type_stays_at_another_byte() {
    let mut p = Parser::new(b"q");
    assert_eq!(p.parse_conv_type(), None);
    assert_eq!(p.peek(), Some(b'q'));
}

#[test]
fn parse_goes_on_from_where_the_scanner_is() {
    let mut p = Parser::new(b"ab%d");
    p.skip();
    assert_eq!(
        p.parse(),
        Ok(vec![
            Piece::Text { start: 1, end: 2 },
            Piece::Conv { at: 2, conv: conv(ConvType::Int, None, None) },
        ])
    );
    assert_eq!(p.peek(), None);
    assert_eq!(p.parse(), Ok(vec![]));
}

#[test]
fn an_amount_is_read_as_it_is_written() {
    let amounts = [
        Amount::NextArg,
        Amount::Number(0),
        Amount::Number(7),
        Amount::Number(10),
        Amount::Number(4096),
        Amount::Number(usize::MAX),
    ];
    for amount in amounts {
        let mut text = Vec::new();
        amount.push_text(&mut text);
        let mut p = Parser::new(&text);
        assert_eq!(p.parse_amount(), Some(amount));
        assert_eq!(p.peek(), None);
    }
}

#[test]
fn a_placeholder_amount_round_trips_through_a_specifier() {
    let mut text = b"%".to_vec();
    Amount::Number(120).push_text(&mut text);
    text.push(b'.');
    Amount::NextArg.push_text(&mut text);
    text.push(b'u');
    assert_eq!(
        parse(&text),
        Ok(vec![Piece::Conv {
            at: 0,
            conv: conv(ConvType::Uint, Some(Amount::Number(120)), Some(Amount::NextArg)),
        }])
    );
}

#[test]
fn pieces_cover_the_string() {
    let s = b"ab%%c%5.*d%s!";
    let pieces = parse(s).unwrap();
    assert_eq!(
        pieces,
        vec![
            Piece::Text { start: 0, end: 2 },
            Piece::Text { start: 3, end: 4 },
            Piece::Text { start: 4, end: 5 },
            Piece::Conv {
                at: 5,
                conv: conv(ConvType::Int, Some(Amount::Number(5)), Some(Amount::NextArg)),
            },
            Piece::Conv { at: 10, conv: conv(ConvType::Str, None, None) },
            Piece::Text { start: 12, end: 13 },
        ]
    );
}

#[test]
fn pieces_are_read_one_at_a_time() {
    let mut p = Parser::new(b"a%%%3d");
    assert_eq!(p.next_piece(), Ok(Some(Piece::Text { start: 0, end: 1 })));
    assert_eq!(p.peek(), Some(b'%'));
    assert_eq!(p.next_piece(), Ok(Some(Piece::Text { start: 2, end: 3 })));
    assert_eq!(
        p.next_piece(),
        Ok(Some(Piece::Conv {
            at: 3,
            conv: conv(ConvType::Int, Some(Amount::Number(3)), None),
        }))
    );
    assert_eq!(p.next_piece(), Ok(None));
    assert_eq!(p.next_piece(), Ok(None));
}

#[test]
fn a_malformed_specifier_is_met_when_it_is_read() {
    let mut p = Parser::new(b"ok%d%q");
    assert_eq!(p.next_piece(), Ok(Some(Piece::Text { start: 0, end: 2 })));
    assert_eq!(
        p.next_piece(),
        Ok(Some(Piece::Conv { at: 2, conv: conv(ConvType::Int, None, None) }))
    );
    assert_eq!(p.next_piece(), Err(FormatError::MalformedSpecifier { offset: 4 }));
}

#[test]
fn an_empty_string_has_no_next_piece() {
    let mut p = Parser::new(b"");
    assert_eq!(p.next_piece(), Ok(None));
}
