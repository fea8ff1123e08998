use rjvm::{Line, Piece, Style};

#[test]
fn a_new_line_is_empty() {
    assert!(Line::new().pieces.is_empty());
}

#[test]
fn pieces_are_added_at_the_end() {
    let mut line = Line::new();
    line.push(Style::Label, "Version");
    line.push(Style::Plain, ": ");
    line.push_number(52);
    line.push_string(Style::Bold, "Foo".to_string());
    line.push(Style::Kind, "Utf8");
    line.push_float(0x3F80_0000);
    line.push_double(0xBFF0_0000_0000_0000);
    line.push_number(0);
    assert_eq!(
        vec![
            Piece::Text { style: Style::Label, text: "Version".to_string() },
            Piece::Text { style: Style::Plain, text: ": ".to_string() },
            Piece::Text { style: Style::Plain, text: "52".to_string() },
            Piece::Text { style: Style::Bold, text: "Foo".to_string() },
            Piece::Text { style: Style::Kind, text: "Utf8".to_string() },
            Piece::Float(0x3F80_0000),
            Piece::Double(0xBFF0_0000_0000_0000),
            Piece::Text { style: Style::Plain, text: "0".to_string() },
        ],
        line.pieces
    );
    assert_eq!(1.0f32, f32::from_bits(0x3F80_0000));
    assert_eq!(-1.0f64, f64::from_bits(0xBFF0_0000_0000_0000));
}

#[test]
fn a_number_is_written_in_decimal() {
    let mut line = Line::new();
    line.push_number(usize::MAX);
    assert_eq!(
        vec![Piece::Text { style: Style::Plain, text: format!("{}", usize::MAX) }],
        line.pieces
    );
}
