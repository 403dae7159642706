use smaragdine::theme::ARGUMENTS;
use smaragdine::{Color, Piece, Token, default_paint};

fn painted(piece: Piece, index: usize) -> Option<Color> {
    Some(default_paint(&Token::new(piece, index, "x")))
}

/// A command name is grey: colour does not mean validity.
#[test]
fn a_literal_is_grey() {
    assert_eq!(painted(Piece::Literal, 0), Some(Color::White));
}

/// Arguments take colours in turn by position, whatever their type.
#[test]
fn arguments_cycle_through_the_palette() {
    assert_eq!(painted(Piece::Argument, 0), Some(ARGUMENTS[0]));
    assert_eq!(painted(Piece::Argument, 1), Some(ARGUMENTS[1]));
    assert_eq!(painted(Piece::Argument, ARGUMENTS.len()), Some(ARGUMENTS[0]));
}

/// Trouble is red, notes are dim.
#[test]
fn trouble_is_red_and_asides_are_dim() {
    assert_eq!(painted(Piece::Unparsed, 0), Some(Color::LightRed));
    assert_eq!(painted(Piece::Failure, 0), Some(Color::LightRed));
    assert_eq!(painted(Piece::GhostText, 0), Some(Color::DarkGray));
    assert_eq!(painted(Piece::Hint, 0), Some(Color::DarkGray));
}

/// A scheme sees the text, so colouring by content can be written.
#[test]
fn a_custom_scheme_sees_the_text() {
    let paint = |token: &Token| {
        if token.text.starts_with('-') {
            Color::Blue
        } else {
            default_paint(token)
        }
    };

    let flag = Token::new(Piece::Argument, 0, "--force");
    assert_eq!(paint(&flag), Color::Blue);
}

#[test]
fn every_argument_colour_of_the_palette_in_order() {
    let expected = [
        Color::LightCyan,
        Color::LightYellow,
        Color::LightGreen,
        Color::LightPurple,
        Color::Yellow,
        Color::LightCyan,
    ];
    for (index, colour) in expected.iter().enumerate() {
        assert_eq!(painted(Piece::Argument, index), Some(*colour));
    }
    assert_eq!(painted(Piece::Prompt, 0), Some(Color::Green));
    assert_eq!(painted(Piece::Argument, usize::MAX), Some(ARGUMENTS[usize::MAX % 5]));
}
