//! Who gets which colour.
//!
//! Colouring is not a fixed table but a function: the console hands over each
//! small piece of a line and the function says what it looks like. The scheme
//! below, where arguments take colours in turn by their position, is only the
//! default one.

use vstd::prelude::*;

verus! {

/// What a small piece of a line is.
///
/// It says nothing about validity or type: a command name is a
/// [`Piece::Literal`] whether it is right or wrong. A mistyped line looks red
/// because none of it parsed, so all of it is [`Piece::Unparsed`].
#[derive(Debug, Clone, Copy, PartialEq, Eq, Hash, Structural)]
#[non_exhaustive]
pub enum Piece {
    /// A literal and the blank after it: parsed, nothing to stress.
    Literal,
    /// An argument; its `index` is its position in the line, from 0.
    Argument,
    /// The tail that did not parse.
    Unparsed,
    /// Ghost text at the cursor: the rest of the selected candidate, or a
    /// placeholder such as `<message>`.
    GhostText,
    /// The note to the right of the input: why this line does not stand.
    Failure,
    /// The note to the right of the input: what belongs here.
    Hint,
    /// The prompt indicator (the default `> `); only its colour is used.
    Prompt,
}

/// One small piece handed to the colouring function.
#[derive(Debug, Clone, Copy)]
#[non_exhaustive]
pub struct Token<'a> {
    /// What kind of piece this is.
    pub piece: Piece,
    /// The position of an argument in the line, from 0; 0 for every other kind.
    pub index: usize,
    /// The text of the piece.
    pub text: &'a str,
}

impl<'a> Token<'a> {
    pub fn new(piece: Piece, index: usize, text: &'a str) -> (token: Self)
        ensures
            token.piece == piece,
            token.index == index,
            token.text == text,
    {
        Token { piece, index, text }
    }
}

/// A terminal foreground colour, named as in ANSI terminals.
#[derive(Debug, Clone, Copy, PartialEq, Eq, Hash, Structural)]
pub enum Color {
    Black,
    DarkGray,
    Red,
    LightRed,
    Green,
    LightGreen,
    Yellow,
    LightYellow,
    Blue,
    LightBlue,
    Purple,
    LightPurple,
    Magenta,
    LightMagenta,
    Cyan,
    LightCyan,
    /// ANSI 37, the ordinary grey of terminal text.
    White,
    /// ANSI 97, a bright white.
    LightGray,
    Fixed(u8),
    Rgb(u8, u8, u8),
    Default,
}

/// The colours that arguments take in turn, by their position in the line.
pub const ARGUMENTS: [Color; 5] = [
    Color::LightCyan,
    Color::LightYellow,
    Color::LightGreen,
    Color::LightPurple,
    Color::Yellow,
];

/// The colour of the `index`-th argument of a line in the default scheme.
pub open spec fn argument_color(index: nat) -> Color {
    let k = index % 5;
    if k == 0 {
        Color::LightCyan
    } else if k == 1 {
        Color::LightYellow
    } else if k == 2 {
        Color::LightGreen
    } else if k == 3 {
        Color::LightPurple
    } else {
        Color::Yellow
    }
}

/// The default scheme, as in the Minecraft command bar.
pub open spec fn default_color(piece: Piece, index: nat) -> Color {
    match piece {
        Piece::Literal => Color::White,
        Piece::Argument => argument_color(index),
        Piece::Unparsed | Piece::Failure => Color::LightRed,
        Piece::GhostText | Piece::Hint => Color::DarkGray,
        Piece::Prompt => Color::Green,
    }
}

/// The default colouring: the foreground colour of a piece.
///
/// | piece | colour |
/// |-------|--------|
/// | literal and blank | grey |
/// | argument | in turn by position: cyan, yellow, green, purple, gold |
/// | unparsed tail, failure note | red |
/// | ghost text, hint note | dark grey |
/// | prompt | green |
pub fn default_paint(token: &Token) -> (color: Color)
    ensures
        color == default_color(token.piece, token.index as nat),
{
    match token.piece {
        Piece::Literal => Color::White,
        Piece::Argument => {
            let k = token.index % 5;
            ARGUMENTS[k]
        },
        Piece::Unparsed | Piece::Failure => Color::LightRed,
        Piece::GhostText | Piece::Hint => Color::DarkGray,
        Piece::Prompt => Color::Green,
    }
}

/// Arguments cycle through the palette: the colour of the `i`-th argument is
/// the colour of the `(i + 5)`-th.
pub proof fn arguments_cycle(index: nat)
    ensures
        default_color(Piece::Argument, index) == default_color(Piece::Argument, index + 5),
        default_color(Piece::Argument, index) == default_color(Piece::Argument, index % 5),
{
}

} // verus!
