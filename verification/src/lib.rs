//! A command console modelled on the Minecraft command bar: the decisions that
//! the console takes on every keystroke, every redraw and every submitted
//! line, each stated as a contract and proved.
//!
//! | module | what it decides |
//! |--------|-----------------|
//! | [`keys`] | which keys the completion popup takes, and what they do |
//! | [`keymap`] | the default key map under them |
//! | [`interrupt`] | the two-stage Ctrl-C |
//! | [`menu`] | the selected candidate, and when the menu is drawn |
//! | [`highlighter`] | how a line is cut into coloured pieces, and the ghost text |
//! | [`completer`] | which candidates go into the menu |
//! | [`inspect`] | the placeholder and the note to the right of the input |
//! | [`help`] | where a help path leads, the rows of help, their order and layout |
//! | [`history`] | that history is walked by index, not filtered by prefix |
//! | [`printer`] | what becomes one message of output |
//! | [`prompt`] | what the prompt says |
//! | [`source`] | the exit that a command leaves for the main loop |
//! | [`console`] | what the main loop does with each thing read |

pub mod completer;
pub mod console;
pub mod help;
pub mod highlighter;
pub mod history;
pub mod inspect;
pub mod interrupt;
pub mod keymap;
pub mod keys;
pub mod menu;
pub mod printer;
pub mod prompt;
pub mod source;
pub mod text;
pub mod theme;
pub mod util;

pub use console::Exit;
pub use help::Usage;
pub use text::Text;
pub use theme::{Color, Piece, Token, default_paint};
