//! A modal, terminal-resident text editor core: a line-oriented document
//! buffer with an undo/redo edit log, cursor/viewport coordination, a modal
//! key-dispatch state machine, bracket/quote auto-pairing, and an ex-command
//! processor. Terminal control and file I/O live outside this library; every
//! function here is verified.

pub mod buffer;
pub mod command;
pub mod cursor;
pub mod editor;
pub mod history;
pub mod laws;
pub mod mode;
pub mod utils;
