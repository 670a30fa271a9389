//! Machine-code patching logic for hooking a 32-bit x86 game process:
//! encoding of relative branches, patching of modelled code regions,
//! construction of inline-hook trampolines, page-protection flags and
//! the file-redirection records handed to the game.
use vstd::prelude::*;

pub mod encoding;
pub mod region;
pub mod hooking;
pub mod win;
pub mod files;
