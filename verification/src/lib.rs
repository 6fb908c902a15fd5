//! A local game-ROM launcher: emulator records are registered once, a derived
//! extension map resolves each ROM's file extension to the first-registered
//! emulator claiming it, and the dispatch engine builds the exact command-line
//! invocation that emulator family expects.

pub mod emulator_config;
pub mod paths;
pub mod rom_launcher;
pub mod rom_scanner;
pub mod selection;
pub mod text;
