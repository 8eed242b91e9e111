//! Settings, recently used files and character sets of the icy_draw editor,
//! and the RIPscrip commands it reads, with their behaviour stated and proved.

pub mod char_sets;
pub mod cli;
pub mod config;
pub mod error;
pub mod meganum;
pub mod recent_files;
pub mod rip_command;
pub mod rip_parser;
pub mod rip_text;
pub mod settings;
pub mod rip_tested_texts;
