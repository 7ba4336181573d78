//! System information acquisition and normalisation: parsers for the output of
//! common Linux diagnostic tools, merged into always-populated records.
pub mod config;
pub mod display;
pub mod distro;
pub mod fastfetch;
pub mod json;
pub mod kv;
pub mod laws;
pub mod markup;
pub mod memory;
pub mod serial;
pub mod storage;
pub mod system;
pub mod text;
