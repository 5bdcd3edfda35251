//! String and path utilities for a small file manager: path validation,
//! extension lookup, filename sanitization, language tags, size formatting
//! and simple text transforms, each with a contract that Verus proves.
//!
//! Nothing here touches a file: every function takes text or a number and
//! returns text, a number or a truth value.

pub mod content;
pub mod decimal;
pub mod manager;
pub mod path;
pub mod size;
pub mod text;
pub mod unicode;

pub use content::process_file_content;
pub use manager::{FileInfo, FileManager};
