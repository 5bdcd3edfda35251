//! The file manager that a host holds: one path that the host sets and reads,
//! and the questions that it answers about paths, file names and sizes.

use vstd::prelude::*;
use vstd::string::StrSliceExecFns;
use crate::path::{
    file_extension, holds_parent_reference, is_filename_char, is_text_extension,
    is_text_extension_name, is_valid_path, language_for_extension, language_of_path, sanitize_char,
    sanitized,
};
use crate::size::{format_size, formatted_size};
use crate::text::{after_last, chars_of, find_last};

verus! {

/// The description of one entry of a directory. No function of this library
/// makes or reads one: it is the shape that hosts exchange.
pub struct FileInfo {
    pub name: String,
    pub path: String,
    pub is_directory: bool,
    pub size: Option<u64>,
}

/// A file manager. Its one piece of state is the current path, which is any
/// text at all: the manager keeps what it is given.
pub struct FileManager {
    current_path: String,
}

impl View for FileManager {
    type V = Seq<char>;

    /// The current path.
    closed spec fn view(&self) -> Seq<char> {
        self.current_path@
    }
}

impl FileManager {
    /// A manager whose current path is empty.
    pub fn new() -> (manager: FileManager)
        ensures
            manager@ == Seq::<char>::empty(),
    {
        FileManager { current_path: String::new() }
    }

    /// Makes `path` the current path, whatever it holds.
    pub fn set_current_path(&mut self, path: &str)
        ensures
            final(self)@ == path@,
    {
        self.current_path = path.to_owned();
    }

    /// The current path.
    pub fn get_current_path(&self) -> (path: String)
        ensures
            path@ == self@,
    {
        self.current_path.clone()
    }

    /// Whether `path` is accepted: it is not empty, holds no `..` and does
    /// not begin with `/`.
    pub fn validate_file_path(&self, path: &str) -> (valid: bool)
        ensures
            valid == is_valid_path(path@),
    {
        let chars = chars_of(path);
        chars.len() > 0 && !holds_parent_reference(&chars) && chars[0] != '/'
    }

    /// The extension of `filename`: what follows its last full stop, in lower
    /// case, and the empty text where it holds no full stop or ends with one.
    pub fn get_file_extension(&self, filename: &str) -> (extension: String)
        ensures
            extension@ == file_extension(filename@),
    {
        let chars = chars_of(filename);
        let end = chars.len();
        match find_last(&chars, '.') {
            Some(dot) if dot + 1 < end => filename.substring_char(dot + 1, end).to_lowercase(),
            _ => String::new(),
        }
    }

    /// Whether the extension of `filename` is that of a text file.
    pub fn is_text_file(&self, filename: &str) -> (text: bool)
        ensures
            text == is_text_extension(file_extension(filename@)),
    {
        let extension = self.get_file_extension(filename);
        is_text_extension_name(extension.as_str())
    }

    /// `filename` with each character that is no letter, no digit and none of
    /// `.`, `_`, `-` replaced by `_`.
    pub fn sanitize_filename(&self, filename: &str) -> (clean: String)
        ensures
            clean@ == sanitized(filename@),
            clean@.len() == filename@.len(),
            forall|i: int|
                0 <= i < filename@.len() ==> #[trigger] clean@[i] == if is_filename_char(
                    filename@[i],
                ) {
                    filename@[i]
                } else {
                    '_'
                },
    {
        let mut clean = String::new();
        for c in it: filename.chars()
            invariant
                it.seq() == filename@,
                clean@ == sanitized(filename@.take(it.index() as int)),
        {
            clean.push(sanitize_char(c));
            assert(clean@ =~= sanitized(filename@.take(it.index() + 1)));
        }
        assert(filename@.take(filename@.len() as int) =~= filename@);
        clean
    }

    /// The language tag of the file that `path` names, by the extension of
    /// its last segment; `plaintext` where the extension is unknown or
    /// missing.
    pub fn get_language_from_path(&self, path: &str) -> (language: String)
        ensures
            language@ == language_of_path(path@),
    {
        let chars = chars_of(path);
        let end = chars.len();
        let start = match find_last(&chars, '/') {
            Some(slash) => slash + 1,
            None => 0,
        };
        let filename = path.substring_char(start, end);
        let extension = self.get_file_extension(filename);
        language_for_extension(extension.as_str()).to_owned()
    }

    /// `size`, a number of bytes, as people read it: `512 B`, `1.5 KB`.
    pub fn format_file_size(&self, size: u64) -> (text: String)
        ensures
            text@ == formatted_size(size as nat),
    {
        format_size(size)
    }
}

} // verus!
