//! The rules on paths and file names: which paths are accepted, what a file's
//! extension is, which extensions are text, which language an extension
//! stands for, and how a file name is sanitized.

use vstd::prelude::*;
use crate::text::{
    after_last, chars_of, last_index_of, lemma_after_last, lemma_last_index_of,
    lemma_last_index_of_unique, spells,
};
use crate::unicode::{is_alphanumeric_char, lowercase_of};

verus! {

/// Whether two full stops stand side by side somewhere in `s`.
pub open spec fn has_parent_reference(s: Seq<char>) -> bool {
    exists|i: int| 0 <= i < s.len() - 1 && s[i] == '.' && #[trigger] s[i + 1] == '.'
}

/// A path is accepted where it is not empty, holds no `..` and does not begin
/// with `/`. The rule looks at the text alone: it resolves nothing, and other
/// spellings of a step upwards (with `\`, or percent-encoded) pass it.
pub open spec fn is_valid_path(path: Seq<char>) -> bool {
    &&& path.len() > 0
    &&& !has_parent_reference(path)
    &&& path[0] != '/'
}

/// The extension of a file name: what follows its last full stop, in lower
/// case; empty where the name holds no full stop, or nothing behind its last
/// one.
pub open spec fn file_extension(name: Seq<char>) -> Seq<char> {
    if last_index_of(name, '.') < 0 || after_last(name, '.').len() == 0 {
        Seq::empty()
    } else {
        lowercase_of(after_last(name, '.'))
    }
}

/// The extensions of text files.
pub open spec fn is_text_extension(ext: Seq<char>) -> bool {
    ||| ext == "txt"@
    ||| ext == "js"@
    ||| ext == "ts"@
    ||| ext == "html"@
    ||| ext == "css"@
    ||| ext == "json"@
    ||| ext == "md"@
    ||| ext == "rs"@
    ||| ext == "py"@
    ||| ext == "java"@
    ||| ext == "cpp"@
    ||| ext == "c"@
    ||| ext == "xml"@
    ||| ext == "yml"@
    ||| ext == "yaml"@
}

/// The language tag of an extension; `plaintext` for every extension that the
/// table does not hold, the empty one among them.
pub open spec fn language_of_extension(ext: Seq<char>) -> Seq<char> {
    if ext == "js"@ {
        "javascript"@
    } else if ext == "ts"@ {
        "typescript"@
    } else if ext == "html"@ {
        "html"@
    } else if ext == "css"@ {
        "css"@
    } else if ext == "py"@ {
        "python"@
    } else if ext == "rs"@ {
        "rust"@
    } else if ext == "cpp"@ || ext == "cc"@ || ext == "cxx"@ {
        "cpp"@
    } else if ext == "c"@ {
        "c"@
    } else if ext == "java"@ {
        "java"@
    } else if ext == "php"@ {
        "php"@
    } else if ext == "rb"@ {
        "ruby"@
    } else if ext == "go"@ {
        "go"@
    } else if ext == "sql"@ {
        "sql"@
    } else if ext == "xml"@ {
        "xml"@
    } else if ext == "json"@ {
        "json"@
    } else if ext == "md"@ {
        "markdown"@
    } else if ext == "sh"@ || ext == "bash"@ {
        "shell"@
    } else if ext == "yml"@ || ext == "yaml"@ {
        "yaml"@
    } else {
        "plaintext"@
    }
}

/// The language tag of the file that a path names: that of the extension of
/// its last segment, the segments being parted by `/`.
pub open spec fn language_of_path(path: Seq<char>) -> Seq<char> {
    language_of_extension(file_extension(after_last(path, '/')))
}

/// The characters that a sanitized file name keeps: letters and digits of any
/// script, and `.`, `_`, `-`.
pub open spec fn is_filename_char(c: char) -> bool {
    is_alphanumeric_char(c) || c == '.' || c == '_' || c == '-'
}

/// What a character becomes in a sanitized file name.
pub open spec fn sanitized_char(c: char) -> char {
    if is_filename_char(c) {
        c
    } else {
        '_'
    }
}

/// A file name with every character that it may not keep replaced by `_`.
pub open spec fn sanitized(name: Seq<char>) -> Seq<char> {
    Seq::new(name.len(), |i: int| sanitized_char(name[i]))
}

/// Sanitizing changes a name character by character: the length stays, a
/// character changes exactly where the name may not keep it, and what stands
/// there then is `_`.
pub proof fn lemma_sanitized_by_character(name: Seq<char>)
    ensures
        sanitized(name).len() == name.len(),
        forall|i: int|
            0 <= i < name.len() ==> (#[trigger] sanitized(name)[i] == name[i] || sanitized(
                name,
            )[i] == '_'),
        forall|i: int|
            0 <= i < name.len() ==> (#[trigger] sanitized(name)[i] != name[i] <==> !is_filename_char(
                name[i],
            )),
        forall|i: int|
            0 <= i < name.len() ==> (#[trigger] sanitized(name)[i] == '_' <==> (!is_filename_char(
                name[i],
            ) || name[i] == '_')),
{
}

/// Sanitizing a sanitized name changes nothing.
pub proof fn lemma_sanitized_idempotent(name: Seq<char>)
    ensures
        sanitized(sanitized(name)) == sanitized(name),
{
    assert(sanitized(sanitized(name)) =~= sanitized(name));
}

/// The empty extension is that of no text file and stands for `plaintext`.
pub proof fn lemma_empty_extension()
    ensures
        !is_text_extension(Seq::empty()),
        language_of_extension(Seq::empty()) == "plaintext"@,
{
    reveal_strlit("txt");
    reveal_strlit("js");
    reveal_strlit("ts");
    reveal_strlit("html");
    reveal_strlit("css");
    reveal_strlit("json");
    reveal_strlit("md");
    reveal_strlit("rs");
    reveal_strlit("py");
    reveal_strlit("java");
    reveal_strlit("cpp");
    reveal_strlit("cc");
    reveal_strlit("cxx");
    reveal_strlit("c");
    reveal_strlit("xml");
    reveal_strlit("yml");
    reveal_strlit("yaml");
    reveal_strlit("php");
    reveal_strlit("rb");
    reveal_strlit("go");
    reveal_strlit("sql");
    reveal_strlit("sh");
    reveal_strlit("bash");
    let e = Seq::<char>::empty();
    assert(e.len() == 0);
}

/// A path whose last segment holds no full stop, or ends with one, names no
/// text file, and its language is `plaintext`.
pub proof fn lemma_path_without_extension(path: Seq<char>)
    requires
        !after_last(path, '/').contains('.') || (after_last(path, '/').len() > 0 && after_last(
            path,
            '/',
        ).last() == '.'),
    ensures
        file_extension(after_last(path, '/')) == Seq::<char>::empty(),
        !is_text_extension(file_extension(after_last(path, '/'))),
        language_of_path(path) == "plaintext"@,
{
    let name = after_last(path, '/');
    lemma_after_last(name, '.');
    lemma_last_index_of(name, '.');
    if name.contains('.') {
        lemma_last_index_of_unique(name, '.', name.len() - 1);
    }
    lemma_empty_extension();
}

/// Whether `ext`, an extension in lower case, is that of a text file.
pub fn is_text_extension_name(ext: &str) -> (r: bool)
    ensures
        r == is_text_extension(ext@),
{
    let e = chars_of(ext);
    spells(&e, "txt") || spells(&e, "js") || spells(&e, "ts") || spells(&e, "html") || spells(
        &e,
        "css",
    ) || spells(&e, "json") || spells(&e, "md") || spells(&e, "rs") || spells(&e, "py") || spells(
        &e,
        "java",
    ) || spells(&e, "cpp") || spells(&e, "c") || spells(&e, "xml") || spells(&e, "yml") || spells(
        &e,
        "yaml",
    )
}

/// The language tag of `ext`, an extension in lower case.
pub fn language_for_extension(ext: &str) -> (r: &'static str)
    ensures
        r@ == language_of_extension(ext@),
{
    let e = chars_of(ext);
    if spells(&e, "js") {
        "javascript"
    } else if spells(&e, "ts") {
        "typescript"
    } else if spells(&e, "html") {
        "html"
    } else if spells(&e, "css") {
        "css"
    } else if spells(&e, "py") {
        "python"
    } else if spells(&e, "rs") {
        "rust"
    } else if spells(&e, "cpp") || spells(&e, "cc") || spells(&e, "cxx") {
        "cpp"
    } else if spells(&e, "c") {
        "c"
    } else if spells(&e, "java") {
        "java"
    } else if spells(&e, "php") {
        "php"
    } else if spells(&e, "rb") {
        "ruby"
    } else if spells(&e, "go") {
        "go"
    } else if spells(&e, "sql") {
        "sql"
    } else if spells(&e, "xml") {
        "xml"
    } else if spells(&e, "json") {
        "json"
    } else if spells(&e, "md") {
        "markdown"
    } else if spells(&e, "sh") || spells(&e, "bash") {
        "shell"
    } else if spells(&e, "yml") || spells(&e, "yaml") {
        "yaml"
    } else {
        "plaintext"
    }
}

/// Whether two full stops stand side by side somewhere in `chars`.
pub fn holds_parent_reference(chars: &Vec<char>) -> (r: bool)
    ensures
        r == has_parent_reference(chars@),
{
    let mut i: usize = 1;
    while i < chars.len()
        invariant
            1 <= i,
            forall|j: int|
                0 <= j < i - 1 && j < chars@.len() - 1 ==> !(chars@[j] == '.' && #[trigger] chars@[j
                    + 1] == '.'),
        decreases chars.len() - i,
    {
        if chars[i - 1] == '.' && chars[i] == '.' {
            assert(chars@[(i - 1) + 1] == '.');
            return true;
        }
        i += 1;
    }
    false
}

/// What `c` becomes in a sanitized file name.
pub fn sanitize_char(c: char) -> (r: char)
    ensures
        r == sanitized_char(c),
{
    if c.is_alphanumeric() || c == '.' || c == '_' || c == '-' {
        c
    } else {
        '_'
    }
}

} // verus!
