use wasm_file_manager::path::{
    holds_parent_reference, is_text_extension_name, language_for_extension, sanitize_char,
};
use wasm_file_manager::text::chars_of;
use wasm_file_manager::{FileInfo, FileManager};

#[test]
fn test_validate_file_path() {
    let fm = FileManager::new();
    assert!(fm.validate_file_path("test.txt"));
    assert!(fm.validate_file_path("folder/file.js"));
    assert!(!fm.validate_file_path("../escape.txt"));
    assert!(!fm.validate_file_path("/absolute/path"));
    assert!(!fm.validate_file_path(""));
}

#[test]
fn test_get_file_extension() {
    let fm = FileManager::new();
    assert_eq!(fm.get_file_extension("test.js"), "js");
    assert_eq!(fm.get_file_extension("file.TS"), "ts");
    assert_eq!(fm.get_file_extension("noextension"), "");
}

#[test]
fn test_is_text_file() {
    let fm = FileManager::new();
    assert!(fm.is_text_file("script.js"));
    assert!(fm.is_text_file("style.css"));
    assert!(fm.is_text_file("readme.md"));
    assert!(!fm.is_text_file("image.png"));
    assert!(!fm.is_text_file("binary.exe"));
}

#[test]
fn new_manager_has_empty_path() {
    let fm = FileManager::new();
    assert_eq!(fm.get_current_path(), "");
}

#[test]
fn set_then_get_current_path() {
    let mut fm = FileManager::new();
    fm.set_current_path("src/lib");
    assert_eq!(fm.get_current_path(), "src/lib");
    fm.set_current_path("../anything/../goes");
    assert_eq!(fm.get_current_path(), "../anything/../goes");
    fm.set_current_path("");
    assert_eq!(fm.get_current_path(), "");
}

#[test]
fn validate_rejects_the_three_faults() {
    let fm = FileManager::new();
    assert!(!fm.validate_file_path(""));
    assert!(!fm.validate_file_path("../x"));
    assert!(!fm.validate_file_path("/x"));
    assert!(!fm.validate_file_path("/"));
    assert!(!fm.validate_file_path(".."));
    assert!(!fm.validate_file_path("a/../b"));
    assert!(!fm.validate_file_path("a..b"));
    assert!(!fm.validate_file_path("a/b.."));
    assert!(!fm.validate_file_path("..."));
}

#[test]
fn validate_accepts_everything_else() {
    let fm = FileManager::new();
    assert!(fm.validate_file_path("x"));
    assert!(fm.validate_file_path("."));
    assert!(fm.validate_file_path("./a"));
    assert!(fm.validate_file_path("a/./b"));
    assert!(fm.validate_file_path("a/b/"));
    assert!(fm.validate_file_path("a.b.c"));
    assert!(fm.validate_file_path(".a.b."));
    assert!(fm.validate_file_path("dir with space/f\u{e9}.txt"));
    assert!(fm.validate_file_path(" /x"));
}

#[test]
fn validate_is_syntactic_only() {
    let fm = FileManager::new();
    assert!(fm.validate_file_path("%2e%2e/secret"));
    assert!(fm.validate_file_path("a\\.\\b"));
    assert!(fm.validate_file_path("\\absolute"));
    assert!(fm.validate_file_path("C:/windows"));
}

#[test]
fn parent_reference_needs_two_adjacent_stops() {
    assert!(holds_parent_reference(&chars_of("..")));
    assert!(holds_parent_reference(&chars_of("ab..")));
    assert!(holds_parent_reference(&chars_of("..ab")));
    assert!(!holds_parent_reference(&chars_of("")));
    assert!(!holds_parent_reference(&chars_of(".")));
    assert!(!holds_parent_reference(&chars_of(".a.")));
    assert!(!holds_parent_reference(&chars_of("./.")));
}

#[test]
fn extension_edge_cases() {
    let fm = FileManager::new();
    assert_eq!(fm.get_file_extension("name."), "");
    assert_eq!(fm.get_file_extension(".gitignore"), "gitignore");
    assert_eq!(fm.get_file_extension(""), "");
    assert_eq!(fm.get_file_extension("."), "");
    assert_eq!(fm.get_file_extension("..."), "");
    assert_eq!(fm.get_file_extension("archive.tar.GZ"), "gz");
    assert_eq!(fm.get_file_extension("a.b/c"), "b/c");
    assert_eq!(fm.get_file_extension("Makefile.IN"), "in");
}

#[test]
fn extension_folds_case_beyond_ascii() {
    let fm = FileManager::new();
    assert_eq!(fm.get_file_extension("r\u{e9}sum\u{e9}.\u{c9}T\u{c9}"), "\u{e9}t\u{e9}");
    assert_eq!(fm.get_file_extension("\u{c9}.X"), "x");
    assert_eq!(fm.get_file_extension("x.\u{3a9}"), "\u{3c9}");
}

#[test]
fn text_files_by_every_extension() {
    let fm = FileManager::new();
    let text = [
        "txt", "js", "ts", "html", "css", "json", "md", "rs", "py", "java", "cpp", "c", "xml",
        "yml", "yaml",
    ];
    for ext in text {
        assert!(is_text_extension_name(ext), "{}", ext);
        assert!(fm.is_text_file(&format!("file.{}", ext)), "{}", ext);
        assert!(fm.is_text_file(&format!("FILE.{}", ext.to_uppercase())), "{}", ext);
    }
}

#[test]
fn other_extensions_are_not_text() {
    let fm = FileManager::new();
    for ext in ["", "png", "exe", "cc", "cxx", "php", "rb", "go", "sql", "sh", "bash", "tx", "txtx", "TXT"] {
        assert!(!is_text_extension_name(ext), "{}", ext);
    }
    assert!(!fm.is_text_file("noextension"));
    assert!(!fm.is_text_file("txt"));
    assert!(!fm.is_text_file("name."));
    assert!(!fm.is_text_file("a.txt/b"));
    assert!(fm.is_text_file(".txt"));
}

#[test]
fn sanitize_replaces_what_it_may_not_keep() {
    let fm = FileManager::new();
    assert_eq!(fm.sanitize_filename("my file!.txt"), "my_file_.txt");
    assert_eq!(fm.sanitize_filename("a/b\\c:d*e?f"), "a_b_c_d_e_f");
    assert_eq!(fm.sanitize_filename("keep-this_name.v2"), "keep-this_name.v2");
    assert_eq!(fm.sanitize_filename(""), "");
    assert_eq!(fm.sanitize_filename("   "), "___");
    assert_eq!(fm.sanitize_filename("\t\n"), "__");
}

#[test]
fn sanitize_keeps_letters_and_digits_of_any_script() {
    let fm = FileManager::new();
    assert_eq!(fm.sanitize_filename("h\u{e9}llo w\u{f6}rld"), "h\u{e9}llo_w\u{f6}rld");
    assert_eq!(fm.sanitize_filename("\u{65e5}\u{672c}\u{8a9e} \u{0663}"), "\u{65e5}\u{672c}\u{8a9e}_\u{0663}");
    assert_eq!(fm.sanitize_filename("a\u{1f600}b"), "a_b");
    assert_eq!(fm.sanitize_filename("\u{20ac}5"), "_5");
}

#[test]
fn sanitize_char_by_char() {
    assert_eq!(sanitize_char('a'), 'a');
    assert_eq!(sanitize_char('Z'), 'Z');
    assert_eq!(sanitize_char('7'), '7');
    assert_eq!(sanitize_char('.'), '.');
    assert_eq!(sanitize_char('_'), '_');
    assert_eq!(sanitize_char('-'), '-');
    assert_eq!(sanitize_char(' '), '_');
    assert_eq!(sanitize_char('/'), '_');
    assert_eq!(sanitize_char('+'), '_');
    assert_eq!(sanitize_char('\u{e9}'), '\u{e9}');
}

#[test]
fn sanitize_keeps_the_character_count_and_changes_only_to_underscore() {
    let fm = FileManager::new();
    for name in ["", "plain", "a b", "\u{1f600}\u{1f600}", "x/y/z.txt", "__", "t\u{e9}l\u{e9} 1+1=2"] {
        let clean = fm.sanitize_filename(name);
        let before: Vec<char> = name.chars().collect();
        let after: Vec<char> = clean.chars().collect();
        assert_eq!(before.len(), after.len());
        for i in 0..before.len() {
            let kept = before[i].is_alphanumeric() || before[i] == '.' || before[i] == '_' || before[i] == '-';
            if kept {
                assert_eq!(after[i], before[i]);
            } else {
                assert_eq!(after[i], '_');
                assert_ne!(after[i], before[i]);
            }
        }
    }
}

#[test]
fn sanitize_twice_is_sanitize_once() {
    let fm = FileManager::new();
    for name in ["", "plain.txt", "a b c", "\u{1f600}/..\\", "_-_", "r\u{e9}sum\u{e9} (1).pdf"] {
        let once = fm.sanitize_filename(name);
        let twice = fm.sanitize_filename(&once);
        assert_eq!(once, twice);
    }
}

#[test]
fn language_from_path_examples() {
    let fm = FileManager::new();
    assert_eq!(fm.get_language_from_path("src/app.ts"), "typescript");
    assert_eq!(fm.get_language_from_path("noext"), "plaintext");
    assert_eq!(fm.get_language_from_path("a/b/c.unknownext"), "plaintext");
}

#[test]
fn language_of_every_extension() {
    let fm = FileManager::new();
    let table = [
        ("js", "javascript"),
        ("ts", "typescript"),
        ("html", "html"),
        ("css", "css"),
        ("py", "python"),
        ("rs", "rust"),
        ("cpp", "cpp"),
        ("cc", "cpp"),
        ("cxx", "cpp"),
        ("c", "c"),
        ("java", "java"),
        ("php", "php"),
        ("rb", "ruby"),
        ("go", "go"),
        ("sql", "sql"),
        ("xml", "xml"),
        ("json", "json"),
        ("md", "markdown"),
        ("sh", "shell"),
        ("bash", "shell"),
        ("yml", "yaml"),
        ("yaml", "yaml"),
    ];
    for (ext, language) in table {
        assert_eq!(language_for_extension(ext), language);
        assert_eq!(fm.get_language_from_path(&format!("dir/sub/file.{}", ext)), language);
        assert_eq!(fm.get_language_from_path(&format!("FILE.{}", ext.to_uppercase())), language);
    }
    for ext in ["", "txt", "JS", "j", "jsx", "png"] {
        assert_eq!(language_for_extension(ext), "plaintext");
    }
}

#[test]
fn language_looks_at_the_last_segment_only() {
    let fm = FileManager::new();
    assert_eq!(fm.get_language_from_path("dir.js/readme"), "plaintext");
    assert_eq!(fm.get_language_from_path("dir.js/"), "plaintext");
    assert_eq!(fm.get_language_from_path("dir.py/main.rs"), "rust");
    assert_eq!(fm.get_language_from_path("/main.go"), "go");
    assert_eq!(fm.get_language_from_path(""), "plaintext");
    assert_eq!(fm.get_language_from_path(".sh"), "shell");
    assert_eq!(fm.get_language_from_path("a/b.tar.JSON"), "json");
    assert_eq!(fm.get_language_from_path("a\\b.md"), "markdown");
}

#[test]
fn file_info_is_a_plain_record() {
    let info = FileInfo {
        name: String::from("a.txt"),
        path: String::from("dir/a.txt"),
        is_directory: false,
        size: Some(12),
    };
    assert_eq!(info.name, "a.txt");
    assert_eq!(info.path, "dir/a.txt");
    assert!(!info.is_directory);
    assert_eq!(info.size, Some(12));
    let dir = FileInfo { name: String::from("dir"), path: String::from("dir"), is_directory: true, size: None };
    assert!(dir.is_directory);
    assert_eq!(dir.size, None);
}
