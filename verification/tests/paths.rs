use font_manager::errors::FontError;
use font_manager::files::paths::{
    append_font_dir, archive_font_name, base_name, components, download_path, entry_path,
    font_dir, font_dir_in, is_contained, is_in_ignored_subtree, join, parent, user_font_dir,
};
use font_manager::text::{chars_end_with, chars_of, find_last, same_chars, str_equal};

#[test]
fn font_directory_layout() {
    assert_eq!(font_dir("/home/ann", "FiraCode"), "/home/ann/.fonts/FiraCode");
    assert_eq!(font_dir("", ""), "/.fonts/");
    assert_eq!(
        font_dir_in(&Some("/home/ann".to_string()), "Hack"),
        Ok("/home/ann/.fonts/Hack".to_string())
    );
    assert_eq!(font_dir_in(&None, "Hack"), Err(FontError::HomeNotFound));
}

#[test]
fn entry_paths() {
    assert_eq!(entry_path("/h/.fonts/F", "a/b.ttf"), "/h/.fonts/F/a/b.ttf");
    assert_eq!(
        append_font_dir(&Some("/h".to_string()), "ttf/Regular.ttf", "Fira"),
        Ok("/h/.fonts/Fira/ttf/Regular.ttf".to_string())
    );
    assert_eq!(
        append_font_dir(&Some("/h".to_string()), "LICENSE", "Fira"),
        Ok("/h/.fonts/Fira/LICENSE".to_string())
    );
    assert_eq!(append_font_dir(&None, "LICENSE", "Fira"), Err(FontError::HomeNotFound));
}

#[test]
fn entry_paths_are_resolved() {
    assert_eq!(entry_path("/d", "./a//b/../c.ttf"), "/d/a/c.ttf");
    assert_eq!(entry_path("/d", "ttf/"), "/d/ttf");
    assert_eq!(entry_path("/d", "a/.."), "/d/");
    assert_eq!(entry_path("/d", ""), "/d/");
    assert_eq!(entry_path("/d", "a/./b"), "/d/a/b");
}

#[test]
fn resolved_components() {
    let none: Vec<String> = Vec::new();
    assert_eq!(components("a/b/c.ttf"), vec!["a", "b", "c.ttf"]);
    assert_eq!(components("./a//b/../c/"), vec!["a", "c"]);
    assert_eq!(components("a/../.."), none);
    assert_eq!(components("../a"), vec!["a"]);
    assert_eq!(components(""), none);
    assert_eq!(components("..."), vec!["..."]);
    assert_eq!(join(&vec!["a".to_string(), "b".to_string(), "c".to_string()]), "a/b/c");
    assert_eq!(join(&vec!["a".to_string()]), "a");
    assert_eq!(join(&none), "");
}

#[test]
fn user_font_directory_ends_with_the_layout() {
    match user_font_dir("Monoid") {
        Ok(dir) => assert!(dir.ends_with("/.fonts/Monoid")),
        Err(e) => assert_eq!(e, FontError::HomeNotFound),
    }
}

#[test]
fn base_names() {
    assert_eq!(base_name("test-data/FiraCodeTest.zip"), "FiraCodeTest.zip");
    assert_eq!(base_name("FiraCodeTest.zip"), "FiraCodeTest.zip");
    assert_eq!(base_name("a/b/"), "");
    assert_eq!(base_name(""), "");
    assert_eq!(base_name("/"), "");
    assert_eq!(base_name("https://h/x/y.zip"), "y.zip");
}

#[test]
fn font_names_of_archives() {
    assert_eq!(archive_font_name("test-data/FiraCodeTest.zip"), Ok("FiraCodeTest".to_string()));
    assert_eq!(
        archive_font_name("./JetBrainsMono-2.242.zip"),
        Ok("JetBrainsMono-2.242".to_string())
    );
    assert_eq!(archive_font_name("fonts"), Ok("fonts".to_string()));
    assert_eq!(archive_font_name("a/.hidden"), Ok(".hidden".to_string()));
    assert_eq!(archive_font_name("a/.hidden.zip"), Ok(".hidden".to_string()));
    assert_eq!(archive_font_name("a/name."), Ok("name".to_string()));
    assert_eq!(archive_font_name("a.b/c"), Ok("c".to_string()));
    assert_eq!(archive_font_name("ü/é.zip"), Ok("é".to_string()));
}

#[test]
fn paths_without_a_usable_base_name() {
    assert_eq!(archive_font_name(""), Err(FontError::InvalidPath));
    assert_eq!(archive_font_name("a/"), Err(FontError::InvalidPath));
    assert_eq!(archive_font_name("."), Err(FontError::InvalidPath));
    assert_eq!(archive_font_name(".."), Err(FontError::InvalidPath));
    assert_eq!(archive_font_name("a/.."), Err(FontError::InvalidPath));
    assert_eq!(archive_font_name("a/."), Err(FontError::InvalidPath));
}

#[test]
fn download_paths() {
    assert_eq!(
        download_path("https://download.jetbrains.com/fonts/JetBrainsMono-2.242.zip"),
        "./JetBrainsMono-2.242.zip"
    );
    assert_eq!(download_path("no-slash.zip"), "./no-slash.zip");
    assert_eq!(download_path("https://host/"), "./");
}

#[test]
fn parents() {
    assert_eq!(parent("/h/.fonts/F/a/b.ttf"), "/h/.fonts/F/a");
    assert_eq!(parent("/h/.fonts/F/b.ttf"), "/h/.fonts/F");
    assert_eq!(parent("b.ttf"), "");
    assert_eq!(parent("/b.ttf"), "");
}

#[test]
fn contained_paths() {
    assert!(is_contained("Regular.ttf"));
    assert!(is_contained("ttf/Regular.ttf"));
    assert!(is_contained("a/b/"));
    assert!(is_contained("foo/../bar"));
    assert!(is_contained("./a"));
    assert!(is_contained("a//b"));
    assert!(is_contained("a/./../b"));
    assert!(is_contained(""));
    assert!(is_contained("."));
    assert!(is_contained("a/.."));
    assert!(is_contained("..a/b"));
    assert!(is_contained("a/..."));
}

#[test]
fn escaping_paths() {
    assert!(!is_contained(".."));
    assert!(!is_contained("../evil.ttf"));
    assert!(!is_contained("foo/../../bar"));
    assert!(!is_contained("a/../b/../../c"));
    assert!(!is_contained("/etc/passwd"));
    assert!(!is_contained("/"));
    assert!(!is_contained("a\0b"));
    assert!(!is_contained("./.."));
    assert!(!is_contained("a/../.."));
}

#[test]
fn ignored_subtree() {
    assert!(is_in_ignored_subtree("Windows"));
    assert!(is_in_ignored_subtree("Windows/"));
    assert!(is_in_ignored_subtree("Windows/Regular.ttf"));
    assert!(is_in_ignored_subtree("Windows/a/b.ttf"));
    assert!(is_in_ignored_subtree("./Windows/a.ttf"));
    assert!(is_in_ignored_subtree(".//Windows/a.ttf"));
    assert!(is_in_ignored_subtree("a/../Windows/a.ttf"));
    assert!(is_in_ignored_subtree("././a/b/../../Windows"));
    assert!(!is_in_ignored_subtree("Windows/../a.ttf"));
    assert!(!is_in_ignored_subtree("./a/Windows/b.ttf"));
    assert!(!is_in_ignored_subtree("."));
    assert!(!is_in_ignored_subtree("windows/Regular.ttf"));
    assert!(!is_in_ignored_subtree("Windows Compatible.ttf"));
    assert!(!is_in_ignored_subtree("ttf/Windows/Regular.ttf"));
    assert!(!is_in_ignored_subtree("WindowsX/Regular.ttf"));
    assert!(!is_in_ignored_subtree(""));
}

#[test]
fn text_helpers() {
    assert_eq!(chars_of("aé/"), vec!['a', 'é', '/']);
    assert!(str_equal("abc", "abc"));
    assert!(!str_equal("abc", "abd"));
    assert!(!str_equal("abc", "ab"));
    assert!(str_equal("", ""));
    assert!(same_chars(&vec!['a'], &vec!['a']));
    assert!(!same_chars(&vec!['a'], &vec![]));
    let v = chars_of("a/b/c");
    assert_eq!(find_last(&v, '/'), Some(3));
    assert_eq!(find_last(&v, 'x'), None);
    assert!(chars_end_with(&chars_of("a.ttf"), &chars_of(".ttf")));
    assert!(!chars_end_with(&chars_of("a.otf"), &chars_of(".ttf")));
    assert!(!chars_end_with(&chars_of("ttf"), &chars_of(".ttf")));
    assert!(chars_end_with(&chars_of("x"), &chars_of("")));
}
