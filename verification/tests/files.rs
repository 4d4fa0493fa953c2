use std::io::{Cursor, Write};

use font_manager::errors::ExtractError;
use font_manager::files::archive::ArchiveEntry;
use font_manager::files::util::{classify_reply, should_ignore, Reply};
use font_manager::files::{
    is_dir, plan_entry, Action, EntryPlan, ExtractOptions, Extraction, SkipReason,
};
use zip::write::SimpleFileOptions;
use zip::{CompressionMethod, ZipWriter};

const DIR: &str = "/home/ann/.fonts/FiraCodeTest";

fn options(use_otf: bool, interactive: bool) -> ExtractOptions {
    ExtractOptions { delete_zip: false, use_otf, interactive }
}

fn entry(name: &str) -> ArchiveEntry {
    ArchiveEntry {
        name: name.to_string(),
        enclosed: Some(name.to_string()),
        size: 0,
        unix_mode: None,
    }
}

fn stored() -> SimpleFileOptions {
    SimpleFileOptions::default().compression_method(CompressionMethod::Stored)
}

/// An archive with the given files; a name that ends in `/` is a directory.
fn archive(files: &[(&str, &[u8])]) -> Vec<u8> {
    let mut writer = ZipWriter::new(Cursor::new(Vec::new()));
    for (name, data) in files {
        if name.ends_with('/') {
            writer.add_directory(*name, stored()).unwrap();
        } else {
            writer.start_file(*name, stored()).unwrap();
            writer.write_all(data).unwrap();
        }
    }
    writer.finish().unwrap().into_inner()
}

/// Runs a walk to its end, answering each question with the next of
/// `answers`, and lists what was handed out.
fn run(bytes: Vec<u8>, opts: ExtractOptions, answers: &[&str]) -> (Vec<String>, u32, bool) {
    let mut walk = Extraction::open(bytes, Some(DIR), opts).unwrap();
    let mut log = Vec::new();
    let mut answers = answers.iter();
    let mut answer: Option<&str> = None;
    for _ in 0..1000 {
        let action = walk.advance(answer).unwrap();
        answer = None;
        match action {
            Action::CreateDir { path, .. } => log.push(format!("dir {path}")),
            Action::WriteFile { path, parent, data, .. } => {
                log.push(format!("file {path} in {parent}: {}", String::from_utf8(data).unwrap()))
            }
            Action::Prompt { file_name, again } => {
                log.push(format!("{} {file_name}", if again { "again" } else { "ask" }));
                answer = Some(*answers.next().unwrap());
            }
            Action::Finish { installed, delete_archive } => {
                assert_eq!(installed, walk.installed());
                return (log, installed, delete_archive);
            }
        }
    }
    panic!("the walk did not end");
}

#[test]
fn replies() {
    for line in ["Y", "y", "Yes", "yes"] {
        assert_eq!(classify_reply(line), Reply::Yes);
    }
    for line in ["N", "n", "No", "no"] {
        assert_eq!(classify_reply(line), Reply::No);
    }
    for line in ["", "YES", "NO", "yeah", "yes ", " y", "nope", "1", "yEs", "Yn"] {
        assert_eq!(classify_reply(line), Reply::Unrecognized);
    }
}

#[test]
fn filter_by_file_type() {
    let ttf = options(false, false);
    assert!(!should_ignore(ttf, "Regular.ttf", "Regular.ttf", Reply::Unrecognized));
    assert!(should_ignore(ttf, "Regular.otf", "Regular.otf", Reply::Unrecognized));
    assert!(!should_ignore(ttf, "LICENSE", "LICENSE", Reply::Unrecognized));
    let otf = options(true, false);
    assert!(should_ignore(otf, "Regular.ttf", "Regular.ttf", Reply::Unrecognized));
    assert!(!should_ignore(otf, "Regular.otf", "Regular.otf", Reply::Unrecognized));
    assert!(!should_ignore(otf, "LICENSE", "LICENSE", Reply::Unrecognized));
    assert!(!should_ignore(ttf, "Regular.OTF", "Regular.OTF", Reply::Unrecognized));
    assert!(!should_ignore(ttf, "otf", "otf", Reply::Unrecognized));
    assert!(should_ignore(ttf, ".otf", ".otf", Reply::Unrecognized));
    assert!(!should_ignore(ttf, "a.otf.txt", "a.otf.txt", Reply::Unrecognized));
    assert!(!should_ignore(ttf, "Regular.ttf", "Regular.ttf", Reply::No));
}

#[test]
fn filter_in_interactive_mode() {
    for use_otf in [false, true] {
        let opts = options(use_otf, true);
        for name in ["Regular.ttf", "Regular.otf", "LICENSE"] {
            assert!(!should_ignore(opts, name, name, Reply::Yes));
            assert!(should_ignore(opts, name, name, Reply::No));
            assert!(should_ignore(opts, name, name, Reply::Unrecognized));
        }
    }
}

#[test]
fn filter_ignores_the_subtree_in_every_mode() {
    for use_otf in [false, true] {
        for interactive in [false, true] {
            for reply in [Reply::Yes, Reply::No, Reply::Unrecognized] {
                let opts = options(use_otf, interactive);
                assert!(should_ignore(opts, "Windows/a.ttf", "Windows/a.ttf", reply));
                assert!(should_ignore(opts, "Windows/a.otf", "Windows/a.otf", reply));
                assert!(should_ignore(opts, "Windows/LICENSE", "Windows/LICENSE", reply));
            }
        }
    }
}

#[test]
fn filter_ignores_the_subtree_however_it_is_spelled() {
    for use_otf in [false, true] {
        for interactive in [false, true] {
            for reply in [Reply::Yes, Reply::No, Reply::Unrecognized] {
                let opts = options(use_otf, interactive);
                for rel in ["./Windows/a.ttf", ".//Windows/a.ttf", "a/../Windows/a.ttf"] {
                    assert!(should_ignore(opts, rel, rel, reply));
                }
            }
        }
    }
    let opts = options(false, false);
    assert!(!should_ignore(opts, "a.ttf", "Windows/../a.ttf", Reply::Unrecognized));
    assert!(!should_ignore(opts, "a.ttf", "ttf/Windows/a.ttf", Reply::Unrecognized));
}

#[test]
fn directory_markers() {
    assert!(is_dir("ttf/"));
    assert!(is_dir("/"));
    assert!(!is_dir("ttf"));
    assert!(!is_dir(""));
    assert!(!is_dir("ttf/a"));
}

fn skipped(plan: EntryPlan) -> Option<SkipReason> {
    match plan {
        EntryPlan::Skip(reason) => Some(reason),
        _ => None,
    }
}

fn written(plan: EntryPlan) -> Option<String> {
    match plan {
        EntryPlan::WriteFile { path } => Some(path),
        _ => None,
    }
}

#[test]
fn plans_of_single_entries() {
    let opts = options(false, false);
    assert_eq!(
        written(plan_entry(&entry("ttf/Regular.ttf"), DIR, opts)),
        Some(format!("{DIR}/ttf/Regular.ttf"))
    );
    assert_eq!(written(plan_entry(&entry("LICENSE"), DIR, opts)), Some(format!("{DIR}/LICENSE")));
    assert_eq!(skipped(plan_entry(&entry("Regular.otf"), DIR, opts)), Some(SkipReason::Filtered));
    assert_eq!(
        skipped(plan_entry(&entry("Windows/Regular.ttf"), DIR, opts)),
        Some(SkipReason::IgnoredSubtree)
    );
    assert_eq!(
        skipped(plan_entry(&entry("Windows/"), DIR, opts)),
        Some(SkipReason::IgnoredSubtree)
    );
    assert_eq!(
        skipped(plan_entry(&entry("../Regular.ttf"), DIR, opts)),
        Some(SkipReason::UnsafePath)
    );
    let mut refused = entry("Regular.ttf");
    refused.enclosed = None;
    assert_eq!(skipped(plan_entry(&refused, DIR, opts)), Some(SkipReason::UnsafePath));
    match plan_entry(&entry("ttf/"), DIR, opts) {
        EntryPlan::CreateDir { path } => assert_eq!(path, format!("{DIR}/ttf")),
        other => panic!("{other:?}"),
    }
    match plan_entry(&entry("Regular.otf"), DIR, options(false, true)) {
        EntryPlan::Ask { path } => assert_eq!(path, format!("{DIR}/Regular.otf")),
        other => panic!("{other:?}"),
    }
    match plan_entry(&entry("otf/"), DIR, options(false, true)) {
        EntryPlan::CreateDir { path } => assert_eq!(path, format!("{DIR}/otf")),
        other => panic!("{other:?}"),
    }
}

#[test]
fn plans_skip_the_subtree_however_it_is_spelled() {
    for use_otf in [false, true] {
        for interactive in [false, true] {
            let opts = options(use_otf, interactive);
            for name in [
                "./Windows/a.ttf",
                ".//Windows/a.otf",
                "a/../Windows/LICENSE",
                "./Windows/",
                "Windows",
            ] {
                assert_eq!(
                    skipped(plan_entry(&entry(name), DIR, opts)),
                    Some(SkipReason::IgnoredSubtree)
                );
            }
        }
    }
}

#[test]
fn plans_resolve_the_place_of_an_entry() {
    let opts = options(false, false);
    assert_eq!(
        written(plan_entry(&entry("./a//b/../c.ttf"), DIR, opts)),
        Some(format!("{DIR}/a/c.ttf"))
    );
    assert_eq!(
        written(plan_entry(&entry("Windows/../c.ttf"), DIR, opts)),
        Some(format!("{DIR}/c.ttf"))
    );
}

#[test]
fn plans_prefer_the_chosen_file_type() {
    let otf = options(true, false);
    assert_eq!(skipped(plan_entry(&entry("Regular.ttf"), DIR, otf)), Some(SkipReason::Filtered));
    assert_eq!(
        written(plan_entry(&entry("Regular.otf"), DIR, otf)),
        Some(format!("{DIR}/Regular.otf"))
    );
    assert_eq!(written(plan_entry(&entry("README.md"), DIR, otf)), Some(format!("{DIR}/README.md")));
}

#[test]
fn local_archive_with_default_filter() {
    let bytes = archive(&[("Regular.ttf", b"ttf"), ("Regular.otf", b"otf"), ("LICENSE", b"mit")]);
    let (log, installed, delete_archive) = run(bytes, options(false, false), &[]);
    assert_eq!(
        log,
        vec![
            format!("file {DIR}/Regular.ttf in {DIR}: ttf"),
            format!("file {DIR}/LICENSE in {DIR}: mit"),
        ]
    );
    assert_eq!(installed, 2);
    assert!(!delete_archive);
}

#[test]
fn archive_with_opentype_preferred() {
    let bytes = archive(&[("Regular.ttf", b"ttf"), ("Regular.otf", b"otf"), ("LICENSE", b"mit")]);
    let (log, installed, _) = run(bytes, options(true, false), &[]);
    assert_eq!(
        log,
        vec![
            format!("file {DIR}/Regular.otf in {DIR}: otf"),
            format!("file {DIR}/LICENSE in {DIR}: mit"),
        ]
    );
    assert_eq!(installed, 2);
}

#[test]
fn directories_count_and_keep_the_archive_order() {
    let bytes = archive(&[
        ("ttf/", b""),
        ("ttf/Bold.ttf", b"bold"),
        ("Windows/", b""),
        ("Windows/Bold.ttf", b"win"),
        ("otf/Bold.otf", b"otf"),
        ("README", b"read"),
    ]);
    let (log, installed, _) = run(bytes, options(false, false), &[]);
    assert_eq!(
        log,
        vec![
            format!("dir {DIR}/ttf"),
            format!("file {DIR}/ttf/Bold.ttf in {DIR}/ttf: bold"),
            format!("file {DIR}/README in {DIR}: read"),
        ]
    );
    assert_eq!(installed, 3);
}

#[test]
fn walk_skips_the_subtree_however_it_is_spelled() {
    let bytes = archive(&[
        ("./Windows/a.ttf", b"1"),
        (".//Windows/b.ttf", b"2"),
        ("a/../Windows/c.ttf", b"3"),
        ("./Windows/", b""),
        ("./ok.ttf", b"4"),
    ]);
    for interactive in [false, true] {
        let (log, installed, _) = run(bytes.clone(), options(false, interactive), &["yes"]);
        assert!(log.iter().all(|line| !line.contains("Windows")));
        assert_eq!(log.last(), Some(&format!("file {DIR}/ok.ttf in {DIR}: 4")));
        assert_eq!(installed, 1);
    }
}

#[test]
fn nothing_installed_counts_zero() {
    let bytes = archive(&[("a.otf", b"1"), ("Windows/b.ttf", b"2")]);
    let (log, installed, _) = run(bytes, options(false, false), &[]);
    assert!(log.is_empty());
    assert_eq!(installed, 0);
    let (log, installed, _) = run(archive(&[]), options(false, false), &[]);
    assert!(log.is_empty());
    assert_eq!(installed, 0);
}

#[test]
fn delete_option_is_handed_on() {
    let opts = ExtractOptions { delete_zip: true, use_otf: false, interactive: false };
    let (_, installed, delete_archive) = run(archive(&[("a.ttf", b"1")]), opts, &[]);
    assert_eq!(installed, 1);
    assert!(delete_archive);
}

#[test]
fn interactive_walk_asks_about_each_file() {
    let bytes = archive(&[
        ("ttf/", b""),
        ("ttf/a.ttf", b"a"),
        ("b.otf", b"b"),
        ("Windows/c.ttf", b"c"),
        ("LICENSE", b"l"),
    ]);
    let (log, installed, _) =
        run(bytes, options(false, true), &["maybe", "", "yes", "n", "what", "Y"]);
    assert_eq!(
        log,
        vec![
            format!("dir {DIR}/ttf"),
            "ask ttf/a.ttf".to_string(),
            "again ttf/a.ttf".to_string(),
            "again ttf/a.ttf".to_string(),
            format!("file {DIR}/ttf/a.ttf in {DIR}/ttf: a"),
            "ask b.otf".to_string(),
            "ask LICENSE".to_string(),
            "again LICENSE".to_string(),
            format!("file {DIR}/LICENSE in {DIR}: l"),
        ]
    );
    assert_eq!(installed, 3);
}

#[test]
fn pending_question_is_repeated_without_an_answer() {
    let mut walk = Extraction::open(archive(&[("a.ttf", b"a")]), Some(DIR), options(false, true)).unwrap();
    for round in 0..3 {
        match walk.advance(None).unwrap() {
            Action::Prompt { file_name, again } => {
                assert_eq!(file_name, "a.ttf");
                assert_eq!(again, round > 0);
            }
            other => panic!("{other:?}"),
        }
    }
    assert_eq!(walk.installed(), 0);
    match walk.advance(Some("No")).unwrap() {
        Action::Finish { installed, .. } => assert_eq!(installed, 0),
        other => panic!("{other:?}"),
    }
}

#[test]
fn finished_walk_stays_finished() {
    let mut walk = Extraction::open(archive(&[("a.ttf", b"a")]), Some(DIR), options(false, false)).unwrap();
    assert!(matches!(walk.advance(None).unwrap(), Action::WriteFile { .. }));
    for _ in 0..2 {
        match walk.advance(Some("yes")).unwrap() {
            Action::Finish { installed, .. } => assert_eq!(installed, 1),
            other => panic!("{other:?}"),
        }
    }
}

#[test]
fn permission_bits_are_handed_on() {
    let mut writer = ZipWriter::new(Cursor::new(Vec::new()));
    writer.start_file("run.sh", stored().unix_permissions(0o755)).unwrap();
    writer.write_all(b"#!").unwrap();
    let bytes = writer.finish().unwrap().into_inner();
    let mut walk = Extraction::open(bytes, Some(DIR), options(false, false)).unwrap();
    match walk.advance(None).unwrap() {
        Action::WriteFile { path, mode, data, .. } => {
            assert_eq!(path, format!("{DIR}/run.sh"));
            assert_eq!(mode.map(|m| m & 0o777), Some(0o755));
            assert_eq!(data, b"#!");
        }
        other => panic!("{other:?}"),
    }
}

#[test]
fn compressed_data_is_handed_out_decompressed() {
    let text = b"the same line again and again and again and again and again".repeat(20);
    let mut writer = ZipWriter::new(Cursor::new(Vec::new()));
    let deflated = SimpleFileOptions::default().compression_method(CompressionMethod::Deflated);
    writer.start_file("notes.txt", deflated).unwrap();
    writer.write_all(&text).unwrap();
    let bytes = writer.finish().unwrap().into_inner();
    assert!(bytes.len() < text.len());
    let mut walk = Extraction::open(bytes, Some(DIR), options(false, false)).unwrap();
    match walk.advance(None).unwrap() {
        Action::WriteFile { data, .. } => assert_eq!(data, text),
        other => panic!("{other:?}"),
    }
}

#[test]
fn bytes_that_are_no_archive_are_refused() {
    match Extraction::open(b"no archive at all".to_vec(), Some(DIR), options(false, false)) {
        Err(ExtractError::Archive(_)) => {}
        other => panic!("{:?}", other.map(|_| ())),
    }
    assert!(Extraction::open(Vec::new(), Some(DIR), options(false, false)).is_err());
}

#[test]
fn entries_that_escape_the_font_directory_are_skipped() {
    let bytes = archive(&[
        ("../evil.ttf", b"1"),
        ("a/../../evil.ttf", b"2"),
        ("/etc/evil.ttf", b"3"),
        ("a/../ok.ttf", b"4"),
        ("fine.ttf", b"5"),
    ]);
    for interactive in [false, true] {
        let answers = ["yes"; 5];
        let (log, installed, _) = run(bytes.clone(), options(false, interactive), &answers);
        let files: Vec<&String> = log.iter().filter(|line| line.starts_with("file ")).collect();
        assert_eq!(
            files,
            vec![
                &format!("file {DIR}/ok.ttf in {DIR}: 4"),
                &format!("file {DIR}/fine.ttf in {DIR}: 5"),
            ]
        );
        assert_eq!(installed, 2);
        assert!(log.iter().all(|line| !line.contains("evil")));
    }
}

#[test]
fn walk_without_a_home_stops_at_the_first_entry_with_a_place() {
    let bytes = archive(&[("../out.ttf", b"1"), ("a.ttf", b"2")]);
    let mut walk = Extraction::open(bytes, None, options(false, false)).unwrap();
    for _ in 0..2 {
        match walk.advance(None) {
            Err(ExtractError::HomeNotFound) => {}
            other => panic!("{other:?}"),
        }
        assert_eq!(walk.installed(), 0);
    }
    let bytes = archive(&[("Windows/a.ttf", b"1")]);
    let mut walk = Extraction::open(bytes, None, options(false, true)).unwrap();
    assert!(matches!(walk.advance(None), Err(ExtractError::HomeNotFound)));
}

#[test]
fn walk_without_a_home_ends_where_no_entry_has_a_place() {
    let opts = ExtractOptions { delete_zip: true, use_otf: false, interactive: false };
    for files in [vec![], vec![("../out.ttf", &b"1"[..]), ("/abs.ttf", &b"2"[..])]] {
        let mut walk = Extraction::open(archive(&files), None, opts).unwrap();
        match walk.advance(None).unwrap() {
            Action::Finish { installed, delete_archive } => {
                assert_eq!(installed, 0);
                assert!(delete_archive);
            }
            other => panic!("{other:?}"),
        }
    }
}
