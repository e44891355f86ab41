use std::io::{Error, ErrorKind};
use suha::fs::{
    extension_in, DirPath, Entry, FileType, Metadata, Node, Permissions, PreviewError, Stat,
    Timestamp, UnixData,
};

fn entry_metadata(is_dir: bool, children: usize) -> Metadata {
    Metadata::from(Stat {
        len: 64,
        modified: Timestamp::new(100, 0),
        permissions: Permissions { readonly: false },
        is_dir,
        children,
        is_symlink: false,
        target: None,
        unix_data: UnixData { uid: 1, gid: 2, mode: 0o644 },
    })
}

fn home_dir() -> DirPath {
    DirPath::new(true, vec!["home".to_string(), "me".to_string()])
}

fn file_entry(name: &str) -> Entry {
    let node = Node { name: name.to_string(), icon: "*".to_string(), metadata: entry_metadata(false, 0) };
    Entry::from(node, &home_dir(), false)
}

fn dir_entry(children: usize) -> Entry {
    let node = Node {
        name: "sub".to_string(),
        icon: "D".to_string(),
        metadata: entry_metadata(true, children),
    };
    Entry::from(node, &home_dir(), false)
}

#[test]
fn from_labels_with_the_bare_name_when_icons_are_off() {
    let entry = file_entry("notes.txt");
    assert_eq!(entry.name, "notes.txt");
    assert_eq!(entry.label, "notes.txt");
}

#[test]
fn from_labels_with_icon_blank_and_name_when_icons_are_on() {
    let node = Node {
        name: "notes.txt".to_string(),
        icon: "\u{f15c}".to_string(),
        metadata: entry_metadata(false, 0),
    };
    let entry = Entry::from(node, &home_dir(), true);
    assert_eq!(entry.name, "notes.txt");
    assert_eq!(entry.label, "\u{f15c} notes.txt");
}

#[test]
fn from_places_the_entry_below_its_parent() {
    let entry = file_entry("notes.txt");
    assert_eq!(
        entry.path,
        DirPath::new(true, vec!["home".to_string(), "me".to_string(), "notes.txt".to_string()])
    );
    assert_eq!(entry.path.parent(), Some(home_dir()));
}

#[test]
fn from_never_flags_and_keeps_the_metadata() {
    let entry = dir_entry(4);
    assert!(!entry.flagged);
    assert_eq!(entry.metadata, entry_metadata(true, 4));
    assert_eq!(entry.metadata.file_type, FileType::Directory(4));
}

#[test]
fn get_extension_starts_at_the_last_dot() {
    assert_eq!(file_entry("notes.txt").get_extension(), ".txt");
    assert_eq!(file_entry("archive.tar.gz").get_extension(), ".gz");
    assert_eq!(file_entry("a.b.c.d").get_extension(), ".d");
}

#[test]
fn get_extension_is_empty_without_a_dot() {
    assert_eq!(file_entry("Makefile").get_extension(), "");
    assert_eq!(file_entry("").get_extension(), "");
}

#[test]
fn get_extension_of_a_dot_file_is_the_whole_name() {
    assert_eq!(file_entry(".bashrc").get_extension(), ".bashrc");
}

#[test]
fn get_extension_of_a_trailing_dot_is_the_dot() {
    assert_eq!(file_entry("odd.").get_extension(), ".");
    assert_eq!(file_entry(".").get_extension(), ".");
    assert_eq!(file_entry("..").get_extension(), ".");
}

#[test]
fn get_extension_counts_characters_not_bytes() {
    assert_eq!(file_entry("r\u{e9}sum\u{e9}.p\u{e9}").get_extension(), ".p\u{e9}");
    assert_eq!(file_entry("\u{65e5}\u{672c}.\u{8a9e}").get_extension(), ".\u{8a9e}");
}

#[test]
fn preview_of_a_directory_reports_its_child_count() {
    assert_eq!(dir_entry(3).preview(10, Ok(Vec::new())).unwrap(), "dir size: 3");
    assert_eq!(dir_entry(0).preview(10, Ok(Vec::new())).unwrap(), "dir size: 0");
    assert_eq!(dir_entry(1204).preview(0, Ok(b"ignored".to_vec())).unwrap(), "dir size: 1204");
}

#[test]
fn preview_of_a_directory_does_not_look_at_a_failed_read() {
    let failed = Err(Error::new(ErrorKind::PermissionDenied, "denied"));
    assert_eq!(dir_entry(12).preview(5, failed).unwrap(), "dir size: 12");
}

#[test]
fn preview_of_a_file_is_its_first_lines() {
    let content = b"alpha\nbeta\ngamma\n".to_vec();
    let entry = file_entry("greek.txt");
    assert_eq!(entry.preview(2, Ok(content.clone())).unwrap(), "alpha\nbeta\n");
    assert_eq!(entry.preview(1, Ok(content.clone())).unwrap(), "alpha\n");
    assert_eq!(entry.preview(0, Ok(content.clone())).unwrap(), "");
    assert_eq!(entry.preview(50, Ok(content)).unwrap(), "alpha\nbeta\ngamma\n");
}

#[test]
fn preview_of_a_file_decodes_utf8() {
    let content = "gr\u{fc}\u{df}e\n\u{4e16}\u{754c}\n".as_bytes().to_vec();
    let entry = file_entry("hello.txt");
    assert_eq!(entry.preview(2, Ok(content)).unwrap(), "gr\u{fc}\u{df}e\n\u{4e16}\u{754c}\n");
}

#[test]
fn preview_refuses_bytes_that_are_no_utf8() {
    let entry = file_entry("blob.bin");
    let preview = entry.preview(3, Ok(vec![0x66, 0x6f, 0xff, 0xfe, 0x0a]));
    assert!(matches!(preview, Err(PreviewError::InvalidText)));
    let truncated = entry.preview(3, Ok(vec![0xe4, 0xb8]));
    assert!(matches!(truncated, Err(PreviewError::InvalidText)));
}

#[test]
fn preview_looks_only_at_the_lines_it_was_asked_for() {
    let entry = file_entry("mixed.bin");
    let content = vec![0x6f, 0x6b, 0x0a, 0xff, 0xff];
    assert_eq!(entry.preview(1, Ok(content.clone())).unwrap(), "ok\n");
    assert!(matches!(entry.preview(2, Ok(content)), Err(PreviewError::InvalidText)));
}

#[test]
fn preview_hands_back_a_failed_read() {
    let entry = file_entry("gone.txt");
    let preview = entry.preview(3, Err(Error::new(ErrorKind::NotFound, "gone")));
    match preview {
        Err(PreviewError::Io(error)) => {
            assert_eq!(error.kind(), ErrorKind::NotFound);
            assert_eq!(error.to_string(), "gone");
        }
        other => panic!("expected the read's error, got {:?}", other),
    }
}

#[test]
fn extension_in_a_bare_name() {
    assert_eq!(extension_in("lib.rs"), ".rs");
    assert_eq!(extension_in("Cargo.toml"), ".toml");
    assert_eq!(extension_in("README"), "");
    assert_eq!(extension_in("a.b."), ".");
    assert_eq!(extension_in(""), "");
}
