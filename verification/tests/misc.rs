use noteworm::digest::{bytes_to_hex, hash_from_bytes};
use noteworm::errors::BookwormError;
use noteworm::frontmatter::{scan_front_matter, scan_line, FrontMatterLine};
use noteworm::meta::NoteFileMeta;
use noteworm::opts::{Command, Opts};
use noteworm::walk::{DirEntryInfo, TreeWalk};

#[test]
fn it_works() {
    let result = noteworm::add(2, 2);
    assert_eq!(result, 4);
}

#[test]
fn hex_rendering_is_two_digits_per_byte() {
    assert_eq!(bytes_to_hex(&vec![]), "".to_string());
    assert_eq!(bytes_to_hex(&vec![0x00, 0xab, 0xff]), "00abff".to_string());
    assert_eq!(bytes_to_hex(&vec![0x0f]), "0f".to_string());
}

#[test]
fn sha256_of_known_inputs() {
    assert_eq!(
        hash_from_bytes(&Vec::new()),
        "e3b0c44298fc1c149afbf4c8996fb92427ae41e4649b934ca495991b7852b855".to_string()
    );
    assert_eq!(
        hash_from_bytes(&b"abc".to_vec()),
        "ba7816bf8f01cfea414140de5dae2223b00361a396177a9cb410ff61f20015ad".to_string()
    );
}

#[test]
fn error_message_names_the_cause() {
    let e = BookwormError::IOError("open notes: permission denied".to_string());
    assert_eq!(
        e.message(),
        "IO error: open notes: permission denied".to_string()
    );
}

#[test]
fn get_command_copies_the_command() {
    let opts = Opts {
        command: Some(Command::Backup {
            source: "src".to_string(),
            destination: "dst".to_string(),
        }),
    };
    match opts.get_command() {
        Some(Command::Backup {
            source,
            destination,
        }) => {
            assert_eq!(source, "src");
            assert_eq!(destination, "dst");
        }
        other => panic!("unexpected command: {other:?}"),
    }
    let none = Opts { command: None };
    assert!(none.get_command().is_none());
}

#[test]
fn meta_derives_kind_and_extension() {
    let m = NoteFileMeta::new(
        "/root/notes/a.MD".to_string(),
        "notes/a.MD".to_string(),
        10,
        1000,
        2000,
    );
    assert_eq!(m.file_extension, Some("md".to_string()));
    assert_eq!(m.file_type, noteworm::classify::FileType::Markdown);
    assert_eq!(m.file_size(), 10);
    assert_eq!(m.file_hash, None);
    let m = m.with_content_hash(&Vec::new());
    assert_eq!(
        m.file_hash,
        Some("e3b0c44298fc1c149afbf4c8996fb92427ae41e4649b934ca495991b7852b855".to_string())
    );
    assert_eq!(m.file_relative_path, "notes/a.MD");
}

#[test]
fn walker_queues_directories_and_records_files() {
    let mut w = TreeWalk::new("/root".to_string());
    let d = w.next_dir().expect("root pending");
    assert_eq!(d, "");

    w.observe(
        &d,
        DirEntryInfo {
            name: "notes".to_string(),
            is_dir: true,
            is_file: false,
            size: 0,
            created: 0,
            modified: 0,
        },
    );
    w.observe(
        &d,
        DirEntryInfo {
            name: "top.md".to_string(),
            is_dir: false,
            is_file: true,
            size: 5,
            created: 10,
            modified: 20,
        },
    );

    let sub = w.next_dir().expect("notes pending");
    assert_eq!(sub, "notes");
    w.observe(
        &sub,
        DirEntryInfo {
            name: "a.md".to_string(),
            is_dir: false,
            is_file: true,
            size: 7,
            created: 30,
            modified: 40,
        },
    );
    assert!(w.next_dir().is_none());

    let entries = w.into_entries();
    assert_eq!(entries.len(), 2);
    assert_eq!(entries[0].file_relative_path, "top.md");
    assert_eq!(entries[0].file_path, "/root/top.md");
    assert_eq!(entries[0].file_size, 5);
    assert_eq!(entries[1].file_relative_path, "notes/a.md");
    assert_eq!(entries[1].file_path, "/root/notes/a.md");
    assert_eq!(entries[1].file_modified, 40);
}

fn prop(key: &str, value: &str) -> FrontMatterLine {
    FrontMatterLine::Property {
        key: key.to_string(),
        value: value.to_string(),
    }
}

#[test]
fn front_matter_block_is_scanned() {
    let lines: Vec<String> = [
        "---",
        "title: \"My Note\"",
        "tags: a,b",
        "---",
        "body: not front matter",
    ]
    .iter()
    .map(|s| s.to_string())
    .collect();
    let r = scan_front_matter(&lines);
    assert_eq!(r, vec![prop("title", "My Note"), prop("tags", "a,b")]);
}

#[test]
fn no_fence_means_no_front_matter() {
    let lines: Vec<String> = ["title: x", "---"].iter().map(|s| s.to_string()).collect();
    assert_eq!(scan_front_matter(&lines), vec![]);
    assert_eq!(scan_front_matter(&Vec::new()), vec![]);
}

#[test]
fn unterminated_front_matter_runs_to_the_end() {
    let lines: Vec<String> = ["---", "a: b"].iter().map(|s| s.to_string()).collect();
    assert_eq!(scan_front_matter(&lines), vec![prop("a", "b")]);
}

#[test]
fn property_line_grammar() {
    let cases: Vec<(&str, FrontMatterLine)> = vec![
        ("key: value", prop("key", "value")),
        ("  key  :   spaced value  ", prop("key", "spaced value")),
        ("\"quoted key\" : \"quoted value\"", prop("quoted key", "quoted value")),
        ("key with spaces: v", prop("key with spaces", "v")),
        ("empty:", prop("empty", "")),
        ("colons: a:b:c", prop("colons", "a:b:c")),
        (
            "no colon here",
            FrontMatterLine::Unmatched {
                line: "no colon here".to_string(),
            },
        ),
        (
            "   ",
            FrontMatterLine::Unmatched {
                line: "   ".to_string(),
            },
        ),
        (
            ": starts with colon",
            FrontMatterLine::Unmatched {
                line: ": starts with colon".to_string(),
            },
        ),
    ];
    for (line, want) in cases {
        assert_eq!(scan_line(&line.to_string()), want, "line {line:?}");
    }
}
