use noteworm::classify::{
    get_extension_from_path, get_file_type_from_extension, get_file_type_from_file_inspection,
    get_file_type_from_file_path, get_file_type_from_path, to_lower, FileType,
};

#[test]
fn extension_is_lower_cased() {
    let e = get_extension_from_path(&"notes/A.MD".to_string());
    assert_eq!(e, Some("md".to_string()));
}

#[test]
fn extension_of_final_component_only() {
    assert_eq!(
        get_extension_from_path(&"dir.d/archive.tar.gz".to_string()),
        Some("gz".to_string())
    );
    assert_eq!(get_extension_from_path(&"dir.d/plain".to_string()), None);
}

#[test]
fn leading_dot_name_has_no_extension() {
    assert_eq!(get_extension_from_path(&".gitignore".to_string()), None);
    assert_eq!(
        get_extension_from_path(&"a/.hidden.txt".to_string()),
        Some("txt".to_string())
    );
}

#[test]
fn extension_table_lookup() {
    let cases = [
        ("md", FileType::Markdown),
        ("markdown", FileType::Markdown),
        ("jpg", FileType::Jpeg),
        ("jpeg", FileType::Jpeg),
        ("png", FileType::Png),
        ("svg", FileType::Svg),
        ("pdf", FileType::Pdf),
        ("json", FileType::Json),
        ("js", FileType::Javascript),
        ("canvas", FileType::Canvas),
        ("pptx", FileType::Presentation),
        ("odp", FileType::Presentation),
        ("docx", FileType::Document),
        ("css", FileType::Stylesheet),
        ("gitignore", FileType::Git),
        ("exe", FileType::Unknown),
    ];
    for (ext, want) in cases {
        assert_eq!(get_file_type_from_extension(&ext.to_string()), want, "{ext}");
    }
}

#[test]
fn file_name_match_wins_over_extension() {
    assert_eq!(
        get_file_type_from_file_path(&"sub/.gitignore".to_string()),
        FileType::Git
    );
    assert_eq!(
        get_file_type_from_path(&"sub/.gitignore".to_string()),
        FileType::Git
    );
}

#[test]
fn path_classification() {
    assert_eq!(
        get_file_type_from_path(&"x/y.png".to_string()),
        FileType::Png
    );
    assert_eq!(
        get_file_type_from_path(&"notes/Readme.MD".to_string()),
        FileType::Markdown
    );
    assert_eq!(
        get_file_type_from_path(&"noext".to_string()),
        FileType::Unknown
    );
}

#[test]
fn inspection_hook_reports_unknown() {
    assert_eq!(
        get_file_type_from_file_inspection(&"anything.bin".to_string()),
        FileType::Unknown
    );
}

#[test]
fn lower_casing_is_ascii_only() {
    assert_eq!(to_lower(&"MiXeD-09".to_string()), "mixed-09".to_string());
    assert_eq!(to_lower(&"".to_string()), "".to_string());
}
