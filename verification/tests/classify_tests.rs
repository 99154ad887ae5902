use dotnet_detector::classify::{
    eq_ignoring_case, get_local_files_filtered, is_dotnet_relevant_file, ClassifiedFile,
    DirectoryEntry, FileType,
};

fn entry(name: &str, extension: Option<&str>) -> DirectoryEntry {
    DirectoryEntry { name: Some(name.to_string()), extension: extension.map(|e| e.to_string()) }
}

#[test]
fn case_insensitive_equality() {
    assert!(eq_ignoring_case("AbC", "aBc"));
    assert!(eq_ignoring_case("global.json", "GLOBAL.JSON"));
    assert!(!eq_ignoring_case("ab", "abc"));
    assert!(!eq_ignoring_case("global.json", "project.json"));
    assert!(eq_ignoring_case("", ""));
}

#[test]
fn global_json_any_casing() {
    for name in ["global.json", "GLOBAL.JSON", "Global.JSON", "gLoBaL.jSoN"] {
        let e = entry(name, Some("json"));
        assert_eq!(is_dotnet_relevant_file(&e), Some(FileType::GlobalJson));
    }
}

#[test]
fn project_json_any_casing() {
    for name in ["project.json", "PROJECT.JSON", "Project.Json"] {
        let e = entry(name, Some("json"));
        assert_eq!(is_dotnet_relevant_file(&e), Some(FileType::ProjectJson));
    }
}

#[test]
fn solution_file_by_extension() {
    let e = entry("app.sln", Some("sln"));
    assert_eq!(is_dotnet_relevant_file(&e), Some(FileType::SolutionFile));
    let e = entry("APP.SLN", Some("SLN"));
    assert_eq!(is_dotnet_relevant_file(&e), Some(FileType::SolutionFile));
}

#[test]
fn project_file_by_extension() {
    let e = entry("app.csproj", Some("csproj"));
    assert_eq!(is_dotnet_relevant_file(&e), Some(FileType::ProjectFile));
    let e = entry("app.CSPROJ", Some("CSPROJ"));
    assert_eq!(is_dotnet_relevant_file(&e), Some(FileType::ProjectFile));
    let e = entry("lib.fsproj", Some("fsproj"));
    assert_eq!(is_dotnet_relevant_file(&e), Some(FileType::ProjectFile));
    let e = entry("old.xproj", Some("xproj"));
    assert_eq!(is_dotnet_relevant_file(&e), Some(FileType::ProjectFile));
}

// A file literally named `sln` or `csproj` has no extension at all, so it
// matches no rule: the extension decides, not the bare name.
#[test]
fn degenerate_extension_names_match_nothing() {
    for name in ["sln", "csproj", "fsproj", "xproj"] {
        let e = entry(name, None);
        assert_eq!(is_dotnet_relevant_file(&e), None);
    }
}

#[test]
fn unrecognized_files_match_nothing() {
    assert_eq!(is_dotnet_relevant_file(&entry("main.rs", Some("rs"))), None);
    assert_eq!(is_dotnet_relevant_file(&entry("global.jsonx", Some("jsonx"))), None);
    assert_eq!(is_dotnet_relevant_file(&entry("sln.txt", Some("txt"))), None);
    assert_eq!(
        is_dotnet_relevant_file(&DirectoryEntry { name: None, extension: None }),
        None
    );
}

#[test]
fn filtering_keeps_order_and_positions() {
    let entries = vec![
        entry("main.rs", Some("rs")),
        entry("Global.JSON", Some("JSON")),
        entry("readme", None),
        entry("app.csproj", Some("csproj")),
        entry("app.sln", Some("sln")),
    ];
    let filtered = get_local_files_filtered(&entries);
    assert_eq!(
        filtered,
        vec![
            ClassifiedFile { index: 1, kind: FileType::GlobalJson },
            ClassifiedFile { index: 3, kind: FileType::ProjectFile },
            ClassifiedFile { index: 4, kind: FileType::SolutionFile },
        ]
    );
}

#[test]
fn filtering_empty_when_nothing_matches() {
    let entries = vec![entry("a.txt", Some("txt")), entry("b.rs", Some("rs"))];
    assert!(get_local_files_filtered(&entries).is_empty());
    let none: Vec<DirectoryEntry> = vec![];
    assert!(get_local_files_filtered(&none).is_empty());
}
