use dotnet_detector::classify::DirectoryEntry;
use dotnet_detector::dotnet::{module, module_name};

fn entry(name: &str, extension: Option<&str>) -> DirectoryEntry {
    DirectoryEntry { name: Some(name.to_string()), extension: extension.map(|e| e.to_string()) }
}

#[test]
fn module_is_registered_as_dotnet() {
    assert_eq!(module_name(), "dotnet");
}

#[test]
fn absent_when_listing_failed() {
    let r = module(&None, &Some("7.0.100\n".to_string()));
    assert!(r.is_none());
}

#[test]
fn absent_without_recognized_files() {
    let listing = Some(vec![entry("main.rs", Some("rs")), entry("Cargo.toml", Some("toml"))]);
    assert!(module(&listing, &Some("7.0.100\n".to_string())).is_none());
    assert!(module(&listing, &None).is_none());
    let empty = Some(vec![]);
    assert!(module(&empty, &Some("7.0.100\n".to_string())).is_none());
}

#[test]
fn absent_when_toolchain_unavailable() {
    let listing = Some(vec![entry("app.csproj", Some("csproj"))]);
    assert!(module(&listing, &None).is_none());
}

#[test]
fn absent_when_toolchain_output_is_blank() {
    let listing = Some(vec![entry("app.sln", Some("sln"))]);
    assert!(module(&listing, &Some("".to_string())).is_none());
    assert!(module(&listing, &Some(" \n".to_string())).is_none());
}

#[test]
fn present_with_mixed_case_global_json() {
    let listing = Some(vec![entry("Global.JSON", Some("JSON"))]);
    let seg = module(&listing, &Some("7.0.100\n".to_string())).unwrap();
    assert_eq!(seg.version, "v7.0.100");
    assert_eq!(seg.symbol, "\u{2022}NET ");
    assert_eq!(seg.style, ansi_term::Colour::Blue.bold());
    assert!(seg.style.is_bold);
    assert_eq!(seg.style.foreground, Some(ansi_term::Colour::Blue));
}

#[test]
fn present_with_project_file_and_padded_output() {
    let listing = Some(vec![entry("app.CSPROJ", Some("CSPROJ"))]);
    let seg = module(&listing, &Some(" 6.0.1 \n".to_string())).unwrap();
    assert_eq!(seg.version, "v6.0.1");
    assert_eq!(seg.symbol, "\u{2022}NET ");
}

#[test]
fn activation_is_idempotent() {
    let listing = Some(vec![entry("proj.fsproj", Some("fsproj")), entry("x.txt", Some("txt"))]);
    let output = Some("8.0.204\n".to_string());
    let a = module(&listing, &output).unwrap();
    let b = module(&listing, &output).unwrap();
    assert_eq!(a.symbol, b.symbol);
    assert_eq!(a.version, b.version);
    assert_eq!(a.style, b.style);

    let empty_listing = Some(vec![entry("x.txt", Some("txt"))]);
    assert!(module(&empty_listing, &output).is_none());
    assert!(module(&empty_listing, &output).is_none());
}
