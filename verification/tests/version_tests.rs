use dotnet_detector::version::{format_dotnet_version, trim_ws};

#[test]
fn trims_surrounding_whitespace() {
    assert_eq!(trim_ws(" 6.0.1 \n"), "6.0.1");
    assert_eq!(trim_ws("7.0.100\n"), "7.0.100");
    assert_eq!(trim_ws("\t  5.0 \r\n"), "5.0");
    assert_eq!(trim_ws("no-edges"), "no-edges");
    assert_eq!(trim_ws(""), "");
    assert_eq!(trim_ws(" \n\t "), "");
    assert_eq!(trim_ws("a b"), "a b");
}

#[test]
fn version_is_prefixed_after_trimming() {
    assert_eq!(format_dotnet_version("7.0.100\n"), Some("v7.0.100".to_string()));
    assert_eq!(format_dotnet_version(" 6.0.1 \n"), Some("v6.0.1".to_string()));
    assert_eq!(format_dotnet_version("2.1.403"), Some("v2.1.403".to_string()));
}

#[test]
fn empty_output_yields_no_version() {
    assert_eq!(format_dotnet_version(""), None);
    assert_eq!(format_dotnet_version("   \n"), None);
}
