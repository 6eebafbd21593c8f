use orca::config::Authentication;
use orca::config::PathError;
use orca::config::join_path_errors;
use orca::format::Format;
use orca::format::mime_type;

#[test]
fn test_path_error_display() {
    let error = PathError {
        path: String::from("/invalid/path"),
        error: String::from("sample error"),
    };
    assert_eq!(error.to_message(), "/invalid/path : sample error");
}

#[test]
fn path_error_summary_joins_lines() {
    let errors = vec![
        PathError {
            path: String::from("/etc/one.toml"),
            error: String::from("file not found"),
        },
        PathError {
            path: String::from("/etc/two.toml"),
            error: String::from("missing field"),
        },
    ];
    assert_eq!(
        join_path_errors(&errors),
        "\t/etc/one.toml : file not found\n\t/etc/two.toml : missing field"
    );
    assert_eq!(join_path_errors(&Vec::new()), "");
}

#[test]
fn default_authentication_is_empty() {
    let auth = Authentication::default();
    assert!(auth.login.is_empty());
    assert!(auth.public.is_empty());
}

#[test]
fn format_names_parse_without_regard_to_case() {
    assert_eq!(Format::from_str("epub"), Some(Format::EPUB));
    assert_eq!(Format::from_str("EPUB"), Some(Format::EPUB));
    assert_eq!(Format::from_str("Pdf"), Some(Format::PDF));
    assert_eq!(Format::from_str("mobi"), Some(Format::MOBI));
    assert_eq!(Format::from_str("txt"), None);
    assert_eq!(Format::from_str(""), None);
}

#[test]
fn lowered_format_names_parse_exactly() {
    assert_eq!(Format::from_lowered("pdf"), Some(Format::PDF));
    assert_eq!(Format::from_lowered("PDF"), None);
}

#[test]
fn formats_map_to_their_mime_types() {
    assert_eq!(mime_type("epub"), "application/epub+zip");
    assert_eq!(mime_type("pdf"), "application/pdf");
    assert_eq!(mime_type("mobi"), "application/x-mobipocket-ebook");
    assert_eq!(mime_type("azw3"), "application/octet-stream");
    assert_eq!(mime_type("EPUB"), "application/octet-stream");
}
