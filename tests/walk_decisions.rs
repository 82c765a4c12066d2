use frep::walk::{classify_content_error, entry_actions, is_degenerate_path, run_modes};
use frep::{DoContentError, ErrorAction};

#[test]
fn neither_mode_means_both() {
    let m = run_modes(false, false, false, true);
    assert!(m.names && m.contents && !m.dry);
    let only_names = run_modes(true, false, false, true);
    assert!(only_names.names && !only_names.contents);
    assert!(run_modes(false, true, false, false).dry);
    assert!(run_modes(false, true, true, true).dry);
}

#[test]
fn contents_only_for_regular_files_with_a_search() {
    let m = run_modes(false, false, false, true);
    assert_eq!((entry_actions(&m, true, true).contents, entry_actions(&m, true, true).names), (true, true));
    assert!(!entry_actions(&m, false, true).contents);
    assert!(!entry_actions(&m, true, false).contents);
    assert!(entry_actions(&m, false, true).names);
}

#[test]
fn degenerate_paths_are_skipped() {
    for p in ["", " ", " \t", ".", "..", "./", "../"] {
        assert!(is_degenerate_path(p), "{:?}", p);
    }
    for p in ["./a", "a", ".x", "..."] {
        assert!(!is_degenerate_path(p), "{:?}", p);
    }
}

#[test]
fn error_classification() {
    assert_eq!(classify_content_error(&DoContentError::NoMatchesFound), ErrorAction::Quiet);
    assert_eq!(classify_content_error(&DoContentError::EmptyFile), ErrorAction::Quiet);
    assert_eq!(
        classify_content_error(&DoContentError::ReadDecodingError("f".to_string())),
        ErrorAction::Quiet
    );
    let io = std::io::Error::new(std::io::ErrorKind::Other, "x");
    assert_eq!(
        classify_content_error(&DoContentError::WriteError("o".to_string(), io)),
        ErrorAction::Report
    );
    assert_eq!(
        classify_content_error(&DoContentError::HexDecodeError("p".to_string(), "t".to_string())),
        ErrorAction::Abort
    );
    assert_eq!(classify_content_error(&DoContentError::PatternLengthMismatch(1, 2)), ErrorAction::Abort);
    assert_eq!(classify_content_error(&DoContentError::InvalidRegex("(".to_string())), ErrorAction::Abort);
}
