use frep::contents::{check_patterns, plan_text};
use frep::{do_contents, finish_contents, ContentEdit, DoContentError};

#[test]
fn capture_group_scenario() {
    let plan = do_contents("a.txt", &b"foo1 foo2".to_vec(), "foo(\\d+)", "bar${1}", false, false)
        .unwrap();
    match &plan.edit {
        ContentEdit::Rewrite(t) => assert_eq!(t, "bar1 bar2"),
        other => panic!("unexpected {:?}", other),
    }
    let originals: Vec<&str> = plan.replacements.iter().map(|r| r.original.as_str()).collect();
    let news: Vec<&str> = plan.replacements.iter().map(|r| r.new.as_str()).collect();
    assert_eq!(originals, vec!["foo1", "foo2"]);
    assert_eq!(news, vec!["bar1", "bar2"]);
    assert_eq!((plan.replacements[1].start, plan.replacements[1].end), (5, 9));
    assert_eq!(plan.replacements[1].length, 4);
    let files = finish_contents(plan, Some(Ok(()))).unwrap();
    assert!(files[0].did_change);
    assert_eq!(files[0].path, "a.txt");
}

#[test]
fn empty_search_matches_whole_file() {
    let body = b"first line\nsecond line\n".to_vec();
    let plan = do_contents("a.txt", &body, "", "X", false, false).unwrap();
    assert_eq!(plan.replacements.len(), 1);
    assert_eq!(plan.replacements[0].start, 0);
    assert_eq!(plan.replacements[0].end, body.len());
    assert_eq!(plan.replacements[0].original, "first line\nsecond line\n");
    match &plan.edit {
        ContentEdit::Rewrite(t) => assert_eq!(t, "X"),
        other => panic!("unexpected {:?}", other),
    }
}

#[test]
fn no_match_is_an_empty_result() {
    let plan = plan_text("a.txt", "nothing here", "foo", "bar", false).unwrap();
    assert!(plan.replacements.is_empty());
    assert!(matches!(plan.edit, ContentEdit::Untouched));
    assert!(finish_contents(plan, None).unwrap().is_empty());
}

#[test]
fn second_pass_over_output_finds_nothing() {
    let first = plan_text("a.txt", "cat cat dog", "cat", "bird", false).unwrap();
    let out = match &first.edit {
        ContentEdit::Rewrite(t) => t.clone(),
        other => panic!("unexpected {:?}", other),
    };
    assert_eq!(out, "bird bird dog");
    let second = plan_text("a.txt", &out, "cat", "bird", false).unwrap();
    assert!(second.replacements.is_empty());
    assert!(matches!(second.edit, ContentEdit::Untouched));
}

#[test]
fn text_dry_run_reports_without_edit() {
    let dry = plan_text("a.txt", "a1 a2", "a(\\d)", "b$1", true).unwrap();
    let live = plan_text("a.txt", "a1 a2", "a(\\d)", "b$1", false).unwrap();
    assert!(matches!(dry.edit, ContentEdit::Untouched));
    assert_eq!(dry.replacements.len(), live.replacements.len());
    for (d, l) in dry.replacements.iter().zip(live.replacements.iter()) {
        assert_eq!((d.start, d.end, &d.original, &d.new), (l.start, l.end, &l.original, &l.new));
    }
    let files = finish_contents(dry, Some(Ok(()))).unwrap();
    assert!(!files[0].did_change);
}

#[test]
fn offsets_are_bytes_of_the_utf8_text() {
    let plan = plan_text("u.txt", "é-x", "x", "y", true).unwrap();
    assert_eq!((plan.replacements[0].start, plan.replacements[0].end), (3, 4));
}

#[test]
fn utf16_file_with_bom_is_decoded() {
    let bytes: Vec<u8> = vec![0xFF, 0xFE, b'h', 0, b'i', 0];
    let plan = do_contents("w.txt", &bytes, "hi", "yo", false, false).unwrap();
    assert_eq!(plan.replacements.len(), 1);
    assert_eq!(plan.replacements[0].original, "hi");
    match &plan.edit {
        ContentEdit::Rewrite(t) => assert_eq!(t, "yo"),
        other => panic!("unexpected {:?}", other),
    }
}

#[test]
fn invalid_utf8_is_a_decoding_error() {
    let bytes: Vec<u8> = vec![b'a', 0xFF, b'b'];
    match do_contents("bad.bin", &bytes, "a", "b", false, false) {
        Err(DoContentError::ReadDecodingError(p)) => assert_eq!(p, "bad.bin"),
        other => panic!("unexpected {:?}", other),
    }
}

#[test]
fn invalid_regex_is_refused() {
    match do_contents("a.txt", &b"abc".to_vec(), "(", "x", false, false) {
        Err(DoContentError::InvalidRegex(p)) => assert_eq!(p, "("),
        other => panic!("unexpected {:?}", other),
    }
    assert!(matches!(check_patterns("a[", "x", false), Err(DoContentError::InvalidRegex(_))));
    assert!(check_patterns("", "x", false).is_ok());
}

#[test]
fn failed_rewrite_carries_the_new_text() {
    let plan = plan_text("a.txt", "ab", "b", "c", false).unwrap();
    let err = std::io::Error::new(std::io::ErrorKind::PermissionDenied, "read-only");
    match finish_contents(plan, Some(Err(err))) {
        Err(DoContentError::WriteError(out, _)) => assert_eq!(out, "ac"),
        other => panic!("unexpected {:?}", other),
    }
}

#[test]
fn empty_file_without_match_reports_nothing() {
    let plan = do_contents("e.txt", &Vec::new(), "x", "y", false, false).unwrap();
    assert!(plan.replacements.is_empty());
    assert!(matches!(plan.edit, ContentEdit::Untouched));
}
