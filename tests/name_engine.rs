use frep::{do_names, finish_names, DoNamesError};

#[test]
fn photo_rename_scenario() {
    let plan = do_names(
        "dir/IMG_042.jpg",
        Some("IMG_042.jpg"),
        Some("IMG_(\\d+)".to_string()),
        "photo_${1}",
        false,
    )
    .unwrap();
    assert!(plan.rename);
    let pending = plan.pending.as_ref().unwrap();
    assert_eq!(pending.new_name, "photo_042.jpg");
    assert_eq!(pending.old_name, "IMG_042.jpg");
    let infos = finish_names(plan, Some(Ok(()))).unwrap();
    assert_eq!(infos.len(), 1);
    assert!(infos[0].did_change);
    assert_eq!(infos[0].path, "dir/IMG_042.jpg");
}

#[test]
fn unchanged_name_is_not_reported() {
    let plan = do_names("x/a.txt", Some("a.txt"), Some("zzz".to_string()), "y", false).unwrap();
    assert!(plan.pending.is_none());
    assert!(!plan.rename);
    assert!(finish_names(plan, None).unwrap().is_empty());
}

#[test]
fn name_dry_run_reports_without_rename() {
    let dry = do_names("a.txt", Some("a.txt"), Some("a".to_string()), "b", true).unwrap();
    let live = do_names("a.txt", Some("a.txt"), Some("a".to_string()), "b", false).unwrap();
    assert!(!dry.rename);
    assert!(live.rename);
    assert_eq!(dry.pending.as_ref().unwrap().new_name, live.pending.as_ref().unwrap().new_name);
    let infos = finish_names(dry, Some(Ok(()))).unwrap();
    assert_eq!(infos[0].new_name, "b.txt");
    assert!(!infos[0].did_change);
}

#[test]
fn absent_search_matches_whole_name() {
    let plan = do_names("d/old.txt", Some("old.txt"), None, "new.md", false).unwrap();
    assert_eq!(plan.pending.unwrap().new_name, "new.md");
}

#[test]
fn missing_file_name_is_invalid() {
    match do_names("..", None, Some("a".to_string()), "b", false) {
        Err(DoNamesError::InvalidFilename(p)) => assert_eq!(p, ".."),
        other => panic!("unexpected {:?}", other),
    }
}

#[test]
fn bad_name_regex_is_refused() {
    assert!(matches!(
        do_names("a", Some("a"), Some("a(".to_string()), "b", false),
        Err(DoNamesError::InvalidRegex(_))
    ));
}

#[test]
fn failed_rename_carries_the_new_name() {
    let plan = do_names("a.txt", Some("a.txt"), Some("a".to_string()), "b", false).unwrap();
    let err = std::io::Error::new(std::io::ErrorKind::NotFound, "gone");
    match finish_names(plan, Some(Err(err))) {
        Err(DoNamesError::RenameError(n, e)) => {
            assert_eq!(n, "b.txt");
            assert_eq!(e.kind(), std::io::ErrorKind::NotFound);
        }
        other => panic!("unexpected {:?}", other),
    }
}
