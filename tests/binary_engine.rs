use frep::binary::scan_binary;
use frep::contents::{check_patterns, plan_binary};
use frep::hex_pattern::compile_pattern;
use frep::{do_contents, finish_contents, ByteMatcher, ContentEdit, ContentPlan, DoContentError};

fn apply(data: &mut Vec<u8>, plan: &ContentPlan) {
    if let ContentEdit::Patch { writes, .. } = &plan.edit {
        for w in writes {
            data[w.offset..w.offset + w.bytes.len()].copy_from_slice(&w.bytes);
        }
    }
}

fn exact(v: u8) -> ByteMatcher {
    ByteMatcher { value: v, is_wildcard: false }
}

fn any() -> ByteMatcher {
    ByteMatcher { value: 0, is_wildcard: true }
}

#[test]
fn wildcard_scenario_two_matches() {
    let mut data = vec![0x41, 0x42, 0x43, 0x41, 0x42, 0x43];
    let plan = do_contents("f.bin", &data, "41 ?? 43", "FF ?? 00", false, true).unwrap();
    let spans: Vec<(usize, usize)> = plan.replacements.iter().map(|r| (r.start, r.end)).collect();
    assert_eq!(spans, vec![(0, 3), (3, 6)]);
    assert_eq!(plan.replacements[0].length, 3);
    assert_eq!(plan.replacements[0].original, "41 ?? 43");
    assert_eq!(plan.replacements[0].new, "FF ?? 00");
    apply(&mut data, &plan);
    assert_eq!(data, vec![0xFF, 0x42, 0x00, 0xFF, 0x42, 0x00]);
    let files = finish_contents(plan, Some(Ok(()))).unwrap();
    assert_eq!(files.len(), 1);
    assert!(files[0].did_change);
    assert_eq!(files[0].path, "f.bin");
    assert_eq!(files[0].replacements.len(), 2);
}

#[test]
fn overlapping_windows_are_each_counted() {
    let data = vec![0xAA, 0xAA, 0xAA, 0x00];
    let plan = plan_binary("f", &data, "AA AA", "BB BB", true).unwrap();
    let starts: Vec<usize> = plan.replacements.iter().map(|r| r.start).collect();
    assert_eq!(starts, vec![0, 1]);
}

#[test]
fn match_count_equals_matching_offsets() {
    let data: Vec<u8> = vec![1, 2, 1, 3, 1, 2, 1, 2];
    let plan = plan_binary("f", &data, "01 ??", "01 ??", true).unwrap();
    let expected = (0..=data.len() - 2).filter(|&i| data[i] == 1).count();
    assert_eq!(plan.replacements.len(), expected);
    assert_eq!(expected, 4);
}

#[test]
fn bytes_outside_windows_and_length_are_kept() {
    let original: Vec<u8> = vec![9, 9, 0x10, 0x20, 9, 0x10, 0x20, 9];
    let mut data = original.clone();
    let plan = plan_binary("f", &data, "10 20", "30 40", false).unwrap();
    apply(&mut data, &plan);
    assert_eq!(data.len(), original.len());
    assert_eq!(data, vec![9, 9, 0x30, 0x40, 9, 0x30, 0x40, 9]);
}

#[test]
fn wildcard_in_replacement_keeps_the_byte() {
    let mut data: Vec<u8> = vec![0x01, 0x77, 0x02];
    let plan = plan_binary("f", &data, "01 * 02", "0A ? 0B", false).unwrap();
    apply(&mut data, &plan);
    assert_eq!(data, vec![0x0A, 0x77, 0x0B]);
}

#[test]
fn data_shorter_than_pattern_has_no_match() {
    let data: Vec<u8> = vec![0x41, 0x42];
    let plan = plan_binary("f", &data, "41 42 43", "00 00 00", false).unwrap();
    assert!(plan.replacements.is_empty());
    assert!(matches!(plan.edit, ContentEdit::Untouched));
    assert!(finish_contents(plan, None).unwrap().is_empty());
}

#[test]
fn binary_dry_run_reports_without_edit() {
    let data: Vec<u8> = vec![0x41, 0x42, 0x43];
    let dry = plan_binary("f", &data, "41", "5A", true).unwrap();
    let live = plan_binary("f", &data, "41", "5A", false).unwrap();
    assert!(matches!(dry.edit, ContentEdit::Untouched));
    assert!(matches!(live.edit, ContentEdit::Patch { .. }));
    assert_eq!(dry.replacements.len(), live.replacements.len());
    assert_eq!(dry.replacements[0].start, live.replacements[0].start);
    let files = finish_contents(dry, Some(Ok(()))).unwrap();
    assert!(!files[0].did_change);
}

#[test]
fn scan_writes_windows_from_original_bytes() {
    let data: Vec<u8> = vec![5, 5, 5];
    let writes = scan_binary(&data, &vec![exact(5), exact(5)], &vec![exact(6), any()]);
    assert_eq!(writes.len(), 2);
    assert_eq!((writes[0].offset, writes[0].bytes.clone()), (0, vec![6, 5]));
    assert_eq!((writes[1].offset, writes[1].bytes.clone()), (1, vec![6, 5]));
}

#[test]
fn escape_form_and_wildcard_spellings() {
    let m = compile_pattern("\\x41\\x??\\x*\\x?\\xfF").unwrap();
    assert_eq!(m, vec![exact(0x41), any(), any(), any(), exact(0xFF)]);
    let spaced = compile_pattern("  41\t42\n\n43 ").unwrap();
    assert_eq!(spaced, vec![exact(0x41), exact(0x42), exact(0x43)]);
    assert_eq!(compile_pattern("").unwrap(), vec![]);
}

#[test]
fn bad_token_is_a_hex_decode_error() {
    assert_eq!(compile_pattern("41 4G 42").unwrap_err(), "4G");
    assert_eq!(compile_pattern("411").unwrap_err(), "411");
    let data: Vec<u8> = vec![0x41];
    match plan_binary("f", &data, "41", "zz", false) {
        Err(DoContentError::HexDecodeError(p, t)) => {
            assert_eq!(p, "zz");
            assert_eq!(t, "zz");
        }
        other => panic!("unexpected {:?}", other),
    }
}

#[test]
fn patterns_of_different_length_are_refused() {
    let data: Vec<u8> = vec![0x41, 0x42];
    assert!(matches!(
        plan_binary("f", &data, "41 42", "00", false),
        Err(DoContentError::PatternLengthMismatch(2, 1))
    ));
    assert!(matches!(
        check_patterns("41 42", "00", true),
        Err(DoContentError::PatternLengthMismatch(2, 1))
    ));
    assert!(check_patterns("41 ??", "00 ??", true).is_ok());
}

#[test]
fn failed_patch_is_a_write_error() {
    let data: Vec<u8> = vec![0x41];
    let plan = plan_binary("f", &data, "41", "42", false).unwrap();
    let err = std::io::Error::new(std::io::ErrorKind::Other, "disk full");
    match finish_contents(plan, Some(Err(err))) {
        Err(DoContentError::WriteError(out, e)) => {
            assert_eq!(out, "42");
            assert_eq!(e.to_string(), "disk full");
        }
        other => panic!("unexpected {:?}", other),
    }
}

#[test]
fn empty_file_has_no_binary_match() {
    let plan = do_contents("e.bin", &Vec::new(), "00", "01", false, true).unwrap();
    assert!(plan.replacements.is_empty());
    assert!(finish_contents(plan, None).unwrap().is_empty());
}
