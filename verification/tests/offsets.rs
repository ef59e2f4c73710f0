use rkbx_os2l::offsets::{get_version, hexparse, Pointer, RekordboxOffsets};

#[test]
fn hexparse_plain_digits() {
    assert_eq!(hexparse("1a"), Some(26));
    assert_eq!(hexparse("0"), Some(0));
    assert_eq!(hexparse("ABC"), Some(2748));
    assert_eq!(hexparse("deadBEEF"), Some(0xdead_beef));
}

#[test]
fn hexparse_accepts_leading_plus() {
    assert_eq!(hexparse("+ff"), Some(255));
    assert_eq!(hexparse("+0"), Some(0));
}

#[test]
fn hexparse_rejects_bad_input() {
    assert_eq!(hexparse(""), None);
    assert_eq!(hexparse("+"), None);
    assert_eq!(hexparse("0x1f"), None);
    assert_eq!(hexparse("12 34"), None);
    assert_eq!(hexparse("-1"), None);
}

#[test]
fn hexparse_rejects_overflow() {
    // 17 hexadecimal digits exceed a 64-bit usize.
    assert_eq!(hexparse("1ffffffffffffffff"), None);
    assert_eq!(hexparse("ffffffffffffffff"), Some(usize::MAX));
}

#[test]
fn pointer_new_keeps_fields() {
    let p = Pointer::new(vec![1, 2, 3], 7);
    assert_eq!(p.offsets, vec![1, 2, 3]);
    assert_eq!(p.final_offset, 7);
}

#[test]
fn pointer_from_string_splits_offsets() {
    let p = Pointer::from_string("a1 2 3f").unwrap();
    assert_eq!(p.offsets, vec![0xa1, 0x2]);
    assert_eq!(p.final_offset, 0x3f);
}

#[test]
fn pointer_from_string_single_token() {
    let p = Pointer::from_string("1f").unwrap();
    assert_eq!(p.offsets, Vec::<usize>::new());
    assert_eq!(p.final_offset, 31);
}

#[test]
fn pointer_from_string_rejects_bad_lines() {
    assert!(Pointer::from_string("").is_none());
    assert!(Pointer::from_string("a1  3f").is_none());
    assert!(Pointer::from_string("a1 zz").is_none());
}

fn version_block(tag: &str) -> Vec<String> {
    let mut lines = vec![tag.to_string()];
    for k in 0..11 {
        lines.push(format!("{:x} {:x}", 16 + k, 32 + k));
    }
    lines
}

#[test]
fn from_lines_reads_a_block() {
    let lines = version_block("6.7.3");
    let o = RekordboxOffsets::from_lines(&lines).unwrap();
    assert_eq!(o.rbversion, "6.7.3");
    assert_eq!(o.deck1bar.offsets, vec![0x10]);
    assert_eq!(o.deck1bar.final_offset, 0x20);
    assert_eq!(o.deck2_time.offsets, vec![0x1a]);
    assert_eq!(o.deck2_time.final_offset, 0x2a);
}

#[test]
fn from_lines_needs_twelve_lines() {
    let mut lines = version_block("6.7.3");
    lines.truncate(11);
    assert!(RekordboxOffsets::from_lines(&lines).is_none());
}

#[test]
fn from_lines_rejects_bad_pointer() {
    let mut lines = version_block("6.7.3");
    lines[5] = "not hex".to_string();
    assert!(RekordboxOffsets::from_lines(&lines).is_none());
}

fn offsets_file(tags: &[&str], trailing_blank: bool) -> Vec<String> {
    let mut lines = vec!["# memory offsets".to_string()];
    for tag in tags {
        lines.extend(version_block(tag));
        lines.push(String::new());
    }
    if !trailing_blank {
        lines.pop();
    }
    lines
}

#[test]
fn from_file_lines_groups_blocks() {
    let lines = offsets_file(&["6.7.3", "6.8.4"], true);
    let tables = RekordboxOffsets::from_file_lines(&lines).unwrap();
    assert_eq!(tables.len(), 2);
    assert_eq!(tables[0].rbversion, "6.7.3");
    assert_eq!(tables[1].rbversion, "6.8.4");
}

#[test]
fn from_file_lines_drops_unterminated_block() {
    // A block not followed by a blank line is not flushed.
    let lines = offsets_file(&["6.7.3", "6.8.4"], false);
    let tables = RekordboxOffsets::from_file_lines(&lines).unwrap();
    assert_eq!(tables.len(), 1);
    assert_eq!(tables[0].rbversion, "6.7.3");
}

#[test]
fn from_file_lines_rejects_bad_block() {
    let mut lines = offsets_file(&["6.7.3"], true);
    lines[3] = "bad line!".to_string();
    assert!(RekordboxOffsets::from_file_lines(&lines).is_none());
}

#[test]
fn get_version_finds_tag() {
    let lines = offsets_file(&["6.7.3", "6.8.4"], true);
    let tables = RekordboxOffsets::from_file_lines(&lines).unwrap();
    assert_eq!(get_version(&tables, "6.8.4").unwrap().rbversion, "6.8.4");
    assert!(get_version(&tables, "7.0.0").is_none());
}

#[test]
fn get_version_last_duplicate_wins() {
    let mut first = version_block("6.7.3");
    first[1] = "1 2".to_string();
    let mut second = version_block("6.7.3");
    second[1] = "3 4".to_string();
    let mut lines = first;
    lines.push(String::new());
    lines.extend(second);
    lines.push(String::new());
    let tables = RekordboxOffsets::from_file_lines(&lines).unwrap();
    assert_eq!(tables.len(), 2);
    let t = get_version(&tables, "6.7.3").unwrap();
    assert_eq!(t.deck1bar.offsets, vec![0x3]);
    assert_eq!(t.deck1bar.final_offset, 0x4);
}
