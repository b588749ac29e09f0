use recording::ledger::{contains_name, parse_ledger, same_bytes};

fn names(list: &[&str]) -> Vec<Vec<u8>> {
    list.iter().map(|name| name.as_bytes().to_vec()).collect()
}

#[test]
fn empty_ledger_lists_nothing() {
    assert_eq!(parse_ledger(b""), names(&[]));
}

#[test]
fn lines_become_names_in_order() {
    assert_eq!(parse_ledger(b"seg_0.ts\nseg_1.ts\n"), names(&["seg_0.ts", "seg_1.ts"]));
}

#[test]
fn last_line_needs_no_line_feed() {
    assert_eq!(parse_ledger(b"seg_0.ts\nseg_1.ts"), names(&["seg_0.ts", "seg_1.ts"]));
    assert_eq!(parse_ledger(b"only"), names(&["only"]));
}

#[test]
fn empty_lines_are_skipped() {
    assert_eq!(parse_ledger(b"\n\nseg_0\n\nseg_1\n\n"), names(&["seg_0", "seg_1"]));
    assert_eq!(parse_ledger(b"\n"), names(&[]));
    assert_eq!(parse_ledger(b"\n\n\n"), names(&[]));
}

#[test]
fn duplicate_lines_collapse() {
    assert_eq!(parse_ledger(b"a\nb\na\nc\nb\na\n"), names(&["a", "b", "c"]));
}

#[test]
fn names_come_in_order_of_first_appearance() {
    assert_eq!(parse_ledger(b"z\ny\nz\nx\n"), names(&["z", "y", "x"]));
}

#[test]
fn carriage_return_before_line_feed_is_dropped() {
    assert_eq!(parse_ledger(b"seg_0\r\nseg_1\r\n"), names(&["seg_0", "seg_1"]));
    assert_eq!(parse_ledger(b"\r\n"), names(&[]));
    assert_eq!(parse_ledger(b"seg_0\r\nseg_0\n"), names(&["seg_0"]));
}

#[test]
fn only_one_carriage_return_is_dropped() {
    assert_eq!(parse_ledger(b"seg_0\r\r\n"), names(&["seg_0\r"]));
}

#[test]
fn carriage_return_without_line_feed_stays() {
    assert_eq!(parse_ledger(b"seg_0\nseg_1\r"), names(&["seg_0", "seg_1\r"]));
    assert_eq!(parse_ledger(b"a\rb\n"), names(&["a\rb"]));
}

#[test]
fn spaces_belong_to_the_name() {
    assert_eq!(parse_ledger(b" seg_0 \n\t\n"), names(&[" seg_0 ", "\t"]));
}

#[test]
fn appended_line_adds_one_name() {
    let mut content = b"seg_0\nseg_1\n".to_vec();
    let before = parse_ledger(&content);
    content.extend_from_slice(b"seg_2\n");
    let after = parse_ledger(&content);
    assert_eq!(before, names(&["seg_0", "seg_1"]));
    assert_eq!(after, names(&["seg_0", "seg_1", "seg_2"]));
}

#[test]
fn parsed_names_are_distinct_and_not_empty() {
    let parsed = parse_ledger(b"a\n\nb\r\na\nc\n\r\nb");
    assert_eq!(parsed, names(&["a", "b", "c"]));
    for (i, name) in parsed.iter().enumerate() {
        assert!(!name.is_empty());
        for other in &parsed[..i] {
            assert_ne!(name, other);
        }
    }
}

#[test]
fn same_bytes_compares_content() {
    assert!(same_bytes(b"", b""));
    assert!(same_bytes(b"abc", b"abc"));
    assert!(!same_bytes(b"abc", b"abd"));
    assert!(!same_bytes(b"abc", b"ab"));
    assert!(!same_bytes(b"", b"a"));
}

#[test]
fn contains_name_finds_whole_names_only() {
    let list = names(&["seg_0", "seg_1"]);
    assert!(contains_name(&list, b"seg_0"));
    assert!(contains_name(&list, b"seg_1"));
    assert!(!contains_name(&list, b"seg_"));
    assert!(!contains_name(&list, b"seg_10"));
    assert!(!contains_name(&Vec::new(), b"seg_0"));
}

#[test]
fn no_name_holds_a_line_feed() {
    for content in [&b"a\nb\r\nc"[..], &b"\n\n"[..], &b"a b\tc\n\r\n\rd\n"[..]] {
        for name in parse_ledger(content) {
            assert!(!name.contains(&b'\n'));
        }
    }
    assert_eq!(parse_ledger(b"a b\tc\n\r\n\rd\n"), names(&["a b\tc", "\rd"]));
}
