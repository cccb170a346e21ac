use ring_agent::edit::apply_edit;

#[test]
fn lf_file_plain_replace() {
    let o = apply_edit("aaa\nbbb\nccc\n", "bbb", "BBB", false).unwrap();
    assert_eq!(o.write_content, "aaa\nBBB\nccc\n");
    assert!(!o.write_content.contains('\r'));
}

#[test]
fn crlf_file_single_line_old_lf_preserves_crlf() {
    let o = apply_edit("aaa\r\nbbb\r\nccc\r\n", "bbb", "BBB", false).unwrap();
    assert_eq!(o.write_content, "aaa\r\nBBB\r\nccc\r\n");
}

#[test]
fn crlf_file_multiline_old_lf_matches() {
    let o = apply_edit("x\r\naaa\r\nbbb\r\ny\r\n", "aaa\nbbb", "AAA\nBBB", false).unwrap();
    assert_eq!(o.write_content, "x\r\nAAA\r\nBBB\r\ny\r\n");
}

#[test]
fn crlf_file_old_with_crlf_also_matches() {
    let o = apply_edit("aaa\r\nbbb\r\n", "aaa\r\nbbb", "zzz", false).unwrap();
    assert_eq!(o.write_content, "zzz\r\n");
}

#[test]
fn not_found_returns_err() {
    assert!(apply_edit("aaa\nbbb\n", "zzz", "q", false).is_err());
}

#[test]
fn ambiguous_without_replace_all_returns_err() {
    assert!(apply_edit("x\nx\n", "x", "y", false).is_err());
}

#[test]
fn replace_all_replaces_every_occurrence() {
    let o = apply_edit("x\r\nx\r\n", "x", "y", true).unwrap();
    assert_eq!(o.write_content, "y\r\ny\r\n");
}

#[test]
fn equal_old_new_returns_err() {
    assert!(apply_edit("aaa\n", "aaa", "aaa", false).is_err());
}

#[test]
fn diff_uses_normalized_lines() {
    let o = apply_edit("aaa\r\nbbb\r\n", "bbb", "BBB", false).unwrap();
    assert_eq!(o.orig_n, "aaa\nbbb\n");
    assert_eq!(o.replaced_n, "aaa\nBBB\n");
}
