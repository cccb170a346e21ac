use ring_agent::edit::{
    apply_edit, edit_failure, edit_summary, normalize_eol, parse_edit_args, resolve_path, EditFileTool,
};
use ring_agent::json::Json;

fn obj(members: Vec<(&str, Json)>) -> Json {
    Json::Object(members.into_iter().map(|(k, v)| (k.to_string(), v)).collect())
}

fn s(v: &str) -> Json {
    Json::Str(v.to_string())
}

#[test]
fn normalize_handles_every_line_ending() {
    assert_eq!(normalize_eol("a\r\nb\rc\nd"), "a\nb\nc\nd");
    assert_eq!(normalize_eol("\r\r\n"), "\n\n");
    assert_eq!(normalize_eol(""), "");
}

#[test]
fn normalize_is_idempotent_on_examples() {
    for t in ["a\r\n\r\nb", "\r", "x\n\ry", "plain"] {
        let once = normalize_eol(t);
        assert_eq!(normalize_eol(&once), once);
        assert!(!once.contains('\r'));
    }
}

#[test]
fn error_messages_are_exact() {
    assert_eq!(apply_edit("a\n", "a", "a", false).err().unwrap(), "old_string equals new_string — no change made");
    assert_eq!(apply_edit("a\n", "zz", "q", false).err().unwrap(), "old_string not found");
    assert_eq!(
        apply_edit("x x x x x x x x x x x x", "x", "y", false).err().unwrap(),
        "old_string found 12 times — use replace_all=true or provide more context to make it unique"
    );
}

#[test]
fn equal_up_to_line_endings_is_rejected() {
    assert!(apply_edit("a\r\nb\n", "a\r\nb", "a\nb", true).is_err());
}

#[test]
fn replace_all_with_unique_match_equals_single_replace() {
    let a = apply_edit("one two three", "two", "2", false).unwrap();
    let b = apply_edit("one two three", "two", "2", true).unwrap();
    assert_eq!(a.write_content, b.write_content);
    assert_eq!(a.write_content, "one 2 three");
}

#[test]
fn empty_old_string_in_empty_file_inserts() {
    let o = apply_edit("", "", "new", false).unwrap();
    assert_eq!(o.write_content, "new");
    assert!(apply_edit("ab", "", "x", false).is_err());
    let o = apply_edit("ab", "", "x", true).unwrap();
    assert_eq!(o.write_content, "xaxbx");
}

#[test]
fn lone_cr_file_keeps_lone_cr() {
    let o = apply_edit("a\rb\r", "b", "c", false).unwrap();
    assert_eq!(o.write_content, "a\rc\r");
    let o = apply_edit("a\rb\r", "a", "x", false).unwrap();
    assert_eq!(o.orig_n, "a\nb\n");
    assert_eq!(o.write_content, "x\rb\r");
    let o = apply_edit("a\rb\r", "b", "c\nd", false).unwrap();
    assert_eq!(o.write_content, "a\rc\rd\r");
}

#[test]
fn written_content_normalizes_to_replacement() {
    let o = apply_edit("p\r\nq\r\nr\r\n", "q", "Q\nQ", false).unwrap();
    assert_eq!(o.write_content, "p\r\nQ\r\nQ\r\nr\r\n");
    assert_eq!(normalize_eol(&o.write_content), o.replaced_n);
}

#[test]
fn overlapping_occurrences_counted_left_to_right() {
    let o = apply_edit("aaaa", "aa", "b", true).unwrap();
    assert_eq!(o.write_content, "bb");
    assert!(apply_edit("aaa", "aa", "b", false).is_ok());
}

#[test]
fn summary_lists_diff_lines() {
    let o = apply_edit("aaa\nbbb\n", "bbb", "BBB", false).unwrap();
    let report = edit_summary("/tmp/f.txt", &o.orig_n, &o.replaced_n);
    assert_eq!(report, "edited /tmp/f.txt\n\n aaa\n-bbb\n+BBB\n");
}

#[test]
fn summary_adds_missing_newline() {
    let report = edit_summary("f", "x", "y");
    assert_eq!(report, "edited f\n\n-x\n+y\n");
}

#[test]
fn failure_message_names_the_path() {
    assert_eq!(edit_failure("old_string not found", "/a/b"), "old_string not found in /a/b");
}

#[test]
fn resolve_path_keeps_absolute_and_joins_relative() {
    assert_eq!(resolve_path("/work", "/etc/hosts"), "/etc/hosts");
    assert_eq!(resolve_path("/work", "src/main.rs"), "/work/src/main.rs");
}

#[test]
fn tool_metadata() {
    let t = EditFileTool;
    assert_eq!(t.name(), "edit_file");
    assert!(t.description().starts_with("Perform an exact string replacement"));
    match t.input_schema() {
        Json::Object(m) => {
            assert_eq!(m.len(), 3);
            assert_eq!(m[0].0, "type");
            match &m[2].1 {
                Json::Array(r) => assert_eq!(r.len(), 3),
                _ => panic!("required is not an array"),
            }
        },
        _ => panic!("schema is not an object"),
    }
}

#[test]
fn edit_args_are_read_and_checked() {
    let input = obj(vec![("path", s("f")), ("old_string", s("a")), ("new_string", s("b"))]);
    let a = parse_edit_args(&input).unwrap();
    assert_eq!(a.path, "f");
    assert!(!a.replace_all);
    let input = obj(vec![("path", s("f")), ("old_string", s("a")), ("new_string", s("b")), ("replace_all", Json::Bool(true))]);
    assert!(parse_edit_args(&input).unwrap().replace_all);
    let input = obj(vec![("old_string", s("a")), ("new_string", s("b"))]);
    assert_eq!(parse_edit_args(&input).err().unwrap(), "missing 'path'");
    let input = obj(vec![("path", s("f")), ("new_string", s("b"))]);
    assert_eq!(parse_edit_args(&input).err().unwrap(), "missing 'old_string'");
    let input = obj(vec![("path", s("f")), ("old_string", s("a"))]);
    assert_eq!(parse_edit_args(&input).err().unwrap(), "missing 'new_string'");
}

#[test]
fn normalizing_keeps_one_line_feed_per_line_ending() {
    let s = "a\r\nb\rc\n\r\r\n";
    let r = normalize_eol(s);
    assert_eq!(r, "a\nb\nc\n\n\n");
    let lf = s.matches('\n').count();
    let cr = s.matches('\r').count();
    let crlf = s.matches("\r\n").count();
    assert_eq!(r.matches('\n').count(), lf + cr - crlf);
}
