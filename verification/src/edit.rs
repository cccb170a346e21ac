//! The `edit_file` tool: exact string replacement that matches across line
//! ending styles and writes the file back in its own style.

use vstd::prelude::*;
use crate::json::{
    as_bool, as_str, field, json_members_view, json_obj2, json_seq_view, json_str, lemma_json_seq_push, Json,
    JsonView, ObjectBuilder,
};
use crate::paths::{path_absolute, path_is_absolute, path_join, path_joined};
use crate::text::{
    contains_cr, contains_crlf, count_char, count_crlf, count_matches, law_normalized_line_feeds, count_occurrences, cr_free, decimal, has_crlf, lemma_cr_round_trip, lemma_crlf_round_trip, lemma_lf_to_cr_no_lf,
    lemma_normalize_cr_free_identity, lemma_normalized_cr_free, lemma_replace_cr_free,
    lemma_single_occurrence_replace, lf_to_cr, lf_to_cr_chars, lf_to_crlf, lf_to_crlf_chars, normalize_eol_chars, normalized_eol,
    owned, push_decimal, push_str_chars, push_vec_chars, replace_all, replace_all_chars, replace_first,
    replace_first_chars, string_from_chars, to_chars, vec_eq,
};

verus! {

broadcast use vstd::string::group_string_axioms;

/// The `edit_file` tool.
pub struct EditFileTool;

impl EditFileTool {
    /// The tool's name.
    pub fn name(&self) -> (res: &'static str)
        ensures
            res@ == "edit_file"@,
    {
        "edit_file"
    }

    /// The tool's description for the model.
    pub fn description(&self) -> (res: &'static str)
        ensures
            res@ == TOOL_DESCRIPTION@,
    {
        TOOL_DESCRIPTION
    }
}

/// What the tool tells the model about itself.
pub const TOOL_DESCRIPTION: &'static str = "Perform an exact string replacement in a file. Fails if old_string is not found or is ambiguous (found more than once).";

/// Result of an edit: the content to write, and the line-ending-normalised
/// texts before and after that the diff is computed from.
pub struct EditOutcome {
    /// The content to write back, in the original file's line-ending style.
    pub write_content: String,
    /// The original text with every line ending written as `\n`.
    pub orig_n: String,
    /// The replaced text with every line ending written as `\n`.
    pub replaced_n: String,
}

/// The texts of an [`EditOutcome`].
pub struct EditOutcomeView {
    pub write_content: Seq<char>,
    pub orig_n: Seq<char>,
    pub replaced_n: Seq<char>,
}

impl View for EditOutcome {
    type V = EditOutcomeView;

    open spec fn view(&self) -> EditOutcomeView {
        EditOutcomeView {
            write_content: self.write_content@,
            orig_n: self.orig_n@,
            replaced_n: self.replaced_n@,
        }
    }
}

/// Message when old and new text are equal after normalisation.
pub open spec fn msg_unchanged() -> Seq<char> {
    "old_string equals new_string — no change made"@
}

/// Message when the old text does not occur.
pub open spec fn msg_not_found() -> Seq<char> {
    "old_string not found"@
}

/// Message when the old text occurs `n` times and only one replacement was asked for.
pub open spec fn msg_ambiguous(n: nat) -> Seq<char> {
    "old_string found "@ + decimal(n)
        + " times — use replace_all=true or provide more context to make it unique"@
}

/// What [`apply_edit`] returns, over character sequences.
pub open spec fn edit_result(
    original: Seq<char>,
    old_str: Seq<char>,
    new_str: Seq<char>,
    replace_all_flag: bool,
) -> Result<EditOutcomeView, Seq<char>> {
    let orig_n = normalized_eol(original);
    let old_n = normalized_eol(old_str);
    let new_n = normalized_eol(new_str);
    let n = count_matches(orig_n, old_n);
    if old_n == new_n {
        Err(msg_unchanged())
    } else if n == 0 {
        Err(msg_not_found())
    } else if !replace_all_flag && n > 1 {
        Err(msg_ambiguous(n))
    } else {
        let replaced_n = if replace_all_flag {
            replace_all(orig_n, old_n, new_n)
        } else {
            replace_first(orig_n, old_n, new_n)
        };
        Ok(
            EditOutcomeView {
                write_content: restore_eol(original, replaced_n),
                orig_n,
                replaced_n,
            },
        )
    }
}

/// `text` (whose line endings are `\n`) written in the line-ending style of
/// `original`: `\r\n` when the original holds any `\r\n`, else a lone `\r`
/// when it holds a carriage return, else `\n`.
pub open spec fn restore_eol(original: Seq<char>, text: Seq<char>) -> Seq<char> {
    if has_crlf(original) {
        lf_to_crlf(text)
    } else if !cr_free(original) {
        lf_to_cr(text)
    } else {
        text
    }
}

/// The view of an edit result.
pub open spec fn edit_result_view(r: Result<EditOutcome, String>) -> Result<EditOutcomeView, Seq<char>> {
    match r {
        Ok(o) => Ok(o@),
        Err(e) => Err(e@),
    }
}

/// Exact replacement with line endings normalised.
///
/// `original`, `old_str` and `new_str` are all normalised to `\n` line
/// endings before matching; the result is written back in the original's
/// style: `\r\n` when it holds any `\r\n`, a lone `\r` when it holds other
/// carriage returns, `\n` otherwise.  Fails when old and new text are equal,
/// when the old text does not occur, and when it occurs more than once and
/// `replace_all` is not set.
pub fn apply_edit(original: &str, old_str: &str, new_str: &str, replace_all: bool) -> (res: Result<
    EditOutcome,
    String,
>)
    requires
        original@.len() < usize::MAX,
    ensures
        edit_result_view(res) == edit_result(original@, old_str@, new_str@, replace_all),
{
    let oc = to_chars(original);
    let is_crlf = contains_crlf(&oc);
    let is_cr = contains_cr(&oc);
    let orig_n = normalize_eol_chars(&oc);
    let old_n = normalize_eol_chars(&to_chars(old_str));
    let new_n = normalize_eol_chars(&to_chars(new_str));
    if vec_eq(&old_n, &new_n) {
        return Err(owned("old_string equals new_string — no change made"));
    }
    proof {
        lemma_normalized_cr_free(oc@);
    }
    let count = count_occurrences(&orig_n, &old_n);
    if count == 0 {
        return Err(owned("old_string not found"));
    }
    if !replace_all && count > 1 {
        let mut msg: Vec<char> = Vec::new();
        push_str_chars(&mut msg, "old_string found ");
        push_decimal(&mut msg, count as u64);
        push_str_chars(&mut msg, " times — use replace_all=true or provide more context to make it unique");
        proof {
            assert(msg@ =~= msg_ambiguous(count as nat));
        }
        return Err(string_from_chars(&msg));
    }
    let replaced_n = if replace_all {
        replace_all_chars(&orig_n, &old_n, &new_n)
    } else {
        replace_first_chars(&orig_n, &old_n, &new_n)
    };
    let write_content = if is_crlf {
        string_from_chars(&lf_to_crlf_chars(&replaced_n))
    } else if is_cr {
        string_from_chars(&lf_to_cr_chars(&replaced_n))
    } else {
        string_from_chars(&replaced_n)
    };
    Ok(
        EditOutcome {
            write_content,
            orig_n: string_from_chars(&orig_n),
            replaced_n: string_from_chars(&replaced_n),
        },
    )
}

/// Writes every line ending of `s` (`\r\n`, a lone `\r`, or `\n`) as `\n`.
pub fn normalize_eol(s: &str) -> (res: String)
    ensures
        res@ == normalized_eol(s@),
        cr_free(res@),
        count_char(res@, '\n') + count_crlf(s@) == count_char(s@, '\n') + count_char(s@, '\r'),
{
    proof {
        lemma_normalized_cr_free(s@);
        law_normalized_line_feeds(s@);
    }
    string_from_chars(&normalize_eol_chars(&to_chars(s)))
}

// ───────────────────────── laws ─────────────────────────

/// Reading back what an edit writes and normalising its line endings gives
/// the normalised replacement, and both texts a diff is shown for are free
/// of carriage returns.
pub proof fn law_written_content_normalizes_to_replacement(
    original: Seq<char>,
    old_str: Seq<char>,
    new_str: Seq<char>,
    replace_all_flag: bool,
)
    requires
        edit_result(original, old_str, new_str, replace_all_flag) is Ok,
    ensures
        ({
            let v = edit_result(original, old_str, new_str, replace_all_flag)->Ok_0;
            &&& normalized_eol(v.write_content) == v.replaced_n
            &&& cr_free(v.orig_n)
            &&& cr_free(v.replaced_n)
            &&& v.orig_n == normalized_eol(original)
        }),
{
    let orig_n = normalized_eol(original);
    let old_n = normalized_eol(old_str);
    let new_n = normalized_eol(new_str);
    lemma_normalized_cr_free(original);
    lemma_normalized_cr_free(new_str);
    lemma_replace_cr_free(orig_n, old_n, new_n);
    let v = edit_result(original, old_str, new_str, replace_all_flag)->Ok_0;
    if has_crlf(original) {
        lemma_crlf_round_trip(v.replaced_n);
    } else if !cr_free(original) {
        lemma_cr_round_trip(v.replaced_n);
    } else {
        lemma_normalize_cr_free_identity(v.replaced_n);
    }
}

/// A file without carriage returns is written back without any.
pub proof fn law_lf_file_stays_lf(
    original: Seq<char>,
    old_str: Seq<char>,
    new_str: Seq<char>,
    replace_all_flag: bool,
)
    requires
        edit_result(original, old_str, new_str, replace_all_flag) is Ok,
        cr_free(original),
    ensures
        cr_free(edit_result(original, old_str, new_str, replace_all_flag)->Ok_0.write_content),
{
    law_written_content_normalizes_to_replacement(original, old_str, new_str, replace_all_flag);
    assert(!has_crlf(original));
}

/// A file whose line endings are lone `\r` (carriage returns, no `\r\n`) is
/// written back as the normalised replacement with every `\n` written as
/// `\r`, so it keeps lone-`\r` endings and holds no `\n`.
pub proof fn law_cr_file_stays_cr(
    original: Seq<char>,
    old_str: Seq<char>,
    new_str: Seq<char>,
    replace_all_flag: bool,
)
    requires
        edit_result(original, old_str, new_str, replace_all_flag) is Ok,
        !has_crlf(original),
        !cr_free(original),
    ensures
        ({
            let v = edit_result(original, old_str, new_str, replace_all_flag)->Ok_0;
            &&& v.write_content == lf_to_cr(v.replaced_n)
            &&& !has_crlf(v.write_content)
            &&& forall|i: int| 0 <= i < v.write_content.len() ==> #[trigger] v.write_content[i] != '\n'
        }),
{
    let v = edit_result(original, old_str, new_str, replace_all_flag)->Ok_0;
    law_written_content_normalizes_to_replacement(original, old_str, new_str, replace_all_flag);
    lemma_cr_round_trip(v.replaced_n);
    lemma_lf_to_cr_no_lf(v.replaced_n);
}

/// A file with `\r\n` line endings is written back as the normalised
/// replacement with every `\n` written as `\r\n`.
pub proof fn law_crlf_file_stays_crlf(
    original: Seq<char>,
    old_str: Seq<char>,
    new_str: Seq<char>,
    replace_all_flag: bool,
)
    requires
        edit_result(original, old_str, new_str, replace_all_flag) is Ok,
        has_crlf(original),
    ensures
        ({
            let v = edit_result(original, old_str, new_str, replace_all_flag)->Ok_0;
            v.write_content == lf_to_crlf(v.replaced_n)
        }),
{
}

/// When a single replacement succeeds, asking for every occurrence to be
/// replaced gives the same outcome.
pub proof fn law_unique_match_ignores_replace_all(
    original: Seq<char>,
    old_str: Seq<char>,
    new_str: Seq<char>,
)
    requires
        edit_result(original, old_str, new_str, false) is Ok,
    ensures
        edit_result(original, old_str, new_str, true) == edit_result(original, old_str, new_str, false),
{
    let orig_n = normalized_eol(original);
    let old_n = normalized_eol(old_str);
    let new_n = normalized_eol(new_str);
    lemma_single_occurrence_replace(orig_n, old_n, new_n);
}

/// An edit whose old and new text agree up to line endings always fails.
pub proof fn law_equal_texts_rejected(
    original: Seq<char>,
    old_str: Seq<char>,
    new_str: Seq<char>,
    replace_all_flag: bool,
)
    requires
        normalized_eol(old_str) == normalized_eol(new_str),
    ensures
        edit_result(original, old_str, new_str, replace_all_flag) == Err::<EditOutcomeView, Seq<char>>(
            msg_unchanged(),
        ),
{
}

// ───────────────────────── diff report ─────────────────────────

/// The kind of a line in a line diff.
#[derive(Clone, Copy, PartialEq, Eq, Structural, Debug)]
pub enum LineChange {
    Equal,
    Delete,
    Insert,
}

/// The line diff that `similar::TextDiff::from_lines(old, new).iter_all_changes()`
/// yields: each line (with its terminator) tagged as kept, deleted or inserted.
pub uninterp spec fn line_diff(old: Seq<char>, new: Seq<char>) -> Seq<(LineChange, Seq<char>)>;

/// Line diff of `old` and `new` (`similar::TextDiff::from_lines` and
/// `iter_all_changes`, with no deadline, so deterministic); each change
/// is its tag and its line text.
#[verifier::external_body]
fn diff_lines(old: &str, new: &str) -> (res: Vec<(LineChange, String)>)
    ensures
        res@.len() == line_diff(old@, new@).len(),
        forall|i: int|
            0 <= i < res@.len() ==> (#[trigger] res@[i]).0 == line_diff(old@, new@)[i].0 && res@[i].1@
                == line_diff(old@, new@)[i].1,
{
    similar::TextDiff::from_lines(old, new).iter_all_changes().map(
        |c| {
            let tag = match c.tag() {
                similar::ChangeTag::Equal => LineChange::Equal,
                similar::ChangeTag::Delete => LineChange::Delete,
                similar::ChangeTag::Insert => LineChange::Insert,
            };
            (tag, c.value().to_string())
        },
    ).collect()
}

/// The marker a diff line starts with.
pub open spec fn change_prefix(tag: LineChange) -> char {
    match tag {
        LineChange::Delete => '-',
        LineChange::Insert => '+',
        LineChange::Equal => ' ',
    }
}

/// One rendered diff line: marker, text, and a `\n` when the text does not
/// already end in `\r` or `\n`.
pub open spec fn rendered_change(tag: LineChange, line: Seq<char>) -> Seq<char> {
    let body = seq![change_prefix(tag)] + line;
    if line.len() > 0 && (line.last() == '\n' || line.last() == '\r') {
        body
    } else {
        body.push('\n')
    }
}

/// All changes rendered one after another.
pub open spec fn rendered_diff(changes: Seq<(LineChange, Seq<char>)>) -> Seq<char>
    decreases changes.len(),
{
    if changes.len() == 0 {
        Seq::empty()
    } else {
        rendered_diff(changes.drop_last()) + rendered_change(changes.last().0, changes.last().1)
    }
}

/// The message reported after a successful edit of the file shown as
/// `path`: the path and the line diff of the normalised texts.
pub open spec fn edit_report(path: Seq<char>, orig_n: Seq<char>, replaced_n: Seq<char>) -> Seq<char> {
    "edited "@ + path + "\n\n"@ + rendered_diff(line_diff(orig_n, replaced_n))
}

/// Renders the report of a successful edit.
pub fn edit_summary(path: &str, orig_n: &str, replaced_n: &str) -> (res: String)
    ensures
        res@ == edit_report(path@, orig_n@, replaced_n@),
{
    let changes = diff_lines(orig_n, replaced_n);
    let ghost d = line_diff(orig_n@, replaced_n@);
    let mut out: Vec<char> = Vec::new();
    push_str_chars(&mut out, "edited ");
    push_str_chars(&mut out, path);
    push_str_chars(&mut out, "\n\n");
    let ghost head = out@;
    let mut i: usize = 0;
    proof {
        assert(d.take(0) =~= Seq::<(LineChange, Seq<char>)>::empty());
        assert(head =~= head + rendered_diff(d.take(0)));
    }
    while i < changes.len()
        invariant
            changes@.len() == d.len(),
            forall|k: int| 0 <= k < changes@.len() ==> (#[trigger] changes@[k]).0 == d[k].0 && changes@[k].1@ == d[k].1,
            i <= changes.len(),
            out@ == head + rendered_diff(d.take(i as int)),
        decreases changes.len() - i,
    {
        let (tag, line) = (&changes[i].0, &changes[i].1);
        let ghost before = out@;
        let prefix = match tag {
            LineChange::Delete => '-',
            LineChange::Insert => '+',
            LineChange::Equal => ' ',
        };
        out.push(prefix);
        let lc = to_chars(line.as_str());
        push_vec_chars(&mut out, &lc);
        let n = lc.len();
        if !(n > 0 && (lc[n - 1] == '\n' || lc[n - 1] == '\r')) {
            out.push('\n');
        }
        proof {
            let ch = changes@[i as int];
            assert(ch.0 == d[i as int].0);
            assert(d.take(i + 1).drop_last() =~= d.take(i as int));
            assert(d.take(i + 1).last() == d[i as int]);
            assert(out@ =~= before + rendered_change(d[i as int].0, d[i as int].1));
        }
        i = i + 1;
    }
    proof {
        assert(d.take(d.len() as int) =~= d);
    }
    string_from_chars(&out)
}

/// The message reported when an edit of the file shown as `path` fails with `msg`.
pub fn edit_failure(msg: &str, path: &str) -> (res: String)
    ensures
        res@ == msg@ + " in "@ + path@,
{
    let mut out: Vec<char> = Vec::new();
    push_str_chars(&mut out, msg);
    push_str_chars(&mut out, " in ");
    push_str_chars(&mut out, path);
    proof {
        assert(out@ =~= msg@ + " in "@ + path@);
    }
    string_from_chars(&out)
}

// ───────────────────────── paths ─────────────────────────

/// `p` itself when it is absolute, otherwise `p` taken relative to `cwd`.
pub fn resolve_path(cwd: &str, p: &str) -> (res: String)
    ensures
        res@ == if path_absolute(p@) {
            p@
        } else {
            path_joined(cwd@, p@)
        },
{
    if path_is_absolute(p) {
        owned(p)
    } else {
        path_join(cwd, p)
    }
}

// ───────────────────────── tool interface ─────────────────────────

/// `{"type": <t>, "description": <d>}`.
pub open spec fn property_schema(t: Seq<char>, d: Seq<char>) -> JsonView {
    JsonView::Object(seq![("type"@, JsonView::Str(t)), ("description"@, JsonView::Str(d))])
}

/// The tool's input schema: `path`, `old_string` and `new_string` strings
/// (all required) and an optional `replace_all` flag.
pub open spec fn edit_schema() -> JsonView {
    JsonView::Object(
        seq![
            ("type"@, JsonView::Str("object"@)),
            ("properties"@, JsonView::Object(
                seq![
                    ("path"@, property_schema("string"@, "File path"@)),
                    ("old_string"@, property_schema("string"@, "Exact text to replace"@)),
                    ("new_string"@, property_schema("string"@, "Replacement text"@)),
                    ("replace_all"@, property_schema("boolean"@, "Replace all occurrences (default false)"@)),
                ],
            )),
            ("required"@, JsonView::Array(
                seq![JsonView::Str("path"@), JsonView::Str("old_string"@), JsonView::Str("new_string"@)],
            )),
        ],
    )
}

fn property(t: &str, d: &str) -> (res: Json)
    ensures
        res@ == property_schema(t@, d@),
{
    json_obj2("type", json_str(t), "description", json_str(d))
}

impl EditFileTool {
    /// The tool's input schema.
    pub fn input_schema(&self) -> (res: Json)
        ensures
            res@ == edit_schema(),
    {
        let mut props = ObjectBuilder::new();
        props.add("path", property("string", "File path"));
        props.add("old_string", property("string", "Exact text to replace"));
        props.add("new_string", property("string", "Replacement text"));
        props.add("replace_all", property("boolean", "Replace all occurrences (default false)"));
        proof {
            assert(json_members_view(props.members@) =~= seq![
                ("path"@, property_schema("string"@, "File path"@)),
                ("old_string"@, property_schema("string"@, "Exact text to replace"@)),
                ("new_string"@, property_schema("string"@, "Replacement text"@)),
                ("replace_all"@, property_schema("boolean"@, "Replace all occurrences (default false)"@)),
            ]);
        }
        let mut required: Vec<Json> = Vec::new();
        let a = json_str("path");
        let b = json_str("old_string");
        let c = json_str("new_string");
        proof {
            lemma_json_seq_push(required@, a);
        }
        required.push(a);
        proof {
            lemma_json_seq_push(required@, b);
        }
        required.push(b);
        proof {
            lemma_json_seq_push(required@, c);
        }
        required.push(c);
        let mut schema = ObjectBuilder::new();
        schema.add("type", json_str("object"));
        schema.add("properties", props.build());
        schema.add("required", Json::Array(required));
        proof {
            assert(json_seq_view(required@) =~= seq![JsonView::Str("path"@), JsonView::Str("old_string"@), JsonView::Str("new_string"@)]);
            assert(json_members_view(schema.members@) =~= match edit_schema() {
                JsonView::Object(m) => m,
                _ => Seq::empty(),
            });
        }
        schema.build()
    }
}

/// The arguments of one call of the tool.
pub struct EditArgs {
    pub path: String,
    pub old_string: String,
    pub new_string: String,
    pub replace_all: bool,
}

/// The arguments read from a call's input: the three strings are required
/// (the first one missing is reported), `replace_all` is false unless given
/// as `true`.
pub open spec fn edit_args_spec(input: JsonView) -> Result<(Seq<char>, Seq<char>, Seq<char>, bool), Seq<char>> {
    match (as_str(field(input, "path"@)), as_str(field(input, "old_string"@)), as_str(field(input, "new_string"@))) {
        (None, _, _) => Err("missing 'path'"@),
        (Some(_), None, _) => Err("missing 'old_string'"@),
        (Some(_), Some(_), None) => Err("missing 'new_string'"@),
        (Some(p), Some(o), Some(n)) => Ok((p, o, n, as_bool(field(input, "replace_all"@)) == Some(true))),
    }
}

fn str_member<'a>(j: &'a Json, key: &str) -> (res: Option<&'a str>)
    ensures
        match res {
            Some(s) => as_str(field(j@, key@)) == Some(s@),
            None => as_str(field(j@, key@)) is None,
        },
{
    match j.get(key) {
        Some(v) => v.as_str(),
        None => None,
    }
}

/// Reads the arguments of a call from its input.
pub fn parse_edit_args(input: &Json) -> (res: Result<EditArgs, String>)
    ensures
        match res {
            Ok(a) => edit_args_spec(input@) == Ok::<(Seq<char>, Seq<char>, Seq<char>, bool), Seq<char>>((a.path@, a.old_string@, a.new_string@, a.replace_all)),
            Err(e) => edit_args_spec(input@) == Err::<(Seq<char>, Seq<char>, Seq<char>, bool), Seq<char>>(e@),
        },
{
    let path = match str_member(input, "path") {
        Some(p) => p,
        None => return Err(owned("missing 'path'")),
    };
    let old_string = match str_member(input, "old_string") {
        Some(s) => s,
        None => return Err(owned("missing 'old_string'")),
    };
    let new_string = match str_member(input, "new_string") {
        Some(s) => s,
        None => return Err(owned("missing 'new_string'")),
    };
    let replace_all = match input.get("replace_all") {
        Some(v) => v.as_bool() == Some(true),
        None => false,
    };
    Ok(EditArgs { path: owned(path), old_string: owned(old_string), new_string: owned(new_string), replace_all })
}

} // verus!
