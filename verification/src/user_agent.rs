//! User-agent strings and default request headers.
//!
//! The values that come from the process environment (environment variables,
//! the operating system, the crate version) are read by the caller and passed
//! in; this module decides what the user agent and the headers are.

use vstd::prelude::*;
use crate::text::{
    is_blank, printable_or_underscore, push_str_chars, sanitize_printable, str_is_blank,
    string_from_chars, to_chars, trim_str, trimmed, owned,
};

verus! {

broadcast use vstd::string::group_string_axioms;

/// Originator used when no override is configured.
pub const DEFAULT_ORIGINATOR: &'static str = "ring_cli_rs";

/// Environment variable that overrides the originator.
pub const ORIGINATOR_OVERRIDE_ENV: &'static str = "RING_ORIGINATOR_OVERRIDE";

/// Originator presented when speaking as the Codex CLI.
pub const CODEX_ORIGINATOR: &'static str = "codex_cli_rs";

/// Version presented when speaking as the Codex CLI.
pub const CODEX_VERSION: &'static str = "0.118.0";

/// Stores the suffix appended to the user agent.
pub fn set_user_agent_suffix(slot: &mut Option<String>, suffix: &str)
    ensures
        *final(slot) is Some,
        (*final(slot))->Some_0@ == suffix@,
{
    *slot = Some(owned(suffix));
}

/// A value that is present and not blank.
pub open spec fn present(v: Option<Seq<char>>) -> bool {
    v is Some && !is_blank(v->Some_0)
}

/// The view of an optional string.
pub open spec fn opt_view(v: Option<String>) -> Option<Seq<char>> {
    match v {
        Some(s) => Some(s@),
        None => None,
    }
}

/// The view of an optional string slice.
pub open spec fn opt_str_view(v: Option<&str>) -> Option<Seq<char>> {
    match v {
        Some(s) => Some(s@),
        None => None,
    }
}

/// The originator: the override when it is present and not blank, else the default.
pub open spec fn originator_spec(override_value: Option<Seq<char>>) -> Seq<char> {
    if present(override_value) {
        override_value->Some_0
    } else {
        DEFAULT_ORIGINATOR@
    }
}

/// The originator for the given value of the override variable.
pub fn originator(override_value: Option<&str>) -> (res: String)
    ensures
        res@ == originator_spec(opt_str_view(override_value)),
{
    match override_value {
        Some(v) => {
            if !str_is_blank(v) {
                owned(v)
            } else {
                owned(DEFAULT_ORIGINATOR)
            }
        },
        None => owned(DEFAULT_ORIGINATOR),
    }
}

// ───────────────────────── header validity ─────────────────────────

/// A character `http::HeaderValue` accepts: tab, or any character whose
/// UTF-8 bytes are all at least 32 and not 127.
pub open spec fn header_char_ok(c: char) -> bool {
    c == '\t' || (c as u32 >= 32 && c as u32 != 127)
}

/// Text `http::HeaderValue::from_str` accepts.
pub open spec fn header_valid(s: Seq<char>) -> bool {
    forall|i: int| 0 <= i < s.len() ==> header_char_ok(#[trigger] s[i])
}

/// Whether `reqwest::header::HeaderValue::from_str` accepts `s`: its source
/// accepts exactly the texts whose bytes are all tab, or at least 32 and not
/// 127 (every byte of a multi-byte character is at least 128).
#[verifier::external_body]
pub(crate) fn header_value_ok(s: &str) -> (res: bool)
    ensures
        res == header_valid(s@),
{
    reqwest::header::HeaderValue::from_str(s).is_ok()
}

/// The user agent chosen from a candidate: the candidate when it is a valid
/// header value; else the candidate with non-printable characters replaced,
/// when that is non-empty and valid; else the fallback when valid; else the
/// default originator.
pub open spec fn sanitized_user_agent(candidate: Seq<char>, fallback: Seq<char>) -> Seq<char> {
    let cleaned = printable_or_underscore(candidate);
    if header_valid(candidate) {
        candidate
    } else if cleaned.len() > 0 && header_valid(cleaned) {
        cleaned
    } else if header_valid(fallback) {
        fallback
    } else {
        DEFAULT_ORIGINATOR@
    }
}

/// Picks a user agent that is a valid header value.
pub fn sanitize_user_agent(candidate: String, fallback: &str) -> (res: String)
    ensures
        res@ == sanitized_user_agent(candidate@, fallback@),
        header_valid(res@),
{
    proof {
        reveal_strlit("ring_cli_rs");
    }
    if header_value_ok(candidate.as_str()) {
        return candidate;
    }
    let sanitized = sanitize_printable(candidate.as_str());
    let n = to_chars(sanitized.as_str()).len();
    if n > 0 && header_value_ok(sanitized.as_str()) {
        sanitized
    } else if header_value_ok(fallback) {
        owned(fallback)
    } else {
        owned(DEFAULT_ORIGINATOR)
    }
}

// ───────────────────────── terminal ─────────────────────────

/// The terminal-related environment variables, as read from the process.
pub struct TerminalEnv {
    pub term_program: Option<String>,
    pub term_program_version: Option<String>,
    pub wezterm_version: Option<String>,
    pub iterm_session_id: Option<String>,
    pub kitty_window_id: Option<String>,
    pub alacritty_log: Option<String>,
    pub konsole_version: Option<String>,
    pub wt_session: Option<String>,
    pub term: Option<String>,
}

/// The terminal token for the given environment.
pub open spec fn terminal_token_spec(e: TerminalEnv) -> Seq<char> {
    let program = opt_view(e.term_program);
    let program_version = opt_view(e.term_program_version);
    let wezterm = opt_view(e.wezterm_version);
    let konsole = opt_view(e.konsole_version);
    let term = opt_view(e.term);
    if present(program) {
        if present(program_version) {
            printable_or_underscore(program->Some_0 + "/"@ + program_version->Some_0)
        } else {
            printable_or_underscore(program->Some_0)
        }
    } else if present(wezterm) {
        printable_or_underscore("WezTerm/"@ + wezterm->Some_0)
    } else if present(opt_view(e.iterm_session_id)) {
        "iTerm.app"@
    } else if present(opt_view(e.kitty_window_id)) {
        "kitty"@
    } else if present(opt_view(e.alacritty_log)) {
        "Alacritty"@
    } else if present(konsole) {
        printable_or_underscore("Konsole/"@ + konsole->Some_0)
    } else if present(opt_view(e.wt_session)) {
        "WindowsTerminal"@
    } else if present(term) {
        printable_or_underscore(term->Some_0)
    } else {
        "unknown"@
    }
}

/// Whether an optional variable holds a non-blank value.
fn is_present(v: &Option<String>) -> (res: bool)
    ensures
        res == present(opt_view(*v)),
{
    match v {
        Some(s) => !str_is_blank(s.as_str()),
        None => false,
    }
}

/// `a`, `sep` and `b` concatenated.
fn join3(a: &str, sep: &str, b: &str) -> (res: String)
    ensures
        res@ == a@ + sep@ + b@,
{
    let mut out: Vec<char> = Vec::new();
    push_str_chars(&mut out, a);
    push_str_chars(&mut out, sep);
    push_str_chars(&mut out, b);
    proof {
        assert(out@ =~= a@ + sep@ + b@);
    }
    string_from_chars(&out)
}

/// `a` followed by `b`.
fn join2(a: &str, b: &str) -> (res: String)
    ensures
        res@ == a@ + b@,
{
    let mut out: Vec<char> = Vec::new();
    push_str_chars(&mut out, a);
    push_str_chars(&mut out, b);
    proof {
        assert(out@ =~= a@ + b@);
    }
    string_from_chars(&out)
}

/// Identifies the terminal the process runs in, from its environment.
pub fn terminal_token(e: &TerminalEnv) -> (res: String)
    ensures
        res@ == terminal_token_spec(*e),
{
    if is_present(&e.term_program) {
        let program = e.term_program.as_ref().unwrap();
        if is_present(&e.term_program_version) {
            let version = e.term_program_version.as_ref().unwrap();
            return sanitize_token(join3(program.as_str(), "/", version.as_str()));
        }
        return sanitize_token(program.clone());
    }
    if is_present(&e.wezterm_version) {
        let version = e.wezterm_version.as_ref().unwrap();
        return sanitize_token(join2("WezTerm/", version.as_str()));
    }
    if is_present(&e.iterm_session_id) {
        return owned("iTerm.app");
    }
    if is_present(&e.kitty_window_id) {
        return owned("kitty");
    }
    if is_present(&e.alacritty_log) {
        return owned("Alacritty");
    }
    if is_present(&e.konsole_version) {
        let version = e.konsole_version.as_ref().unwrap();
        return sanitize_token(join2("Konsole/", version.as_str()));
    }
    if is_present(&e.wt_session) {
        return owned("WindowsTerminal");
    }
    if is_present(&e.term) {
        return sanitize_token(e.term.as_ref().unwrap().clone());
    }
    owned("unknown")
}

/// Replaces every character outside `' '..='~'` by `'_'`.
pub fn sanitize_token(raw: String) -> (res: String)
    ensures
        res@ == printable_or_underscore(raw@),
{
    sanitize_printable(raw.as_str())
}

// ───────────────────────── operating system ─────────────────────────

/// The operating system type, version and architecture, as `os_info::get()`
/// reports them (`Display` of the type and the version; the architecture when
/// known).  The values depend on the machine, so nothing is stated of them.
#[verifier::external_body]
fn os_info_fields() -> (String, String, Option<String>) {
    let os = os_info::get();
    (os.os_type().to_string(), os.version().to_string(), os.architecture().map(|a| a.to_string()))
}

/// The operating-system segment of a user agent: `"<type> <version>; <arch>"`.
pub open spec fn os_segment_spec(os_type: Seq<char>, version: Seq<char>, arch: Option<Seq<char>>) -> Seq<char> {
    os_type + " "@ + version + "; "@ + match arch {
        Some(a) => a,
        None => "unknown"@,
    }
}

/// Formats the operating-system segment of a user agent.
pub fn format_os_segment(os_type: &str, version: &str, arch: Option<&str>) -> (res: String)
    ensures
        res@ == os_segment_spec(os_type@, version@, opt_str_view(arch)),
{
    let mut out: Vec<char> = Vec::new();
    push_str_chars(&mut out, os_type);
    push_str_chars(&mut out, " ");
    push_str_chars(&mut out, version);
    push_str_chars(&mut out, "; ");
    match arch {
        Some(a) => push_str_chars(&mut out, a),
        None => push_str_chars(&mut out, "unknown"),
    }
    proof {
        assert(out@ =~= os_segment_spec(os_type@, version@, opt_str_view(arch)));
    }
    string_from_chars(&out)
}

/// The operating-system segment for the machine the process runs on.
pub fn os_segment() -> (res: String)
    ensures
        exists|t: Seq<char>, v: Seq<char>, a: Option<Seq<char>>| res@ == os_segment_spec(t, v, a),
{
    let (t, v, a) = os_info_fields();
    let r = match &a {
        Some(x) => format_os_segment(t.as_str(), v.as_str(), Some(x.as_str())),
        None => format_os_segment(t.as_str(), v.as_str(), None),
    };
    proof {
        let av = opt_view(a);
        assert(r@ == os_segment_spec(t@, v@, av));
    }
    r
}

// ───────────────────────── user agents ─────────────────────────

/// The user agent before sanitising: `"<originator>/<version> (<os>) <terminal>"`.
pub open spec fn user_agent_prefix(originator: Seq<char>, version: Seq<char>, os: Seq<char>, terminal: Seq<char>) -> Seq<char> {
    originator + "/"@ + version + " ("@ + os + ") "@ + terminal
}

/// The user-agent suffix: `" (<suffix>)"` with the suffix trimmed, or nothing
/// when the suffix is absent or blank.
pub open spec fn user_agent_suffix(suffix: Option<Seq<char>>) -> Seq<char> {
    match suffix {
        Some(s) => if trimmed(s).len() > 0 {
            " ("@ + trimmed(s) + ")"@
        } else {
            Seq::empty()
        },
        None => Seq::empty(),
    }
}

/// The user agent of this client.
pub open spec fn user_agent_spec(
    originator: Seq<char>,
    version: Seq<char>,
    os: Seq<char>,
    terminal: Seq<char>,
    suffix: Option<Seq<char>>,
) -> Seq<char> {
    let prefix = user_agent_prefix(originator, version, os, terminal);
    sanitized_user_agent(prefix + user_agent_suffix(suffix), prefix)
}

fn build_prefix(originator: &str, version: &str, os: &str, terminal: &str) -> (res: Vec<char>)
    ensures
        res@ == user_agent_prefix(originator@, version@, os@, terminal@),
{
    let mut out: Vec<char> = Vec::new();
    push_str_chars(&mut out, originator);
    push_str_chars(&mut out, "/");
    push_str_chars(&mut out, version);
    push_str_chars(&mut out, " (");
    push_str_chars(&mut out, os);
    push_str_chars(&mut out, ") ");
    push_str_chars(&mut out, terminal);
    proof {
        assert(out@ =~= user_agent_prefix(originator@, version@, os@, terminal@));
    }
    out
}

/// The user agent of this client, built from the originator, the crate
/// version, the operating-system segment, the terminal token and the
/// configured suffix; always a valid header value.
pub fn get_user_agent(
    originator: &str,
    version: &str,
    os: &str,
    terminal: &str,
    suffix: Option<&str>,
) -> (res: String)
    ensures
        res@ == user_agent_spec(originator@, version@, os@, terminal@, opt_str_view(suffix)),
        header_valid(res@),
{
    let prefix = build_prefix(originator, version, os, terminal);
    let prefix_s = string_from_chars(&prefix);
    let mut candidate = prefix.clone();
    proof {
        assert(candidate@ == prefix@);
    }
    match suffix {
        Some(s) => {
            let t = trim_str(s);
            let n = to_chars(t.as_str()).len();
            if n > 0 {
                push_str_chars(&mut candidate, " (");
                push_str_chars(&mut candidate, t.as_str());
                push_str_chars(&mut candidate, ")");
            }
        },
        None => {},
    }
    proof {
        assert(candidate@ =~= prefix@ + user_agent_suffix(opt_str_view(suffix)));
    }
    sanitize_user_agent(string_from_chars(&candidate), prefix_s.as_str())
}

/// The user agent presented when speaking as the Codex CLI.
pub open spec fn codex_user_agent_spec(os: Seq<char>, terminal: Seq<char>) -> Seq<char> {
    let prefix = user_agent_prefix(CODEX_ORIGINATOR@, CODEX_VERSION@, os, terminal);
    sanitized_user_agent(prefix, prefix)
}

/// The user agent presented when speaking as the Codex CLI; always a valid header value.
pub fn codex_user_agent(os: &str, terminal: &str) -> (res: String)
    ensures
        res@ == codex_user_agent_spec(os@, terminal@),
        header_valid(res@),
{
    let prefix = string_from_chars(&build_prefix(CODEX_ORIGINATOR, CODEX_VERSION, os, terminal));
    let fallback = prefix.clone();
    sanitize_user_agent(prefix, fallback.as_str())
}

// ───────────────────────── headers ─────────────────────────

/// Name of the originator header.
pub const ORIGINATOR_HEADER: &'static str = "originator";

/// Name of the user-agent header.
pub const USER_AGENT_HEADER: &'static str = "user-agent";

/// The view of a list of header pairs.
pub open spec fn headers_view(h: Seq<(String, String)>) -> Seq<(Seq<char>, Seq<char>)> {
    h.map_values(|p: (String, String)| (p.0@, p.1@))
}

/// The header pairs for values that are valid header values, in order.
pub open spec fn valid_headers(h: Seq<(Seq<char>, Seq<char>)>) -> Seq<(Seq<char>, Seq<char>)>
    decreases h.len(),
{
    if h.len() == 0 {
        h
    } else if header_valid(h.last().1) {
        valid_headers(h.drop_last()).push(h.last())
    } else {
        valid_headers(h.drop_last())
    }
}

fn push_header_if_valid(out: &mut Vec<(String, String)>, name: &str, value: &str)
    ensures
        headers_view(final(out)@) == if header_valid(value@) {
            headers_view(old(out)@).push((name@, value@))
        } else {
            headers_view(old(out)@)
        },
{
    if header_value_ok(value) {
        out.push((owned(name), owned(value)));
        proof {
            assert(headers_view(out@) =~= headers_view(old(out)@).push((name@, value@)));
        }
    }
}

/// The default headers: the originator and the user agent, each when it is
/// a valid header value.
pub fn default_headers(originator: &str, user_agent: &str) -> (res: Vec<(String, String)>)
    ensures
        headers_view(res@) == valid_headers(
            seq![(ORIGINATOR_HEADER@, originator@), (USER_AGENT_HEADER@, user_agent@)],
        ),
{
    let mut out: Vec<(String, String)> = Vec::new();
    push_header_if_valid(&mut out, ORIGINATOR_HEADER, originator);
    push_header_if_valid(&mut out, USER_AGENT_HEADER, user_agent);
    proof {
        let h = seq![(ORIGINATOR_HEADER@, originator@), (USER_AGENT_HEADER@, user_agent@)];
        assert(h.drop_last() =~= seq![(ORIGINATOR_HEADER@, originator@)]);
        assert(h.drop_last().drop_last() =~= Seq::<(Seq<char>, Seq<char>)>::empty());
        assert(headers_view(Seq::<(String, String)>::empty()) =~= Seq::<(Seq<char>, Seq<char>)>::empty());
        reveal_with_fuel(valid_headers, 3);
    }
    out
}

/// The headers presented when speaking as the Codex CLI: its originator, and
/// the user agent when it is a valid header value.
pub fn codex_headers(user_agent: &str) -> (res: Vec<(String, String)>)
    ensures
        headers_view(res@) == valid_headers(
            seq![(ORIGINATOR_HEADER@, CODEX_ORIGINATOR@), (USER_AGENT_HEADER@, user_agent@)],
        ),
{
    proof {
        reveal_strlit("codex_cli_rs");
    }
    default_headers(CODEX_ORIGINATOR, user_agent)
}

// ───────────────────────── laws ─────────────────────────

/// Whatever candidate and fallback it is given, the user agent chosen is a
/// valid header value.
pub proof fn law_sanitized_user_agent_is_valid(candidate: Seq<char>, fallback: Seq<char>)
    ensures
        header_valid(sanitized_user_agent(candidate, fallback)),
{
    reveal_strlit("ring_cli_rs");
}

/// A sanitised token keeps its length and holds printable ASCII only.
pub proof fn law_sanitized_token_is_printable(raw: Seq<char>)
    ensures
        printable_or_underscore(raw).len() == raw.len(),
        forall|i: int|
            0 <= i < raw.len() ==> #[trigger] crate::text::is_printable_ascii(printable_or_underscore(raw)[i]),
{
}

/// Printable ASCII text is always a valid header value.
pub proof fn law_printable_is_valid_header(raw: Seq<char>)
    ensures
        header_valid(printable_or_underscore(raw)),
{
    assert forall|i: int| 0 <= i < printable_or_underscore(raw).len() implies header_char_ok(
        #[trigger] printable_or_underscore(raw)[i],
    ) by {
        let c = printable_or_underscore(raw)[i];
        assert(c == raw[i] || c == '_');
    }
}

} // verus!
