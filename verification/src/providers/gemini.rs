//! Google Gemini: catalog entry, request body and the reading of answers,
//! whole and streamed.

use vstd::prelude::*;
use crate::catalog::{catalog_spec, new_entry, CatalogEntry, ProviderKind};
use crate::json::{
    parsed_json, as_array, as_bool, as_str, as_u64, field, lemma_numbers_ok_field, numbers_ok, get_field, json_copy, json_obj1, json_obj2, json_seq_view,
    json_str, json_u64, lemma_json_seq_push, number_text, Json, JsonView, ObjectBuilder,
    json_members_view,
};
use crate::provider::{
    blocks_view, messages_view, ChatRequest, ContentBlock, ContentBlockView, Message, MessageRole,
    MessageView, ModelInfo, ModelInfoView, StopReason, ToolDef,
};
use crate::text::{push_str_chars, str_eq, string_from_chars, owned};

verus! {

broadcast use vstd::string::group_string_axioms;

/// Default address of the Gemini API.
pub const GEMINI_BASE_URL: &'static str = "https://generativelanguage.googleapis.com";

/// Seconds allowed for connecting.
pub const CONNECT_TIMEOUT_SECS: u64 = 10;

/// Model used when none is configured.
pub const DEFAULT_MODEL: &'static str = "gemini-2.0-flash";

/// Thinking budget when no effort level selects one.
pub const DEFAULT_THINKING_BUDGET: u32 = 16_384;

/// The catalog entry of Google Gemini.
pub fn catalog_entry() -> (res: CatalogEntry)
    ensures
        res@ == catalog_spec(
            "Google Gemini"@,
            ProviderKind::Gemini,
            Some("https://generativelanguage.googleapis.com"@),
            "GEMINI_API_KEY"@,
            Some("gemini-2.0-flash"@),
        ),
{
    new_entry(
        "Google Gemini",
        ProviderKind::Gemini,
        Some("https://generativelanguage.googleapis.com"),
        "GEMINI_API_KEY",
        Some("gemini-2.0-flash"),
    )
}

/// The thinking budget for a reasoning-effort level.
pub open spec fn thinking_budget_for(effort: Option<Seq<char>>) -> u32 {
    match effort {
        Some(e) => if e == "max"@ || e == "xhigh"@ {
            24_576
        } else if e == "high"@ {
            16_384
        } else if e == "medium"@ {
            8_192
        } else if e == "low"@ || e == "minimal"@ {
            4_096
        } else {
            DEFAULT_THINKING_BUDGET
        },
        None => DEFAULT_THINKING_BUDGET,
    }
}

/// The view of an optional string slice.
pub open spec fn opt_str(v: Option<&str>) -> Option<Seq<char>> {
    match v {
        Some(s) => Some(s@),
        None => None,
    }
}

/// The view of an optional string.
pub open spec fn opt_string(v: Option<String>) -> Option<Seq<char>> {
    match v {
        Some(s) => Some(s@),
        None => None,
    }
}

/// The thinking budget for a reasoning-effort level.
pub fn effort_to_thinking_budget(effort: Option<&str>) -> (res: u32)
    ensures
        res == thinking_budget_for(opt_str(effort)),
{
    match effort {
        Some(e) => {
            if str_eq(e, "max") || str_eq(e, "xhigh") {
                24_576
            } else if str_eq(e, "high") {
                16_384
            } else if str_eq(e, "medium") {
                8_192
            } else if str_eq(e, "low") || str_eq(e, "minimal") {
                4_096
            } else {
                DEFAULT_THINKING_BUDGET
            }
        },
        None => DEFAULT_THINKING_BUDGET,
    }
}

/// Why the model stopped: a function call means tool use; otherwise
/// `MAX_TOKENS` means the output limit, and anything else the end of the turn.
pub open spec fn finish_reason_spec(s: Option<Seq<char>>, has_function_call: bool) -> StopReason {
    if has_function_call {
        StopReason::ToolUse
    } else if s == Some("MAX_TOKENS"@) {
        StopReason::MaxTokens
    } else {
        StopReason::EndTurn
    }
}

/// Maps Gemini's finish reason to a stop reason.
pub fn parse_finish_reason(s: Option<&str>, has_function_call: bool) -> (res: StopReason)
    ensures
        res == finish_reason_spec(opt_str(s), has_function_call),
{
    if has_function_call {
        return StopReason::ToolUse;
    }
    match s {
        Some(r) => {
            if str_eq(r, "STOP") {
                proof {
                    reveal_strlit("STOP");
                    reveal_strlit("MAX_TOKENS");
                    assert("STOP"@[0] != "MAX_TOKENS"@[0]);
                }
                StopReason::EndTurn
            } else if str_eq(r, "MAX_TOKENS") {
                StopReason::MaxTokens
            } else {
                StopReason::EndTurn
            }
        },
        None => StopReason::EndTurn,
    }
}

/// The request address: `<base>/v1beta/models/<model>:<action>?key=<key>`,
/// where the action is `streamGenerateContent` or `generateContent`.
pub open spec fn endpoint_spec(base_url: Seq<char>, api_key: Seq<char>, model: Seq<char>, stream: bool) -> Seq<char> {
    base_url + "/v1beta/models/"@ + model + ":"@ + (if stream {
        "streamGenerateContent"@
    } else {
        "generateContent"@
    }) + "?key="@ + api_key
}

/// The request address for `model`.
pub fn endpoint(base_url: &str, api_key: &str, model: &str, stream: bool) -> (res: String)
    ensures
        res@ == endpoint_spec(base_url@, api_key@, model@, stream),
{
    let mut out: Vec<char> = Vec::new();
    push_str_chars(&mut out, base_url);
    push_str_chars(&mut out, "/v1beta/models/");
    push_str_chars(&mut out, model);
    push_str_chars(&mut out, ":");
    if stream {
        push_str_chars(&mut out, "streamGenerateContent");
    } else {
        push_str_chars(&mut out, "generateContent");
    }
    push_str_chars(&mut out, "?key=");
    push_str_chars(&mut out, api_key);
    proof {
        assert(out@ =~= endpoint_spec(base_url@, api_key@, model@, stream));
    }
    string_from_chars(&out)
}

/// The settings a Gemini provider is built with: the given base address and
/// default model, or the defaults.
pub struct GeminiSettings {
    pub api_key: String,
    pub base_url: String,
    pub def_model: String,
}

impl GeminiSettings {
    /// Settings with the defaults filled in.
    pub fn new(api_key: String, base_url: Option<String>, def_model: Option<String>) -> (res: GeminiSettings)
        ensures
            res.api_key@ == api_key@,
            res.base_url@ == match base_url {
                Some(b) => b@,
                None => GEMINI_BASE_URL@,
            },
            res.def_model@ == match def_model {
                Some(m) => m@,
                None => DEFAULT_MODEL@,
            },
    {
        GeminiSettings {
            api_key,
            base_url: match base_url {
                Some(b) => b,
                None => owned(GEMINI_BASE_URL),
            },
            def_model: match def_model {
                Some(m) => m,
                None => owned(DEFAULT_MODEL),
            },
        }
    }

    /// The provider's id.
    pub fn id(&self) -> (res: &'static str)
        ensures
            res@ == "gemini"@,
    {
        "gemini"
    }

    /// The provider's display name.
    pub fn display_name(&self) -> (res: &'static str)
        ensures
            res@ == "Google Gemini"@,
    {
        "Google Gemini"
    }

    /// The model used when a request names none.
    pub fn default_model(&self) -> (res: &str)
        ensures
            res@ == self.def_model@,
    {
        self.def_model.as_str()
    }
}

// ───────────────────────── models ─────────────────────────

/// The description of a known model.
pub open spec fn model_spec(
    id: Seq<char>,
    display_name: Seq<char>,
    max_output_tokens: u64,
    supports_thinking: bool,
) -> ModelInfoView {
    ModelInfoView {
        id,
        display_name,
        context_window: 1_000_000,
        max_output_tokens,
        supports_vision: true,
        supports_thinking,
        supports_tools: true,
    }
}

/// The models Gemini is known to offer.
pub open spec fn known_models_spec() -> Seq<ModelInfoView> {
    seq![
        model_spec("gemini-2.0-flash"@, "Gemini 2.0 Flash"@, 8_192, false),
        model_spec("gemini-2.0-flash-lite"@, "Gemini 2.0 Flash-Lite"@, 8_192, false),
        model_spec("gemini-2.5-flash"@, "Gemini 2.5 Flash"@, 65_536, true),
        model_spec("gemini-2.5-pro"@, "Gemini 2.5 Pro"@, 65_536, true),
    ]
}

fn model(id: &str, display_name: &str, max_output_tokens: u64, supports_thinking: bool) -> (res: ModelInfo)
    ensures
        res@ == model_spec(id@, display_name@, max_output_tokens, supports_thinking),
{
    ModelInfo {
        id: owned(id),
        display_name: owned(display_name),
        context_window: 1_000_000,
        max_output_tokens,
        supports_vision: true,
        supports_thinking,
        supports_tools: true,
    }
}

/// The models Gemini is known to offer.
pub fn gemini_known_models() -> (res: Vec<ModelInfo>)
    ensures
        res@.map_values(|m: ModelInfo| m@) == known_models_spec(),
{
    let mut v: Vec<ModelInfo> = Vec::new();
    v.push(model("gemini-2.0-flash", "Gemini 2.0 Flash", 8_192, false));
    v.push(model("gemini-2.0-flash-lite", "Gemini 2.0 Flash-Lite", 8_192, false));
    v.push(model("gemini-2.5-flash", "Gemini 2.5 Flash", 65_536, true));
    v.push(model("gemini-2.5-pro", "Gemini 2.5 Pro", 65_536, true));
    proof {
        assert(v@.map_values(|m: ModelInfo| m@) =~= known_models_spec());
    }
    v
}

// ───────────────────────── request contents ─────────────────────────

/// The view of an optional value.
pub open spec fn opt_json(v: Option<Json>) -> Option<JsonView> {
    match v {
        Some(j) => Some(j@),
        None => None,
    }
}

/// Ids and names of the tool uses among `bs`, in order.
pub open spec fn tool_uses_in(bs: Seq<ContentBlockView>) -> Seq<(Seq<char>, Seq<char>)>
    decreases bs.len(),
{
    if bs.len() == 0 {
        Seq::empty()
    } else {
        let r = tool_uses_in(bs.drop_last());
        match bs.last() {
            ContentBlockView::ToolUse { tool_use_id, tool_name, .. } => r.push((tool_use_id, tool_name)),
            _ => r,
        }
    }
}

/// Ids and names of every tool use of the conversation, in order.
pub open spec fn tool_uses(msgs: Seq<MessageView>) -> Seq<(Seq<char>, Seq<char>)>
    decreases msgs.len(),
{
    if msgs.len() == 0 {
        Seq::empty()
    } else {
        tool_uses(msgs.drop_last()) + tool_uses_in(msgs.last().content)
    }
}

/// The name of the last tool use with `id`, or empty when there is none.
pub open spec fn name_for(pairs: Seq<(Seq<char>, Seq<char>)>, id: Seq<char>) -> Seq<char>
    decreases pairs.len(),
{
    if pairs.len() == 0 {
        Seq::empty()
    } else if pairs.last().0 == id {
        pairs.last().1
    } else {
        name_for(pairs.drop_last(), id)
    }
}

/// `{"text": t}`.
pub open spec fn text_part(t: Seq<char>) -> JsonView {
    JsonView::Object(seq![("text"@, JsonView::Str(t))])
}

/// The part a user block becomes: text, or inline image data.
pub open spec fn user_part(b: ContentBlockView) -> Option<JsonView> {
    match b {
        ContentBlockView::Text { text } => Some(text_part(text)),
        ContentBlockView::Image { media_type, data } => Some(
            JsonView::Object(
                seq![
                    ("inline_data"@, JsonView::Object(
                        seq![("mime_type"@, JsonView::Str(media_type)), ("data"@, JsonView::Str(data))],
                    )),
                ],
            ),
        ),
        _ => None,
    }
}

/// The part an assistant block becomes: text, or a function call.
pub open spec fn model_part(b: ContentBlockView) -> Option<JsonView> {
    match b {
        ContentBlockView::Text { text } => Some(text_part(text)),
        ContentBlockView::ToolUse { tool_name, tool_input, .. } => Some(
            JsonView::Object(
                seq![
                    ("functionCall"@, JsonView::Object(
                        seq![("name"@, JsonView::Str(tool_name)), ("args"@, tool_input)],
                    )),
                ],
            ),
        ),
        _ => None,
    }
}

/// The response object of a tool result: its result, and `isError: true` on error.
pub open spec fn tool_response(result: Seq<char>, is_error: bool) -> JsonView {
    if is_error {
        JsonView::Object(seq![("result"@, JsonView::Str(result)), ("isError"@, JsonView::Bool(true))])
    } else {
        JsonView::Object(seq![("result"@, JsonView::Str(result))])
    }
}

/// The part a tool-result block becomes: a function response named after the
/// tool use it answers.
pub open spec fn result_part(b: ContentBlockView, pairs: Seq<(Seq<char>, Seq<char>)>) -> Option<JsonView> {
    match b {
        ContentBlockView::ToolResult { tool_use_id, tool_result, is_error } => Some(
            JsonView::Object(
                seq![
                    ("functionResponse"@, JsonView::Object(
                        seq![
                            ("name"@, JsonView::Str(name_for(pairs, tool_use_id))),
                            ("response"@, tool_response(tool_result, is_error)),
                        ],
                    )),
                ],
            ),
        ),
        _ => None,
    }
}

/// The part a block of a message from `role` becomes, if any.
pub open spec fn part_of(role: MessageRole, b: ContentBlockView, pairs: Seq<(Seq<char>, Seq<char>)>) -> Option<JsonView> {
    match role {
        MessageRole::User => user_part(b),
        MessageRole::Assistant => model_part(b),
        MessageRole::ToolResult => result_part(b, pairs),
    }
}

/// The parts of a message's blocks, in order.
pub open spec fn parts_of(role: MessageRole, bs: Seq<ContentBlockView>, pairs: Seq<(Seq<char>, Seq<char>)>) -> Seq<JsonView>
    decreases bs.len(),
{
    if bs.len() == 0 {
        Seq::empty()
    } else {
        let r = parts_of(role, bs.drop_last(), pairs);
        match part_of(role, bs.last(), pairs) {
            Some(p) => r.push(p),
            None => r,
        }
    }
}

/// The role name Gemini uses: `model` for the assistant, `user` otherwise.
pub open spec fn role_name(role: MessageRole) -> Seq<char> {
    match role {
        MessageRole::Assistant => "model"@,
        _ => "user"@,
    }
}

/// The content a message becomes: its role and parts, when it has any part.
pub open spec fn message_content(m: MessageView, pairs: Seq<(Seq<char>, Seq<char>)>) -> Option<JsonView> {
    let ps = parts_of(m.role, m.content, pairs);
    if ps.len() > 0 {
        Some(JsonView::Object(seq![("role"@, JsonView::Str(role_name(m.role))), ("parts"@, JsonView::Array(ps))]))
    } else {
        None
    }
}

/// The contents of the messages that have any part, in order.
pub open spec fn contents_of(msgs: Seq<MessageView>, pairs: Seq<(Seq<char>, Seq<char>)>) -> Seq<JsonView>
    decreases msgs.len(),
{
    if msgs.len() == 0 {
        Seq::empty()
    } else {
        let r = contents_of(msgs.drop_last(), pairs);
        match message_content(msgs.last(), pairs) {
            Some(c) => r.push(c),
            None => r,
        }
    }
}

/// The Gemini `contents` array for a conversation.
pub open spec fn gemini_contents(msgs: Seq<MessageView>) -> JsonView {
    JsonView::Array(contents_of(msgs, tool_uses(msgs)))
}

proof fn lemma_parts_of_contains(role: MessageRole, bs: Seq<ContentBlockView>, pairs: Seq<(Seq<char>, Seq<char>)>, i: int)
    requires
        0 <= i < bs.len(),
        part_of(role, bs[i], pairs) is Some,
    ensures
        parts_of(role, bs, pairs).contains(part_of(role, bs[i], pairs)->Some_0),
    decreases bs.len(),
{
    let x = part_of(role, bs[i], pairs)->Some_0;
    if i == bs.len() - 1 {
        assert(parts_of(role, bs, pairs).last() == x);
    } else {
        lemma_parts_of_contains(role, bs.drop_last(), pairs, i);
        let r = parts_of(role, bs.drop_last(), pairs);
        let k = choose|k: int| 0 <= k < r.len() && r[k] == x;
        match part_of(role, bs.last(), pairs) {
            Some(p) => assert(r.push(p)[k] == x),
            None => {},
        }
    }
}

/// Every text block of a user or assistant message is sent: the message
/// becomes a content whose role is `model` for the assistant and `user` for
/// the user, and whose parts hold `{"text": <the text>}`.
pub proof fn law_text_blocks_are_sent(m: MessageView, pairs: Seq<(Seq<char>, Seq<char>)>, i: int)
    requires
        m.role is User || m.role is Assistant,
        0 <= i < m.content.len(),
        m.content[i] is Text,
    ensures
        exists|ps: Seq<JsonView>|
            #[trigger] message_content(m, pairs) == Some(
                JsonView::Object(
                    seq![
                        ("role"@, JsonView::Str(if m.role is Assistant { "model"@ } else { "user"@ })),
                        ("parts"@, JsonView::Array(ps)),
                    ],
                ),
            ) && ps.contains(JsonView::Object(seq![("text"@, JsonView::Str(m.content[i]->Text_text))])),
{
    lemma_parts_of_contains(m.role, m.content, pairs, i);
    let ps = parts_of(m.role, m.content, pairs);
    assert(ps.len() > 0);
}

/// Every message that yields a content keeps it in the conversation sent,
/// in order among the others.
pub proof fn law_message_contents_are_kept(msgs: Seq<MessageView>, pairs: Seq<(Seq<char>, Seq<char>)>, k: int)
    requires
        0 <= k < msgs.len(),
        message_content(msgs[k], pairs) is Some,
    ensures
        contents_of(msgs, pairs).contains(message_content(msgs[k], pairs)->Some_0),
    decreases msgs.len(),
{
    let x = message_content(msgs[k], pairs)->Some_0;
    if k == msgs.len() - 1 {
        assert(contents_of(msgs, pairs).last() == x);
    } else {
        law_message_contents_are_kept(msgs.drop_last(), pairs, k);
        let r = contents_of(msgs.drop_last(), pairs);
        let j = choose|j: int| 0 <= j < r.len() && r[j] == x;
        match message_content(msgs.last(), pairs) {
            Some(c) => assert(r.push(c)[j] == x),
            None => {},
        }
    }
}

/// The views of id-name pairs.
pub open spec fn pairs_view(v: Seq<(String, String)>) -> Seq<(Seq<char>, Seq<char>)> {
    v.map_values(|p: (String, String)| (p.0@, p.1@))
}

/// Collects the ids and names of every tool use of the conversation.
fn collect_tool_uses(msgs: &Vec<Message>) -> (res: Vec<(String, String)>)
    ensures
        pairs_view(res@) == tool_uses(messages_view(msgs@)),
{
    let ghost ms = messages_view(msgs@);
    let mut out: Vec<(String, String)> = Vec::new();
    let mut i: usize = 0;
    proof {
        assert(ms.take(0) =~= Seq::<MessageView>::empty());
        assert(pairs_view(out@) =~= Seq::<(Seq<char>, Seq<char>)>::empty());
    }
    while i < msgs.len()
        invariant
            ms == messages_view(msgs@),
            i <= msgs.len(),
            pairs_view(out@) == tool_uses(ms.take(i as int)),
        decreases msgs.len() - i,
    {
        let content = &msgs[i].content;
        let ghost bs = blocks_view(content@);
        let ghost base = pairs_view(out@);
        let mut j: usize = 0;
        proof {
            assert(bs.take(0) =~= Seq::<ContentBlockView>::empty());
            assert(base + tool_uses_in(bs.take(0)) =~= base);
        }
        while j < content.len()
            invariant
                bs == blocks_view(content@),
                j <= content.len(),
                pairs_view(out@) == base + tool_uses_in(bs.take(j as int)),
            decreases content.len() - j,
        {
            let ghost before = pairs_view(out@);
            match &content[j] {
                ContentBlock::ToolUse { tool_use_id, tool_name, .. } => {
                    out.push((tool_use_id.clone(), tool_name.clone()));
                    proof {
                        assert(pairs_view(out@) =~= before.push((tool_use_id@, tool_name@)));
                    }
                },
                _ => {},
            }
            proof {
                assert(bs.take(j + 1).drop_last() =~= bs.take(j as int));
                assert(bs.take(j + 1).last() == bs[j as int]);
                assert(base + tool_uses_in(bs.take(j + 1)) =~= pairs_view(out@));
            }
            j = j + 1;
        }
        proof {
            assert(bs.take(bs.len() as int) =~= bs);
            assert(ms.take(i + 1).drop_last() =~= ms.take(i as int));
            assert(ms.take(i + 1).last() == ms[i as int]);
        }
        i = i + 1;
    }
    proof {
        assert(ms.take(ms.len() as int) =~= ms);
    }
    out
}

/// The name of the last tool use with `id`, or empty.
fn lookup_name(pairs: &Vec<(String, String)>, id: &str) -> (res: String)
    ensures
        res@ == name_for(pairs_view(pairs@), id@),
{
    let ghost ps = pairs_view(pairs@);
    let mut k: usize = pairs.len();
    proof {
        assert(ps.take(k as int) =~= ps);
    }
    while k > 0
        invariant
            ps == pairs_view(pairs@),
            k <= pairs.len(),
            name_for(ps, id@) == name_for(ps.take(k as int), id@),
        decreases k,
    {
        proof {
            assert(ps.take(k as int).last() == ps[k - 1]);
            assert(ps.take(k as int).drop_last() =~= ps.take(k - 1));
        }
        if str_eq(pairs[k - 1].0.as_str(), id) {
            return pairs[k - 1].1.clone();
        }
        k = k - 1;
    }
    proof {
        reveal_strlit("");
        assert(ps.take(0) =~= Seq::<(Seq<char>, Seq<char>)>::empty());
        assert(""@ =~= Seq::<char>::empty());
    }
    owned("")
}

/// The part a block of a message from `role` becomes, if any.
fn convert_block(role: MessageRole, b: &ContentBlock, pairs: &Vec<(String, String)>) -> (res: Option<Json>)
    ensures
        opt_json(res) == part_of(role, b@, pairs_view(pairs@)),
{
    match (role, b) {
        (MessageRole::User, ContentBlock::Text { text }) | (MessageRole::Assistant, ContentBlock::Text { text }) => {
            Some(json_obj1("text", json_str(text.as_str())))
        },
        (MessageRole::User, ContentBlock::Image { media_type, data }) => {
            let inner = json_obj2("mime_type", json_str(media_type.as_str()), "data", json_str(data.as_str()));
            Some(json_obj1("inline_data", inner))
        },
        (MessageRole::Assistant, ContentBlock::ToolUse { tool_name, tool_input, .. }) => {
            let inner = json_obj2("name", json_str(tool_name.as_str()), "args", json_copy(tool_input));
            Some(json_obj1("functionCall", inner))
        },
        (MessageRole::ToolResult, ContentBlock::ToolResult { tool_use_id, tool_result, is_error }) => {
            let name = lookup_name(pairs, tool_use_id.as_str());
            let response = if *is_error {
                json_obj2("result", json_str(tool_result.as_str()), "isError", Json::Bool(true))
            } else {
                json_obj1("result", json_str(tool_result.as_str()))
            };
            let inner = json_obj2("name", Json::Str(name), "response", response);
            Some(json_obj1("functionResponse", inner))
        },
        _ => None,
    }
}

/// The content a message becomes, if it has any part.
fn convert_message(m: &Message, pairs: &Vec<(String, String)>) -> (res: Option<Json>)
    ensures
        opt_json(res) == message_content(m@, pairs_view(pairs@)),
{
    let ghost bs = blocks_view(m.content@);
    let mut parts: Vec<Json> = Vec::new();
    let mut j: usize = 0;
    proof {
        assert(bs.take(0) =~= Seq::<ContentBlockView>::empty());
    }
    while j < m.content.len()
        invariant
            bs == blocks_view(m.content@),
            j <= m.content.len(),
            json_seq_view(parts@) == parts_of(m.role, bs.take(j as int), pairs_view(pairs@)),
        decreases m.content.len() - j,
    {
        let p = convert_block(m.role, &m.content[j], pairs);
        proof {
            assert(bs.take(j + 1).drop_last() =~= bs.take(j as int));
            assert(bs.take(j + 1).last() == bs[j as int]);
        }
        match p {
            Some(x) => {
                proof {
                    lemma_json_seq_push(parts@, x);
                }
                parts.push(x);
            },
            None => {},
        }
        j = j + 1;
    }
    proof {
        assert(bs.take(bs.len() as int) =~= bs);
    }
    if parts.len() == 0 {
        proof {
            crate::json::lemma_json_seq_view(parts@);
        }
        return None;
    }
    proof {
        crate::json::lemma_json_seq_view(parts@);
    }
    let role = match m.role {
        MessageRole::Assistant => "model",
        _ => "user",
    };
    Some(json_obj2("role", json_str(role), "parts", Json::Array(parts)))
}

/// The Gemini `contents` array for a conversation: each message with any
/// part becomes its role and parts; tool results are named after the last
/// tool use with their id.
pub fn convert_messages_to_contents(msgs: &Vec<Message>) -> (res: Json)
    ensures
        res@ == gemini_contents(messages_view(msgs@)),
{
    let pairs = collect_tool_uses(msgs);
    let ghost ms = messages_view(msgs@);
    let mut contents: Vec<Json> = Vec::new();
    let mut i: usize = 0;
    proof {
        assert(ms.take(0) =~= Seq::<MessageView>::empty());
    }
    while i < msgs.len()
        invariant
            ms == messages_view(msgs@),
            pairs_view(pairs@) == tool_uses(ms),
            i <= msgs.len(),
            json_seq_view(contents@) == contents_of(ms.take(i as int), tool_uses(ms)),
        decreases msgs.len() - i,
    {
        let c = convert_message(&msgs[i], &pairs);
        proof {
            assert(ms.take(i + 1).drop_last() =~= ms.take(i as int));
            assert(ms.take(i + 1).last() == ms[i as int]);
        }
        match c {
            Some(x) => {
                proof {
                    lemma_json_seq_push(contents@, x);
                }
                contents.push(x);
            },
            None => {},
        }
        i = i + 1;
    }
    proof {
        assert(ms.take(ms.len() as int) =~= ms);
    }
    Json::Array(contents)
}

// ───────────────────────── request body ─────────────────────────

/// The declaration of a tool: its name, description and parameter schema.
pub open spec fn tool_declaration(t: ToolDef) -> JsonView {
    JsonView::Object(
        seq![("name"@, JsonView::Str(t.name@)), ("description"@, JsonView::Str(t.description@)), ("parameters"@, t.input_schema@)],
    )
}

/// The `tools` member: one entry holding every declaration.
pub open spec fn tools_json(tools: Seq<ToolDef>) -> JsonView {
    JsonView::Array(
        seq![JsonView::Object(seq![("function_declarations"@, JsonView::Array(tools.map_values(|t: ToolDef| tool_declaration(t))))])],
    )
}

/// The `tools` member for the offered tools.
pub fn convert_tools(tools: &Vec<ToolDef>) -> (res: Json)
    ensures
        res@ == tools_json(tools@),
{
    let mut decls: Vec<Json> = Vec::new();
    let mut i: usize = 0;
    let ghost target = tools@.map_values(|t: ToolDef| tool_declaration(t));
    proof {
        assert(target.take(0) =~= json_seq_view(decls@));
    }
    while i < tools.len()
        invariant
            target == tools@.map_values(|t: ToolDef| tool_declaration(t)),
            i <= tools.len(),
            json_seq_view(decls@) == target.take(i as int),
        decreases tools.len() - i,
    {
        let t = &tools[i];
        let mut b = ObjectBuilder::new();
        b.add("name", json_str(t.name.as_str()));
        b.add("description", json_str(t.description.as_str()));
        b.add("parameters", json_copy(&t.input_schema));
        let d = b.build();
        proof {
            assert(d@ == tool_declaration(tools@[i as int])) by {
                reveal_with_fuel(json_members_view, 4);
                assert(json_members_view(b.members@) =~= seq![
                    ("name"@, JsonView::Str(t.name@)),
                    ("description"@, JsonView::Str(t.description@)),
                    ("parameters"@, t.input_schema@),
                ]);
            }
            lemma_json_seq_push(decls@, d);
            assert(target.take(i + 1) =~= target.take(i as int).push(target[i as int]));
        }
        decls.push(d);
        i = i + 1;
    }
    proof {
        assert(target.take(target.len() as int) =~= target);
    }
    let entry = json_obj1("function_declarations", Json::Array(decls));
    let mut all: Vec<Json> = Vec::new();
    proof {
        lemma_json_seq_push(all@, entry);
    }
    all.push(entry);
    proof {
        assert(json_seq_view(all@) =~= seq![entry@]);
    }
    Json::Array(all)
}

/// The thinking budget of a request: the one given, or the one its effort selects.
pub open spec fn request_budget(req: ChatRequest) -> u32 {
    match req.thinking_budget {
        Some(b) => b,
        None => thinking_budget_for(opt_string(req.reasoning_effort)),
    }
}

/// Whether a request asks for thinking.
pub open spec fn wants_thinking(req: ChatRequest) -> bool {
    req.extended_thinking || req.reasoning_effort is Some
}

/// The generation settings of a request: the output limit, the stop
/// sequences when there are any, and the thinking settings when thinking is
/// asked for.  (Temperature and top-p, being floating point, are added by the
/// caller.)
pub open spec fn generation_config(req: ChatRequest) -> JsonView {
    let limit = seq![("maxOutputTokens"@, JsonView::Number(number_text(req.max_tokens as nat)))];
    let stops = if req.stop@.len() > 0 {
        seq![("stopSequences"@, JsonView::Array(req.stop@.map_values(|s: String| JsonView::Str(s@))))]
    } else {
        Seq::empty()
    };
    let thinking = if wants_thinking(req) {
        seq![
            ("thinkingConfig"@, JsonView::Object(
                seq![
                    ("thinkingBudget"@, JsonView::Number(number_text(request_budget(req) as nat))),
                    ("includeThoughts"@, JsonView::Bool(true)),
                ],
            )),
        ]
    } else {
        Seq::empty()
    };
    JsonView::Object(limit + stops + thinking)
}

/// The request body: the contents and generation settings, the system
/// instruction when there is one, and the tools when any are offered.
pub open spec fn request_body(req: ChatRequest) -> JsonView {
    let base = seq![
        ("contents"@, gemini_contents(messages_view(req.messages@))),
        ("generationConfig"@, generation_config(req)),
    ];
    let system = match req.system {
        Some(s) => seq![("systemInstruction"@, JsonView::Object(seq![("parts"@, JsonView::Array(seq![text_part(s@)]))]))],
        None => Seq::empty(),
    };
    let tools = if req.tools@.len() > 0 {
        seq![("tools"@, tools_json(req.tools@))]
    } else {
        Seq::empty()
    };
    JsonView::Object(base + system + tools)
}

fn string_array(v: &Vec<String>) -> (res: Json)
    ensures
        res@ == JsonView::Array(v@.map_values(|s: String| JsonView::Str(s@))),
{
    let ghost target = v@.map_values(|s: String| JsonView::Str(s@));
    let mut out: Vec<Json> = Vec::new();
    let mut i: usize = 0;
    proof {
        assert(target.take(0) =~= json_seq_view(out@));
    }
    while i < v.len()
        invariant
            target == v@.map_values(|s: String| JsonView::Str(s@)),
            i <= v.len(),
            json_seq_view(out@) == target.take(i as int),
        decreases v.len() - i,
    {
        let x = json_str(v[i].as_str());
        proof {
            lemma_json_seq_push(out@, x);
            assert(target.take(i + 1) =~= target.take(i as int).push(target[i as int]));
        }
        out.push(x);
        i = i + 1;
    }
    proof {
        assert(target.take(target.len() as int) =~= target);
    }
    Json::Array(out)
}

/// The generation settings of a request.
pub fn build_generation_config(req: &ChatRequest) -> (res: Json)
    ensures
        res@ == generation_config(*req),
{
    let mut b = ObjectBuilder::new();
    b.add("maxOutputTokens", json_u64(req.max_tokens));
    if req.stop.len() > 0 {
        b.add("stopSequences", string_array(&req.stop));
    }
    if req.extended_thinking || req.reasoning_effort.is_some() {
        let budget = match req.thinking_budget {
            Some(x) => x,
            None => match &req.reasoning_effort {
                Some(e) => effort_to_thinking_budget(Some(e.as_str())),
                None => effort_to_thinking_budget(None),
            },
        };
        let cfg = json_obj2("thinkingBudget", json_u64(budget as u64), "includeThoughts", Json::Bool(true));
        b.add("thinkingConfig", cfg);
    }
    proof {
        assert(json_members_view(b.members@) =~= match generation_config(*req) {
            JsonView::Object(m) => m,
            _ => Seq::empty(),
        });
    }
    b.build()
}

/// The request body for `req`.
pub fn build_body(req: &ChatRequest) -> (res: Json)
    ensures
        res@ == request_body(*req),
{
    let mut b = ObjectBuilder::new();
    b.add("contents", convert_messages_to_contents(&req.messages));
    b.add("generationConfig", build_generation_config(req));
    match &req.system {
        Some(s) => {
            let mut parts: Vec<Json> = Vec::new();
            let p = json_obj1("text", json_str(s.as_str()));
            proof {
                lemma_json_seq_push(parts@, p);
            }
            parts.push(p);
            proof {
                assert(json_seq_view(parts@) =~= seq![p@]);
            }
            b.add("systemInstruction", json_obj1("parts", Json::Array(parts)));
        },
        None => {},
    }
    if req.tools.len() > 0 {
        b.add("tools", convert_tools(&req.tools));
    }
    proof {
        assert(json_members_view(b.members@) =~= match request_body(*req) {
            JsonView::Object(m) => m,
            _ => Seq::empty(),
        });
    }
    b.build()
}

// ───────────────────────── reading answers ─────────────────────────

/// A lower-case hexadecimal digit.
pub open spec fn is_lower_hex(c: char) -> bool {
    ('0' <= c && c <= '9') || ('a' <= c && c <= 'f')
}

/// The text of a random (version 4, RFC 9562 variant) UUID: 36 characters,
/// `-` at positions 8, 13, 18 and 23, lower-case hex digits elsewhere, `4`
/// at position 14 and one of `8`, `9`, `a`, `b` at position 19.
pub open spec fn uuid_v4_text(s: Seq<char>) -> bool {
    &&& s.len() == 36
    &&& forall|i: int|
        0 <= i < 36 ==> if i == 8 || i == 13 || i == 18 || i == 23 {
            #[trigger] s[i] == '-'
        } else {
            is_lower_hex(s[i])
        }
    &&& s[14] == '4'
    &&& (s[19] == '8' || s[19] == '9' || s[19] == 'a' || s[19] == 'b')
}

/// A fresh tool-call id: `uuid::Uuid::new_v4().to_string()`.  The value is
/// random; what every outcome has is its shape: `new_v4` sets the version
/// and variant bits, and `Display` writes the hyphenated lower-case form.
#[verifier::external_body]
fn new_call_id() -> (res: String)
    ensures
        uuid_v4_text(res@),
{
    uuid::Uuid::new_v4().to_string()
}

/// The first candidate of an answer, if there is one.
pub open spec fn first_candidate(raw: JsonView) -> Option<JsonView> {
    match as_array(field(raw, "candidates"@)) {
        Some(a) => if a.len() > 0 {
            Some(a[0])
        } else {
            None
        },
        None => None,
    }
}

/// The parts of a candidate's content (none when it has no part list).
pub open spec fn candidate_parts(c: JsonView) -> Seq<JsonView> {
    match as_array(field(field(c, "content"@), "parts"@)) {
        Some(a) => a,
        None => Seq::empty(),
    }
}

/// A token count of the usage metadata, or `dflt` when absent.
pub open spec fn usage_count(meta: JsonView, key: Seq<char>, dflt: u64) -> u64 {
    match as_u64(field(meta, key)) {
        Some(n) => n,
        None => dflt,
    }
}

/// Some part holds a function call.
pub open spec fn has_function_call(parts: Seq<JsonView>) -> bool {
    exists|i: int| 0 <= i < parts.len() && #[trigger] get_field(parts[i], "functionCall"@) is Some
}

/// The text of a part, when it has one: thinking when flagged as a thought.
pub open spec fn text_blocks(part: JsonView) -> Seq<ContentBlockView> {
    match as_str(field(part, "text"@)) {
        Some(t) => if as_bool(field(part, "thought"@)) == Some(true) {
            seq![ContentBlockView::Thinking { thinking: t, signature: None, redacted: false }]
        } else {
            seq![ContentBlockView::Text { text: t }]
        },
        None => Seq::empty(),
    }
}

/// The name of a function call (empty when it has none).
pub open spec fn call_name(fc: JsonView) -> Seq<char> {
    match as_str(field(fc, "name"@)) {
        Some(n) => n,
        None => Seq::empty(),
    }
}

/// The blocks a part of an answer becomes, its function call taking the id `id`.
pub open spec fn part_blocks(part: JsonView, id: Seq<char>) -> Seq<ContentBlockView> {
    text_blocks(part) + match get_field(part, "functionCall"@) {
        Some(fc) => seq![ContentBlockView::ToolUse { tool_use_id: id, tool_name: call_name(fc), tool_input: field(fc, "args"@) }],
        None => Seq::empty(),
    }
}

/// The blocks of all parts, the `i`-th part's function call taking `ids[i]`.
pub open spec fn answer_blocks(parts: Seq<JsonView>, ids: Seq<Seq<char>>) -> Seq<ContentBlockView>
    decreases parts.len(),
{
    if parts.len() == 0 {
        Seq::empty()
    } else {
        answer_blocks(parts.drop_last(), ids.drop_last()) + part_blocks(parts.last(), ids.last())
    }
}

/// The error reported when an answer has no candidate.
pub open spec fn msg_no_candidates() -> Seq<char> {
    "no candidates in response"@
}

fn str_field<'a>(j: &'a Json, key: &str) -> (res: Option<&'a str>)
    ensures
        opt_str(res) == as_str(field(j@, key@)),
{
    match j.get(key) {
        Some(v) => v.as_str(),
        None => None,
    }
}

fn bool_field(j: &Json, key: &str) -> (res: Option<bool>)
    ensures
        res == as_bool(field(j@, key@)),
{
    match j.get(key) {
        Some(v) => v.as_bool(),
        None => None,
    }
}

fn u64_field(j: &Json, key: &str) -> (res: Option<u64>)
    ensures
        res == as_u64(field(j@, key@)),
{
    match j.get(key) {
        Some(v) => v.as_u64(),
        None => None,
    }
}

fn field_copy(j: &Json, key: &str) -> (res: Json)
    ensures
        res@ == field(j@, key@),
{
    match j.get(key) {
        Some(v) => json_copy(v),
        None => Json::Null,
    }
}

fn get_candidate(raw: &Json) -> (res: Option<&Json>)
    ensures
        match res {
            Some(c) => first_candidate(raw@) == Some(c@),
            None => first_candidate(raw@) is None,
        },
{
    match raw.get("candidates") {
        Some(c) => match c.as_array() {
            Some(a) => {
                proof {
                    crate::json::lemma_json_seq_view(a@);
                }
                if a.len() > 0 {
                    Some(&a[0])
                } else {
                    None
                }
            },
            None => None,
        },
        None => None,
    }
}

fn get_parts(c: &Json) -> (res: Option<&Vec<Json>>)
    ensures
        match res {
            Some(v) => candidate_parts(c@) == json_seq_view(v@),
            None => candidate_parts(c@) == Seq::<JsonView>::empty(),
        },
{
    match c.get("content") {
        Some(content) => match content.get("parts") {
            Some(p) => p.as_array(),
            None => None,
        },
        None => None,
    }
}

/// Every part with a function call has an id of the shape [`uuid_v4_text`].
pub open spec fn fresh_call_ids(parts: Seq<JsonView>, ids: Seq<Seq<char>>) -> bool {
    forall|k: int|
        0 <= k < ids.len() && k < parts.len() && (get_field(parts[k], "functionCall"@) is Some) ==> uuid_v4_text(
            #[trigger] ids[k],
        )
}

/// The blocks of one part of an answer, with a fresh id for its function call.
fn convert_part(part: &Json, out: &mut Vec<ContentBlock>) -> (res: (bool, Ghost<Seq<char>>))
    ensures
        blocks_view(final(out)@) == blocks_view(old(out)@) + part_blocks(part@, res.1@),
        res.0 == (get_field(part@, "functionCall"@) is Some),
        res.0 ==> uuid_v4_text(res.1@),
{
    let ghost start = blocks_view(out@);
    match str_field(part, "text") {
        Some(t) => {
            if bool_field(part, "thought") == Some(true) {
                out.push(ContentBlock::Thinking { thinking: owned(t), signature: None, redacted: false });
            } else {
                out.push(ContentBlock::Text { text: owned(t) });
            }
        },
        None => {},
    }
    let ghost mid = blocks_view(out@);
    proof {
        assert(mid =~= start + text_blocks(part@));
    }
    match part.get("functionCall") {
        Some(fc) => {
            let name = match str_field(fc, "name") {
                Some(n) => owned(n),
                None => {
                    proof {
                        reveal_strlit("");
                    }
                    owned("")
                },
            };
            let input = field_copy(fc, "args");
            proof {
                reveal_strlit("");
                assert(""@ =~= Seq::<char>::empty());
                assert(name@ == call_name(fc@));
                assert(get_field(part@, "functionCall"@) == Some(fc@));
            }
            let id = new_call_id();
            let ghost idv = id@;
            out.push(ContentBlock::ToolUse { tool_use_id: id, tool_name: name, tool_input: input });
            proof {
                assert(blocks_view(out@) =~= start + part_blocks(part@, idv));
            }
            (true, Ghost(idv))
        },
        None => {
            proof {
                assert(blocks_view(out@) =~= start + part_blocks(part@, Seq::empty()));
            }
            (false, Ghost(Seq::empty()))
        },
    }
}

/// The blocks of an answer's parts; returns whether any holds a function call.
fn convert_parts(parts: &Vec<Json>) -> (res: (Vec<ContentBlock>, bool, Ghost<Seq<Seq<char>>>))
    ensures
        res.2@.len() == parts@.len(),
        blocks_view(res.0@) == answer_blocks(json_seq_view(parts@), res.2@),
        res.1 == has_function_call(json_seq_view(parts@)),
        fresh_call_ids(json_seq_view(parts@), res.2@),
{
    let ghost ps = json_seq_view(parts@);
    proof {
        crate::json::lemma_json_seq_view(parts@);
    }
    let mut out: Vec<ContentBlock> = Vec::new();
    let mut has_fc = false;
    let ghost mut ids: Seq<Seq<char>> = Seq::empty();
    let mut i: usize = 0;
    proof {
        assert(blocks_view(out@) =~= Seq::<ContentBlockView>::empty());
        assert(ps.take(0) =~= Seq::<JsonView>::empty());
    }
    while i < parts.len()
        invariant
            ps == json_seq_view(parts@),
            ps.len() == parts@.len(),
            forall|k: int| 0 <= k < parts@.len() ==> #[trigger] ps[k] == parts@[k]@,
            i <= parts.len(),
            ids.len() == i,
            blocks_view(out@) == answer_blocks(ps.take(i as int), ids),
            has_fc == has_function_call(ps.take(i as int)),
            fresh_call_ids(ps.take(i as int), ids),
        decreases parts.len() - i,
    {
        let (fc, Ghost(id)) = convert_part(&parts[i], &mut out);
        proof {
            let t = ps.take(i + 1);
            assert(t.drop_last() =~= ps.take(i as int));
            assert(t.last() == ps[i as int]);
            assert(ids.push(id).drop_last() =~= ids);
            if fc {
                assert(get_field(t[i as int], "functionCall"@) is Some);
            }
            if has_fc {
                let k = choose|k: int| 0 <= k < i && #[trigger] get_field(ps.take(i as int)[k], "functionCall"@) is Some;
                assert(t[k] == ps.take(i as int)[k]);
            }
            if !has_fc && !fc {
                assert forall|k: int| 0 <= k < t.len() implies !(#[trigger] get_field(t[k], "functionCall"@) is Some) by {
                    if k < i {
                        assert(t[k] == ps.take(i as int)[k]);
                    }
                }
            }
            ids = ids.push(id);
        }
        has_fc = has_fc || fc;
        i = i + 1;
    }
    proof {
        assert(ps.take(ps.len() as int) =~= ps);
    }
    (out, has_fc, Ghost(ids))
}

/// Reads a whole answer: the first candidate's parts become the assistant
/// message (each function call with a fresh id), its finish reason the stop
/// reason, and the usage metadata the token counts.  Fails when there is no
/// candidate.
pub fn parse_chat_response(raw: &Json, model: &str) -> (res: Result<crate::provider::ChatResponse, String>)
    ensures
        first_candidate(raw@) is None ==> res is Err && res->Err_0@ == msg_no_candidates(),
        first_candidate(raw@) is Some ==> res is Ok && ({
            let r = res->Ok_0;
            let c = first_candidate(raw@)->Some_0;
            let parts = candidate_parts(c);
            &&& r.model@ == model@
            &&& r.message.role == MessageRole::Assistant
            &&& exists|ids: Seq<Seq<char>>| ids.len() == parts.len()
                && #[trigger] answer_blocks(parts, ids) == blocks_view(r.message.content@)
                && fresh_call_ids(parts, ids)
            &&& r.stop_reason == finish_reason_spec(as_str(field(c, "finishReason"@)), has_function_call(parts))
            &&& r.usage == (crate::provider::Usage {
                input_tokens: usage_count(field(raw@, "usageMetadata"@), "promptTokenCount"@, 0),
                output_tokens: usage_count(field(raw@, "usageMetadata"@), "candidatesTokenCount"@, 0),
                cache_creation_tokens: 0,
                cache_read_tokens: 0,
            })
        }),
{
    let candidate = match get_candidate(raw) {
        Some(c) => c,
        None => return Err(owned("no candidates in response")),
    };
    let finish_reason = str_field(candidate, "finishReason");
    let (input_tokens, output_tokens) = match raw.get("usageMetadata") {
        Some(u) => (
            match u64_field(u, "promptTokenCount") {
                Some(n) => n,
                None => 0,
            },
            match u64_field(u, "candidatesTokenCount") {
                Some(n) => n,
                None => 0,
            },
        ),
        None => (0, 0),
    };
    let usage = crate::provider::Usage { input_tokens, output_tokens, cache_creation_tokens: 0, cache_read_tokens: 0 };
    let (content, has_fc, Ghost(ids)) = match get_parts(candidate) {
        Some(parts) => {
            let r = convert_parts(parts);
            proof {
                crate::json::lemma_json_seq_view(parts@);
            }
            r
        },
        None => {
            let ghost e: Seq<Seq<char>> = Seq::empty();
            let v: Vec<ContentBlock> = Vec::new();
            proof {
                assert(blocks_view(v@) =~= answer_blocks(Seq::empty(), e));
                assert(!has_function_call(Seq::<JsonView>::empty()));
            }
            (v, false, Ghost(e))
        },
    };
    proof {
        let parts = candidate_parts(candidate@);
        assert(answer_blocks(parts, ids) == blocks_view(content@));
        assert(ids.len() == parts.len());
        assert(has_fc == has_function_call(parts));
    }
    let stop_reason = parse_finish_reason(finish_reason, has_fc);
    let message = Message::new(MessageRole::Assistant, content);
    Ok(crate::provider::ChatResponse { message, stop_reason, usage, model: owned(model) })
}

// ───────────────────────── streamed answers ─────────────────────────

/// A blank line (`\n\n`) starts at position `j` of `s`.
pub open spec fn blank_at(s: Seq<char>, j: int) -> bool {
    0 <= j && j + 1 < s.len() && s[j] == '\n' && s[j + 1] == '\n'
}

/// Position of the first blank line of `s`, or -1.
pub open spec fn find_blank(s: Seq<char>) -> int
    decreases s.len(),
{
    if s.len() < 2 {
        -1
    } else if s[0] == '\n' && s[1] == '\n' {
        0
    } else {
        let r = find_blank(s.skip(1));
        if r < 0 {
            -1
        } else {
            r + 1
        }
    }
}

/// What [`find_blank`] finds.
pub proof fn lemma_find_blank(s: Seq<char>)
    ensures
        find_blank(s) == -1 ==> forall|j: int| !#[trigger] blank_at(s, j),
        find_blank(s) != -1 ==> blank_at(s, find_blank(s)) && forall|j: int|
            0 <= j < find_blank(s) ==> !#[trigger] blank_at(s, j),
    decreases s.len(),
{
    if s.len() >= 2 && !(s[0] == '\n' && s[1] == '\n') {
        lemma_find_blank(s.skip(1));
        assert forall|j: int| 0 < j implies #[trigger] blank_at(s, j) == blank_at(s.skip(1), j - 1) by {
            if j + 1 < s.len() {
                assert(s.skip(1)[j - 1] == s[j]);
                assert(s.skip(1)[j] == s[j + 1]);
            }
        }
        assert(!blank_at(s, 0));
    }
}

/// The first blank line of `s` is at `p` (or there is none, when `p` is the length).
pub proof fn lemma_find_blank_is(s: Seq<char>, p: int)
    requires
        0 <= p <= s.len(),
        forall|j: int| 0 <= j < p ==> !#[trigger] blank_at(s, j),
        p == s.len() || blank_at(s, p),
    ensures
        find_blank(s) == if p == s.len() { -1 } else { p },
{
    lemma_find_blank(s);
    let q = find_blank(s);
    if q != -1 {
        if q < p {
        } else if q > p && p < s.len() {
        }
    }
}

/// The complete events of a stream buffer and what remains after them:
/// each event ends at a blank line.
pub open spec fn split_frames(s: Seq<char>) -> (Seq<Seq<char>>, Seq<char>)
    decreases s.len(),
{
    let i = find_blank(s);
    if i < 0 || i + 2 > s.len() {
        (Seq::empty(), s)
    } else {
        let rest = split_frames(s.skip(i + 2));
        (seq![s.take(i)] + rest.0, rest.1)
    }
}

/// Position of the first `\n` of `s`, or -1.
pub open spec fn first_newline(s: Seq<char>) -> int
    decreases s.len(),
{
    if s.len() == 0 {
        -1
    } else if s[0] == '\n' {
        0
    } else {
        let r = first_newline(s.skip(1));
        if r < 0 {
            -1
        } else {
            r + 1
        }
    }
}

/// The first `\n` of `s` is at `p` (or there is none, when `p` is the length).
pub proof fn lemma_first_newline_is(s: Seq<char>, p: int)
    requires
        0 <= p <= s.len(),
        forall|j: int| 0 <= j < p ==> #[trigger] s[j] != '\n',
        p < s.len() ==> s[p] == '\n',
    ensures
        first_newline(s) == if p == s.len() { -1 } else { p },
    decreases s.len(),
{
    if s.len() > 0 && p > 0 {
        assert forall|j: int| 0 <= j < p - 1 implies #[trigger] s.skip(1)[j] != '\n' by {
            assert(s.skip(1)[j] == s[j + 1]);
        }
        if p < s.len() {
            assert(s.skip(1)[p - 1] == s[p]);
        }
        lemma_first_newline_is(s.skip(1), p - 1);
        assert(s[0] != '\n');
    }
}

/// A line without the `\r` of a `\r\n` ending.
pub open spec fn strip_cr(line: Seq<char>) -> Seq<char> {
    if line.len() > 0 && line.last() == '\r' {
        line.drop_last()
    } else {
        line
    }
}

/// The payload of a `data: ` line.
pub open spec fn data_line(line: Seq<char>) -> Option<Seq<char>> {
    if line.len() >= 6 && line.take(6) == "data: "@ {
        Some(line.skip(6))
    } else {
        None
    }
}

/// The payload of the first `data: ` line of an event (lines end at `\n`,
/// and a `\r` before the `\n` is not part of the line).
pub open spec fn data_of(b: Seq<char>) -> Option<Seq<char>>
    decreases b.len(),
{
    if b.len() == 0 {
        None
    } else {
        let j = first_newline(b);
        if j < 0 || j >= b.len() {
            data_line(b)
        } else {
            match data_line(strip_cr(b.take(j))) {
                Some(d) => Some(d),
                None => data_of(b.skip(j + 1)),
            }
        }
    }
}

/// The payloads of the events that have a `data: ` line, in order.
pub open spec fn frame_payloads(frames: Seq<Seq<char>>) -> Seq<Seq<char>>
    decreases frames.len(),
{
    if frames.len() == 0 {
        Seq::empty()
    } else {
        let head: Seq<Seq<char>> = match data_of(frames[0]) {
            Some(d) => seq![d],
            None => Seq::empty(),
        };
        head + frame_payloads(frames.skip(1))
    }
}

proof fn lemma_frame_payloads_prepend(f: Seq<char>, rest: Seq<Seq<char>>)
    ensures
        frame_payloads(seq![f] + rest) == match data_of(f) {
            Some(d) => seq![d],
            None => Seq::<Seq<char>>::empty(),
        } + frame_payloads(rest),
{
    assert((seq![f] + rest).skip(1) =~= rest);
    assert((seq![f] + rest)[0] == f);
}

/// Position of the first blank line at or after `start`.
fn find_blank_from(v: &Vec<char>, start: usize) -> (res: Option<usize>)
    requires
        start <= v@.len(),
    ensures
        match res {
            Some(k) => start <= k && k as int - start == find_blank(v@.skip(start as int)),
            None => find_blank(v@.skip(start as int)) == -1,
        },
{
    let ghost s = v@.skip(start as int);
    let mut i: usize = start;
    while i < v.len() && i + 1 < v.len()
        invariant
            s == v@.skip(start as int),
            start <= i <= v.len(),
            forall|j: int| 0 <= j < i - start ==> !#[trigger] blank_at(s, j),
        decreases v.len() - i,
    {
        if v[i] == '\n' && v[i + 1] == '\n' {
            proof {
                assert(s[i - start] == v@[i as int]);
                assert(s[i - start + 1] == v@[i + 1]);
                lemma_find_blank_is(s, i - start);
            }
            return Some(i);
        }
        proof {
            assert(s[i - start] == v@[i as int]);
            assert(s[i - start + 1] == v@[i + 1]);
        }
        i = i + 1;
    }
    proof {
        assert forall|j: int| 0 <= j < s.len() implies !#[trigger] blank_at(s, j) by {
            if j >= i - start {
                assert(j + 1 >= s.len());
            }
        }
        lemma_find_blank_is(s, s.len() as int);
    }
    None
}

/// Copy of `v[lo..hi]`.
fn slice_chars(v: &Vec<char>, lo: usize, hi: usize) -> (res: Vec<char>)
    requires
        lo <= hi <= v@.len(),
    ensures
        res@ == v@.subrange(lo as int, hi as int),
{
    let mut out: Vec<char> = Vec::new();
    let mut k: usize = lo;
    while k < hi
        invariant
            lo <= k <= hi <= v@.len(),
            out@ == v@.subrange(lo as int, k as int),
        decreases hi - k,
    {
        out.push(v[k]);
        proof {
            assert(v@.subrange(lo as int, k + 1) =~= v@.subrange(lo as int, k as int).push(v@[k as int]));
        }
        k = k + 1;
    }
    out
}

/// The payload of a line when it starts with `data: `.
fn data_line_exec(line: &Vec<char>) -> (res: Option<String>)
    ensures
        match res {
            Some(d) => data_line(line@) == Some(d@),
            None => data_line(line@) is None,
        },
{
    let prefix = crate::text::to_chars("data: ");
    if line.len() >= 6 {
        let head = slice_chars(line, 0, 6);
        if crate::text::vec_eq(&head, &prefix) {
            let rest = slice_chars(line, 6, line.len());
            proof {
                assert(line@.take(6) =~= head@);
                assert(line@.skip(6) =~= rest@);
            }
            return Some(string_from_chars(&rest));
        }
        proof {
            assert(line@.take(6) =~= head@);
        }
    }
    None
}

/// The payload of the first `data: ` line of an event.
fn event_data(b: &Vec<char>) -> (res: Option<String>)
    ensures
        match res {
            Some(d) => data_of(b@) == Some(d@),
            None => data_of(b@) is None,
        },
{
    let mut p: usize = 0;
    proof {
        assert(b@.skip(0) =~= b@);
    }
    while p < b.len()
        invariant
            p <= b.len(),
            data_of(b@) == data_of(b@.skip(p as int)),
        decreases b.len() - p,
    {
        let ghost s = b@.skip(p as int);
        let mut j: usize = p;
        while j < b.len() && b[j] != '\n'
            invariant
                s == b@.skip(p as int),
                p <= j <= b.len(),
                forall|k: int| p <= k < j ==> #[trigger] b@[k] != '\n',
            decreases b.len() - j,
        {
            j = j + 1;
        }
        proof {
            assert forall|k: int| 0 <= k < j - p implies #[trigger] s[k] != '\n' by {
                assert(s[k] == b@[k + p]);
            }
            if j < b.len() {
                assert(s[j - p] == b@[j as int]);
            }
            lemma_first_newline_is(s, j - p);
        }
        if j == b.len() {
            let line = slice_chars(b, p, j);
            proof {
                assert(line@ =~= s);
            }
            return data_line_exec(&line);
        }
        let mut end: usize = j;
        if end > p && b[end - 1] == '\r' {
            end = end - 1;
        }
        let line = slice_chars(b, p, end);
        proof {
            let raw = s.take(j - p);
            assert(raw =~= b@.subrange(p as int, j as int));
            if j > p && b@[j - 1] == '\r' {
                assert(raw.last() == b@[j - 1]);
                assert(strip_cr(raw) =~= line@);
            } else {
                if j > p {
                    assert(raw.last() == b@[j - 1]);
                }
                assert(strip_cr(raw) =~= line@);
            }
            assert(s.skip(j - p + 1) =~= b@.skip(j + 1));
        }
        match data_line_exec(&line) {
            Some(d) => return Some(d),
            None => {},
        }
        p = j + 1;
    }
    proof {
        assert(b@.skip(p as int) =~= Seq::<char>::empty());
    }
    None
}

/// The state of a streamed answer being read.
pub struct GeminiStream {
    buf: Vec<char>,
    input_tokens: u64,
    output_tokens: u64,
    final_stop: StopReason,
    has_fc: bool,
}

/// The contents of a [`GeminiStream`].
pub struct GeminiStreamView {
    /// Text received after the last complete event.
    pub buf: Seq<char>,
    pub input_tokens: u64,
    pub output_tokens: u64,
    /// The stop reason reported last.
    pub final_stop: StopReason,
    /// Whether a function call was seen.
    pub has_fc: bool,
}

impl View for GeminiStream {
    type V = GeminiStreamView;

    closed spec fn view(&self) -> GeminiStreamView {
        GeminiStreamView {
            buf: self.buf@,
            input_tokens: self.input_tokens,
            output_tokens: self.output_tokens,
            final_stop: self.final_stop,
            has_fc: self.has_fc,
        }
    }
}

/// The events a part of a streamed answer becomes, its function call taking the id `id`.
pub open spec fn part_events(part: JsonView, id: Seq<char>) -> Seq<crate::provider::StreamEventView> {
    let text = match as_str(field(part, "text"@)) {
        Some(t) => if t.len() > 0 {
            if as_bool(field(part, "thought"@)) == Some(true) {
                seq![crate::provider::StreamEventView::Chunk(crate::provider::StreamChunkView::ThinkingDelta { delta: t })]
            } else {
                seq![crate::provider::StreamEventView::Chunk(crate::provider::StreamChunkView::TextDelta { delta: t })]
            }
        } else {
            Seq::empty()
        },
        None => Seq::empty(),
    };
    let call = match get_field(part, "functionCall"@) {
        Some(fc) => seq![
            crate::provider::StreamEventView::Chunk(crate::provider::StreamChunkView::ToolCallStart { call_id: id, tool_name: call_name(fc) }),
            crate::provider::StreamEventView::Chunk(crate::provider::StreamChunkView::ToolCallInput { call_id: id, delta: crate::json::serde_text(field(fc, "args"@)) }),
            crate::provider::StreamEventView::Chunk(crate::provider::StreamChunkView::ToolCallDone { call_id: id, full_input: field(fc, "args"@) }),
        ],
        None => Seq::empty(),
    };
    text + call
}

/// The parts of an answer whose numbers serde_json reads have the same property.
proof fn lemma_parts_numbers_ok(raw: JsonView)
    requires
        numbers_ok(raw),
    ensures
        first_candidate(raw) matches Some(c) ==> forall|k: int|
            0 <= k < candidate_parts(c).len() ==> numbers_ok(#[trigger] candidate_parts(c)[k]),
{
    lemma_numbers_ok_field(raw, "candidates"@);
    if let Some(c) = first_candidate(raw) {
        let a = as_array(field(raw, "candidates"@))->Some_0;
        assert(numbers_ok(a[0]));
        lemma_numbers_ok_field(c, "content"@);
        lemma_numbers_ok_field(field(c, "content"@), "parts"@);
    }
}

/// The events of all parts, the `i`-th part's function call taking `ids[i]`.
pub open spec fn parts_events(parts: Seq<JsonView>, ids: Seq<Seq<char>>) -> Seq<crate::provider::StreamEventView>
    decreases parts.len(),
{
    if parts.len() == 0 {
        Seq::empty()
    } else {
        parts_events(parts.drop_last(), ids.drop_last()) + part_events(parts.last(), ids.last())
    }
}

/// The events of one payload: those of the first candidate's parts.
pub open spec fn payload_events(raw: JsonView, ids: Seq<Seq<char>>) -> Seq<crate::provider::StreamEventView> {
    match first_candidate(raw) {
        Some(c) => parts_events(candidate_parts(c), ids),
        None => Seq::empty(),
    }
}

/// Number of parts whose function calls take ids.
pub open spec fn payload_part_count(raw: JsonView) -> nat {
    match first_candidate(raw) {
        Some(c) => candidate_parts(c).len(),
        None => 0,
    }
}

/// The state after one payload: token counts updated from its usage
/// metadata, the stop reason from a non-empty finish reason, and function
/// calls noted.
pub open spec fn after_payload(s: GeminiStreamView, raw: JsonView) -> GeminiStreamView {
    let (inp, outp) = match get_field(raw, "usageMetadata"@) {
        Some(u) => (usage_count(u, "promptTokenCount"@, s.input_tokens), usage_count(u, "candidatesTokenCount"@, s.output_tokens)),
        None => (s.input_tokens, s.output_tokens),
    };
    match first_candidate(raw) {
        None => GeminiStreamView { buf: s.buf, input_tokens: inp, output_tokens: outp, final_stop: s.final_stop, has_fc: s.has_fc },
        Some(c) => {
            let stop = match as_str(field(c, "finishReason"@)) {
                Some(f) => if f.len() > 0 {
                    if f == "MAX_TOKENS"@ {
                        StopReason::MaxTokens
                    } else {
                        StopReason::EndTurn
                    }
                } else {
                    s.final_stop
                },
                None => s.final_stop,
            };
            GeminiStreamView {
                buf: s.buf,
                input_tokens: inp,
                output_tokens: outp,
                final_stop: stop,
                has_fc: s.has_fc || has_function_call(candidate_parts(c)),
            }
        },
    }
}

/// Once a function call has been seen the stream stays in that state: no
/// later payload clears the flag, and a payload with a function call sets it.
pub proof fn law_function_call_flag_is_monotone(s: GeminiStreamView, raw: JsonView)
    ensures
        s.has_fc ==> after_payload(s, raw).has_fc,
        (first_candidate(raw) matches Some(c) && has_function_call(candidate_parts(c))) ==> after_payload(s, raw).has_fc,
        after_payload(s, raw).buf == s.buf,
{
}

/// Over any run of received payloads the flag only grows, and a stream that
/// has seen a function call ends in tool use.
pub proof fn law_stream_with_function_call_ends_in_tool_use(s: GeminiStreamView, ps: Seq<Seq<char>>)
    ensures
        s.has_fc ==> after_payloads(s, ps).has_fc,
        s.has_fc ==> (done_event(after_payloads(s, ps)) matches crate::provider::StreamEventView::Done { stop_reason, .. }
            && stop_reason == StopReason::ToolUse),
    decreases ps.len(),
{
    if ps.len() > 0 {
        law_stream_with_function_call_ends_in_tool_use(s, ps.drop_last());
        if let Some(j) = parsed_json(ps.last()) {
            law_function_call_flag_is_monotone(after_payloads(s, ps.drop_last()), j);
        }
    }
}

/// The event that ends a stream: tool use when a function call was seen,
/// otherwise the stop reason reported last; with the token counts.
pub open spec fn done_event(s: GeminiStreamView) -> crate::provider::StreamEventView {
    crate::provider::StreamEventView::Done {
        stop_reason: if s.has_fc {
            StopReason::ToolUse
        } else {
            s.final_stop
        },
        usage: crate::provider::Usage {
            input_tokens: s.input_tokens,
            output_tokens: s.output_tokens,
            cache_creation_tokens: 0,
            cache_read_tokens: 0,
        },
    }
}

/// The text `String::from_utf8_lossy` makes of `bytes`: valid UTF-8 decoded,
/// each invalid sequence replaced by U+FFFD.
pub uninterp spec fn utf8_lossy(bytes: Seq<u8>) -> Seq<char>;

/// `String::from_utf8_lossy`.
#[verifier::external_body]
fn decode_lossy(bytes: &[u8]) -> (res: String)
    ensures
        res@ == utf8_lossy(bytes@),
{
    String::from_utf8_lossy(bytes).into_owned()
}

/// The state after the payloads `ps`, in order: each payload that parses as
/// JSON is applied, the others are skipped.
pub open spec fn after_payloads(s: GeminiStreamView, ps: Seq<Seq<char>>) -> GeminiStreamView
    decreases ps.len(),
{
    if ps.len() == 0 {
        s
    } else {
        let t = after_payloads(s, ps.drop_last());
        match parsed_json(ps.last()) {
            Some(j) => after_payload(t, j),
            None => t,
        }
    }
}

/// The events of the payloads `ps`, in order, the `k`-th one's function calls
/// taking the ids `idss[k]`; payloads that do not parse give none.
pub open spec fn payloads_events(ps: Seq<Seq<char>>, idss: Seq<Seq<Seq<char>>>) -> Seq<crate::provider::StreamEventView>
    decreases ps.len(),
{
    if ps.len() == 0 {
        Seq::empty()
    } else {
        payloads_events(ps.drop_last(), idss.drop_last()) + match parsed_json(ps.last()) {
            Some(j) => payload_events(j, idss.last()),
            None => Seq::empty(),
        }
    }
}

/// `idss` gives each payload of `ps` that parses one id per part, and every
/// function call an id of the shape [`uuid_v4_text`].
pub open spec fn payload_ids_ok(ps: Seq<Seq<char>>, idss: Seq<Seq<Seq<char>>>) -> bool {
    &&& idss.len() == ps.len()
    &&& forall|k: int|
        0 <= k < ps.len() ==> match #[trigger] parsed_json(ps[k]) {
            Some(j) => idss[k].len() == payload_part_count(j) && (first_candidate(j) matches Some(c) ==> fresh_call_ids(
                candidate_parts(c),
                idss[k],
            )),
            None => true,
        }
}

/// The view of a stream with another buffer.
pub open spec fn with_buf(s: GeminiStreamView, buf: Seq<char>) -> GeminiStreamView {
    GeminiStreamView { buf, ..s }
}

impl GeminiStream {
    /// Takes one received chunk of bytes: decodes it (invalid UTF-8 replaced),
    /// completes events with it, and applies the payload of every completed
    /// event that parses as JSON, in order, skipping the others; returns the
    /// events to pass on.
    pub fn receive(&mut self, chunk: &[u8]) -> (res: Vec<crate::provider::StreamEvent>)
        ensures
            ({
                let (frames, rest) = split_frames(old(self)@.buf + utf8_lossy(chunk@));
                let ps = frame_payloads(frames);
                &&& final(self)@ == after_payloads(with_buf(old(self)@, rest), ps)
                &&& exists|idss: Seq<Seq<Seq<char>>>| payload_ids_ok(ps, idss)
                    && #[trigger] payloads_events(ps, idss) == crate::provider::events_view(res@)
            }),
    {
        let text = decode_lossy(chunk);
        let payloads = self.feed(text.as_str());
        let ghost ps = payloads@.map_values(|x: String| x@);
        let ghost base = self@;
        let mut out: Vec<crate::provider::StreamEvent> = Vec::new();
        let ghost mut idss: Seq<Seq<Seq<char>>> = Seq::empty();
        let mut i: usize = 0;
        proof {
            assert(base == with_buf(old(self)@, base.buf));
            assert(ps.take(0) =~= Seq::<Seq<char>>::empty());
            assert(crate::provider::events_view(out@) =~= Seq::<crate::provider::StreamEventView>::empty());
        }
        while i < payloads.len()
            invariant
                ps == payloads@.map_values(|x: String| x@),
                i <= payloads.len(),
                self@ == after_payloads(base, ps.take(i as int)),
                idss.len() == i,
                payload_ids_ok(ps.take(i as int), idss),
                crate::provider::events_view(out@) == payloads_events(ps.take(i as int), idss),
            decreases payloads.len() - i,
        {
            let ghost t = ps.take(i + 1);
            proof {
                assert(t.drop_last() =~= ps.take(i as int));
                assert(t.last() == payloads@[i as int]@);
            }
            let ghost before = crate::provider::events_view(out@);
            match crate::json::parse_json(payloads[i].as_str()) {
                Some(j) => {
                    let mut evs = self.apply(&j);
                    let ghost ids = choose|ids: Seq<Seq<char>>| ids.len() == payload_part_count(j@)
                        && #[trigger] payload_events(j@, ids) == crate::provider::events_view(evs@)
                        && (first_candidate(j@) matches Some(c) ==> fresh_call_ids(candidate_parts(c), ids));
                    let ghost ev_view = crate::provider::events_view(evs@);
                    out.append(&mut evs);
                    proof {
                        assert(crate::provider::events_view(out@) =~= before + ev_view);
                        let nidss = idss.push(ids);
                        assert(nidss.drop_last() =~= idss);
                        assert forall|m: int| 0 <= m < t.len() implies match #[trigger] parsed_json(t[m]) {
                            Some(jj) => nidss[m].len() == payload_part_count(jj) && (first_candidate(jj) matches Some(c) ==> fresh_call_ids(candidate_parts(c), nidss[m])),
                            None => true,
                        } by {
                            if m < i {
                                assert(t[m] == ps.take(i as int)[m]);
                                assert(nidss[m] == idss[m]);
                            }
                        }
                        idss = nidss;
                    }
                },
                None => {
                    proof {
                        let nidss = idss.push(Seq::empty());
                        assert(nidss.drop_last() =~= idss);
                        assert(crate::provider::events_view(out@) =~= payloads_events(t, nidss));
                        assert forall|m: int| 0 <= m < t.len() implies match #[trigger] parsed_json(t[m]) {
                            Some(jj) => nidss[m].len() == payload_part_count(jj) && (first_candidate(jj) matches Some(c) ==> fresh_call_ids(candidate_parts(c), nidss[m])),
                            None => true,
                        } by {
                            if m < i {
                                assert(t[m] == ps.take(i as int)[m]);
                                assert(nidss[m] == idss[m]);
                            }
                        }
                        idss = nidss;
                    }
                },
            }
            i = i + 1;
        }
        proof {
            assert(ps.take(ps.len() as int) =~= ps);
        }
        out
    }
}

impl GeminiStream {
    /// A stream before anything is received.
    pub fn new() -> (res: GeminiStream)
        ensures
            res@ == (GeminiStreamView {
                buf: Seq::empty(),
                input_tokens: 0,
                output_tokens: 0,
                final_stop: StopReason::EndTurn,
                has_fc: false,
            }),
    {
        GeminiStream { buf: Vec::new(), input_tokens: 0, output_tokens: 0, final_stop: StopReason::EndTurn, has_fc: false }
    }

    /// Takes received text; returns the payloads of the events it completes,
    /// keeping what follows the last complete event for later.
    pub fn feed(&mut self, text: &str) -> (res: Vec<String>)
        ensures
            final(self)@.buf == split_frames(old(self)@.buf + text@).1,
            res@.map_values(|s: String| s@) == frame_payloads(split_frames(old(self)@.buf + text@).0),
            final(self)@.input_tokens == old(self)@.input_tokens,
            final(self)@.output_tokens == old(self)@.output_tokens,
            final(self)@.final_stop == old(self)@.final_stop,
            final(self)@.has_fc == old(self)@.has_fc,
    {
        let mut all: Vec<char> = Vec::new();
        std::mem::swap(&mut all, &mut self.buf);
        crate::text::push_str_chars(&mut all, text);
        let ghost total = all@;
        let mut out: Vec<String> = Vec::new();
        let mut start: usize = 0;
        proof {
            assert(total.skip(0) =~= total);
            assert(out@.map_values(|s: String| s@) =~= Seq::<Seq<char>>::empty());
            assert(frame_payloads(split_frames(total).0) =~= Seq::<Seq<char>>::empty() + frame_payloads(split_frames(total.skip(0)).0));
        }
        loop
            invariant
                total == all@,
                total == old(self)@.buf + text@,
                self.input_tokens == old(self).input_tokens,
                self.output_tokens == old(self).output_tokens,
                self.final_stop == old(self).final_stop,
                self.has_fc == old(self).has_fc,
                start <= all@.len(),
                frame_payloads(split_frames(total).0) == out@.map_values(|s: String| s@) + frame_payloads(split_frames(total.skip(start as int)).0),
                split_frames(total).1 == split_frames(total.skip(start as int)).1,
            decreases all@.len() - start,
        {
            let ghost s = total.skip(start as int);
            match find_blank_from(&all, start) {
                None => {
                    proof {
                        assert(split_frames(s) == (Seq::<Seq<char>>::empty(), s));
                        assert(frame_payloads(Seq::<Seq<char>>::empty()) =~= Seq::<Seq<char>>::empty());
                        assert(out@.map_values(|x: String| x@) + Seq::<Seq<char>>::empty() =~= out@.map_values(|x: String| x@));
                    }
                    let rest = slice_chars(&all, start, all.len());
                    proof {
                        assert(rest@ =~= s);
                    }
                    self.buf = rest;
                    return out;
                },
                Some(k) => {
                    proof {
                        lemma_find_blank(s);
                        assert(s.len() == all@.len() - start);
                        assert(blank_at(s, k - start));
                        assert(k + 2 <= all@.len());
                        assert(s.skip(k - start + 2) =~= total.skip(k + 2));
                        assert(s.take(k - start) =~= total.subrange(start as int, k as int));
                        lemma_frame_payloads_prepend(s.take(k - start), split_frames(total.skip(k + 2)).0);
                    }
                    let block = slice_chars(&all, start, k);
                    let ghost before = out@.map_values(|x: String| x@);
                    match event_data(&block) {
                        Some(d) => {
                            out.push(d);
                            proof {
                                assert(out@.map_values(|x: String| x@) =~= before.push(d@));
                                assert(before + (seq![d@] + frame_payloads(split_frames(total.skip(k + 2)).0)) =~= before.push(d@) + frame_payloads(split_frames(total.skip(k + 2)).0));
                            }
                        },
                        None => {
                            proof {
                                assert(Seq::<Seq<char>>::empty() + frame_payloads(split_frames(total.skip(k + 2)).0) =~= frame_payloads(split_frames(total.skip(k + 2)).0));
                            }
                        },
                    }
                    let n = all.len();
                    assert(k + 2 <= n);
                    start = k + 2;
                },
            }
        }
    }

    /// Takes the parsed payload of one event; returns the events to pass on
    /// (each function call with a fresh id).
    pub fn apply(&mut self, raw: &Json) -> (res: Vec<crate::provider::StreamEvent>)
        requires
            numbers_ok(raw@),
        ensures
            final(self)@ == after_payload(old(self)@, raw@),
            exists|ids: Seq<Seq<char>>| ids.len() == payload_part_count(raw@)
                && #[trigger] payload_events(raw@, ids) == crate::provider::events_view(res@)
                && (first_candidate(raw@) matches Some(c) ==> fresh_call_ids(candidate_parts(c), ids)),
    {
        match raw.get("usageMetadata") {
            Some(u) => {
                self.input_tokens = match u64_field(u, "promptTokenCount") {
                    Some(n) => n,
                    None => self.input_tokens,
                };
                self.output_tokens = match u64_field(u, "candidatesTokenCount") {
                    Some(n) => n,
                    None => self.output_tokens,
                };
            },
            None => {},
        }
        let mut events: Vec<crate::provider::StreamEvent> = Vec::new();
        let candidate = match get_candidate(raw) {
            Some(c) => c,
            None => {
                proof {
                    let e: Seq<Seq<char>> = Seq::empty();
                    assert(crate::provider::events_view(events@) =~= payload_events(raw@, e));
                }
                return events;
            },
        };
        match str_field(candidate, "finishReason") {
            Some(f) => {
                if crate::text::to_chars(f).len() > 0 {
                    self.final_stop = if str_eq(f, "MAX_TOKENS") {
                        StopReason::MaxTokens
                    } else {
                        StopReason::EndTurn
                    };
                }
            },
            None => {},
        }
        let ghost mut ids: Seq<Seq<char>> = Seq::empty();
        match get_parts(candidate) {
            Some(parts) => {
                let ghost ps = json_seq_view(parts@);
                proof {
                    crate::json::lemma_json_seq_view(parts@);
                    lemma_parts_numbers_ok(raw@);
                    assert(ps.take(0) =~= Seq::<JsonView>::empty());
                    assert(crate::provider::events_view(events@) =~= Seq::<crate::provider::StreamEventView>::empty());
                }
                let mut i: usize = 0;
                let mut seen = false;
                while i < parts.len()
                    invariant
                        ps == json_seq_view(parts@),
                        ps.len() == parts@.len(),
                        forall|k: int| 0 <= k < parts@.len() ==> #[trigger] ps[k] == parts@[k]@,
                        i <= parts.len(),
                        ids.len() == i,
                        crate::provider::events_view(events@) == parts_events(ps.take(i as int), ids),
                        seen == has_function_call(ps.take(i as int)),
                        fresh_call_ids(ps.take(i as int), ids),
                        forall|k: int| 0 <= k < ps.len() ==> numbers_ok(#[trigger] ps[k]),
                    decreases parts.len() - i,
                {
                    proof {
                        assert(numbers_ok(ps[i as int]));
                    }
                    let (fc, Ghost(id)) = self.part_to_events(&parts[i], &mut events);
                    proof {
                        let t = ps.take(i + 1);
                        assert(t.drop_last() =~= ps.take(i as int));
                        assert(t.last() == ps[i as int]);
                        assert(ids.push(id).drop_last() =~= ids);
                        if fc {
                            assert(get_field(t[i as int], "functionCall"@) is Some);
                        }
                        if seen {
                            let k = choose|k: int| 0 <= k < i && #[trigger] get_field(ps.take(i as int)[k], "functionCall"@) is Some;
                            assert(t[k] == ps.take(i as int)[k]);
                        }
                        if !seen && !fc {
                            assert forall|k: int| 0 <= k < t.len() implies !(#[trigger] get_field(t[k], "functionCall"@) is Some) by {
                                if k < i {
                                    assert(t[k] == ps.take(i as int)[k]);
                                }
                            }
                        }
                        ids = ids.push(id);
                    }
                    seen = seen || fc;
                    i = i + 1;
                }
                proof {
                    assert(ps.take(ps.len() as int) =~= ps);
                }
                self.has_fc = self.has_fc || seen;
            },
            None => {
                proof {
                    assert(crate::provider::events_view(events@) =~= parts_events(Seq::empty(), ids));
                    assert(!has_function_call(Seq::<JsonView>::empty()));
                }
            },
        }
        proof {
            reveal_strlit("MAX_TOKENS");
            assert(ids.len() == payload_part_count(raw@));
            assert(payload_events(raw@, ids) == crate::provider::events_view(events@));
        }
        events
    }

    /// Appends the events of one part; returns whether it holds a function call.
    fn part_to_events(&self, part: &Json, out: &mut Vec<crate::provider::StreamEvent>) -> (res: (bool, Ghost<Seq<char>>))
        requires
            numbers_ok(part@),
        ensures
            crate::provider::events_view(final(out)@) == crate::provider::events_view(old(out)@) + part_events(part@, res.1@),
            res.0 == (get_field(part@, "functionCall"@) is Some),
            res.0 ==> uuid_v4_text(res.1@),
    {
        let ghost start = crate::provider::events_view(out@);
        match str_field(part, "text") {
            Some(t) => {
                if crate::text::to_chars(t).len() > 0 {
                    if bool_field(part, "thought") == Some(true) {
                        out.push(crate::provider::StreamEvent::Chunk(crate::provider::StreamChunk::ThinkingDelta { delta: owned(t) }));
                    } else {
                        out.push(crate::provider::StreamEvent::Chunk(crate::provider::StreamChunk::TextDelta { delta: owned(t) }));
                    }
                }
            },
            None => {},
        }
        match part.get("functionCall") {
            Some(fc) => {
                let name = match str_field(fc, "name") {
                    Some(n) => owned(n),
                    None => owned(""),
                };
                let args = field_copy(fc, "args");
                proof {
                    lemma_numbers_ok_field(part@, "functionCall"@);
                    lemma_numbers_ok_field(fc@, "args"@);
                }
                let args_text = crate::json::to_json_text(&args);
                let args2 = args;
                let call_id = new_call_id();
                let ghost idv = call_id@;
                let id2 = call_id.clone();
                let id3 = call_id.clone();
                out.push(crate::provider::StreamEvent::Chunk(crate::provider::StreamChunk::ToolCallStart { call_id, tool_name: name }));
                out.push(crate::provider::StreamEvent::Chunk(crate::provider::StreamChunk::ToolCallInput { call_id: id2, delta: args_text }));
                out.push(crate::provider::StreamEvent::Chunk(crate::provider::StreamChunk::ToolCallDone { call_id: id3, full_input: args2 }));
                proof {
                    reveal_strlit("");
                    assert(""@ =~= Seq::<char>::empty());
                    assert(get_field(part@, "functionCall"@) == Some(fc@));
                    assert(crate::provider::events_view(out@) =~= start + part_events(part@, idv));
                }
                (true, Ghost(idv))
            },
            None => {
                proof {
                    assert(crate::provider::events_view(out@) =~= start + part_events(part@, Seq::empty()));
                }
                (false, Ghost(Seq::empty()))
            },
        }
    }

    /// The event that ends the stream.
    pub fn done(&self) -> (res: crate::provider::StreamEvent)
        ensures
            res@ == done_event(self@),
    {
        let stop_reason = if self.has_fc {
            StopReason::ToolUse
        } else {
            self.final_stop
        };
        crate::provider::StreamEvent::Done {
            stop_reason,
            usage: crate::provider::Usage {
                input_tokens: self.input_tokens,
                output_tokens: self.output_tokens,
                cache_creation_tokens: 0,
                cache_read_tokens: 0,
            },
        }
    }
}

/// The event sent when the stream is cancelled.
pub fn cancelled_event() -> (res: crate::provider::StreamEvent)
    ensures
        res@ == crate::provider::StreamEventView::Error("cancelled"@),
{
    crate::provider::StreamEvent::Error(owned("cancelled"))
}

// ───────────────────────── laws ─────────────────────────

proof fn lemma_find_blank_append(a: Seq<char>, b: Seq<char>)
    requires
        find_blank(a) >= 0,
    ensures
        find_blank(a + b) == find_blank(a),
{
    lemma_find_blank(a);
    let i = find_blank(a);
    assert forall|j: int| 0 <= j < i implies !#[trigger] blank_at(a + b, j) by {
        assert((a + b)[j] == a[j]);
        assert((a + b)[j + 1] == a[j + 1]);
        assert(!blank_at(a, j));
    }
    assert((a + b)[i] == a[i]);
    assert((a + b)[i + 1] == a[i + 1]);
    lemma_find_blank_is(a + b, i);
}

/// Splitting `a + b` into events is splitting `a`, then splitting what
/// remains of it followed by `b`.
pub proof fn lemma_split_frames_append(a: Seq<char>, b: Seq<char>)
    ensures
        split_frames(a + b) == (
            split_frames(a).0 + split_frames(split_frames(a).1 + b).0,
            split_frames(split_frames(a).1 + b).1,
        ),
    decreases a.len(),
{
    let i = find_blank(a);
    lemma_find_blank(a);
    if i < 0 {
        assert(split_frames(a) == (Seq::<Seq<char>>::empty(), a));
        assert(Seq::<Seq<char>>::empty() + split_frames(a + b).0 =~= split_frames(a + b).0);
    } else {
        lemma_find_blank_append(a, b);
        let a2 = a.skip(i + 2);
        lemma_split_frames_append(a2, b);
        assert((a + b).skip(i + 2) =~= a2 + b);
        assert((a + b).take(i) =~= a.take(i));
        let r = split_frames(a2);
        assert(seq![a.take(i)] + r.0 + split_frames(r.1 + b).0 =~= seq![a.take(i)] + (r.0 + split_frames(r.1 + b).0));
    }
}

/// Payloads of a concatenation of event lists are concatenated.
pub proof fn lemma_frame_payloads_append(x: Seq<Seq<char>>, y: Seq<Seq<char>>)
    ensures
        frame_payloads(x + y) == frame_payloads(x) + frame_payloads(y),
    decreases x.len(),
{
    if x.len() == 0 {
        assert(x + y =~= y);
        assert(Seq::<Seq<char>>::empty() + frame_payloads(y) =~= frame_payloads(y));
    } else {
        lemma_frame_payloads_append(x.skip(1), y);
        assert((x + y).skip(1) =~= x.skip(1) + y);
        assert((x + y)[0] == x[0]);
        let head: Seq<Seq<char>> = match data_of(x[0]) {
            Some(d) => seq![d],
            None => Seq::empty(),
        };
        assert(head + (frame_payloads(x.skip(1)) + frame_payloads(y)) =~= head + frame_payloads(x.skip(1)) + frame_payloads(y));
    }
}

/// However the received text is cut into pieces, the same payloads come out
/// in the same order and the same text is left waiting: feeding `a` and then
/// `b` gives what feeding `a + b` at once gives.
pub proof fn law_feeding_in_pieces(buf: Seq<char>, a: Seq<char>, b: Seq<char>)
    ensures
        ({
            let first = split_frames(buf + a);
            let second = split_frames(first.1 + b);
            let whole = split_frames(buf + a + b);
            &&& frame_payloads(first.0) + frame_payloads(second.0) == frame_payloads(whole.0)
            &&& second.1 == whole.1
        }),
{
    lemma_split_frames_append(buf + a, b);
    let first = split_frames(buf + a);
    let second = split_frames(first.1 + b);
    lemma_frame_payloads_append(first.0, second.0);
}

/// A streamed answer that arrives as one event ends with the stop reason
/// and token counts of the same answer received whole.
pub proof fn law_stream_agrees_with_whole_answer(raw: JsonView, buf: Seq<char>)
    requires
        first_candidate(raw) is Some,
    ensures
        ({
            let start = GeminiStreamView {
                buf,
                input_tokens: 0,
                output_tokens: 0,
                final_stop: StopReason::EndTurn,
                has_fc: false,
            };
            let c = first_candidate(raw)->Some_0;
            done_event(after_payload(start, raw)) == crate::provider::StreamEventView::Done {
                stop_reason: finish_reason_spec(as_str(field(c, "finishReason"@)), has_function_call(candidate_parts(c))),
                usage: crate::provider::Usage {
                    input_tokens: usage_count(field(raw, "usageMetadata"@), "promptTokenCount"@, 0),
                    output_tokens: usage_count(field(raw, "usageMetadata"@), "candidatesTokenCount"@, 0),
                    cache_creation_tokens: 0,
                    cache_read_tokens: 0,
                },
            }
        }),
{
    reveal_strlit("MAX_TOKENS");
    let c = first_candidate(raw)->Some_0;
    match as_str(field(c, "finishReason"@)) {
        Some(f) => {
            if f.len() == 0 {
                assert(f != "MAX_TOKENS"@);
            }
        },
        None => {},
    }
    match get_field(raw, "usageMetadata"@) {
        Some(u) => {
            assert(field(raw, "usageMetadata"@) == u);
        },
        None => {
            assert(field(raw, "usageMetadata"@) == JsonView::Null);
        },
    }
}

} // verus!
