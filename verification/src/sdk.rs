//! The embedding protocol: one JSON request per input line, one JSON event
//! per output line.  The caller reads and writes the lines and runs the
//! turns; this module decides what each request and each agent event
//! becomes.

use vstd::prelude::*;
use crate::json::{serde_text, numbers_ok, lemma_json_seq_push, json_seq_view, to_json_text, json_obj2, json_str, json_u64, Json, JsonView, ObjectBuilder, number_text, json_members_view, json_copy};
use crate::provider::{blocks_view, messages_view, ContentBlock, ContentBlockView, Message, MessageRole, MessageView};
use crate::text::{is_blank, owned, push_str_chars, str_eq, str_is_blank, string_from_chars};

verus! {

broadcast use vstd::string::group_string_axioms;

/// One message of a conversation history sent by the host.
pub struct HistoryMessage {
    pub role: String,
    pub content: String,
}

/// A request from the host.
pub struct SdkInput {
    /// The request id (a UUID, as its 128-bit value).
    pub id: u128,
    pub msg_type: String,
    pub payload: String,
    /// The model asked for (`provider/model` or a bare model name).
    pub model: Option<String>,
    /// The whole conversation; when present it replaces the payload.
    pub history: Option<Vec<HistoryMessage>>,
}

/// An event sent to the host.
pub struct SdkOutput {
    pub id: u128,
    pub msg_type: String,
    pub payload: String,
}

impl SdkOutput {
    /// An event.
    pub fn new(id: u128, msg_type: &str, payload: &str) -> (res: SdkOutput)
        ensures
            res.id == id,
            res.msg_type@ == msg_type@,
            res.payload@ == payload@,
    {
        SdkOutput { id, msg_type: owned(msg_type), payload: owned(payload) }
    }
}

// ───────────────────────── requests ─────────────────────────

/// What a request asks for.
#[derive(Clone, Copy, PartialEq, Eq, Structural, Debug)]
pub enum SdkCommand {
    Ping,
    Exit,
    Models,
    Abort,
    Message,
    Unknown,
}

/// The command a request type names.
pub open spec fn command_of(t: Seq<char>) -> SdkCommand {
    if t == "ping"@ {
        SdkCommand::Ping
    } else if t == "exit"@ || t == "stop"@ {
        SdkCommand::Exit
    } else if t == "models"@ {
        SdkCommand::Models
    } else if t == "abort"@ {
        SdkCommand::Abort
    } else if t == "message"@ {
        SdkCommand::Message
    } else {
        SdkCommand::Unknown
    }
}

/// The command a request type names.
pub fn classify(msg_type: &str) -> (res: SdkCommand)
    ensures
        res == command_of(msg_type@),
{
    if str_eq(msg_type, "ping") {
        SdkCommand::Ping
    } else if str_eq(msg_type, "exit") || str_eq(msg_type, "stop") {
        SdkCommand::Exit
    } else if str_eq(msg_type, "models") {
        SdkCommand::Models
    } else if str_eq(msg_type, "abort") {
        SdkCommand::Abort
    } else if str_eq(msg_type, "message") {
        SdkCommand::Message
    } else {
        SdkCommand::Unknown
    }
}

/// What the host loop does with a request.
pub enum SdkAction {
    /// Send this event.
    Reply(SdkOutput),
    /// Stop reading requests.
    Stop,
    /// Send the model list under this request id.
    ListModels,
    /// Cancel the running turn and send this event.
    Abort(SdkOutput),
    /// Cancel any running turn and start a new one for the request.
    StartTurn,
    /// Nothing to do.
    Ignore,
}

/// The message of an unknown request type.
pub open spec fn unknown_type_message(t: Seq<char>) -> Seq<char> {
    "unknown type: "@ + t
}

/// What the host loop does with `input`, given whether a turn is running:
/// `ping` is answered with `pong`; `exit` and `stop` end the loop; `models`
/// lists the models; `abort` cancels a running turn and answers `aborted`
/// (and is ignored when none runs); `message` starts a new turn in place of
/// any running one; any other type is answered with an error.
pub fn dispatch(input: &SdkInput, turn_running: bool) -> (res: SdkAction)
    ensures
        match command_of(input.msg_type@) {
            SdkCommand::Ping => res matches SdkAction::Reply(o) && o.id == input.id && o.msg_type@ == "pong"@
                && o.payload@ == Seq::<char>::empty(),
            SdkCommand::Exit => res is Stop,
            SdkCommand::Models => res is ListModels,
            SdkCommand::Abort => if turn_running {
                res matches SdkAction::Abort(o) && o.id == input.id && o.msg_type@ == "aborted"@ && o.payload@
                    == "cancelled"@
            } else {
                res is Ignore
            },
            SdkCommand::Message => res is StartTurn,
            SdkCommand::Unknown => res matches SdkAction::Reply(o) && o.id == input.id && o.msg_type@ == "error"@
                && o.payload@ == unknown_type_message(input.msg_type@),
        },
{
    proof {
        reveal_strlit("");
    }
    match classify(input.msg_type.as_str()) {
        SdkCommand::Ping => SdkAction::Reply(SdkOutput::new(input.id, "pong", "")),
        SdkCommand::Exit => SdkAction::Stop,
        SdkCommand::Models => SdkAction::ListModels,
        SdkCommand::Abort => {
            if turn_running {
                SdkAction::Abort(SdkOutput::new(input.id, "aborted", "cancelled"))
            } else {
                SdkAction::Ignore
            }
        },
        SdkCommand::Message => SdkAction::StartTurn,
        SdkCommand::Unknown => {
            let mut v: Vec<char> = Vec::new();
            push_str_chars(&mut v, "unknown type: ");
            push_str_chars(&mut v, input.msg_type.as_str());
            let msg = string_from_chars(&v);
            SdkAction::Reply(SdkOutput { id: input.id, msg_type: owned("error"), payload: msg })
        },
    }
}

/// The event announcing that the protocol is ready, naming the model.
pub open spec fn ready_payload(model: Seq<char>) -> Seq<char> {
    "ring SDK ready — model: "@ + if model.len() == 0 {
        "(none)"@
    } else {
        model
    }
}

/// The event announcing that the protocol is ready (sent under the nil id).
pub fn ready_event(model: &str) -> (res: SdkOutput)
    ensures
        res.id == 0,
        res.msg_type@ == "ready"@,
        res.payload@ == ready_payload(model@),
{
    let mut v: Vec<char> = Vec::new();
    push_str_chars(&mut v, "ring SDK ready — model: ");
    let n = crate::text::to_chars(model).len();
    if n == 0 {
        push_str_chars(&mut v, "(none)");
    } else {
        push_str_chars(&mut v, model);
    }
    SdkOutput { id: 0, msg_type: owned("ready"), payload: string_from_chars(&v) }
}

/// The event reporting a request line that is not valid JSON (sent under the nil id).
pub fn parse_error_event(error: &str) -> (res: SdkOutput)
    ensures
        res.id == 0,
        res.msg_type@ == "error"@,
        res.payload@ == "parse error: "@ + error@,
{
    let mut v: Vec<char> = Vec::new();
    push_str_chars(&mut v, "parse error: ");
    push_str_chars(&mut v, error);
    SdkOutput { id: 0, msg_type: owned("error"), payload: string_from_chars(&v) }
}

// ───────────────────────── choosing the model ─────────────────────────

/// The model reference a request asks for, when it names one that is not blank.
pub fn requested_model(requested: Option<&str>) -> (res: Option<&str>)
    ensures
        match requested {
            Some(m) => if is_blank(m@) {
                res is None
            } else {
                res == Some(m)
            },
            None => res is None,
        },
{
    match requested {
        Some(m) => if str_is_blank(m) {
            None
        } else {
            Some(m)
        },
        None => None,
    }
}

/// The model of a request: the model it names, or else the chosen
/// provider's default model, or else nothing.
pub fn model_or_default(model_name: &str, provider_default: Option<&str>) -> (res: String)
    ensures
        res@ == if model_name@.len() > 0 {
            model_name@
        } else {
            match provider_default {
                Some(d) => d@,
                None => Seq::empty(),
            }
        },
{
    if crate::text::to_chars(model_name).len() > 0 {
        owned(model_name)
    } else {
        match provider_default {
            Some(d) => owned(d),
            None => {
                proof {
                    reveal_strlit("");
                }
                owned("")
            },
        }
    }
}

// ───────────────────────── the model list ─────────────────────────

/// `{"id": <id>, "role": <role>}`: one model of the list sent to the host.
pub open spec fn model_entry(id: Seq<char>, role: Seq<char>) -> JsonView {
    JsonView::Object(seq![("id"@, JsonView::Str(id)), ("role"@, JsonView::Str(role))])
}

/// The model list: one entry per `(id, role)` pair, in order.
pub open spec fn models_json(models: Seq<(String, String)>) -> JsonView {
    JsonView::Array(Seq::new(models.len(), |i: int| model_entry(models[i].0@, models[i].1@)))
}

/// The answer to a `models` request: the JSON text serde_json writes for the
/// model list, one `{"id", "role"}` object per model, in order.
pub fn models_event(id: u128, models: &Vec<(String, String)>) -> (res: SdkOutput)
    ensures
        res.id == id,
        res.msg_type@ == "models"@,
        res.payload@ == serde_text(models_json(models@)),
{
    let mut items: Vec<Json> = Vec::new();
    let mut i: usize = 0;
    while i < models.len()
        invariant
            i <= models.len(),
            json_seq_view(items@) =~= Seq::new(i as nat, |k: int| model_entry(models@[k].0@, models@[k].1@)),
        decreases models.len() - i,
    {
        let e = json_obj2("id", json_str(models[i].0.as_str()), "role", json_str(models[i].1.as_str()));
        proof {
            lemma_json_seq_push(items@, e);
        }
        items.push(e);
        proof {
            assert(json_seq_view(items@) =~= Seq::new(
                (i + 1) as nat,
                |k: int| model_entry(models@[k].0@, models@[k].1@),
            ));
        }
        i = i + 1;
    }
    let list = Json::Array(items);
    proof {
        assert(list@ == models_json(models@));
        let a = Seq::new(models@.len(), |k: int| model_entry(models@[k].0@, models@[k].1@));
        assert forall|k: int| 0 <= k < a.len() implies numbers_ok(#[trigger] a[k]) by {
            let m = seq![("id"@, JsonView::Str(models@[k].0@)), ("role"@, JsonView::Str(models@[k].1@))];
            assert(a[k] == JsonView::Object(m));
            assert forall|j: int| 0 <= j < m.len() implies numbers_ok(#[trigger] m[j].1) by {}
        }
    }
    let payload = to_json_text(&list);
    SdkOutput { id, msg_type: owned("models"), payload }
}

// ───────────────────────── building the conversation ─────────────────────────

/// The role of a history message: `user` and `assistant` are kept, any other is dropped.
pub open spec fn history_role(role: Seq<char>) -> Option<MessageRole> {
    if role == "user"@ {
        Some(MessageRole::User)
    } else if role == "assistant"@ {
        Some(MessageRole::Assistant)
    } else {
        None
    }
}

/// The messages of a history, in order, each holding its content as one text block.
pub open spec fn history_messages(h: Seq<HistoryMessage>) -> Seq<MessageView>
    decreases h.len(),
{
    if h.len() == 0 {
        Seq::empty()
    } else {
        let r = history_messages(h.drop_last());
        match history_role(h.last().role@) {
            Some(role) => r.push(MessageView { role, content: seq![ContentBlockView::Text { text: h.last().content@ }] }),
            None => r,
        }
    }
}

/// The conversation a request starts a turn with: its history when it has
/// a non-empty one, otherwise its payload as a single user message.
pub open spec fn context_spec(input: SdkInput) -> Seq<MessageView> {
    match input.history {
        Some(h) if h@.len() > 0 => history_messages(h@),
        _ => seq![MessageView { role: MessageRole::User, content: seq![ContentBlockView::Text { text: input.payload@ }] }],
    }
}

fn text_message(role: MessageRole, text: &String) -> (res: Message)
    ensures
        res@ == (MessageView { role, content: seq![ContentBlockView::Text { text: text@ }] }),
{
    let mut content: Vec<ContentBlock> = Vec::new();
    content.push(ContentBlock::Text { text: text.clone() });
    let m = Message::new(role, content);
    proof {
        assert(blocks_view(m.content@) =~= seq![ContentBlockView::Text { text: text@ }]);
    }
    m
}

/// The conversation a request starts a turn with.
pub fn context_messages(input: &SdkInput) -> (res: Vec<Message>)
    ensures
        messages_view(res@) == context_spec(*input),
{
    let mut out: Vec<Message> = Vec::new();
    match &input.history {
        Some(h) => {
            if h.len() > 0 {
                let mut i: usize = 0;
                proof {
                    assert(h@.take(0) =~= Seq::<HistoryMessage>::empty());
                    assert(messages_view(out@) =~= Seq::<MessageView>::empty());
                }
                while i < h.len()
                    invariant
                        i <= h.len(),
                        messages_view(out@) == history_messages(h@.take(i as int)),
                    decreases h.len() - i,
                {
                    let m = &h[i];
                    let ghost before = messages_view(out@);
                    if str_eq(m.role.as_str(), "user") {
                        out.push(text_message(MessageRole::User, &m.content));
                    } else if str_eq(m.role.as_str(), "assistant") {
                        out.push(text_message(MessageRole::Assistant, &m.content));
                    }
                    proof {
                        assert(h@.take(i + 1).drop_last() =~= h@.take(i as int));
                        assert(h@.take(i + 1).last() == h@[i as int]);
                        assert(messages_view(out@) =~= history_messages(h@.take(i + 1)));
                    }
                    i = i + 1;
                }
                proof {
                    assert(h@.take(h@.len() as int) =~= h@);
                }
                return out;
            }
        },
        None => {},
    }
    out.push(text_message(MessageRole::User, &input.payload));
    proof {
        assert(messages_view(out@) =~= context_spec(*input));
    }
    out
}

/// What a turn starts from: the model it runs with, its system prompt and
/// the conversation so far.
pub struct TurnContext {
    pub model: String,
    pub system: Option<String>,
    pub messages: Vec<Message>,
}

/// The context a request starts a turn with: the given model and system
/// prompt, and the conversation of [`context_messages`].
pub fn build_context(input: &SdkInput, system_prompt: &str, model: &str) -> (res: TurnContext)
    ensures
        res.model@ == model@,
        res.system matches Some(p) && p@ == system_prompt@,
        messages_view(res.messages@) == context_spec(*input),
{
    TurnContext { model: owned(model), system: Some(owned(system_prompt)), messages: context_messages(input) }
}

// ───────────────────────── forwarding agent events ─────────────────────────

/// An agent event, as far as a turn forwards it.
pub enum TurnEvent {
    AgentReasoning { delta: String },
    AgentText { delta: String },
    ToolStart { call_id: String, tool_name: String, input: Json },
    ToolEnd { call_id: String, tool_name: String, ok: bool, duration_ms: u64 },
    AgentDone { stop_reason: String },
    AgentError { error: String },
    /// Any other event.
    Other,
}

/// What a turn sends for an agent event.
pub enum Forward {
    /// Send an event with a text payload.
    Text { msg_type: String, payload: String },
    /// Send an event whose payload is the JSON text of this value.
    Json { msg_type: String, payload: Json },
    /// Send nothing.
    Skip,
}

/// The contents of a [`Forward`].
pub enum ForwardView {
    Text { msg_type: Seq<char>, payload: Seq<char> },
    Json { msg_type: Seq<char>, payload: JsonView },
    Skip,
}

impl View for Forward {
    type V = ForwardView;

    open spec fn view(&self) -> ForwardView {
        match self {
            Forward::Text { msg_type, payload } => ForwardView::Text { msg_type: msg_type@, payload: payload@ },
            Forward::Json { msg_type, payload } => ForwardView::Json { msg_type: msg_type@, payload: payload@ },
            Forward::Skip => ForwardView::Skip,
        }
    }
}

/// What a turn sends for an event of session `event_session` while it runs
/// for `session`, and whether the turn ends with it: events of other
/// sessions are skipped; reasoning and text deltas are sent as they are;
/// tool starts and ends are sent as JSON; done and error events are sent
/// and end the turn; anything else is skipped.
pub open spec fn forward_spec(ev: TurnEvent, event_session: u128, session: u128) -> (ForwardView, bool) {
    if event_session != session {
        (ForwardView::Skip, false)
    } else {
        match ev {
            TurnEvent::AgentReasoning { delta } => (ForwardView::Text { msg_type: "reasoning"@, payload: delta@ }, false),
            TurnEvent::AgentText { delta } => (ForwardView::Text { msg_type: "text"@, payload: delta@ }, false),
            TurnEvent::ToolStart { call_id, tool_name, input } => (
                ForwardView::Json {
                    msg_type: "tool_start"@,
                    payload: JsonView::Object(
                        seq![("call_id"@, JsonView::Str(call_id@)), ("tool"@, JsonView::Str(tool_name@)), ("input"@, input@)],
                    ),
                },
                false,
            ),
            TurnEvent::ToolEnd { call_id, tool_name, ok, duration_ms } => (
                ForwardView::Json {
                    msg_type: "tool_end"@,
                    payload: JsonView::Object(
                        seq![
                            ("call_id"@, JsonView::Str(call_id@)),
                            ("tool"@, JsonView::Str(tool_name@)),
                            ("ok"@, JsonView::Bool(ok)),
                            ("duration_ms"@, JsonView::Number(number_text(duration_ms as nat))),
                        ],
                    ),
                },
                false,
            ),
            TurnEvent::AgentDone { stop_reason } => (ForwardView::Text { msg_type: "done"@, payload: stop_reason@ }, true),
            TurnEvent::AgentError { error } => (ForwardView::Text { msg_type: "error"@, payload: error@ }, true),
            TurnEvent::Other => (ForwardView::Skip, false),
        }
    }
}

/// What a turn sends for an agent event, and whether the turn ends with it.
pub fn forward_event(ev: &TurnEvent, event_session: u128, session: u128) -> (res: (Forward, bool))
    ensures
        (res.0@, res.1) == forward_spec(*ev, event_session, session),
{
    if event_session != session {
        return (Forward::Skip, false);
    }
    match ev {
        TurnEvent::AgentReasoning { delta } => (Forward::Text { msg_type: owned("reasoning"), payload: delta.clone() }, false),
        TurnEvent::AgentText { delta } => (Forward::Text { msg_type: owned("text"), payload: delta.clone() }, false),
        TurnEvent::ToolStart { call_id, tool_name, input } => {
            let mut b = ObjectBuilder::new();
            b.add("call_id", json_str(call_id.as_str()));
            b.add("tool", json_str(tool_name.as_str()));
            b.add("input", json_copy(input));
            proof {
                assert(json_members_view(b.members@) =~= seq![
                    ("call_id"@, JsonView::Str(call_id@)),
                    ("tool"@, JsonView::Str(tool_name@)),
                    ("input"@, input@),
                ]);
            }
            (Forward::Json { msg_type: owned("tool_start"), payload: b.build() }, false)
        },
        TurnEvent::ToolEnd { call_id, tool_name, ok, duration_ms } => {
            let mut b = ObjectBuilder::new();
            b.add("call_id", json_str(call_id.as_str()));
            b.add("tool", json_str(tool_name.as_str()));
            b.add("ok", Json::Bool(*ok));
            b.add("duration_ms", json_u64(*duration_ms));
            proof {
                assert(json_members_view(b.members@) =~= seq![
                    ("call_id"@, JsonView::Str(call_id@)),
                    ("tool"@, JsonView::Str(tool_name@)),
                    ("ok"@, JsonView::Bool(*ok)),
                    ("duration_ms"@, JsonView::Number(number_text(*duration_ms as nat))),
                ]);
            }
            (Forward::Json { msg_type: owned("tool_end"), payload: b.build() }, false)
        },
        TurnEvent::AgentDone { stop_reason } => (Forward::Text { msg_type: owned("done"), payload: stop_reason.clone() }, true),
        TurnEvent::AgentError { error } => (Forward::Text { msg_type: owned("error"), payload: error.clone() }, true),
        TurnEvent::Other => (Forward::Skip, false),
    }
}

/// The event sent when a turn is cancelled.
pub fn aborted_event(id: u128) -> (res: SdkOutput)
    ensures
        res.id == id,
        res.msg_type@ == "aborted"@,
        res.payload@ == "cancelled"@,
{
    SdkOutput::new(id, "aborted", "cancelled")
}

/// The event sent when the agent stops without a final event of its own.
pub fn fallback_done_event(id: u128) -> (res: SdkOutput)
    ensures
        res.id == id,
        res.msg_type@ == "done"@,
        res.payload@ == "end_turn"@,
{
    SdkOutput::new(id, "done", "end_turn")
}

/// The event sent when no provider is configured for a turn.
pub fn no_provider_event(id: u128) -> (res: SdkOutput)
    ensures
        res.id == id,
        res.msg_type@ == "error"@,
        res.payload@ == "no provider configured"@,
{
    SdkOutput::new(id, "error", "no provider configured")
}

/// The message type an event of the running session is forwarded under.
pub open spec fn forwarded_type(ev: TurnEvent, session: u128) -> Option<Seq<char>> {
    match forward_spec(ev, session, session).0 {
        ForwardView::Text { msg_type, .. } => Some(msg_type),
        ForwardView::Json { msg_type, .. } => Some(msg_type),
        ForwardView::Skip => None,
    }
}

/// Each kind of agent event of the running session is forwarded under the
/// message type the protocol names for it — `reasoning`, `text`,
/// `tool_start`, `tool_end`, `done`, `error` — deltas and final texts as
/// their payload; so no two kinds share a type, and reasoning never reaches
/// the host as answer text.
pub proof fn law_each_event_kind_has_its_own_type(ev: TurnEvent, session: u128)
    ensures
        ev is AgentReasoning ==> forwarded_type(ev, session) == Some("reasoning"@)
            && forward_spec(ev, session, session).0 == (ForwardView::Text { msg_type: "reasoning"@, payload: ev->AgentReasoning_delta@ }),
        ev is AgentText ==> forwarded_type(ev, session) == Some("text"@)
            && forward_spec(ev, session, session).0 == (ForwardView::Text { msg_type: "text"@, payload: ev->AgentText_delta@ }),
        ev is ToolStart ==> forwarded_type(ev, session) == Some("tool_start"@),
        ev is ToolEnd ==> forwarded_type(ev, session) == Some("tool_end"@),
        ev is AgentDone ==> forwarded_type(ev, session) == Some("done"@)
            && forward_spec(ev, session, session).0 == (ForwardView::Text { msg_type: "done"@, payload: ev->AgentDone_stop_reason@ }),
        ev is AgentError ==> forwarded_type(ev, session) == Some("error"@)
            && forward_spec(ev, session, session).0 == (ForwardView::Text { msg_type: "error"@, payload: ev->AgentError_error@ }),
        ev is Other ==> forwarded_type(ev, session) is None,
{
}

/// Two events of the running session of different kinds are never forwarded
/// under the same message type.
pub proof fn law_event_kinds_are_told_apart(a: TurnEvent, b: TurnEvent, session: u128)
    requires
        forwarded_type(a, session) is Some,
        forwarded_type(a, session) == forwarded_type(b, session),
    ensures
        (a is AgentReasoning) == (b is AgentReasoning),
        (a is AgentText) == (b is AgentText),
        (a is ToolStart) == (b is ToolStart),
        (a is ToolEnd) == (b is ToolEnd),
        (a is AgentDone) == (b is AgentDone),
        (a is AgentError) == (b is AgentError),
{
    reveal_strlit("reasoning");
    reveal_strlit("text");
    reveal_strlit("tool_start");
    reveal_strlit("tool_end");
    reveal_strlit("done");
    reveal_strlit("error");
    assert("reasoning"@.len() == 9 && "reasoning"@[0] == 'r');
    assert("text"@.len() == 4 && "text"@[0] == 't');
    assert("tool_start"@.len() == 10);
    assert("tool_end"@.len() == 8);
    assert("done"@.len() == 4 && "done"@[0] == 'd');
    assert("error"@.len() == 5);
}

/// Only done and error events end a turn.
pub proof fn law_only_final_events_end_a_turn(ev: TurnEvent, event_session: u128, session: u128)
    ensures
        forward_spec(ev, event_session, session).1 <==> (event_session == session && (ev is AgentDone
            || ev is AgentError)),
{
}

} // verus!
