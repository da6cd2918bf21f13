//! The response normalizer: turns the model's raw output into a typed
//! [`BotMessage`], degrading to a conversational fallback instead of ever
//! failing.
//!
//! The stages mirror the failure modes of language models. First a JSON
//! candidate is located in the raw text (a `json`-tagged fence, then a
//! generic fence, then the outermost braces, then the text itself). The
//! candidate is parsed; non-JSON degrades to a chat message carrying the
//! raw text verbatim. Parsed JSON is validated against the envelope shape
//! and then against the payload schema selected by `message_type`; an
//! unrecognized tag or a payload of the wrong shape degrades to a chat
//! message that explains the failure and still carries the raw text.
use vstd::prelude::*;

use vstd::string::StringExecFns;

use crate::json::model_members;
use crate::json::model_seq;
use crate::json::parse_document;
use crate::json::Json;
use crate::json::JsonVal;
use crate::models::ActionContent;
use crate::models::ActionContentV;
use crate::models::ActionType;
use crate::models::BotMessage;
use crate::models::BotMessageV;
use crate::models::ChatContent;
use crate::models::ChatContentV;
use crate::models::ConfirmationContent;
use crate::models::ConfirmationContentV;
use crate::models::MessageContent;
use crate::models::MessageContentEnum;
use crate::models::MessageContentEnumV;
use crate::models::MessageType;
use crate::text::copy_range;
use crate::text::find_from;
use crate::text::first_occurrence;
use crate::text::last_occurrence;
use crate::text::lemma_first_occurrence_some;
use crate::text::lemma_last_occurrence_upto_some;
use crate::text::rfind;
use crate::text::str_chars;

verus! {

broadcast use vstd::seq::group_seq_axioms, vstd::std_specs::vec::group_vec_axioms;

/// Why a piece of model output could not be normalized.
#[derive(Clone, Copy, PartialEq, Eq, Structural, Debug)]
pub enum NormalizeError {
    /// The text is not JSON, or the JSON lacks the envelope fields
    /// (`message_type`, `content`, `conversation_id`).
    MalformedModelOutput,
    /// The envelope's `message_type` is none of `chat`, `action`,
    /// `confirmation`.
    UnknownMessageType,
    /// The envelope is well formed but `content` does not match the schema
    /// that its `message_type` selects.
    SchemaViolation,
}

/// The JSON-tagged fenced candidate: the content between a ```` ```json ````
/// marker and the nearest following ```` ``` ```` marker, when non-empty.
pub open spec fn fenced_json_candidate(s: Seq<char>) -> Option<Seq<char>> {
    match first_occurrence(s, "```json"@, 0) {
        Some(o) => match first_occurrence(s, "```"@, o + 7) {
            Some(c) => if c > o + 7 {
                Some(s.subrange(o + 7, c))
            } else {
                None
            },
            None => None,
        },
        None => None,
    }
}

/// The generic fenced candidate: the content between the first and the last
/// ```` ``` ```` markers, when non-empty.
pub open spec fn fenced_candidate(s: Seq<char>) -> Option<Seq<char>> {
    match first_occurrence(s, "```"@, 0) {
        Some(o) => match last_occurrence(s, "```"@) {
            Some(c) => if c > o + 3 {
                Some(s.subrange(o + 3, c))
            } else {
                None
            },
            None => None,
        },
        None => None,
    }
}

/// The braced candidate: from the first `{` to the last `}`, inclusive.
pub open spec fn braced_candidate(s: Seq<char>) -> Option<Seq<char>> {
    match first_occurrence(s, "{"@, 0) {
        Some(a) => match last_occurrence(s, "}"@) {
            Some(b) => if a <= b {
                Some(s.subrange(a, b + 1))
            } else {
                None
            },
            None => None,
        },
        None => None,
    }
}

/// The JSON candidate located in raw model output: the first strategy that
/// yields a non-empty candidate, or the text itself.
pub open spec fn candidate(s: Seq<char>) -> Seq<char> {
    match fenced_json_candidate(s) {
        Some(c) => c,
        None => match fenced_candidate(s) {
            Some(c) => c,
            None => match braced_candidate(s) {
                Some(c) => c,
                None => s,
            },
        },
    }
}

/// The value of the first member named `k`, if any.
pub open spec fn obj_get(ms: Seq<(Seq<char>, JsonVal)>, k: Seq<char>) -> Option<JsonVal>
    decreases ms.len(),
{
    if ms.len() == 0 {
        None
    } else if ms[0].0 == k {
        Some(ms[0].1)
    } else {
        obj_get(ms.subrange(1, ms.len() as int), k)
    }
}

/// `obj_get` finds the first member with the given name.
pub proof fn lemma_obj_get(ms: Seq<(Seq<char>, JsonVal)>, k: Seq<char>)
    ensures
        (obj_get(ms, k) is None) <==> (forall|i: int| 0 <= i < ms.len() ==> ms[i].0 != k),
        forall|i: int|
            (0 <= i < ms.len() && ms[i].0 == k && (forall|j: int| 0 <= j < i ==> ms[j].0 != k))
                ==> obj_get(ms, k) == Some(ms[i].1),
    decreases ms.len(),
{
    if ms.len() > 0 && ms[0].0 != k {
        let tail = ms.subrange(1, ms.len() as int);
        lemma_obj_get(tail, k);
        assert forall|i: int|
            (0 <= i < ms.len() && ms[i].0 == k && (forall|j: int| 0 <= j < i ==> ms[j].0 != k))
                implies obj_get(ms, k) == Some(ms[i].1) by {
            assert(tail[i - 1] == ms[i]);
            assert forall|j: int| 0 <= j < i - 1 implies tail[j].0 != k by {
                assert(tail[j] == ms[j + 1]);
            }
        }
        if obj_get(ms, k) is None {
            assert forall|i: int| 0 <= i < ms.len() implies ms[i].0 != k by {
                if i > 0 {
                    assert(tail[i - 1] == ms[i]);
                }
            }
        }
        if forall|i: int| 0 <= i < ms.len() ==> ms[i].0 != k {
            assert forall|i: int| 0 <= i < tail.len() implies tail[i].0 != k by {
                assert(tail[i] == ms[i + 1]);
            }
        }
    }
}

/// The string contents of a sequence of JSON values, when all of them are
/// strings.
pub open spec fn str_items(vs: Seq<JsonVal>) -> Option<Seq<Seq<char>>>
    decreases vs.len(),
{
    if vs.len() == 0 {
        Some(Seq::empty())
    } else {
        match vs[0] {
            JsonVal::Str(t) => match str_items(vs.subrange(1, vs.len() as int)) {
                Some(r) => Some(seq![t] + r),
                None => None,
            },
            _ => None,
        }
    }
}

/// `str_items` succeeds exactly when every element is a string, and then
/// collects their contents in order.
pub proof fn lemma_str_items(vs: Seq<JsonVal>)
    ensures
        (str_items(vs) is Some) <==> (forall|i: int| 0 <= i < vs.len() ==> vs[i] is Str),
        str_items(vs) matches Some(r) ==> r.len() == vs.len() && forall|i: int|
            0 <= i < vs.len() ==> r[i] == vs[i]->Str_0,
    decreases vs.len(),
{
    if vs.len() > 0 {
        let tail = vs.subrange(1, vs.len() as int);
        lemma_str_items(tail);
        assert(forall|i: int| 0 <= i < tail.len() ==> tail[i] == vs[i + 1]);
        if vs[0] is Str && str_items(tail) is Some {
            assert forall|i: int| 0 <= i < vs.len() implies vs[i] is Str by {
                if i > 0 {
                    assert(tail[i - 1] == vs[i]);
                }
            }
        } else {
            if forall|i: int| 0 <= i < vs.len() ==> vs[i] is Str {
                assert(vs[0] is Str);
                assert(forall|i: int| 0 <= i < tail.len() ==> tail[i] is Str);
            }
        }
    }
}

/// The action kind a wire name denotes, if any.
pub open spec fn action_type_of_wire(t: Seq<char>) -> Option<ActionType> {
    if t == "status"@ {
        Some(ActionType::Status)
    } else if t == "start"@ {
        Some(ActionType::Start)
    } else if t == "stop"@ {
        Some(ActionType::Stop)
    } else if t == "restart"@ {
        Some(ActionType::Restart)
    } else if t == "start_with_timeout"@ {
        Some(ActionType::StartWithTimeout)
    } else if t == "configure"@ {
        Some(ActionType::Configure)
    } else {
        None
    }
}

/// Validates a chat payload.
pub open spec fn chat_of(c: JsonVal) -> Result<ChatContentV, NormalizeError> {
    match c {
        JsonVal::Obj(ms) => match obj_get(ms, "text"@) {
            Some(JsonVal::Str(t)) => Ok(ChatContentV { text: t }),
            _ => Err(NormalizeError::SchemaViolation),
        },
        _ => Err(NormalizeError::SchemaViolation),
    }
}

/// Validates the common fields of an action payload: its kind, its
/// services and its parameters.
pub open spec fn details_from(ms: Seq<(Seq<char>, JsonVal)>) -> Result<
    (ActionType, Seq<Seq<char>>, Seq<(Seq<char>, JsonVal)>),
    NormalizeError,
> {
    match (obj_get(ms, "action_type"@), obj_get(ms, "services"@), obj_get(ms, "parameters"@)) {
        (Some(JsonVal::Str(t)), Some(JsonVal::Arr(vs)), Some(JsonVal::Obj(pm))) => {
            match (action_type_of_wire(t), str_items(vs)) {
                (Some(k), Some(svcs)) => Ok((k, svcs, pm)),
                _ => Err(NormalizeError::SchemaViolation),
            }
        },
        _ => Err(NormalizeError::SchemaViolation),
    }
}

/// Validates an action payload.
pub open spec fn action_of(c: JsonVal) -> Result<ActionContentV, NormalizeError> {
    match c {
        JsonVal::Obj(ms) => match (details_from(ms), obj_get(ms, "confirmation_required"@)) {
            (Ok(d), Some(JsonVal::Bool(b))) => Ok(
                ActionContentV {
                    action_type: d.0,
                    services: d.1,
                    parameters: d.2,
                    confirmation_required: b,
                },
            ),
            _ => Err(NormalizeError::SchemaViolation),
        },
        _ => Err(NormalizeError::SchemaViolation),
    }
}

/// Validates a confirmation payload. The embedded action is pre-approved,
/// so its `confirmation_required` is fixed false.
pub open spec fn confirmation_of(c: JsonVal) -> Result<ConfirmationContentV, NormalizeError> {
    match c {
        JsonVal::Obj(ms) => match (
            obj_get(ms, "action_id"@),
            obj_get(ms, "description"@),
            obj_get(ms, "action_details"@),
        ) {
            (Some(JsonVal::Str(id)), Some(JsonVal::Str(d)), Some(JsonVal::Obj(dm))) => {
                match details_from(dm) {
                    Ok(det) => Ok(
                        ConfirmationContentV {
                            action_id: id,
                            description: d,
                            action_details: ActionContentV {
                                action_type: det.0,
                                services: det.1,
                                parameters: det.2,
                                confirmation_required: false,
                            },
                        },
                    ),
                    Err(e) => Err(e),
                }
            },
            _ => Err(NormalizeError::SchemaViolation),
        },
        _ => Err(NormalizeError::SchemaViolation),
    }
}

/// Validates a parsed JSON document against the envelope shape and the
/// payload schema selected by its `message_type`.
pub open spec fn envelope_of(v: JsonVal) -> Result<BotMessageV, NormalizeError> {
    match v {
        JsonVal::Obj(ms) => match (
            obj_get(ms, "message_type"@),
            obj_get(ms, "content"@),
            obj_get(ms, "conversation_id"@),
        ) {
            (Some(JsonVal::Str(mt)), Some(content), Some(JsonVal::Str(conv))) => {
                if mt == "chat"@ {
                    match chat_of(content) {
                        Ok(cc) => Ok(
                            BotMessageV {
                                message_type: MessageType::Chat,
                                content: MessageContentEnumV::Chat(cc),
                                conversation_id: conv,
                            },
                        ),
                        Err(e) => Err(e),
                    }
                } else if mt == "action"@ {
                    match action_of(content) {
                        Ok(ac) => Ok(
                            BotMessageV {
                                message_type: MessageType::Action,
                                content: MessageContentEnumV::Action(ac),
                                conversation_id: conv,
                            },
                        ),
                        Err(e) => Err(e),
                    }
                } else if mt == "confirmation"@ {
                    match confirmation_of(content) {
                        Ok(cc) => Ok(
                            BotMessageV {
                                message_type: MessageType::Confirmation,
                                content: MessageContentEnumV::Confirmation(cc),
                                conversation_id: conv,
                            },
                        ),
                        Err(e) => Err(e),
                    }
                } else {
                    Err(NormalizeError::UnknownMessageType)
                }
            },
            _ => Err(NormalizeError::MalformedModelOutput),
        },
        _ => Err(NormalizeError::MalformedModelOutput),
    }
}

/// What parsing one piece of already-extracted model output yields: a typed
/// message, or the reason it was refused.
pub open spec fn spec_parse_llm_response(s: Seq<char>) -> Result<BotMessageV, NormalizeError> {
    match parse_document(s) {
        None => Err(NormalizeError::MalformedModelOutput),
        Some(v) => envelope_of(v),
    }
}

/// The notice prefixed to the raw text when the model's output was JSON but
/// did not fit any payload schema.
pub open spec fn fallback_notice() -> Seq<char> {
    "I couldn't interpret the model's reply. It said: "@
}

/// The conversational fallback carrying `text`.
pub open spec fn chat_fallback(text: Seq<char>, conversation_id: Seq<char>) -> BotMessageV {
    BotMessageV {
        message_type: MessageType::Chat,
        content: MessageContentEnumV::Chat(ChatContentV { text: text }),
        conversation_id: conversation_id,
    }
}

/// What normalization yields for raw model output `raw`, with `fresh` the
/// caller-supplied conversation id used when the model supplies none.
pub open spec fn spec_normalize(raw: Seq<char>, fresh: Seq<char>) -> BotMessageV {
    match spec_parse_llm_response(candidate(raw)) {
        Ok(env) => BotMessageV {
            message_type: env.message_type,
            content: env.content,
            conversation_id: if env.conversation_id.len() == 0 {
                fresh
            } else {
                env.conversation_id
            },
        },
        Err(NormalizeError::MalformedModelOutput) => chat_fallback(raw, fresh),
        Err(_) => chat_fallback(fallback_notice() + raw, fresh),
    }
}

/// Returns the JSON candidate located in `cs`.
fn extract_candidate(cs: &Vec<char>) -> (r: Vec<char>)
    ensures
        r@ == candidate(cs@),
{
    let n = cs.len();
    let fence_json = str_chars("```json");
    let fence = str_chars("```");
    let open_brace = str_chars("{");
    let close_brace = str_chars("}");
    proof {
        reveal_strlit("```json");
        reveal_strlit("```");
        reveal_strlit("{");
        reveal_strlit("}");
    }
    match find_from(cs, &fence_json, 0) {
        Some(o) => {
            proof {
                lemma_first_occurrence_some(cs@, "```json"@, 0);
                assert(o + 7 <= n);
            }
            let start = o + 7;
            match find_from(cs, &fence, start) {
                Some(c) => {
                    proof {
                        lemma_first_occurrence_some(cs@, "```"@, start as int);
                    }
                    if c > start {
                        return copy_range(cs, start, c);
                    }
                },
                None => (),
            }
        },
        None => (),
    }
    match find_from(cs, &fence, 0) {
        Some(o) => {
            proof {
                lemma_first_occurrence_some(cs@, "```"@, 0);
            }
            match rfind(cs, &fence) {
                Some(c) => {
                    proof {
                        lemma_last_occurrence_upto_some(cs@, "```"@, cs@.len() - 3);
                        assert(o + 3 <= n);
                    }
                    if c > o + 3 {
                        return copy_range(cs, o + 3, c);
                    }
                },
                None => (),
            }
        },
        None => (),
    }
    match find_from(cs, &open_brace, 0) {
        Some(a) => {
            proof {
                lemma_first_occurrence_some(cs@, "{"@, 0);
            }
            match rfind(cs, &close_brace) {
                Some(b) => {
                    proof {
                        lemma_last_occurrence_upto_some(cs@, "}"@, cs@.len() - 1);
                        assert(b + 1 <= n);
                    }
                    if a <= b {
                        return copy_range(cs, a, b + 1);
                    }
                },
                None => (),
            }
        },
        None => (),
    }
    copy_range(cs, 0, cs.len())
}

/// Returns the first member of `fields` named `key`, if any.
fn obj_get_x<'a>(fields: &'a Vec<(String, Json)>, key: &String) -> (r: Option<&'a Json>)
    ensures
        match r {
            Some(j) => obj_get(model_members(fields@), key@) == Some(j.model()),
            None => obj_get(model_members(fields@), key@) is None,
        },
{
    proof {
        crate::json::lemma_model_members(fields@);
        lemma_obj_get(model_members(fields@), key@);
    }
    let n = fields.len();
    let mut i: usize = 0;
    while i < n
        invariant
            i <= n,
            n == fields@.len(),
            forall|j: int| 0 <= j < i ==> fields@[j].0@ != key@,
        decreases n - i,
    {
        if fields[i].0.eq(key) {
            proof {
                crate::json::lemma_model_members(fields@);
                let ms = model_members(fields@);
                lemma_obj_get(ms, key@);
                assert(ms[i as int].0 == key@);
                assert forall|j: int| 0 <= j < i implies ms[j].0 != key@ by {
                    assert(ms[j].0 == fields@[j].0@);
                }
                assert(obj_get(ms, key@) == Some(ms[i as int].1));
            }
            return Some(&fields[i].1);
        }
        i = i + 1;
    }
    proof {
        crate::json::lemma_model_members(fields@);
        lemma_obj_get(model_members(fields@), key@);
    }
    None
}

/// Returns the action kind a wire name denotes, if any.
fn action_type_from_wire(t: &String) -> (r: Option<ActionType>)
    ensures
        r == action_type_of_wire(t@),
{
    if t.eq(&String::from_str("status")) {
        Some(ActionType::Status)
    } else if t.eq(&String::from_str("start")) {
        Some(ActionType::Start)
    } else if t.eq(&String::from_str("stop")) {
        Some(ActionType::Stop)
    } else if t.eq(&String::from_str("restart")) {
        Some(ActionType::Restart)
    } else if t.eq(&String::from_str("start_with_timeout")) {
        Some(ActionType::StartWithTimeout)
    } else if t.eq(&String::from_str("configure")) {
        Some(ActionType::Configure)
    } else {
        None
    }
}

/// Returns the string contents of `items` when every element is a string.
fn services_from(items: &Vec<Json>) -> (r: Option<Vec<String>>)
    ensures
        match r {
            Some(v) => str_items(model_seq(items@)) == Some(v.deep_view()),
            None => str_items(model_seq(items@)) is None,
        },
{
    proof {
        crate::json::lemma_model_seq(items@);
        lemma_str_items(model_seq(items@));
    }
    let n = items.len();
    let mut out: Vec<String> = Vec::new();
    let mut i: usize = 0;
    while i < n
        invariant
            i <= n,
            n == items@.len(),
            out@.len() == i,
            forall|j: int| 0 <= j < i ==> items@[j].model() is Str,
            forall|j: int| 0 <= j < i ==> out@[j]@ == items@[j].model()->Str_0,
        decreases n - i,
    {
        match &items[i] {
            Json::Str(t) => {
                out.push(t.clone());
            },
            _ => {
                proof {
                    crate::json::lemma_model_seq(items@);
                    lemma_str_items(model_seq(items@));
                    assert(!(items@[i as int].model() is Str));
                    assert(model_seq(items@)[i as int] == items@[i as int].model());
                }
                return None;
            },
        }
        i = i + 1;
    }
    proof {
        crate::json::lemma_model_seq(items@);
        lemma_str_items(model_seq(items@));
        assert(str_items(model_seq(items@)) matches Some(rr) && rr =~= out.deep_view());
    }
    Some(out)
}

/// Validates the common fields of an action payload.
fn details_from_x(fields: &Vec<(String, Json)>) -> (r: Result<
    (ActionType, Vec<String>, Vec<(String, Json)>),
    NormalizeError,
>)
    ensures
        match r {
            Ok(d) => details_from(model_members(fields@)) == Ok::<
                (ActionType, Seq<Seq<char>>, Seq<(Seq<char>, JsonVal)>),
                NormalizeError,
            >((d.0, d.1.deep_view(), model_members(d.2@))),
            Err(e) => details_from(model_members(fields@)) == Err::<
                (ActionType, Seq<Seq<char>>, Seq<(Seq<char>, JsonVal)>),
                NormalizeError,
            >(e),
        },
{
    let at = obj_get_x(fields, &String::from_str("action_type"));
    let sv = obj_get_x(fields, &String::from_str("services"));
    let pm = obj_get_x(fields, &String::from_str("parameters"));
    match (at, sv, pm) {
        (Some(Json::Str(t)), Some(Json::Arr(vs)), Some(Json::Obj(prm))) => {
            match (action_type_from_wire(t), services_from(vs)) {
                (Some(k), Some(svcs)) => Ok((k, svcs, crate::models::duplicate_members(prm))),
                _ => Err(NormalizeError::SchemaViolation),
            }
        },
        _ => Err(NormalizeError::SchemaViolation),
    }
}

/// Validates a parsed JSON document against the envelope shape and the
/// payload schema selected by its `message_type`. Errors are surfaced to
/// the caller, which decides how to degrade.
pub fn envelope_from(v: &Json) -> (r: Result<BotMessage, NormalizeError>)
    ensures
        match r {
            Ok(m) => envelope_of(v.model()) == Ok::<BotMessageV, NormalizeError>(m@),
            Err(e) => envelope_of(v.model()) == Err::<BotMessageV, NormalizeError>(e),
        },
{
    let fields = match v {
        Json::Obj(fields) => fields,
        _ => {
            return Err(NormalizeError::MalformedModelOutput);
        },
    };
    let mt = obj_get_x(fields, &String::from_str("message_type"));
    let content = obj_get_x(fields, &String::from_str("content"));
    let conv = obj_get_x(fields, &String::from_str("conversation_id"));
    match (mt, content, conv) {
        (Some(Json::Str(mt)), Some(content), Some(Json::Str(conv))) => {
            if mt.eq(&String::from_str("chat")) {
                match content {
                    Json::Obj(cms) => {
                        match obj_get_x(cms, &String::from_str("text")) {
                            Some(Json::Str(t)) => Ok(
                                BotMessage {
                                    message_type: MessageType::Chat,
                                    content: MessageContent {
                                        content: MessageContentEnum::Chat(
                                            ChatContent { text: t.clone() },
                                        ),
                                    },
                                    conversation_id: conv.clone(),
                                },
                            ),
                            _ => Err(NormalizeError::SchemaViolation),
                        }
                    },
                    _ => Err(NormalizeError::SchemaViolation),
                }
            } else if mt.eq(&String::from_str("action")) {
                match content {
                    Json::Obj(cms) => {
                        let flag = match obj_get_x(cms, &String::from_str("confirmation_required")) {
                            Some(Json::Bool(b)) => Some(*b),
                            _ => None,
                        };
                        match (details_from_x(cms), flag) {
                            (Ok(d), Some(b)) => Ok(
                                BotMessage {
                                    message_type: MessageType::Action,
                                    content: MessageContent {
                                        content: MessageContentEnum::Action(
                                            ActionContent {
                                                action_type: d.0,
                                                services: d.1,
                                                parameters: d.2,
                                                confirmation_required: b,
                                            },
                                        ),
                                    },
                                    conversation_id: conv.clone(),
                                },
                            ),
                            _ => Err(NormalizeError::SchemaViolation),
                        }
                    },
                    _ => Err(NormalizeError::SchemaViolation),
                }
            } else if mt.eq(&String::from_str("confirmation")) {
                match content {
                    Json::Obj(cms) => {
                        let id = obj_get_x(cms, &String::from_str("action_id"));
                        let desc = obj_get_x(cms, &String::from_str("description"));
                        let det = obj_get_x(cms, &String::from_str("action_details"));
                        match (id, desc, det) {
                            (Some(Json::Str(id)), Some(Json::Str(desc)), Some(Json::Obj(dm))) => {
                                match details_from_x(dm) {
                                    Ok(d) => Ok(
                                        BotMessage {
                                            message_type: MessageType::Confirmation,
                                            content: MessageContent {
                                                content: MessageContentEnum::Confirmation(
                                                    ConfirmationContent {
                                                        action_id: id.clone(),
                                                        description: desc.clone(),
                                                        action_details: ActionContent {
                                                            action_type: d.0,
                                                            services: d.1,
                                                            parameters: d.2,
                                                            confirmation_required: false,
                                                        },
                                                    },
                                                ),
                                            },
                                            conversation_id: conv.clone(),
                                        },
                                    ),
                                    Err(e) => Err(e),
                                }
                            },
                            _ => Err(NormalizeError::SchemaViolation),
                        }
                    },
                    _ => Err(NormalizeError::SchemaViolation),
                }
            } else {
                Err(NormalizeError::UnknownMessageType)
            }
        },
        _ => Err(NormalizeError::MalformedModelOutput),
    }
}

/// Parses one piece of already-extracted model output into a typed message,
/// or reports why it was refused.
pub fn parse_llm_response(json_content: &str) -> (r: Result<BotMessage, NormalizeError>)
    ensures
        match r {
            Ok(m) => spec_parse_llm_response(json_content@) == Ok::<BotMessageV, NormalizeError>(
                m@,
            ),
            Err(e) => spec_parse_llm_response(json_content@) == Err::<BotMessageV, NormalizeError>(
                e,
            ),
        },
{
    let cs = str_chars(json_content);
    match crate::json::parse_chars(&cs) {
        None => Err(NormalizeError::MalformedModelOutput),
        Some(v) => envelope_from(&v),
    }
}

/// Normalizes raw model output into a typed message. Never fails: degraded
/// input still produces a usable chat message. In particular, raw output
/// that is not valid JSON yields a chat message whose text is exactly the
/// raw output (lossless fallback).
pub fn normalize(raw: &str, fresh_conversation_id: &str) -> (r: BotMessage)
    ensures
        r@ == spec_normalize(raw@, fresh_conversation_id@),
        spec_parse_llm_response(candidate(raw@)) == Err::<BotMessageV, NormalizeError>(
            NormalizeError::MalformedModelOutput,
        ) ==> r@ == chat_fallback(raw@, fresh_conversation_id@),
{
    let cs = str_chars(raw);
    let cand = extract_candidate(&cs);
    let parsed = crate::json::parse_chars(&cand);
    let env = match parsed {
        None => Err(NormalizeError::MalformedModelOutput),
        Some(v) => envelope_from(&v),
    };
    match env {
        Ok(m) => {
            let conversation_id = if m.conversation_id.as_str().is_empty() {
                String::from_str(fresh_conversation_id)
            } else {
                m.conversation_id
            };
            BotMessage { message_type: m.message_type, content: m.content, conversation_id }
        },
        Err(NormalizeError::MalformedModelOutput) => BotMessage {
            message_type: MessageType::Chat,
            content: MessageContent {
                content: MessageContentEnum::Chat(ChatContent { text: String::from_str(raw) }),
            },
            conversation_id: String::from_str(fresh_conversation_id),
        },
        Err(_) => {
            let text = String::from_str("I couldn't interpret the model's reply. It said: ")
                .concat(raw);
            BotMessage {
                message_type: MessageType::Chat,
                content: MessageContent { content: MessageContentEnum::Chat(ChatContent { text }) },
                conversation_id: String::from_str(fresh_conversation_id),
            }
        },
    }
}

} // verus!
