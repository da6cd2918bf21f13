//! The typed intents the normalizer produces, the pending-action record the
//! confirmation registry stores, and the bot's configuration record.
use vstd::prelude::*;

use vstd::string::StringExecFns;

use crate::json::model_members;
use crate::json::ser;
use crate::json::Json;
use crate::json::JsonVal;

verus! {

broadcast use vstd::seq::group_seq_axioms, vstd::std_specs::vec::group_vec_axioms;

/// The three kinds of message the model can produce.
#[derive(Clone, Copy, PartialEq, Eq, Structural, Debug)]
pub enum MessageType {
    Chat,
    Action,
    Confirmation,
}

/// Kinds of service-control actions the relay can forward to the command
/// bus.
#[derive(Clone, Copy, PartialEq, Eq, Structural, Debug)]
pub enum ActionType {
    Status,
    Start,
    Stop,
    Restart,
    StartWithTimeout,
    Configure,
}

impl ActionType {
    /// The wire name of this action kind, as it appears in the model's JSON
    /// output and in bus commands.
    pub open spec fn spec_wire_name(self) -> Seq<char> {
        match self {
            ActionType::Status => "status"@,
            ActionType::Start => "start"@,
            ActionType::Stop => "stop"@,
            ActionType::Restart => "restart"@,
            ActionType::StartWithTimeout => "start_with_timeout"@,
            ActionType::Configure => "configure"@,
        }
    }

    /// Returns the wire name of this action kind.
    pub fn wire_name(self) -> (r: &'static str)
        ensures
            r@ == self.spec_wire_name(),
    {
        match self {
            ActionType::Status => "status",
            ActionType::Start => "start",
            ActionType::Stop => "stop",
            ActionType::Restart => "restart",
            ActionType::StartWithTimeout => "start_with_timeout",
            ActionType::Configure => "configure",
        }
    }
}

/// Payload of a conversational reply.
pub struct ChatContent {
    pub text: String,
}

/// Model of [`ChatContent`].
pub struct ChatContentV {
    pub text: Seq<char>,
}

impl View for ChatContent {
    type V = ChatContentV;

    open spec fn view(&self) -> ChatContentV {
        ChatContentV { text: self.text@ }
    }
}

/// Payload of a service-control action. Parameter values are arbitrary JSON
/// carried through opaquely, in document order.
pub struct ActionContent {
    pub action_type: ActionType,
    pub services: Vec<String>,
    pub parameters: Vec<(String, Json)>,
    pub confirmation_required: bool,
}

/// Model of [`ActionContent`].
pub struct ActionContentV {
    pub action_type: ActionType,
    pub services: Seq<Seq<char>>,
    pub parameters: Seq<(Seq<char>, JsonVal)>,
    pub confirmation_required: bool,
}

impl View for ActionContent {
    type V = ActionContentV;

    open spec fn view(&self) -> ActionContentV {
        ActionContentV {
            action_type: self.action_type,
            services: self.services.deep_view(),
            parameters: model_members(self.parameters@),
            confirmation_required: self.confirmation_required,
        }
    }
}

/// Payload of a model-initiated confirmation request. The embedded action
/// is already pre-approved pending the human reply, so its
/// `confirmation_required` is fixed false by the normalizer.
pub struct ConfirmationContent {
    pub action_id: String,
    pub description: String,
    pub action_details: ActionContent,
}

/// Model of [`ConfirmationContent`].
pub struct ConfirmationContentV {
    pub action_id: Seq<char>,
    pub description: Seq<char>,
    pub action_details: ActionContentV,
}

impl View for ConfirmationContent {
    type V = ConfirmationContentV;

    open spec fn view(&self) -> ConfirmationContentV {
        ConfirmationContentV {
            action_id: self.action_id@,
            description: self.description@,
            action_details: self.action_details@,
        }
    }
}

/// One of the three intent payloads.
pub enum MessageContentEnum {
    Chat(ChatContent),
    Action(ActionContent),
    Confirmation(ConfirmationContent),
}

/// Model of [`MessageContentEnum`].
pub enum MessageContentEnumV {
    Chat(ChatContentV),
    Action(ActionContentV),
    Confirmation(ConfirmationContentV),
}

impl View for MessageContentEnum {
    type V = MessageContentEnumV;

    open spec fn view(&self) -> MessageContentEnumV {
        match self {
            MessageContentEnum::Chat(c) => MessageContentEnumV::Chat(c@),
            MessageContentEnum::Action(a) => MessageContentEnumV::Action(a@),
            MessageContentEnum::Confirmation(c) => MessageContentEnumV::Confirmation(c@),
        }
    }
}

/// Wrapper around the intent payload, mirroring the wire envelope.
pub struct MessageContent {
    pub content: MessageContentEnum,
}

impl View for MessageContent {
    type V = MessageContentEnumV;

    open spec fn view(&self) -> MessageContentEnumV {
        self.content@
    }
}

/// A fully normalized model message: the intent, its payload and the
/// conversation identifier.
pub struct BotMessage {
    pub message_type: MessageType,
    pub content: MessageContent,
    pub conversation_id: String,
}

/// Model of [`BotMessage`].
pub struct BotMessageV {
    pub message_type: MessageType,
    pub content: MessageContentEnumV,
    pub conversation_id: Seq<char>,
}

impl View for BotMessage {
    type V = BotMessageV;

    open spec fn view(&self) -> BotMessageV {
        BotMessageV {
            message_type: self.message_type,
            content: self.content@,
            conversation_id: self.conversation_id@,
        }
    }
}

/// A request to the model capability.
pub struct LlmRequest {
    pub prompt: String,
    pub conversation_id: String,
}

/// A structured command for the bus: the action to run, the services it
/// applies to, its parameters and its request identifier.
pub struct MqttActionMessage {
    pub action_type: ActionType,
    pub services: Vec<String>,
    pub parameters: Vec<(String, Json)>,
    pub request_id: String,
}

/// Model of [`MqttActionMessage`].
pub struct MqttActionMessageV {
    pub action_type: ActionType,
    pub services: Seq<Seq<char>>,
    pub parameters: Seq<(Seq<char>, JsonVal)>,
    pub request_id: Seq<char>,
}

impl View for MqttActionMessage {
    type V = MqttActionMessageV;

    open spec fn view(&self) -> MqttActionMessageV {
        MqttActionMessageV {
            action_type: self.action_type,
            services: self.services.deep_view(),
            parameters: model_members(self.parameters@),
            request_id: self.request_id@,
        }
    }
}

/// The JSON document published to the command bus for a command.
pub open spec fn command_json(a: MqttActionMessageV) -> JsonVal {
    JsonVal::Obj(
        seq![
            ("action_type"@, JsonVal::Str(a.action_type.spec_wire_name())),
            ("services"@, JsonVal::Arr(a.services.map_values(|s: Seq<char>| JsonVal::Str(s)))),
            ("parameters"@, JsonVal::Obj(a.parameters)),
            ("request_id"@, JsonVal::Str(a.request_id)),
        ],
    )
}

impl MqttActionMessage {
    /// Returns the serialized JSON payload that carries this command on the
    /// bus.
    pub fn payload(&self) -> (r: String)
        ensures
            r@ == ser(command_json(self@)),
    {
        let mut service_items: Vec<Json> = Vec::new();
        let mut k: usize = 0;
        while k < self.services.len()
            invariant
                k <= self.services@.len(),
                service_items@.len() == k,
                forall|j: int|
                    0 <= j < k ==> service_items@[j].model() == JsonVal::Str(self.services@[j]@),
            decreases self.services@.len() - k,
        {
            service_items.push(Json::Str(self.services[k].clone()));
            k = k + 1;
        }
        proof {
            crate::json::lemma_model_seq(service_items@);
            assert(crate::json::model_seq(service_items@) =~= self@.services.map_values(
                |s: Seq<char>| JsonVal::Str(s),
            ));
        }
        let mut fields: Vec<(String, Json)> = Vec::new();
        fields.push(
            (
                String::from_str("action_type"),
                Json::Str(String::from_str(self.action_type.wire_name())),
            ),
        );
        fields.push((String::from_str("services"), Json::Arr(service_items)));
        fields.push(
            (String::from_str("parameters"), Json::Obj(duplicate_members(&self.parameters))),
        );
        fields.push((String::from_str("request_id"), Json::Str(self.request_id.clone())));
        let ghost fseq = fields@;
        let doc = Json::Obj(fields);
        proof {
            crate::json::lemma_model_members(fseq);
            let ghost target = seq![
                ("action_type"@, JsonVal::Str(self.action_type.spec_wire_name())),
                ("services"@, JsonVal::Arr(crate::json::model_seq(service_items@))),
                ("parameters"@, JsonVal::Obj(model_members(self.parameters@))),
                ("request_id"@, JsonVal::Str(self.request_id@)),
            ];
            assert(model_members(fseq) =~= target);
            assert(doc.model() == JsonVal::Obj(target));
            assert(command_json(self@)->Obj_0 =~= target);
        }
        doc.to_text()
    }
}

/// Returns a structurally equal copy of a JSON tree.
pub fn duplicate_json(v: &Json) -> (r: Json)
    ensures
        r.model() == v.model(),
    decreases v, 0int,
{
    match v {
        Json::Null => Json::Null,
        Json::Bool(b) => Json::Bool(*b),
        Json::Num(t) => Json::Num(t.clone()),
        Json::Str(t) => Json::Str(t.clone()),
        Json::Arr(items) => {
            let out = duplicate_seq(items);
            Json::Arr(out)
        },
        Json::Obj(fields) => Json::Obj(duplicate_members(fields)),
    }
}

/// Returns a structurally equal copy of an element list.
pub fn duplicate_seq(items: &Vec<Json>) -> (r: Vec<Json>)
    ensures
        crate::json::model_seq(r@) == crate::json::model_seq(items@),
    decreases items, 1int,
{
    let mut out: Vec<Json> = Vec::new();
    let mut k: usize = 0;
    while k < items.len()
        invariant
            k <= items@.len(),
            crate::json::model_seq(out@) == crate::json::model_seq(items@.subrange(0, k as int)),
        decreases items@.len() - k,
    {
        let ghost before = out@;
        let d = duplicate_json(&items[k]);
        proof {
            crate::json::lemma_model_seq_push(before, d);
            crate::json::lemma_model_seq_push(items@.subrange(0, k as int), items@[k as int]);
            assert(items@.subrange(0, k as int).push(items@[k as int]) =~= items@.subrange(
                0,
                k as int + 1,
            ));
        }
        out.push(d);
        k = k + 1;
    }
    proof {
        assert(items@.subrange(0, items@.len() as int) =~= items@);
    }
    out
}

/// Returns a structurally equal copy of a member list.
pub fn duplicate_members(fields: &Vec<(String, Json)>) -> (r: Vec<(String, Json)>)
    ensures
        model_members(r@) == model_members(fields@),
    decreases fields, 1int,
{
    let mut out: Vec<(String, Json)> = Vec::new();
    let mut k: usize = 0;
    while k < fields.len()
        invariant
            k <= fields@.len(),
            model_members(out@) == model_members(fields@.subrange(0, k as int)),
        decreases fields@.len() - k,
    {
        let ghost before = out@;
        let d = (fields[k].0.clone(), duplicate_json(&fields[k].1));
        proof {
            crate::json::lemma_model_members_push(before, d);
            crate::json::lemma_model_members_push(
                fields@.subrange(0, k as int),
                fields@[k as int],
            );
            assert(fields@.subrange(0, k as int).push(fields@[k as int]) =~= fields@.subrange(
                0,
                k as int + 1,
            ));
        }
        out.push(d);
        k = k + 1;
    }
    proof {
        assert(fields@.subrange(0, fields@.len() as int) =~= fields@);
    }
    out
}

/// The bot's configuration, as plain values. The store path is kept as a
/// string; the process wrapper turns it into a filesystem path.
pub struct Config {
    pub matrix_homeserver: String,
    pub matrix_username: String,
    pub matrix_password: String,
    pub llm_api_url: String,
    pub mqtt_broker: String,
    pub mqtt_port: u16,
    pub mqtt_topic: String,
    pub mqtt_client_cert: String,
    pub mqtt_client_key: String,
    pub mqtt_ca_cert: String,
    pub matrix_store_path: String,
}

} // verus!
