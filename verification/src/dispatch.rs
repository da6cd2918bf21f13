//! The message router: given an incoming chat message, decides whether to
//! resolve a pending confirmation, ask the model, or execute an action, and
//! plans the outgoing chat reply and command-bus publish for the turn.
//!
//! The dispatcher owns the confirmation registry and makes every decision;
//! the surrounding process only performs the transport work it is told to:
//! ask the model, publish a payload, send a reply. At most one reply and at
//! most one publish come out of each turn.
use vstd::prelude::*;

use vstd::string::StringExecFns;

use crate::classify::classify_reply;
use crate::classify::spec_classify;
use crate::ids::fresh_id;
use crate::ids::is_id_char;
use crate::json::ser;
use crate::models::command_json;
use crate::models::ActionContentV;
use crate::models::ActionType;
use crate::models::MessageContentEnum;
use crate::models::MessageContentEnumV;
use crate::models::MqttActionMessage;
use crate::models::MqttActionMessageV;
use crate::normalize::normalize;
use crate::normalize::spec_normalize;
use crate::registry::ConfirmationRegistry;

verus! {

broadcast use vstd::seq::group_seq_axioms, vstd::std_specs::vec::group_vec_axioms;

/// What the surrounding process must do to finish a turn: send one reply,
/// or publish one payload to the command bus and then send the reply that
/// matches the publish outcome.
pub enum Outcome {
    Reply { text: String },
    ReplyAndPublish { payload: String, ok_reply: String, err_reply: String },
}

/// Model of [`Outcome`].
pub enum OutcomeV {
    Reply { text: Seq<char> },
    ReplyAndPublish { payload: Seq<char>, ok_reply: Seq<char>, err_reply: Seq<char> },
}

impl View for Outcome {
    type V = OutcomeV;

    open spec fn view(&self) -> OutcomeV {
        match self {
            Outcome::Reply { text } => OutcomeV::Reply { text: text@ },
            Outcome::ReplyAndPublish { payload, ok_reply, err_reply } => OutcomeV::ReplyAndPublish {
                payload: payload@,
                ok_reply: ok_reply@,
                err_reply: err_reply@,
            },
        }
    }
}

/// The first step of a turn: either the message resolved on its own, or
/// the model must be consulted with the message text.
pub enum Turn {
    Respond(Outcome),
    AskModel,
}

/// Model of [`Turn`].
pub enum TurnV {
    Respond(OutcomeV),
    AskModel,
}

impl View for Turn {
    type V = TurnV;

    open spec fn view(&self) -> TurnV {
        match self {
            Turn::Respond(o) => TurnV::Respond(o@),
            Turn::AskModel => TurnV::AskModel,
        }
    }
}

/// A service name in the display form used by replies.
pub open spec fn quoted(s: Seq<char>) -> Seq<char> {
    seq!['"'] + s + seq!['"']
}

/// The comma-separated inner part of a displayed service list.
pub open spec fn services_inner(svcs: Seq<Seq<char>>) -> Seq<char>
    decreases svcs.len(),
{
    if svcs.len() == 0 {
        Seq::empty()
    } else if svcs.len() == 1 {
        quoted(svcs[0])
    } else {
        quoted(svcs[0]) + ", "@ + services_inner(svcs.subrange(1, svcs.len() as int))
    }
}

/// The display form of a service list, as it appears in replies.
pub open spec fn services_list(svcs: Seq<Seq<char>>) -> Seq<char> {
    seq!['['] + services_inner(svcs) + seq![']']
}

/// The reply confirming that a confirmed action is being executed.
pub open spec fn confirmed_exec_reply(kind: ActionType, svcs: Seq<Seq<char>>) -> Seq<char> {
    "Action confirmed! Executing "@ + kind.spec_wire_name() + " on services: "@ + services_list(
        svcs,
    ) + "."@
}

/// The reply announcing an immediately executed action.
pub open spec fn exec_reply(kind: ActionType, svcs: Seq<Seq<char>>) -> Seq<char> {
    "Executing "@ + kind.spec_wire_name() + " on services: "@ + services_list(svcs) + "."@
}

/// The prompt asking the user to confirm or cancel a gated action.
pub open spec fn confirm_prompt(kind: ActionType, svcs: Seq<Seq<char>>, id: Seq<char>) -> Seq<
    char,
> {
    "I'll perform this action: "@ + kind.spec_wire_name() + " on services: "@ + services_list(svcs)
        + ". Reply with 'confirm "@ + id + "' to proceed or 'cancel "@ + id + "' to abort."@
}

/// The prompt relaying a model-initiated confirmation request.
pub open spec fn confirmation_request_prompt(description: Seq<char>, id: Seq<char>) -> Seq<char> {
    description + " Reply with 'confirm "@ + id + "' to proceed or 'cancel "@ + id + "' to abort."@
}

/// The reply when a resolution names no known pending confirmation.
pub open spec fn not_found_reply() -> Seq<char> {
    "I couldn't find that confirmation request. It may have expired."@
}

/// The reply when a pending action is cancelled.
pub open spec fn cancelled_reply() -> Seq<char> {
    "Action cancelled."@
}

/// The reply when publishing a confirmed action fails.
pub open spec fn confirm_publish_error_reply() -> Seq<char> {
    "Sorry, I encountered an error executing your confirmation."@
}

/// The reply when publishing an immediate action fails.
pub open spec fn exec_publish_error_reply() -> Seq<char> {
    "Sorry, I encountered an error executing your action request."@
}

/// The reply when the model call itself fails.
pub open spec fn model_failure_reply() -> Seq<char> {
    "Sorry, I encountered an error processing your request."@
}

/// The pending command built from action content and an id.
pub open spec fn pending_of(ac: ActionContentV, id: Seq<char>) -> MqttActionMessageV {
    MqttActionMessageV {
        action_type: ac.action_type,
        services: ac.services,
        parameters: ac.parameters,
        request_id: id,
    }
}

/// How resolving a confirmation id transforms the registry and what it
/// answers: a confirmed entry is removed and published, a cancelled entry
/// is removed silently, and an unknown id changes nothing.
pub open spec fn spec_resolve(
    m: Map<Seq<char>, MqttActionMessageV>,
    id: Seq<char>,
    confirmed: bool,
) -> (Map<Seq<char>, MqttActionMessageV>, OutcomeV) {
    if m.contains_key(id) {
        if confirmed {
            (
                m.remove(id),
                OutcomeV::ReplyAndPublish {
                    payload: ser(command_json(m[id])),
                    ok_reply: confirmed_exec_reply(m[id].action_type, m[id].services),
                    err_reply: confirm_publish_error_reply(),
                },
            )
        } else {
            (m.remove(id), OutcomeV::Reply { text: cancelled_reply() })
        }
    } else {
        (m, OutcomeV::Reply { text: not_found_reply() })
    }
}

/// Appends the displayed services from `idx` on, comma separated.
fn push_services(svcs: &Vec<String>, idx: usize, out: &mut Vec<char>)
    requires
        idx <= svcs@.len(),
    ensures
        final(out)@ == old(out)@ + services_inner(
            svcs.deep_view().subrange(idx as int, svcs@.len() as int),
        ),
    decreases svcs@.len() - idx,
{
    let ghost rest = svcs.deep_view().subrange(idx as int, svcs@.len() as int);
    let n = svcs.len();
    if idx >= n {
        proof {
            assert(out@ =~= out@ + services_inner(rest));
        }
        return ;
    }
    out.push('"');
    let mut tc = crate::text::str_chars(svcs[idx].as_str());
    out.append(&mut tc);
    out.push('"');
    proof {
        assert(rest[0] == svcs@[idx as int]@);
        assert(out@ =~= old(out)@ + quoted(rest[0]));
    }
    if idx + 1 < n {
        out.push(',');
        out.push(' ');
        let ghost sep_done = out@;
        proof {
            reveal_strlit(", ");
            assert(sep_done =~= old(out)@ + quoted(rest[0]) + ", "@);
        }
        push_services(svcs, idx + 1, out);
        proof {
            let tail = svcs.deep_view().subrange(idx as int + 1, svcs@.len() as int);
            assert(rest.subrange(1, rest.len() as int) =~= tail);
            assert(out@ =~= old(out)@ + services_inner(rest));
        }
    } else {
        proof {
            assert(rest.len() == 1);
            assert(out@ =~= old(out)@ + services_inner(rest));
        }
    }
}

/// Returns the display form of a service list.
fn format_services(svcs: &Vec<String>) -> (r: String)
    ensures
        r@ == services_list(svcs.deep_view()),
{
    let mut out: Vec<char> = Vec::new();
    out.push('[');
    push_services(svcs, 0, &mut out);
    out.push(']');
    proof {
        assert(svcs.deep_view().subrange(0, svcs@.len() as int) =~= svcs.deep_view());
        assert(out@ =~= seq!['['] + services_inner(svcs.deep_view()) + seq![']']);
    }
    crate::text::chars_to_string(&out)
}

/// Returns the outcome that answers a failed model call.
pub fn model_failure_outcome() -> (r: Outcome)
    ensures
        r@ == (OutcomeV::Reply { text: model_failure_reply() }),
{
    Outcome::Reply { text: String::from_str("Sorry, I encountered an error processing your request.") }
}

/// The message router. It owns the confirmation registry; the transport
/// layer drives it with incoming texts and model results.
pub struct Dispatcher {
    pub registry: ConfirmationRegistry,
}

impl Dispatcher {
    /// The dispatcher's internal invariant, carried through every turn.
    pub open spec fn well_formed(&self) -> bool {
        self.registry.well_formed()
    }

    /// Returns a dispatcher with no pending confirmations.
    pub fn new() -> (r: Dispatcher)
        ensures
            r.well_formed(),
            r.registry@ == Map::<Seq<char>, MqttActionMessageV>::empty(),
    {
        Dispatcher { registry: ConfirmationRegistry::new() }
    }

    /// Handles one incoming chat message. A message that classifies as a
    /// confirmation resolution is resolved against the registry and
    /// answered directly; any other message must be sent to the model.
    pub fn on_message(&mut self, text: &str) -> (r: Turn)
        requires
            old(self).well_formed(),
        ensures
            final(self).well_formed(),
            match spec_classify(text@) {
                Some(p) => r@ == TurnV::Respond(
                    spec_resolve(old(self).registry@, p.0, p.1).1,
                ) && final(self).registry@ == spec_resolve(old(self).registry@, p.0, p.1).0,
                None => r@ == TurnV::AskModel && final(self).registry@ == old(self).registry@,
            },
    {
        match classify_reply(text) {
            None => Turn::AskModel,
            Some((id, confirmed)) => {
                match self.registry.take(&id) {
                    None => Turn::Respond(
                        Outcome::Reply {
                            text: String::from_str(
                                "I couldn't find that confirmation request. It may have expired.",
                            ),
                        },
                    ),
                    Some(action) => {
                        if confirmed {
                            let ok_reply = {
                                let mut s = String::from_str("Action confirmed! Executing ");
                                s.append(action.action_type.wire_name());
                                s.append(" on services: ");
                                let list = format_services(&action.services);
                                s.append(list.as_str());
                                s.append(".");
                                proof {
                                    assert(s@ =~= confirmed_exec_reply(
                                        action.action_type,
                                        action@.services,
                                    ));
                                }
                                s
                            };
                            let payload = action.payload();
                            Turn::Respond(
                                Outcome::ReplyAndPublish {
                                    payload,
                                    ok_reply,
                                    err_reply: String::from_str(
                                        "Sorry, I encountered an error executing your confirmation.",
                                    ),
                                },
                            )
                        } else {
                            Turn::Respond(
                                Outcome::Reply { text: String::from_str("Action cancelled.") },
                            )
                        }
                    },
                }
            },
        }
    }

    /// Handles the model's raw output for a message that needed it: the
    /// output is normalized and the resulting intent dispatched.
    ///
    /// The contract pins each intent down. In particular, an action that
    /// requires confirmation results in exactly one registry insertion
    /// under a fresh id and a prompt reply, with no bus publish; an action
    /// that does not requires none and is published immediately.
    pub fn on_model_reply(&mut self, raw: &str) -> (r: Outcome)
        requires
            old(self).well_formed(),
        ensures
            final(self).well_formed(),
            match normalized_content(raw@) {
                MessageContentEnumV::Chat(cc) => {
                    &&& r@ == (OutcomeV::Reply { text: cc.text })
                    &&& final(self).registry@ == old(self).registry@
                },
                MessageContentEnumV::Action(ac) => {
                    if ac.confirmation_required {
                        exists|id: Seq<char>|
                            {
                                &&& #[trigger] id.len() == 36
                                &&& forall|i: int| 0 <= i < 36 ==> is_id_char(id[i])
                                &&& final(self).registry@ == old(self).registry@.insert(
                                    id,
                                    pending_of(ac, id),
                                )
                                &&& r@ == (OutcomeV::Reply {
                                    text: confirm_prompt(ac.action_type, ac.services, id),
                                })
                            }
                    } else {
                        &&& final(self).registry@ == old(self).registry@
                        &&& exists|id: Seq<char>|
                            {
                                &&& #[trigger] id.len() == 36
                                &&& forall|i: int| 0 <= i < 36 ==> is_id_char(id[i])
                                &&& r@ == (OutcomeV::ReplyAndPublish {
                                    payload: ser(command_json(pending_of(ac, id))),
                                    ok_reply: exec_reply(ac.action_type, ac.services),
                                    err_reply: exec_publish_error_reply(),
                                })
                            }
                    }
                },
                MessageContentEnumV::Confirmation(cc) => {
                    &&& final(self).registry@ == old(self).registry@.insert(
                        cc.action_id,
                        pending_of(cc.action_details, cc.action_id),
                    )
                    &&& r@ == (OutcomeV::Reply {
                        text: confirmation_request_prompt(cc.description, cc.action_id),
                    })
                },
            },
    {
        let conv = fresh_id();
        let m = normalize(raw, conv.as_str());
        proof {
            lemma_normalize_content(raw@, conv@);
        }
        match m.content.content {
            MessageContentEnum::Chat(cc) => Outcome::Reply { text: cc.text },
            MessageContentEnum::Action(ac) => {
                let id = fresh_id();
                if ac.confirmation_required {
                    let prompt = {
                        let mut s = String::from_str("I'll perform this action: ");
                        s.append(ac.action_type.wire_name());
                        s.append(" on services: ");
                        let list = format_services(&ac.services);
                        s.append(list.as_str());
                        s.append(". Reply with 'confirm ");
                        s.append(id.as_str());
                        s.append("' to proceed or 'cancel ");
                        s.append(id.as_str());
                        s.append("' to abort.");
                        proof {
                            assert(s@ =~= confirm_prompt(ac.action_type, ac@.services, id@));
                        }
                        s
                    };
                    let cmd = MqttActionMessage {
                        action_type: ac.action_type,
                        services: ac.services,
                        parameters: ac.parameters,
                        request_id: id.clone(),
                    };
                    self.registry.put(id, cmd);
                    Outcome::Reply { text: prompt }
                } else {
                    let ok_reply = {
                        let mut s = String::from_str("Executing ");
                        s.append(ac.action_type.wire_name());
                        s.append(" on services: ");
                        let list = format_services(&ac.services);
                        s.append(list.as_str());
                        s.append(".");
                        proof {
                            assert(s@ =~= exec_reply(ac.action_type, ac@.services));
                        }
                        s
                    };
                    let cmd = MqttActionMessage {
                        action_type: ac.action_type,
                        services: ac.services,
                        parameters: ac.parameters,
                        request_id: id,
                    };
                    let payload = cmd.payload();
                    Outcome::ReplyAndPublish {
                        payload,
                        ok_reply,
                        err_reply: String::from_str(
                            "Sorry, I encountered an error executing your action request.",
                        ),
                    }
                }
            },
            MessageContentEnum::Confirmation(cc) => {
                let prompt = {
                    let mut s = cc.description.clone();
                    s.append(" Reply with 'confirm ");
                    s.append(cc.action_id.as_str());
                    s.append("' to proceed or 'cancel ");
                    s.append(cc.action_id.as_str());
                    s.append("' to abort.");
                    proof {
                        assert(s@ =~= confirmation_request_prompt(cc@.description, cc@.action_id));
                    }
                    s
                };
                let ad = cc.action_details;
                let cmd = MqttActionMessage {
                    action_type: ad.action_type,
                    services: ad.services,
                    parameters: ad.parameters,
                    request_id: cc.action_id.clone(),
                };
                self.registry.put(cc.action_id, cmd);
                Outcome::Reply { text: prompt }
            },
        }
    }
}

/// The intent and payload of a normalized message do not depend on the
/// caller-supplied conversation id; only the conversation id field does.
pub proof fn lemma_normalize_content(raw: Seq<char>, fresh: Seq<char>)
    ensures
        spec_normalize(raw, fresh).content == spec_normalize(raw, Seq::empty()).content,
        spec_normalize(raw, fresh).message_type == spec_normalize(
            raw,
            Seq::empty(),
        ).message_type,
{
}

/// The intent and payload normalization yields for raw model output,
/// whatever conversation id is supplied.
pub open spec fn normalized_content(raw: Seq<char>) -> MessageContentEnumV {
    spec_normalize(raw, Seq::empty()).content
}

/// A pending action inserted under id `x` is resolved exactly once by the
/// reply `confirm x`: the first such reply publishes exactly the pending
/// command and removes the entry, and an identical second reply reports
/// that the confirmation cannot be found and changes nothing.
pub proof fn lemma_confirm_resolves_once(
    m: Map<Seq<char>, MqttActionMessageV>,
    x: Seq<char>,
    a: MqttActionMessageV,
)
    requires
        x.len() > 0,
        forall|i: int| 0 <= i < x.len() ==> !crate::text::is_ws(x[i]),
    ensures
        spec_classify("confirm "@ + x) == Some((x, true)),
        spec_resolve(m.insert(x, a), x, true).0 == m.insert(x, a).remove(x),
        spec_resolve(m.insert(x, a), x, true).1 == (OutcomeV::ReplyAndPublish {
            payload: ser(command_json(a)),
            ok_reply: confirmed_exec_reply(a.action_type, a.services),
            err_reply: confirm_publish_error_reply(),
        }),
        !spec_resolve(m.insert(x, a), x, true).0.contains_key(x),
        spec_resolve(spec_resolve(m.insert(x, a), x, true).0, x, true).1 == (OutcomeV::Reply {
            text: not_found_reply(),
        }),
        spec_resolve(spec_resolve(m.insert(x, a), x, true).0, x, true).0 == spec_resolve(
            m.insert(x, a),
            x,
            true,
        ).0,
{
    crate::classify::lemma_confirm_reply_classifies(x);
}

/// The ids the dispatcher generates satisfy what the resolution round trip
/// asks of an id, so [`lemma_confirm_resolves_once`] applies to every
/// pending action the dispatcher inserts under a fresh id.
pub proof fn lemma_generated_id_resolves(
    m: Map<Seq<char>, MqttActionMessageV>,
    id: Seq<char>,
    a: MqttActionMessageV,
)
    requires
        id.len() == 36,
        forall|i: int| 0 <= i < 36 ==> is_id_char(id[i]),
    ensures
        spec_classify("confirm "@ + id) == Some((id, true)),
        !spec_resolve(m.insert(id, a), id, true).0.contains_key(id),
        spec_resolve(spec_resolve(m.insert(id, a), id, true).0, id, true).1 == (OutcomeV::Reply {
            text: not_found_reply(),
        }),
{
    assert forall|i: int| 0 <= i < id.len() implies !crate::text::is_ws(id[i]) by {
        crate::ids::lemma_id_chars_not_ws(id[i]);
    }
    lemma_confirm_resolves_once(m, id, a);
}

} // verus!
