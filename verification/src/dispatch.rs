//! The command dispatcher: maps one inbound message to exactly one action.
//! Messages from channels off the allow-list or from bot authors are
//! dropped, unmatched text is dropped silently, and otherwise the first
//! matching spec in declaration order decides between the help listing, the
//! latency probe and a generation request.

use vstd::prelude::*;
use crate::text::{trimmed, trim, token_matches, copy_range};
use crate::store::{CommandSpec, TemplateStore, spec_help_text, render_help};
use crate::prompt::{AssembledPrompt, spec_prompt_text, spec_prefix, assemble_text};

verus! {

/// One inbound chat message, as the gateway hands it over: author name,
/// raw text, originating channel and whether the author is a bot.
pub struct IncomingMessage {
    pub author_name: Vec<u8>,
    pub text: Vec<u8>,
    pub channel_id: u64,
    pub author_is_bot: bool,
}

/// What dispatch decided, as a mathematical value.
pub enum ActionModel {
    Silent,
    Help { text: Seq<u8> },
    Ping { template: Seq<u8> },
    Generate { model_id: Seq<u8>, text: Seq<u8> },
}

/// What dispatch decided: nothing, a rendered help listing, a latency
/// probe still waiting for its elapsed value, or an assembled generation
/// request.
pub enum Action {
    Silent,
    Help { text: Vec<u8> },
    Ping { template: Vec<u8> },
    Generate { prompt: AssembledPrompt },
}

impl View for Action {
    type V = ActionModel;

    open spec fn view(&self) -> ActionModel {
        match self {
            Action::Silent => ActionModel::Silent,
            Action::Help { text } => ActionModel::Help { text: text@ },
            Action::Ping { template } => ActionModel::Ping { template: template@ },
            Action::Generate { prompt } => ActionModel::Generate {
                model_id: prompt.model_id@,
                text: prompt.text@,
            },
        }
    }
}

/// Index of the first spec whose token matches `text`, in declaration
/// order.
pub open spec fn spec_first_match(specs: Seq<CommandSpec>, text: Seq<u8>) -> Option<int>
    decreases specs.len(),
{
    if specs.len() == 0 {
        None
    } else if token_matches(specs[0].token@, text) {
        Some(0)
    } else {
        match spec_first_match(specs.drop_first(), text) {
            None => None,
            Some(i) => Some(i + 1),
        }
    }
}

/// What [`spec_first_match`] returns: the first matching index, or `None`
/// exactly when no token matches.
pub proof fn lemma_first_match(specs: Seq<CommandSpec>, text: Seq<u8>)
    ensures
        match spec_first_match(specs, text) {
            Some(i) => 0 <= i < specs.len() && token_matches(specs[i].token@, text) && (forall|
                k: int,
            | 0 <= k < i ==> !token_matches(#[trigger] specs[k].token@, text)),
            None => forall|k: int|
                0 <= k < specs.len() ==> !token_matches(#[trigger] specs[k].token@, text),
        },
    decreases specs.len(),
{
    if specs.len() == 0 {
    } else if token_matches(specs[0].token@, text) {
    } else {
        let rest = specs.drop_first();
        lemma_first_match(rest, text);
        assert(forall|k: int| 1 <= k < specs.len() ==> specs[k] == rest[k - 1]);
        match spec_first_match(rest, text) {
            None => {
                assert forall|k: int| 0 <= k < specs.len() implies !token_matches(
                    #[trigger] specs[k].token@,
                    text,
                ) by {
                    if k >= 1 {
                        assert(!token_matches(rest[k - 1].token@, text));
                    }
                }
            },
            Some(i) => {
                assert(specs[i + 1] == rest[i]);
                assert forall|k: int| 0 <= k < i + 1 implies !token_matches(
                    #[trigger] specs[k].token@,
                    text,
                ) by {
                    if k >= 1 {
                        assert(!token_matches(rest[k - 1].token@, text));
                    }
                }
            },
        }
    }
}

/// The user payload of a generation command: the trimmed text with the
/// token removed and surrounding whitespace dropped.
pub open spec fn spec_payload(token: Seq<u8>, trimmed_text: Seq<u8>) -> Seq<u8> {
    trimmed(trimmed_text.skip(token.len() as int))
}

/// The single action for one message: silence for a gated channel, a bot
/// author or unmatched text; otherwise what the first matching spec asks
/// for, with the help listing and the generation prompt fully assembled.
pub open spec fn spec_dispatch(
    msg: IncomingMessage,
    allow: Seq<u64>,
    specs: Seq<CommandSpec>,
) -> ActionModel {
    if !allow.contains(msg.channel_id) || msg.author_is_bot {
        ActionModel::Silent
    } else {
        let t = trimmed(msg.text@);
        match spec_first_match(specs, t) {
            None => ActionModel::Silent,
            Some(i) => {
                let s = specs[i];
                if s.help_mode {
                    ActionModel::Help { text: spec_help_text((s.static_reply->Some_0)@, specs) }
                } else if s.model_id is Some {
                    ActionModel::Generate {
                        model_id: (s.model_id->Some_0)@,
                        text: spec_prompt_text(
                            s.protect_mode,
                            s.persona_mode,
                            msg.author_name@,
                            spec_prefix(s.prompt_prefix),
                            spec_payload(s.token@, t),
                        ),
                    }
                } else {
                    ActionModel::Ping { template: (s.static_reply->Some_0)@ }
                }
            },
        }
    }
}

/// A message from an off-allow-list channel or a bot author is dropped,
/// whatever its text.
pub proof fn lemma_gated_is_silent(msg: IncomingMessage, allow: Seq<u64>, specs: Seq<CommandSpec>)
    requires
        !allow.contains(msg.channel_id) || msg.author_is_bot,
    ensures
        spec_dispatch(msg, allow, specs) is Silent,
{
}

/// A message whose trimmed text matches no registered token is dropped.
pub proof fn lemma_unmatched_is_silent(
    msg: IncomingMessage,
    allow: Seq<u64>,
    specs: Seq<CommandSpec>,
)
    requires
        forall|k: int|
            0 <= k < specs.len() ==> !token_matches(#[trigger] specs[k].token@, trimmed(msg.text@)),
    ensures
        spec_dispatch(msg, allow, specs) is Silent,
{
    lemma_first_match(specs, trimmed(msg.text@));
    if spec_first_match(specs, trimmed(msg.text@)) is Some {
        assert(false);
    }
}

/// Whether `id` is on the allow-list.
pub fn channel_allowed(allow: &Vec<u64>, id: u64) -> (r: bool)
    ensures
        r == allow@.contains(id),
{
    let n: usize = allow.len();
    let mut i: usize = 0;
    while i < n
        invariant
            n == allow@.len(),
            0 <= i <= n,
            forall|k: int| 0 <= k < i ==> allow@[k] != id,
        decreases n - i,
    {
        if allow[i] == id {
            return true;
        }
        i = i + 1;
    }
    false
}

/// The action for `msg` under the allow-list and the command table, per
/// [`spec_dispatch`].
pub fn dispatch(msg: &IncomingMessage, allow: &Vec<u64>, store: &TemplateStore) -> (r: Action)
    requires
        store.wf(),
    ensures
        r@ == spec_dispatch(*msg, allow@, store.specs@),
{
    if !channel_allowed(allow, msg.channel_id) || msg.author_is_bot {
        return Action::Silent;
    }
    let t = trim(msg.text.as_slice());
    let found = store.lookup(t.as_slice());
    proof {
        lemma_first_match(store.specs@, t@);
    }
    match found {
        None => Action::Silent,
        Some(i) => {
            assert(spec_first_match(store.specs@, t@) == Some(i as int));
            let s = &store.specs[i];
            if s.help_mode {
                match &s.static_reply {
                    Some(header) => {
                        let text = render_help(header.as_slice(), store);
                        Action::Help { text }
                    },
                    None => {
                        assert(false);
                        Action::Silent
                    },
                }
            } else {
                match &s.model_id {
                    Some(model) => {
                        let payload = trim_payload(t.as_slice(), s.token.len());
                        let text = assemble_text(s, msg.author_name.as_slice(), payload.as_slice());
                        let model_id = copy_range(model.as_slice(), 0, model.len());
                        assert(model_id@ =~= model@);
                        Action::Generate { prompt: AssembledPrompt { model_id, text } }
                    },
                    None => {
                        match &s.static_reply {
                            Some(reply) => {
                                let template = copy_range(reply.as_slice(), 0, reply.len());
                                assert(template@ =~= reply@);
                                Action::Ping { template }
                            },
                            None => {
                                assert(false);
                                Action::Silent
                            },
                        }
                    },
                }
            }
        },
    }
}

/// The payload after the token, per [`spec_payload`].
fn trim_payload(trimmed_text: &[u8], token_len: usize) -> (r: Vec<u8>)
    requires
        token_len <= trimmed_text@.len(),
    ensures
        r@ == spec_payload(
            trimmed_text@.subrange(0, token_len as int),
            trimmed_text@,
        ),
{
    let rest = copy_range(trimmed_text, token_len, trimmed_text.len());
    assert(rest@ =~= trimmed_text@.skip(token_len as int));
    trim(rest.as_slice())
}

} // verus!
