//! What answering a prompt does.
use vstd::prelude::*;

use crate::context_keys;
use crate::finder::tag_read;
use crate::error::{GameError, GameErrorView};
use crate::game_communicator::GameCommunicator;
use crate::game_context::{ctx_token, ContextValue, ContextValueView, GameContext};
use crate::id_types::PromptInstanceId;
use crate::prompts::{
    PromptCallback, PromptCallbackContext, PromptCallbackKind, PromptCallbackResult, PromptType,
};
use crate::state_machine::{spec_attack_group, StateMachine};
use crate::state_resources::StateResources;
use crate::tag::{get_tag, spec_get_tag};
use crate::text::{parse_bool, parse_u64, spec_parse_u64};
use crate::turn::{prompts_for, spec_attackable};

verus! {

/// What an answer leads to for a callback of kind `kind`: picking a unit to attack with
/// keeps it in the context as the selected token and opens the prompts for what it can
/// attack (see `StateResources::show_attackable_tokens`); picking what to attack queues
/// the attack by the selected token. Any other answer ends the callback.
pub open spec fn answer_ok(
    kind: PromptCallbackKind,
    answer: PromptCallbackContext,
    ctx: Map<Seq<char>, ContextValueView>,
    ctx_post: Map<Seq<char>, ContextValueView>,
    res: StateResources,
    groups: Seq<crate::state_machine::GroupView>,
    groups_post: Seq<crate::state_machine::GroupView>,
    r: Result<PromptCallbackResult, GameError>,
) -> bool {
    match (kind, answer.prompt) {
        (PromptCallbackKind::SelectAttacker, PromptType::SelectCard(t)) => {
            &&& ctx_post == ctx.insert(context_keys::SELECTED_TOKEN@, ContextValueView::TokenInstanceId(t))
            &&& groups_post == groups
            &&& (res.round == 0 || spec_attackable(res) is Ok) ==> (r matches Ok(PromptCallbackResult::End(Some(cb))) && {
                &&& cb.wf()
                &&& cb.kind == PromptCallbackKind::ChooseAttackTarget
                &&& cb.cancelable
                &&& res.round != 0 ==> prompts_for(cb, spec_attackable(res)->Ok_0, res.current_turn, true)
            })
            &&& (res.round != 0 && spec_attackable(res) is Err) ==> r == Err::<PromptCallbackResult, GameError>(spec_attackable(res)->Err_0)
        },
        (PromptCallbackKind::ChooseAttackTarget, PromptType::AttackCard(t)) => {
            &&& ctx_post == ctx
            &&& match ctx_token(ctx, context_keys::SELECTED_TOKEN@) {
                Err(e) => groups_post == groups && (r matches Err(x) && x@ == e),
                Ok(attacker) => groups_post == seq![spec_attack_group(attacker, t, false)] + groups
                    && (r matches Ok(PromptCallbackResult::End(None))),
            }
        },
        _ => ctx_post == ctx && groups_post == groups && (r matches Ok(PromptCallbackResult::End(None))),
    }
}

/// Does what answering a prompt of a callback of kind `kind` does (see `answer_ok`).
pub fn answer_prompt(
    kind: PromptCallbackKind,
    answer: PromptCallbackContext,
    context: &mut GameContext,
    state: &mut StateMachine,
    resources: &StateResources,
) -> (r: Result<PromptCallbackResult, GameError>)
    requires
        resources.wf(),
    ensures
        answer_ok(kind, answer, old(context).view(), final(context).view(), *resources, old(state).groups(), final(state).groups(), r),
{
    match kind {
        PromptCallbackKind::SelectAttacker => match answer.prompt {
            PromptType::SelectCard(t) => {
                context.insert(context_keys::SELECTED_TOKEN, ContextValue::TokenInstanceId(t));
                match resources.show_attackable_tokens() {
                    Ok(cb) => Ok(PromptCallbackResult::End(Some(cb))),
                    Err(e) => Err(e),
                }
            },
            _ => Ok(PromptCallbackResult::End(None)),
        },
        PromptCallbackKind::ChooseAttackTarget => match answer.prompt {
            PromptType::AttackCard(t) => {
                let attacker = match context.get_token_id(context_keys::SELECTED_TOKEN) {
                    Ok(a) => a,
                    Err(e) => return Err(e),
                };
                state.attack(attacker, t, false);
                Ok(PromptCallbackResult::End(None))
            },
            _ => Ok(PromptCallbackResult::End(None)),
        },
    }
}

/// Reading an answer: the prompt's id, a number in section `callback_id`, and the value,
/// `true` or `false` in section `value`; each section is read, then its content.
pub open spec fn spec_answer(data: Seq<char>) -> Result<(u64, bool), GameErrorView> {
    match tag_read("callback_id"@, data) {
        Err(e) => Err(e),
        Ok(id_text) => match spec_parse_u64(id_text) {
            Err(p) => Err(GameErrorView::InvalidNumber(p)),
            Ok(id) => match tag_read("value"@, data) {
                Err(e) => Err(e),
                Ok(v) => if v == "true"@ {
                    Ok((id, true))
                } else if v == "false"@ {
                    Ok((id, false))
                } else {
                    Err(GameErrorView::InvalidBool)
                },
            },
        },
    }
}

/// The answer read from the data, if it can be read (see `spec_answer`).
pub open spec fn spec_read_answer(data: Seq<char>) -> Option<(u64, bool)> {
    match spec_answer(data) {
        Ok(p) => Some(p),
        Err(_) => None,
    }
}

/// What answering one of the prompts of `cb` with `data` (see `PromptCallback::execute`)
/// leads to: the context and queue after it, and the result.
pub open spec fn spec_executed(
    cb: PromptCallback,
    data: Seq<char>,
    ctx: Map<Seq<char>, ContextValueView>,
    ctx_post: Map<Seq<char>, ContextValueView>,
    res: StateResources,
    groups: Seq<crate::state_machine::GroupView>,
    groups_post: Seq<crate::state_machine::GroupView>,
    r: Result<PromptCallbackResult, GameError>,
) -> bool {
    match spec_read_answer(data) {
        None => (spec_answer(data) matches Err(e) && r matches Err(x) && x@ == e) && groups_post == groups
            && ctx_post == ctx,
        Some((id, value)) => if !cb.prompts().contains_key(PromptInstanceId(id)) {
            r == Err::<PromptCallbackResult, GameError>(GameError::PromptNotFound(id)) && groups_post == groups
                && ctx_post == ctx
        } else {
            answer_ok(
                cb.kind,
                PromptCallbackContext { prompt: cb.prompts()[PromptInstanceId(id)].prompt_type, value },
                ctx,
                ctx_post,
                res,
                groups,
                groups_post,
                r,
            )
        },
    }
}

impl PromptCallback {
    /// Answers one of the callback's prompts from the client's data (see
    /// `spec_read_answer` and `answer_ok`). Data that cannot be read, or that names no
    /// prompt of the callback, is refused.
    pub fn execute(
        &mut self,
        data: &str,
        context: &mut GameContext,
        state: &mut StateMachine,
        resources: &mut StateResources,
        communicator: &mut GameCommunicator,
    ) -> (r: Result<PromptCallbackResult, GameError>)
        requires
            old(self).wf(),
            old(resources).wf(),
        ensures
            *final(self) == *old(self),
            *final(resources) == *old(resources),
            final(communicator).sent() == old(communicator).sent(),
            spec_executed(*old(self), data@, old(context).view(), final(context).view(), *old(resources), old(state).groups(), final(state).groups(), r),
    {
        let id_text = match get_tag("callback_id", data) {
            Ok(s) => s,
            Err(e) => return Err(e),
        };
        let id = match parse_u64(id_text.as_str()) {
            Ok(v) => v,
            Err(e) => return Err(GameError::InvalidNumber(e)),
        };
        let value_text = match get_tag("value", data) {
            Ok(s) => s,
            Err(e) => return Err(e),
        };
        let value = match parse_bool(value_text.as_str()) {
            Some(b) => b,
            None => return Err(GameError::InvalidBool),
        };
        proof {
            reveal_strlit("callback_id");
            reveal_strlit("value");
        }
        let prompt = match self.find_prompt(PromptInstanceId(id)) {
            None => return Err(GameError::PromptNotFound(id)),
            Some(i) => self.prompt_instances[i].1.prompt_type,
        };
        answer_prompt(self.kind, PromptCallbackContext { prompt, value }, context, state, resources)
    }
}

} // verus!
