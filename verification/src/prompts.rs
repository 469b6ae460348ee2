//! Prompts: choices offered to a player on the client.
use vstd::prelude::*;

use crate::game_communicator::{GameCommunicator, OutgoingView};
use crate::game_context::{ContextValueView, GameContext};
use crate::id_types::{LocationId, PlayerId, PromptInstanceId, TokenInstanceId};
use crate::instruction::{InstructionToClient, InstructionView};
use crate::keyed::{
    keyed_map, keys_unique, lemma_keyed_map_domain, lemma_keyed_map_index, lemma_keyed_map_push,
    lemma_keyed_map_update,
};
use crate::rng::random_u64;

verus! {

/// What a prompt offers to choose.
#[derive(Clone, Copy, PartialEq, Eq, Structural, Hash, Debug)]
pub enum PromptType {
    SelectCard(TokenInstanceId),
    AttackCard(TokenInstanceId),
    SelectFieldSlot(LocationId),
}

pub open spec fn spec_prompt_type_name(t: PromptType) -> Seq<char> {
    match t {
        PromptType::SelectCard(_) => "SelectCard"@,
        PromptType::AttackCard(_) => "AttackCard"@,
        PromptType::SelectFieldSlot(_) => "SelectFieldSlot"@,
    }
}

pub open spec fn spec_prompt_instruction_name(t: PromptType) -> Seq<char> {
    match t {
        PromptType::SelectCard(_) => "card_select"@,
        PromptType::AttackCard(_) => "card_attack"@,
        PromptType::SelectFieldSlot(_) => "slot_select"@,
    }
}

impl PromptType {
    /// The name of the kind of prompt.
    pub fn to_string(&self) -> (s: String)
        ensures
            s@ == spec_prompt_type_name(*self),
    {
        match self {
            PromptType::SelectCard(_) => String::from_str("SelectCard"),
            PromptType::AttackCard(_) => String::from_str("AttackCard"),
            PromptType::SelectFieldSlot(_) => String::from_str("SelectFieldSlot"),
        }
    }

    /// The name the client uses for the kind of prompt.
    pub fn to_instruction_string(&self) -> (s: String)
        ensures
            s@ == spec_prompt_instruction_name(*self),
    {
        match self {
            PromptType::SelectCard(_) => String::from_str("card_select"),
            PromptType::AttackCard(_) => String::from_str("card_attack"),
            PromptType::SelectFieldSlot(_) => String::from_str("slot_select"),
        }
    }
}

/// A prompt offered to a player.
#[derive(Clone, Copy, PartialEq, Eq, Structural, Debug)]
pub struct PromptProfile {
    pub prompt_type: PromptType,
    pub value: bool,
    pub owner: PlayerId,
}

/// The answer a player gave to a prompt.
#[derive(Clone, Copy, PartialEq, Eq, Structural, Debug)]
pub struct PromptCallbackContext {
    pub prompt: PromptType,
    pub value: bool,
}

/// How a choice is highlighted on the client.
#[derive(Clone, Copy, PartialEq, Eq, Structural, Hash, Debug)]
pub enum HighlightType {
    SelectCard,
    AttackCard,
    SelectFieldSlot,
}

pub open spec fn spec_highlight_name(t: HighlightType) -> Seq<char> {
    match t {
        HighlightType::SelectCard => "card_select"@,
        HighlightType::AttackCard => "card_attack"@,
        HighlightType::SelectFieldSlot => "slot_select"@,
    }
}

impl HighlightType {
    /// The name the client uses for the highlight.
    pub fn to_instruction_string(&self) -> (s: String)
        ensures
            s@ == spec_highlight_name(*self),
    {
        match self {
            HighlightType::SelectCard => String::from_str("card_select"),
            HighlightType::AttackCard => String::from_str("card_attack"),
            HighlightType::SelectFieldSlot => String::from_str("slot_select"),
        }
    }
}

#[derive(Clone, Copy, PartialEq, Eq, Structural, Debug)]
pub struct HighlightProfile {
    pub highlight_type: HighlightType,
}

} // verus!

verus! {

/// What happens when the player answers one of a callback's prompts.
#[derive(Clone, Copy, PartialEq, Eq, Structural, Debug)]
pub enum PromptCallbackKind {
    /// The player picks one of their units on the field; next they are shown what it can attack.
    SelectAttacker,
    /// The player picks what the selected unit attacks.
    ChooseAttackTarget,
}

/// A set of prompts offered together, and what answering one of them does.
pub struct PromptCallback {
    pub cancelable: bool,
    pub kind: PromptCallbackKind,
    pub prompt_instances: Vec<(PromptInstanceId, PromptProfile)>,
    pub context: GameContext,
}

/// Whether the callback stays open after an answer, or is done (and what opens next).
pub enum PromptCallbackResult {
    Keep,
    End(Option<PromptCallback>),
}

pub open spec fn prompt_key() -> spec_fn((PromptInstanceId, PromptProfile)) -> PromptInstanceId {
    |e: (PromptInstanceId, PromptProfile)| e.0
}

pub open spec fn prompt_val() -> spec_fn((PromptInstanceId, PromptProfile)) -> PromptProfile {
    |e: (PromptInstanceId, PromptProfile)| e.1
}

/// The instruction that shows a prompt on the client.
pub open spec fn add_prompt_message(e: (PromptInstanceId, PromptProfile)) -> OutgoingView {
    OutgoingView::Instruction(
        InstructionView::AddPrompt { prompt_instance_id: e.0, prompt_type: e.1.prompt_type },
    )
}

/// The instruction that takes a prompt off the client.
pub open spec fn remove_prompt_message(e: (PromptInstanceId, PromptProfile)) -> OutgoingView {
    OutgoingView::Instruction(InstructionView::RemovePrompt { prompt_instance_id: e.0 })
}

impl PromptCallback {
    /// No two prompts share an id.
    pub open spec fn wf(&self) -> bool {
        keys_unique(self.prompt_instances@, prompt_key())
    }

    /// The prompts by id.
    pub open spec fn prompts(&self) -> Map<PromptInstanceId, PromptProfile> {
        keyed_map(self.prompt_instances@, prompt_key(), prompt_val())
    }

    /// A callback with no prompts yet.
    pub fn new(kind: PromptCallbackKind, cancelable: bool) -> (r: Self)
        ensures
            r.wf(),
            r.kind == kind,
            r.cancelable == cancelable,
            r.prompt_instances@.len() == 0,
            r.prompts() == Map::<PromptInstanceId, PromptProfile>::empty(),
            r.context.view() == Map::<Seq<char>, ContextValueView>::empty(),
    {
        let r = Self { cancelable, kind, prompt_instances: Vec::new(), context: GameContext::new() };
        assert(r.prompts() =~= Map::<PromptInstanceId, PromptProfile>::empty());
        r
    }

    /// Whether no two prompts share an id.
    pub fn ids_distinct(&self) -> (r: bool)
        ensures
            r == self.wf(),
    {
        let n = self.prompt_instances.len();
        let mut i: usize = 0;
        while i < n
            invariant
                n == self.prompt_instances@.len(),
                i <= n,
                forall|a: int, b: int| 0 <= a < i && 0 <= b < n && a != b ==> self.prompt_instances@[a].0 != self.prompt_instances@[b].0,
            decreases n - i,
        {
            let mut j: usize = 0;
            while j < n
                invariant
                    n == self.prompt_instances@.len(),
                    i < n,
                    j <= n,
                    forall|a: int, b: int| 0 <= a < i && 0 <= b < n && a != b ==> self.prompt_instances@[a].0 != self.prompt_instances@[b].0,
                    forall|b: int| 0 <= b < j && b != i ==> self.prompt_instances@[i as int].0 != self.prompt_instances@[b].0,
                decreases n - j,
            {
                if j != i && self.prompt_instances[i].0 == self.prompt_instances[j].0 {
                    return false;
                }
                j = j + 1;
            }
            i = i + 1;
        }
        true
    }

    /// Where the prompt with this id stands.
    pub fn find_prompt(&self, id: PromptInstanceId) -> (r: Option<usize>)
        requires
            self.wf(),
        ensures
            r matches Some(i) ==> i < self.prompt_instances@.len()
                && self.prompt_instances@[i as int].0 == id
                && self.prompts().contains_key(id)
                && self.prompts()[id] == self.prompt_instances@[i as int].1,
            r is None ==> !self.prompts().contains_key(id),
    {
        let mut i: usize = 0;
        while i < self.prompt_instances.len()
            invariant
                self.wf(),
                i <= self.prompt_instances.len(),
                forall|j: int| 0 <= j < i ==> self.prompt_instances@[j].0 != id,
            decreases self.prompt_instances.len() - i,
        {
            if self.prompt_instances[i].0 == id {
                proof {
                    lemma_keyed_map_index(self.prompt_instances@, prompt_key(), prompt_val(), i as int);
                }
                return Some(i);
            }
            i = i + 1;
        }
        proof {
            lemma_keyed_map_domain(self.prompt_instances@, prompt_key(), prompt_val(), id);
        }
        None
    }

    /// Offers the prompt under `id`; a prompt already under `id` is replaced.
    pub fn add_prompt_with_id(&mut self, id: PromptInstanceId, prompt: PromptProfile)
        requires
            old(self).wf(),
        ensures
            final(self).wf(),
            final(self).prompts() == old(self).prompts().insert(id, prompt),
            final(self).kind == old(self).kind,
            final(self).cancelable == old(self).cancelable,
            final(self).context == old(self).context,
    {
        match self.find_prompt(id) {
            Some(i) => {
                proof {
                    lemma_keyed_map_update(self.prompt_instances@, prompt_key(), prompt_val(), i as int, (id, prompt));
                }
                self.prompt_instances.set(i, (id, prompt));
            },
            None => {
                proof {
                    lemma_keyed_map_push(self.prompt_instances@, prompt_key(), prompt_val(), (id, prompt));
                }
                self.prompt_instances.push((id, prompt));
            },
        }
    }

    /// Offers the prompt under a random id (see `add_prompt_with_id`).
    pub fn add_prompt(&mut self, prompt: PromptProfile)
        requires
            old(self).wf(),
        ensures
            final(self).wf(),
            exists|id: PromptInstanceId| final(self).prompts() == old(self).prompts().insert(id, prompt),
            final(self).kind == old(self).kind,
            final(self).cancelable == old(self).cancelable,
            final(self).context == old(self).context,
    {
        let id = PromptInstanceId(random_u64());
        self.add_prompt_with_id(id, prompt);
    }

    /// Shows every prompt on the client, in the order they were added.
    pub fn create_instructions(&self, communicator: &mut GameCommunicator)
        ensures
            final(communicator).sent() == old(communicator).sent() + self.prompt_instances@.map_values(
                |e: (PromptInstanceId, PromptProfile)| add_prompt_message(e),
            ),
    {
        let mut i: usize = 0;
        while i < self.prompt_instances.len()
            invariant
                i <= self.prompt_instances.len(),
                communicator.sent() == old(communicator).sent() + self.prompt_instances@.take(
                    i as int,
                ).map_values(|e: (PromptInstanceId, PromptProfile)| add_prompt_message(e)),
            decreases self.prompt_instances.len() - i,
        {
            let (id, prompt) = self.prompt_instances[i];
            communicator.send_game_instruction(
                InstructionToClient::AddPrompt { prompt_instance_id: id, prompt_type: prompt.prompt_type },
            );
            proof {
                assert(self.prompt_instances@.take(i + 1).map_values(
                    |e: (PromptInstanceId, PromptProfile)| add_prompt_message(e),
                ) =~= self.prompt_instances@.take(i as int).map_values(
                    |e: (PromptInstanceId, PromptProfile)| add_prompt_message(e),
                ).push(add_prompt_message(self.prompt_instances@[i as int])));
            }
            i = i + 1;
        }
        assert(self.prompt_instances@.take(i as int) =~= self.prompt_instances@);
    }

    /// Takes every prompt off the client, in the order they were added.
    pub fn cancel(&self, communicator: &mut GameCommunicator)
        ensures
            final(communicator).sent() == old(communicator).sent() + self.prompt_instances@.map_values(
                |e: (PromptInstanceId, PromptProfile)| remove_prompt_message(e),
            ),
    {
        let mut i: usize = 0;
        while i < self.prompt_instances.len()
            invariant
                i <= self.prompt_instances.len(),
                communicator.sent() == old(communicator).sent() + self.prompt_instances@.take(
                    i as int,
                ).map_values(|e: (PromptInstanceId, PromptProfile)| remove_prompt_message(e)),
            decreases self.prompt_instances.len() - i,
        {
            let id = self.prompt_instances[i].0;
            communicator.send_game_instruction(InstructionToClient::RemovePrompt { prompt_instance_id: id });
            proof {
                assert(self.prompt_instances@.take(i + 1).map_values(
                    |e: (PromptInstanceId, PromptProfile)| remove_prompt_message(e),
                ) =~= self.prompt_instances@.take(i as int).map_values(
                    |e: (PromptInstanceId, PromptProfile)| remove_prompt_message(e),
                ).push(remove_prompt_message(self.prompt_instances@[i as int])));
            }
            i = i + 1;
        }
        assert(self.prompt_instances@.take(i as int) =~= self.prompt_instances@);
    }
}

} // verus!
