//! What the server tells the client.
use vstd::prelude::*;

use crate::animation_presets::AnimationPreset;
use crate::id_types::{LocationId, PlayerId, PromptInstanceId, TokenInstanceId};
use crate::animation_presets::spec_preset_name;
use crate::error::GameError;
use crate::id_types::spec_player_number;
use crate::prompts::{spec_prompt_type_name, PromptType};
use crate::registry::TokenRegistry;
use crate::tag::{behaviors_body, instance_body, seconds_text, tag_body, tag_fits, tag_text, Tag};
use crate::text::{decimal, push_str};
use crate::token_instance::{TokenInstance, TokenInstanceView};

verus! {

/// An instruction for the client. Animation durations are in milliseconds.
pub enum InstructionToClient {
    AddLandscapeSlot { player_id: PlayerId, index: u64, location_id: LocationId },
    SetThaum { player_id: PlayerId, amount: u32 },
    MoveToken { token: TokenInstanceId, to: LocationId },
    CreateToken {
        token_data: TokenInstance,
        instance_id: TokenInstanceId,
        location_id: LocationId,
        player_id: PlayerId,
    },
    PassTurn { player_id: PlayerId },
    ClearLocation { location: LocationId },
    Destroy { token: TokenInstanceId },
    AddPrompt { prompt_instance_id: PromptInstanceId, prompt_type: PromptType },
    RemovePrompt { prompt_instance_id: PromptInstanceId },
    UpdateData { token_data: TokenInstance },
    UpdateBehaviors { token_data: TokenInstance },
    AddEquipmentSlot { token: TokenInstanceId, slot_location_id: LocationId },
    Animate {
        token: TokenInstanceId,
        location: LocationId,
        duration_ms: u32,
        preset: AnimationPreset,
    },
    Reveal { token: TokenInstanceId },
    EndGame { winner: PlayerId },
}

/// An instruction as a value.
pub enum InstructionView {
    AddLandscapeSlot { player_id: PlayerId, index: u64, location_id: LocationId },
    SetThaum { player_id: PlayerId, amount: u32 },
    MoveToken { token: TokenInstanceId, to: LocationId },
    CreateToken {
        token_data: TokenInstanceView,
        instance_id: TokenInstanceId,
        location_id: LocationId,
        player_id: PlayerId,
    },
    PassTurn { player_id: PlayerId },
    ClearLocation { location: LocationId },
    Destroy { token: TokenInstanceId },
    AddPrompt { prompt_instance_id: PromptInstanceId, prompt_type: PromptType },
    RemovePrompt { prompt_instance_id: PromptInstanceId },
    UpdateData { token_data: TokenInstanceView },
    UpdateBehaviors { token_data: TokenInstanceView },
    AddEquipmentSlot { token: TokenInstanceId, slot_location_id: LocationId },
    Animate {
        token: TokenInstanceId,
        location: LocationId,
        duration_ms: u32,
        preset: AnimationPreset,
    },
    Reveal { token: TokenInstanceId },
    EndGame { winner: PlayerId },
}

impl View for InstructionToClient {
    type V = InstructionView;

    open spec fn view(&self) -> InstructionView {
        match self {
            InstructionToClient::AddLandscapeSlot { player_id, index, location_id } => {
                InstructionView::AddLandscapeSlot {
                    player_id: *player_id,
                    index: *index,
                    location_id: *location_id,
                }
            },
            InstructionToClient::SetThaum { player_id, amount } => InstructionView::SetThaum {
                player_id: *player_id,
                amount: *amount,
            },
            InstructionToClient::MoveToken { token, to } => InstructionView::MoveToken {
                token: *token,
                to: *to,
            },
            InstructionToClient::CreateToken { token_data, instance_id, location_id, player_id } => {
                InstructionView::CreateToken {
                    token_data: token_data@,
                    instance_id: *instance_id,
                    location_id: *location_id,
                    player_id: *player_id,
                }
            },
            InstructionToClient::PassTurn { player_id } => InstructionView::PassTurn {
                player_id: *player_id,
            },
            InstructionToClient::ClearLocation { location } => InstructionView::ClearLocation {
                location: *location,
            },
            InstructionToClient::Destroy { token } => InstructionView::Destroy { token: *token },
            InstructionToClient::AddPrompt { prompt_instance_id, prompt_type } => {
                InstructionView::AddPrompt {
                    prompt_instance_id: *prompt_instance_id,
                    prompt_type: *prompt_type,
                }
            },
            InstructionToClient::RemovePrompt { prompt_instance_id } => {
                InstructionView::RemovePrompt { prompt_instance_id: *prompt_instance_id }
            },
            InstructionToClient::UpdateData { token_data } => InstructionView::UpdateData {
                token_data: token_data@,
            },
            InstructionToClient::UpdateBehaviors { token_data } => {
                InstructionView::UpdateBehaviors { token_data: token_data@ }
            },
            InstructionToClient::AddEquipmentSlot { token, slot_location_id } => {
                InstructionView::AddEquipmentSlot {
                    token: *token,
                    slot_location_id: *slot_location_id,
                }
            },
            InstructionToClient::Animate { token, location, duration_ms, preset } => {
                InstructionView::Animate {
                    token: *token,
                    location: *location,
                    duration_ms: *duration_ms,
                    preset: *preset,
                }
            },
            InstructionToClient::Reveal { token } => InstructionView::Reveal { token: *token },
            InstructionToClient::EndGame { winner } => InstructionView::EndGame { winner: *winner },
        }
    }
}

/// A field holding a number.
pub open spec fn num_tag(n: nat) -> Seq<char> {
    tag_text(decimal(n))
}

/// The text of an instruction as the client reads it: its name, `|`, then its fields, the
/// first of which counts the others. `Destroy` has no text.
pub open spec fn spec_instruction_text(i: InstructionView, reg: TokenRegistry) -> Option<Seq<char>> {
    match i {
        InstructionView::AddLandscapeSlot { player_id, index, location_id } => Some(
            "add_slot|"@ + num_tag(3) + num_tag(spec_player_number(player_id) as nat) + num_tag(index as nat)
                + num_tag(location_id.0 as nat),
        ),
        InstructionView::SetThaum { player_id, amount } => Some(
            "set_thaum|"@ + num_tag(2) + num_tag(spec_player_number(player_id) as nat) + num_tag(amount as nat),
        ),
        InstructionView::MoveToken { token, to } => Some(
            "move_token|"@ + num_tag(2) + num_tag(token.0 as nat) + num_tag(to.0 as nat),
        ),
        InstructionView::CreateToken { token_data, instance_id, location_id, player_id } => Some(
            "create_token|"@ + num_tag(4) + tag_text(instance_body(token_data, reg)) + num_tag(instance_id.0 as nat)
                + num_tag(spec_player_number(player_id) as nat) + num_tag(location_id.0 as nat),
        ),
        InstructionView::PassTurn { player_id } => Some(
            "set_turn|"@ + num_tag(1) + num_tag(spec_player_number(player_id) as nat),
        ),
        InstructionView::ClearLocation { location } => Some(
            "clear_location|"@ + num_tag(1) + num_tag(location.0 as nat),
        ),
        InstructionView::Destroy { .. } => None,
        InstructionView::AddPrompt { prompt_instance_id, prompt_type } => Some(
            "add_prompt|"@ + num_tag(3) + num_tag(prompt_instance_id.0 as nat) + num_tag(prompt_target(prompt_type))
                + seq!['"'] + tag_text(spec_prompt_type_name(prompt_type)) + seq!['"'],
        ),
        InstructionView::RemovePrompt { prompt_instance_id } => Some(
            "remove_prompt|"@ + num_tag(1) + num_tag(prompt_instance_id.0 as nat),
        ),
        InstructionView::UpdateData { token_data } => Some(
            "update_data|"@ + num_tag(2) + num_tag(token_data.instance_id.0 as nat) + tag_text(
                instance_body(token_data, reg),
            ),
        ),
        InstructionView::UpdateBehaviors { token_data } => Some(
            "update_behaviors|"@ + num_tag(2) + num_tag(token_data.instance_id.0 as nat) + tag_text(
                behaviors_body(reg.tokens@[token_data.data_index as int].behaviors@),
            ),
        ),
        InstructionView::AddEquipmentSlot { token, slot_location_id } => Some(
            "add_equipment_slot|"@ + num_tag(2) + num_tag(token.0 as nat) + num_tag(slot_location_id.0 as nat),
        ),
        InstructionView::Animate { token, location, duration_ms, preset } => Some(
            "animate|"@ + num_tag(4) + num_tag(token.0 as nat) + num_tag(location.0 as nat) + tag_text(
                seconds_text(duration_ms as nat),
            ) + tag_text(spec_preset_name(preset)),
        ),
        InstructionView::Reveal { token } => Some("reveal|"@ + num_tag(1) + num_tag(token.0 as nat)),
        InstructionView::EndGame { winner } => Some(
            "end_game|"@ + num_tag(1) + num_tag(spec_player_number(winner) as nat),
        ),
    }
}

/// The id a prompt is about.
pub open spec fn prompt_target(p: PromptType) -> nat {
    match p {
        PromptType::SelectCard(t) => t.0 as nat,
        PromptType::AttackCard(t) => t.0 as nat,
        PromptType::SelectFieldSlot(l) => l.0 as nat,
    }
}

/// Whether the tokens an instruction describes have their kind in the registry.
pub open spec fn instruction_fits(i: InstructionView, reg: TokenRegistry) -> bool {
    match i {
        InstructionView::CreateToken { token_data, .. } => token_data.data_index < reg.tokens@.len(),
        InstructionView::UpdateData { token_data } => token_data.data_index < reg.tokens@.len(),
        InstructionView::UpdateBehaviors { token_data } => token_data.data_index < reg.tokens@.len(),
        _ => true,
    }
}

/// Appends a field holding a number.
fn push_num_tag(s: &mut String, n: u64)
    ensures
        final(s)@ == old(s)@ + num_tag(n as nat),
{
    let t = Tag::U64(n);
    let text = t.build(&TokenRegistry { tokens: Vec::new() });
    push_str(s, text.as_str());
}

/// Appends a field.
fn push_tag(s: &mut String, t: &Tag, registry: &TokenRegistry)
    requires
        tag_fits(*t, *registry),
    ensures
        final(s)@ == old(s)@ + tag_text(tag_body(*t, *registry)),
{
    let text = t.build(registry);
    push_str(s, text.as_str());
}

impl InstructionToClient {
    /// The text the client reads (see `spec_instruction_text`); `Destroy` has none and is
    /// refused.
    pub fn build(&self, registry: &TokenRegistry) -> (r: Result<String, GameError>)
        requires
            instruction_fits(self@, *registry),
        ensures
            match spec_instruction_text(self@, *registry) {
                Some(t) => r matches Ok(s) && s@ == t,
                None => r == Err::<String, GameError>(GameError::Unimplemented),
            },
    {
        let mut s = String::new();
        match self {
            InstructionToClient::AddLandscapeSlot { player_id, index, location_id } => {
                push_str(&mut s, "add_slot|");
                push_num_tag(&mut s, 3);
                push_num_tag(&mut s, player_id.number() as u64);
                push_num_tag(&mut s, *index);
                push_num_tag(&mut s, location_id.0);
            },
            InstructionToClient::SetThaum { player_id, amount } => {
                push_str(&mut s, "set_thaum|");
                push_num_tag(&mut s, 2);
                push_num_tag(&mut s, player_id.number() as u64);
                push_num_tag(&mut s, *amount as u64);
            },
            InstructionToClient::MoveToken { token, to } => {
                push_str(&mut s, "move_token|");
                push_num_tag(&mut s, 2);
                push_num_tag(&mut s, token.0);
                push_num_tag(&mut s, to.0);
            },
            InstructionToClient::CreateToken { token_data, instance_id, location_id, player_id } => {
                push_str(&mut s, "create_token|");
                push_num_tag(&mut s, 4);
                push_tag(&mut s, &Tag::TokenInstanceData(token_data.duplicate()), registry);
                push_num_tag(&mut s, instance_id.0);
                push_num_tag(&mut s, player_id.number() as u64);
                push_num_tag(&mut s, location_id.0);
            },
            InstructionToClient::PassTurn { player_id } => {
                push_str(&mut s, "set_turn|");
                push_num_tag(&mut s, 1);
                push_num_tag(&mut s, player_id.number() as u64);
            },
            InstructionToClient::ClearLocation { location } => {
                push_str(&mut s, "clear_location|");
                push_num_tag(&mut s, 1);
                push_num_tag(&mut s, location.0);
            },
            InstructionToClient::Destroy { .. } => {
                return Err(GameError::Unimplemented);
            },
            InstructionToClient::AddPrompt { prompt_instance_id, prompt_type } => {
                let target: u64 = match prompt_type {
                    PromptType::SelectCard(t) => t.0,
                    PromptType::AttackCard(t) => t.0,
                    PromptType::SelectFieldSlot(l) => l.0,
                };
                push_str(&mut s, "add_prompt|");
                push_num_tag(&mut s, 3);
                push_num_tag(&mut s, prompt_instance_id.0);
                push_num_tag(&mut s, target);
                s.push('"');
                push_tag(&mut s, &Tag::String(prompt_type.to_string()), registry);
                s.push('"');
            },
            InstructionToClient::RemovePrompt { prompt_instance_id } => {
                push_str(&mut s, "remove_prompt|");
                push_num_tag(&mut s, 1);
                push_num_tag(&mut s, prompt_instance_id.0);
            },
            InstructionToClient::UpdateData { token_data } => {
                push_str(&mut s, "update_data|");
                push_num_tag(&mut s, 2);
                push_num_tag(&mut s, token_data.instance_id.0);
                push_tag(&mut s, &Tag::TokenInstanceData(token_data.duplicate()), registry);
            },
            InstructionToClient::UpdateBehaviors { token_data } => {
                push_str(&mut s, "update_behaviors|");
                push_num_tag(&mut s, 2);
                push_num_tag(&mut s, token_data.instance_id.0);
                push_tag(&mut s, &Tag::TokenBehaviors(token_data.duplicate()), registry);
            },
            InstructionToClient::AddEquipmentSlot { token, slot_location_id } => {
                push_str(&mut s, "add_equipment_slot|");
                push_num_tag(&mut s, 2);
                push_num_tag(&mut s, token.0);
                push_num_tag(&mut s, slot_location_id.0);
            },
            InstructionToClient::Animate { token, location, duration_ms, preset } => {
                push_str(&mut s, "animate|");
                push_num_tag(&mut s, 4);
                push_num_tag(&mut s, token.0);
                push_num_tag(&mut s, location.0);
                push_tag(&mut s, &Tag::Seconds(*duration_ms), registry);
                push_tag(&mut s, &Tag::String(preset.to_string()), registry);
            },
            InstructionToClient::Reveal { token } => {
                push_str(&mut s, "reveal|");
                push_num_tag(&mut s, 1);
                push_num_tag(&mut s, token.0);
            },
            InstructionToClient::EndGame { winner } => {
                push_str(&mut s, "end_game|");
                push_num_tag(&mut s, 1);
                push_num_tag(&mut s, winner.number() as u64);
            },
        }
        proof {
            reveal_strlit("add_slot|");
            reveal_strlit("set_thaum|");
            reveal_strlit("move_token|");
            reveal_strlit("create_token|");
            reveal_strlit("set_turn|");
            reveal_strlit("clear_location|");
            reveal_strlit("add_prompt|");
            reveal_strlit("remove_prompt|");
            reveal_strlit("update_data|");
            reveal_strlit("update_behaviors|");
            reveal_strlit("add_equipment_slot|");
            reveal_strlit("animate|");
            reveal_strlit("reveal|");
            reveal_strlit("end_game|");
        }
        assert(s@ =~= spec_instruction_text(self@, *registry).unwrap());
        Ok(s)
    }
}

} // verus!
