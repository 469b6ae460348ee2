//! Working through the queue of happenings: each step does its part to the game, then
//! every token in play gets to react to it.
use vstd::prelude::*;

use crate::actions::{spec_trigger, trigger_card_behaviors_with, unit_view, world, WorldView};
use crate::animation_presets::AnimationPreset;
use crate::board::{spec_tokens_in_play, Board};
use crate::context_keys;
use crate::error::{res_view, GameError, GameErrorView};
use crate::game_communicator::{GameCommunicator, OutgoingView};
use crate::game_context::{
    ctx_bool, ctx_i64, ctx_location, ctx_player, ctx_string, ctx_token, ContextValue,
    ContextValueKind, ContextValueView, GameContext,
};
use crate::id_types::{spec_opponent, LocationId, PlayerId, TokenInstanceId};
use crate::instruction::{InstructionToClient, InstructionView};
use crate::locations::LocationView;
use crate::player::Player;
use crate::prompts::PromptCallback;
use crate::state_machine::{
    spec_attack_group, spec_defeat_group, GroupView, StateMachine, StateTransitionGroup,
};
use crate::state_resources::{
    side_locations_exist, spec_create_token, spec_destroy, spec_move_token, spec_player, Outcome,
    StateResources,
};
use crate::rng::{agrees, extends, lemma_agrees_prefix, lemma_stream_of_agrees, random_u64, stream_of, Coins};
use crate::history::{kept_in, lemma_kept_trans, lemma_process_next_keeps};
use crate::token_data::TokenBehaviorTriggerWhenName as TriggerState;
use crate::token_instance::{copy_locations, damage_fits, spec_after_damage, TokenInstanceView, UnitStats};

verus! {

/// What a step of a group came to.
pub enum TriggerResult {
    /// The group goes on with its next step.
    Proceed,
    /// The group's cancel flag was found set. The queue treats this as `Proceed`: the
    /// group goes on with its next step.
    TerminateGroup,
    /// The player must answer the prompts before the group goes on.
    ReadPrompt(PromptCallback),
}

/// What the part a step does to the game came to.
#[derive(Clone, Copy, PartialEq, Eq, Structural, Debug)]
pub enum StepKind {
    Proceed,
    Terminate,
}

/// The name under which a step keeps the token it is about, if it has one.
pub open spec fn subject_key(s: TriggerState) -> Option<Seq<char>> {
    match s {
        TriggerState::WillDestroy => Some(context_keys::ATTACKER@),
        TriggerState::WillBeDestroyed => Some(context_keys::DEFENDER@),
        TriggerState::HasDestroyed => Some(context_keys::ATTACKER@),
        TriggerState::HasBeenDestroyed => Some(context_keys::DEFENDER@),
        TriggerState::WillBeMoved => Some(context_keys::TOKEN_INSTANCE@),
        TriggerState::HasBeenMoved => Some(context_keys::TOKEN_INSTANCE@),
        TriggerState::WillBeSummoned => Some(context_keys::TOKEN_INSTANCE@),
        TriggerState::HasBeenSummoned => Some(context_keys::TOKEN_INSTANCE@),
        TriggerState::WillAttack => Some(context_keys::ATTACKER@),
        TriggerState::WillBeAttacked => Some(context_keys::DEFENDER@),
        TriggerState::HasAttacked => Some(context_keys::ATTACKER@),
        TriggerState::HasBeenAttacked => Some(context_keys::DEFENDER@),
        TriggerState::TookDamage => Some(context_keys::DEFENDER@),
        TriggerState::WillBeEffectDamaged => Some(context_keys::DEFENDER@),
        TriggerState::HasBeenEffectDamaged => Some(context_keys::DEFENDER@),
        TriggerState::WillDefeat => Some(context_keys::ATTACKER@),
        TriggerState::WillBeDefeated => Some(context_keys::DEFENDER@),
        TriggerState::HasDefeated => Some(context_keys::ATTACKER@),
        TriggerState::HasBeenDefeated => Some(context_keys::DEFENDER@),
        TriggerState::WillLeaveLandscape => Some(context_keys::TOKEN_INSTANCE@),
        TriggerState::HasLeftLandscape => Some(context_keys::TOKEN_INSTANCE@),
        TriggerState::WillEnterLandscape => Some(context_keys::TOKEN_INSTANCE@),
        TriggerState::HasEnteredLandscape => Some(context_keys::TOKEN_INSTANCE@),
        TriggerState::WillEquip => Some(context_keys::EQUIP_TARGET@),
        TriggerState::HasEquipped => Some(context_keys::EQUIP_TARGET@),
        TriggerState::WillBeEquipped => Some(context_keys::EQUIP_TARGET@),
        TriggerState::HasBeenEquipped => Some(context_keys::EQUIPPING_ITEM@),
        TriggerState::HasBeenDrawn => Some(context_keys::DRAWN_TOKEN@),
        TriggerState::HasBeenCreated => Some(context_keys::CREATING_TOKEN@),
        _ => None,
    }
}

/// The name under which a step keeps the player it is about, for steps about no token.
pub open spec fn owner_key(s: TriggerState) -> Option<Seq<char>> {
    match s {
        TriggerState::WillDrawToken => Some(context_keys::PLAYER@),
        TriggerState::HasDrawnToken => Some(context_keys::PLAYER@),
        _ => None,
    }
}

/// The name under which a step keeps the token it is about; steps about no token are
/// refused.
pub fn what_is_this(state: TriggerState) -> (r: Result<&'static str, GameError>)
    ensures
        match subject_key(state) {
            Some(k) => r matches Ok(s) && s@ == k,
            None => r == Err::<&'static str, GameError>(GameError::UnknownSubject),
        },
{
    match state {
        TriggerState::WillDestroy => Ok(context_keys::ATTACKER),
        TriggerState::WillBeDestroyed => Ok(context_keys::DEFENDER),
        TriggerState::HasDestroyed => Ok(context_keys::ATTACKER),
        TriggerState::HasBeenDestroyed => Ok(context_keys::DEFENDER),
        TriggerState::WillBeMoved => Ok(context_keys::TOKEN_INSTANCE),
        TriggerState::HasBeenMoved => Ok(context_keys::TOKEN_INSTANCE),
        TriggerState::WillBeSummoned => Ok(context_keys::TOKEN_INSTANCE),
        TriggerState::HasBeenSummoned => Ok(context_keys::TOKEN_INSTANCE),
        TriggerState::WillAttack => Ok(context_keys::ATTACKER),
        TriggerState::WillBeAttacked => Ok(context_keys::DEFENDER),
        TriggerState::HasAttacked => Ok(context_keys::ATTACKER),
        TriggerState::HasBeenAttacked => Ok(context_keys::DEFENDER),
        TriggerState::TookDamage => Ok(context_keys::DEFENDER),
        TriggerState::WillBeEffectDamaged => Ok(context_keys::DEFENDER),
        TriggerState::HasBeenEffectDamaged => Ok(context_keys::DEFENDER),
        TriggerState::WillDefeat => Ok(context_keys::ATTACKER),
        TriggerState::WillBeDefeated => Ok(context_keys::DEFENDER),
        TriggerState::HasDefeated => Ok(context_keys::ATTACKER),
        TriggerState::HasBeenDefeated => Ok(context_keys::DEFENDER),
        TriggerState::WillLeaveLandscape => Ok(context_keys::TOKEN_INSTANCE),
        TriggerState::HasLeftLandscape => Ok(context_keys::TOKEN_INSTANCE),
        TriggerState::WillEnterLandscape => Ok(context_keys::TOKEN_INSTANCE),
        TriggerState::HasEnteredLandscape => Ok(context_keys::TOKEN_INSTANCE),
        TriggerState::WillEquip => Ok(context_keys::EQUIP_TARGET),
        TriggerState::HasEquipped => Ok(context_keys::EQUIP_TARGET),
        TriggerState::WillBeEquipped => Ok(context_keys::EQUIP_TARGET),
        TriggerState::HasBeenEquipped => Ok(context_keys::EQUIPPING_ITEM),
        TriggerState::HasBeenDrawn => Ok(context_keys::DRAWN_TOKEN),
        TriggerState::HasBeenCreated => Ok(context_keys::CREATING_TOKEN),
        _ => Err(GameError::UnknownSubject),
    }
}

/// The name under which a step keeps the player it is about; other steps are refused.
pub fn who_is_owner(state: TriggerState) -> (r: Result<&'static str, GameError>)
    ensures
        match owner_key(state) {
            Some(k) => r matches Ok(s) && s@ == k,
            None => r == Err::<&'static str, GameError>(GameError::UnknownSubject),
        },
{
    match state {
        TriggerState::WillDrawToken => Ok(context_keys::PLAYER),
        TriggerState::HasDrawnToken => Ok(context_keys::PLAYER),
        _ => Err(GameError::UnknownSubject),
    }
}

/// Nothing but the step's outcome changed.
pub open spec fn unchanged(
    pre: StateResources,
    post: StateResources,
    ctx: Map<Seq<char>, ContextValueView>,
    ctx_post: Map<Seq<char>, ContextValueView>,
    gp: Seq<GroupView>,
    gq: Seq<GroupView>,
    sp: Seq<OutgoingView>,
    sq: Seq<OutgoingView>,
) -> bool {
    &&& post.locs() == pre.locs()
    &&& post.tokens() == pre.tokens()
    &&& post.rv().ids == pre.rv().ids
    &&& post.player_1 == pre.player_1
    &&& post.player_2 == pre.player_2
    &&& ctx_post == ctx
    &&& gq == gp
    &&& sq == sp
}

/// The game is as `o` says, the players, queue and context staying as they were.
pub open spec fn as_outcome(
    o: Outcome,
    pre: StateResources,
    post: StateResources,
    ctx: Map<Seq<char>, ContextValueView>,
    ctx_post: Map<Seq<char>, ContextValueView>,
    gp: Seq<GroupView>,
    gq: Seq<GroupView>,
    sq: Seq<OutgoingView>,
) -> bool {
    &&& post.locs() == o.locs
    &&& post.tokens() == o.tokens
    &&& post.player_1 == pre.player_1
    &&& post.player_2 == pre.player_2
    &&& gq == gp
    &&& sq == o.sent
    &&& ctx_post == ctx
}

/// A step's outcome from the outcome of a move or a destruction.
pub open spec fn step_of(r: Result<(), GameError>) -> Result<StepKind, GameErrorView> {
    match r {
        Ok(_) => Ok(StepKind::Proceed),
        Err(e) => Err(e@),
    }
}

/// Moving the item into each slot in turn, whatever each move comes to.
pub open spec fn equip_fold(slots: Seq<LocationId>, item: TokenInstanceId, o: Outcome) -> Outcome
    decreases slots.len(),
{
    if slots.len() == 0 {
        o
    } else {
        let o2 = spec_move_token(o.locs, o.tokens, o.sent, item, slots[0], None);
        equip_fold(slots.drop_first(), item, Outcome { result: Ok(()), ..o2 })
    }
}

/// A token after taking damage.
pub open spec fn damaged(v: TokenInstanceView, amount: int) -> TokenInstanceView {
    TokenInstanceView { current_stats: spec_after_damage(v.current_stats, amount), ..v }
}

/// A flag in the context that is false when missing.
pub open spec fn ctx_flag(ctx: Map<Seq<char>, ContextValueView>, key: Seq<char>) -> Result<bool, GameErrorView> {
    if !ctx.contains_key(key) {
        Ok(false)
    } else {
        ctx_bool(ctx, key)
    }
}

/// What the part a step does to the game leads to, from `pre` (with context `ctx`, queue
/// `gp` and messages `sp`) to `post` (with `ctx_post`, `gq` and `sq`). `new_id` is the id a
/// token made by the step gets.
pub open spec fn spec_step(
    next: TriggerState,
    ctx: Map<Seq<char>, ContextValueView>,
    pre: StateResources,
    gp: Seq<GroupView>,
    sp: Seq<OutgoingView>,
    new_id: TokenInstanceId,
    post: StateResources,
    ctx_post: Map<Seq<char>, ContextValueView>,
    gq: Seq<GroupView>,
    sq: Seq<OutgoingView>,
    r: Result<StepKind, GameErrorView>,
) -> bool {
    let same = unchanged(pre, post, ctx, ctx_post, gp, gq, sp, sq);
    match next {
        TriggerState::CheckCancel => same && r == match ctx_flag(ctx, context_keys::CANCEL@) {
            Err(e) => Err(e),
            Ok(true) => Ok(StepKind::Terminate),
            Ok(false) => Ok(StepKind::Proceed),
        },
        TriggerState::HasBeenCreated => match ctx_string(ctx, context_keys::CREATING_TOKEN@) {
            Err(e) => same && r == Err::<StepKind, GameErrorView>(e),
            Ok(id) => match ctx_location(ctx, context_keys::TO_LOCATION@) {
                Err(e) => same && r == Err::<StepKind, GameErrorView>(e),
                Ok(loc) => match ctx_player(ctx, context_keys::PLAYER@) {
                    Err(e) => same && r == Err::<StepKind, GameErrorView>(e),
                    Ok(owner) => exists|cr: Result<TokenInstanceId, GameError>|
                        spec_create_token(pre, post, sp, sq, cr, id, new_id, loc, owner) && post.player_1
                            == pre.player_1 && post.player_2 == pre.player_2 && gq == gp && match cr {
                            Ok(t) => r == Ok::<StepKind, GameErrorView>(StepKind::Proceed) && ctx_post == ctx.insert(
                                context_keys::CREATING_TOKEN@,
                                ContextValueView::TokenInstanceId(t),
                            ),
                            Err(e) => r == Err::<StepKind, GameErrorView>(e@) && ctx_post == ctx,
                        },
                },
            },
        },
        TriggerState::HasBeenMoved => match ctx_token(ctx, context_keys::TOKEN_INSTANCE@) {
            Err(e) => same && r == Err::<StepKind, GameErrorView>(e),
            Ok(t) => match ctx_location(ctx, context_keys::TO_LOCATION@) {
                Err(e) => same && r == Err::<StepKind, GameErrorView>(e),
                Ok(to) => {
                    let o = spec_move_token(pre.locs(), pre.tokens(), sp, t, to, Some(AnimationPreset::EaseInOut));
                    as_outcome(o, pre, post, ctx, ctx_post, gp, gq, sq) && r == step_of(o.result)
                },
            },
        },
        TriggerState::HasBeenSummoned => match ctx_token(ctx, context_keys::TOKEN_INSTANCE@) {
            Err(e) => same && r == Err::<StepKind, GameErrorView>(e),
            Ok(t) => if !pre.tokens().contains_key(t) {
                same && r == Err::<StepKind, GameErrorView>(GameErrorView::TokenNotFound(t))
            } else {
                let tok = pre.tokens()[t];
                let s1 = sp.push(OutgoingView::Instruction(InstructionView::Reveal { token: t }));
                &&& post.locs() == pre.locs()
                &&& post.tokens() == pre.tokens()
                &&& ctx_post == ctx
                &&& gq == gp
                &&& if spec_player(pre, tok.owner).thaum < tok.cost {
                    &&& r == Err::<StepKind, GameErrorView>(GameErrorView::InvalidState)
                    &&& post.player_1 == pre.player_1 && post.player_2 == pre.player_2
                    &&& sq == s1
                } else {
                    let left = (spec_player(pre, tok.owner).thaum - tok.cost) as u32;
                    &&& r == Ok::<StepKind, GameErrorView>(StepKind::Proceed)
                    &&& spec_player(post, tok.owner) == Player { thaum: left, ..spec_player(pre, tok.owner) }
                    &&& spec_player(post, spec_opponent(tok.owner)) == spec_player(pre, spec_opponent(tok.owner))
                    &&& sq == s1.push(OutgoingView::Instruction(InstructionView::SetThaum { player_id: tok.owner, amount: left }))
                }
            },
        },
        TriggerState::HasAttacked => match ctx_token(ctx, context_keys::ATTACKER@) {
            Err(e) => same && r == Err::<StepKind, GameErrorView>(e),
            Ok(attacker) => match ctx_token(ctx, context_keys::DEFENDER@) {
                Err(e) => same && r == Err::<StepKind, GameErrorView>(e),
                Ok(defender) => if !pre.tokens().contains_key(defender) {
                    same && r == Err::<StepKind, GameErrorView>(GameErrorView::TokenNotFound(defender))
                } else {
                    unchanged(
                        pre,
                        post,
                        ctx,
                        ctx_post,
                        gp,
                        gq,
                        sp.push(
                            OutgoingView::Instruction(
                                InstructionView::Animate {
                                    token: attacker,
                                    location: pre.tokens()[defender].location,
                                    duration_ms: 500,
                                    preset: AnimationPreset::Attack,
                                },
                            ),
                        ),
                        sq,
                    ) && r == Ok::<StepKind, GameErrorView>(StepKind::Proceed)
                },
            },
        },
        TriggerState::HasBeenAttacked => match ctx_token(ctx, context_keys::ATTACKER@) {
            Err(e) => same && r == Err::<StepKind, GameErrorView>(e),
            Ok(attacker) => match ctx_token(ctx, context_keys::DEFENDER@) {
                Err(e) => same && r == Err::<StepKind, GameErrorView>(e),
                Ok(defender) => if !pre.tokens().contains_key(attacker) {
                    same && r == Err::<StepKind, GameErrorView>(GameErrorView::TokenNotFound(attacker))
                } else if !pre.tokens().contains_key(defender) {
                    same && r == Err::<StepKind, GameErrorView>(GameErrorView::TokenNotFound(defender))
                } else {
                    let amount = pre.tokens()[attacker].current_stats.attack as int;
                    let d = pre.tokens()[defender];
                    if !damage_fits(d.current_stats, amount) {
                        same && r == Err::<StepKind, GameErrorView>(GameErrorView::InvalidState)
                    } else {
                        let nd = damaged(d, amount);
                        let update = OutgoingView::Instruction(InstructionView::UpdateData { token_data: nd });
                        &&& post.locs() == pre.locs()
                        &&& post.tokens() == pre.tokens().insert(defender, nd)
                        &&& post.player_1 == pre.player_1 && post.player_2 == pre.player_2
                        &&& ctx_post == ctx
                        &&& if nd.current_stats.health == 0 {
                            &&& gq == seq![spec_defeat_group(attacker, defender)] + gp
                            &&& sq == sp.push(update)
                            &&& r == Ok::<StepKind, GameErrorView>(StepKind::Proceed)
                        } else {
                            match ctx_flag(ctx, context_keys::IS_COUNTER_ATTACK@) {
                                Err(e) => gq == gp && sq == sp && r == Err::<StepKind, GameErrorView>(e),
                                Ok(c) => {
                                    &&& gq == if c {
                                        gp
                                    } else {
                                        gp.push(spec_attack_group(defender, attacker, true))
                                    }
                                    &&& sq == sp.push(update)
                                    &&& r == Ok::<StepKind, GameErrorView>(StepKind::Proceed)
                                },
                            }
                        }
                    }
                },
            },
        },
        TriggerState::HasBeenEffectDamaged => match ctx_token(ctx, context_keys::ATTACKER@) {
            Err(e) => same && r == Err::<StepKind, GameErrorView>(e),
            Ok(attacker) => match ctx_token(ctx, context_keys::DEFENDER@) {
                Err(e) => same && r == Err::<StepKind, GameErrorView>(e),
                Ok(defender) => match ctx_i64(ctx, context_keys::EFFECT_DAMAGE@) {
                    Err(e) => same && r == Err::<StepKind, GameErrorView>(e),
                    Ok(damage) => if !pre.tokens().contains_key(defender) {
                        same && r == Err::<StepKind, GameErrorView>(GameErrorView::TokenNotFound(defender))
                    } else {
                        let amount = (damage as i32) as int;
                        let d = pre.tokens()[defender];
                        if !damage_fits(d.current_stats, amount) {
                            same && r == Err::<StepKind, GameErrorView>(GameErrorView::InvalidState)
                        } else {
                            let nd = damaged(d, amount);
                            &&& post.locs() == pre.locs()
                            &&& post.tokens() == pre.tokens().insert(defender, nd)
                            &&& post.player_1 == pre.player_1 && post.player_2 == pre.player_2
                            &&& ctx_post == ctx
                            &&& gq == if nd.current_stats.health == 0 {
                                seq![spec_defeat_group(attacker, defender)] + gp
                            } else {
                                gp
                            }
                            &&& sq == sp.push(OutgoingView::Instruction(InstructionView::UpdateData { token_data: nd }))
                            &&& r == Ok::<StepKind, GameErrorView>(StepKind::Proceed)
                        }
                    },
                },
            },
        },
        TriggerState::HasBeenDestroyed => match ctx_token(ctx, context_keys::DEFENDER@) {
            Err(e) => same && r == Err::<StepKind, GameErrorView>(e),
            Ok(defender) => {
                let o = spec_destroy(pre, sp, defender);
                as_outcome(o, pre, post, ctx, ctx_post, gp, gq, sq) && r == step_of(o.result)
            },
        },
        TriggerState::HasDrawnToken => match ctx_player(ctx, context_keys::PLAYER@) {
            Err(e) => same && r == Err::<StepKind, GameErrorView>(e),
            Ok(p) => {
                let deck = spec_player(pre, p).deck;
                let hand = spec_player(pre, p).hand;
                if !pre.locs().contains_key(deck) {
                    same && r == Err::<StepKind, GameErrorView>(GameErrorView::LocationNotFound(deck))
                } else if pre.locs()[deck].tokens.len() == 0 {
                    unchanged(
                        pre,
                        post,
                        ctx,
                        ctx_post,
                        gp,
                        gq,
                        sp.push(OutgoingView::Instruction(InstructionView::EndGame { winner: spec_opponent(p) })),
                        sq,
                    ) && r == Err::<StepKind, GameErrorView>(GameErrorView::DeckEmpty { winner: spec_opponent(p) })
                } else {
                    let t = pre.locs()[deck].tokens[0];
                    let o = spec_move_token(pre.locs(), pre.tokens(), sp, t, hand, None);
                    &&& as_outcome(o, pre, post, ctx, ctx, gp, gq, sq)
                    &&& r == step_of(o.result)
                    &&& ctx_post == if o.result is Ok {
                        ctx.insert(context_keys::DRAWN_TOKEN@, ContextValueView::TokenInstanceId(t))
                    } else {
                        ctx
                    }
                }
            },
        },
        TriggerState::HasBeenEquipped => match ctx_token(ctx, context_keys::EQUIP_TARGET@) {
            Err(e) => same && r == Err::<StepKind, GameErrorView>(e),
            Ok(unit) => match ctx_token(ctx, context_keys::EQUIPPING_ITEM@) {
                Err(e) => same && r == Err::<StepKind, GameErrorView>(e),
                Ok(item) => if !pre.tokens().contains_key(unit) {
                    same && r == Err::<StepKind, GameErrorView>(GameErrorView::TokenNotFound(unit))
                } else if !pre.tokens().contains_key(item) {
                    same && r == Err::<StepKind, GameErrorView>(GameErrorView::TokenNotFound(item))
                } else {
                    let o = equip_fold(
                        pre.tokens()[unit].equipment_slots,
                        item,
                        Outcome { result: Ok(()), locs: pre.locs(), tokens: pre.tokens(), sent: sp },
                    );
                    as_outcome(o, pre, post, ctx, ctx_post, gp, gq, sq) && r == Ok::<StepKind, GameErrorView>(StepKind::Proceed)
                },
            },
        },
        _ => same && r == Ok::<StepKind, GameErrorView>(StepKind::Proceed),
    }
}

/// A flag of the context, false when missing; a value there that is no flag is refused.
fn read_flag(context: &GameContext, key: &str) -> (r: Result<bool, GameError>)
    ensures
        res_view(r) == ctx_flag(context.view(), key@),
{
    match context.get(key) {
        Err(_) => Ok(false),
        Ok(v) => match v.as_bool() {
            Ok(b) => Ok(b),
            Err(e) => Err(GameError::WrongContextKind(e.0)),
        },
    }
}

/// Whether the damage fits the integer types the stats are kept in (see `damage_fits`).
fn fits_damage(s: UnitStats, amount: i32) -> (r: bool)
    ensures
        r == damage_fits(s, amount as int),
{
    let d: i64 = s.defense as i64 - amount as i64;
    if d < i32::MIN as i64 || d > i32::MAX as i64 {
        return false;
    }
    if d <= 0 && (s.health as i64) + d < i32::MIN as i64 {
        return false;
    }
    true
}

/// The step that makes a token (see `spec_step`).
fn step_created(
    context: &mut GameContext,
    state: &mut StateMachine,
    resources: &mut StateResources,
    communicator: &mut GameCommunicator,
    new_id: TokenInstanceId,
) -> (r: Result<StepKind, GameError>)
    requires
        old(resources).wf(),
    ensures
        final(resources).wf(),
        final(resources).same_frame_but_players(old(resources)),
        spec_step(
            TriggerState::HasBeenCreated,
            old(context).view(),
            *old(resources),
            old(state).groups(),
            old(communicator).sent(),
            new_id,
            *final(resources),
            final(context).view(),
            final(state).groups(),
            final(communicator).sent(),
            res_view(r),
        ),
{
    let id = match context.get_string(context_keys::CREATING_TOKEN) {
        Ok(s) => s,
        Err(e) => return Err(e),
    };
    let loc = match context.get_location_id(context_keys::TO_LOCATION) {
        Ok(l) => l,
        Err(e) => return Err(e),
    };
    let owner = match context.get_player_id(context_keys::PLAYER) {
        Ok(o) => o,
        Err(e) => return Err(e),
    };
    let cr = resources.create_token_with_id(id.as_str(), new_id, loc, owner, communicator);
    match cr {
        Ok(t) => {
            context.insert(context_keys::CREATING_TOKEN, ContextValue::TokenInstanceId(t));
            Ok(StepKind::Proceed)
        },
        Err(e) => Err(e),
    }
}

/// The step that moves a token (see `spec_step`).
fn step_moved(
    context: &mut GameContext,
    state: &mut StateMachine,
    resources: &mut StateResources,
    communicator: &mut GameCommunicator,
    new_id: TokenInstanceId,
) -> (r: Result<StepKind, GameError>)
    requires
        old(resources).wf(),
    ensures
        final(resources).wf(),
        final(resources).same_frame_but_players(old(resources)),
        spec_step(
            TriggerState::HasBeenMoved,
            old(context).view(),
            *old(resources),
            old(state).groups(),
            old(communicator).sent(),
            new_id,
            *final(resources),
            final(context).view(),
            final(state).groups(),
            final(communicator).sent(),
            res_view(r),
        ),
{
    let t = match context.get_token_id(context_keys::TOKEN_INSTANCE) {
        Ok(t) => t,
        Err(e) => return Err(e),
    };
    let to = match context.get_location_id(context_keys::TO_LOCATION) {
        Ok(l) => l,
        Err(e) => return Err(e),
    };
    match resources.move_token(t, to, Some(AnimationPreset::EaseInOut), communicator) {
        Ok(()) => Ok(StepKind::Proceed),
        Err(e) => Err(e),
    }
}

/// The step that completes a summoning: the token is revealed and its cost paid (see
/// `spec_step`). No equipment slot is made for the unit, so equipment slots stay as they
/// were.
fn step_summoned(
    context: &mut GameContext,
    state: &mut StateMachine,
    resources: &mut StateResources,
    communicator: &mut GameCommunicator,
    new_id: TokenInstanceId,
) -> (r: Result<StepKind, GameError>)
    requires
        old(resources).wf(),
    ensures
        final(resources).wf(),
        final(resources).same_frame_but_players(old(resources)),
        spec_step(
            TriggerState::HasBeenSummoned,
            old(context).view(),
            *old(resources),
            old(state).groups(),
            old(communicator).sent(),
            new_id,
            *final(resources),
            final(context).view(),
            final(state).groups(),
            final(communicator).sent(),
            res_view(r),
        ),
{
    let t = match context.get_token_id(context_keys::TOKEN_INSTANCE) {
        Ok(t) => t,
        Err(e) => return Err(e),
    };
    let ti = match resources.find_token(t) {
        None => return Err(GameError::TokenNotFound(t)),
        Some(i) => i,
    };
    let owner = resources.token_instances[ti].owner;
    let cost = resources.token_instances[ti].cost;
    communicator.send_game_instruction(InstructionToClient::Reveal { token: t });
    if resources.get_player(owner).thaum < cost {
        return Err(GameError::InvalidState);
    }
    Player::spend_thaum(owner, resources, cost, communicator);
    Ok(StepKind::Proceed)
}

/// The step that shows an attack (see `spec_step`).
fn step_attacked(
    context: &mut GameContext,
    state: &mut StateMachine,
    resources: &mut StateResources,
    communicator: &mut GameCommunicator,
    new_id: TokenInstanceId,
) -> (r: Result<StepKind, GameError>)
    requires
        old(resources).wf(),
    ensures
        final(resources).wf(),
        final(resources).same_frame_but_players(old(resources)),
        spec_step(
            TriggerState::HasAttacked,
            old(context).view(),
            *old(resources),
            old(state).groups(),
            old(communicator).sent(),
            new_id,
            *final(resources),
            final(context).view(),
            final(state).groups(),
            final(communicator).sent(),
            res_view(r),
        ),
{
    let attacker = match context.get_token_id(context_keys::ATTACKER) {
        Ok(t) => t,
        Err(e) => return Err(e),
    };
    let defender = match context.get_token_id(context_keys::DEFENDER) {
        Ok(t) => t,
        Err(e) => return Err(e),
    };
    let di = match resources.find_token(defender) {
        None => return Err(GameError::TokenNotFound(defender)),
        Some(i) => i,
    };
    communicator.send_game_instruction(
        InstructionToClient::Animate {
            token: attacker,
            location: resources.token_instances[di].location,
            duration_ms: 500,
            preset: AnimationPreset::Attack,
        },
    );
    Ok(StepKind::Proceed)
}

/// The step in which the defender takes the attacker's attack as damage (see
/// `spec_step`).
fn step_been_attacked(
    context: &mut GameContext,
    state: &mut StateMachine,
    resources: &mut StateResources,
    communicator: &mut GameCommunicator,
    new_id: TokenInstanceId,
) -> (r: Result<StepKind, GameError>)
    requires
        old(resources).wf(),
    ensures
        final(resources).wf(),
        final(resources).same_frame_but_players(old(resources)),
        spec_step(
            TriggerState::HasBeenAttacked,
            old(context).view(),
            *old(resources),
            old(state).groups(),
            old(communicator).sent(),
            new_id,
            *final(resources),
            final(context).view(),
            final(state).groups(),
            final(communicator).sent(),
            res_view(r),
        ),
{
    let attacker = match context.get_token_id(context_keys::ATTACKER) {
        Ok(t) => t,
        Err(e) => return Err(e),
    };
    let defender = match context.get_token_id(context_keys::DEFENDER) {
        Ok(t) => t,
        Err(e) => return Err(e),
    };
    let ai = match resources.find_token(attacker) {
        None => return Err(GameError::TokenNotFound(attacker)),
        Some(i) => i,
    };
    let di = match resources.find_token(defender) {
        None => return Err(GameError::TokenNotFound(defender)),
        Some(i) => i,
    };
    let amount = resources.token_instances[ai].current_stats.attack;
    let mut stats = resources.token_instances[di].current_stats;
    if !fits_damage(stats, amount) {
        return Err(GameError::InvalidState);
    }
    stats.process_damage(amount);
    let cost = resources.token_instances[di].cost;
    resources.update_token(di, stats, cost);
    if stats.health == 0 {
        state.defeat(attacker, defender);
    } else {
        let counter = match read_flag(context, context_keys::IS_COUNTER_ATTACK) {
            Ok(c) => c,
            Err(e) => return Err(e),
        };
        if !counter {
            state.attack(defender, attacker, true);
        }
    }
    communicator.send_game_instruction(InstructionToClient::UpdateData { token_data: resources.token_instances[di].duplicate() });
    Ok(StepKind::Proceed)
}

/// The step in which the defender takes damage from an effect (see `spec_step`).
fn step_effect_damaged(
    context: &mut GameContext,
    state: &mut StateMachine,
    resources: &mut StateResources,
    communicator: &mut GameCommunicator,
    new_id: TokenInstanceId,
) -> (r: Result<StepKind, GameError>)
    requires
        old(resources).wf(),
    ensures
        final(resources).wf(),
        final(resources).same_frame_but_players(old(resources)),
        spec_step(
            TriggerState::HasBeenEffectDamaged,
            old(context).view(),
            *old(resources),
            old(state).groups(),
            old(communicator).sent(),
            new_id,
            *final(resources),
            final(context).view(),
            final(state).groups(),
            final(communicator).sent(),
            res_view(r),
        ),
{
    let attacker = match context.get_token_id(context_keys::ATTACKER) {
        Ok(t) => t,
        Err(e) => return Err(e),
    };
    let defender = match context.get_token_id(context_keys::DEFENDER) {
        Ok(t) => t,
        Err(e) => return Err(e),
    };
    let damage = match context.get_i64(context_keys::EFFECT_DAMAGE) {
        Ok(d) => d,
        Err(e) => return Err(e),
    };
    let di = match resources.find_token(defender) {
        None => return Err(GameError::TokenNotFound(defender)),
        Some(i) => i,
    };
    let amount = damage as i32;
    let mut stats = resources.token_instances[di].current_stats;
    if !fits_damage(stats, amount) {
        return Err(GameError::InvalidState);
    }
    stats.process_damage(amount);
    let cost = resources.token_instances[di].cost;
    resources.update_token(di, stats, cost);
    if stats.health == 0 {
        state.defeat(attacker, defender);
    }
    communicator.send_game_instruction(InstructionToClient::UpdateData { token_data: resources.token_instances[di].duplicate() });
    Ok(StepKind::Proceed)
}

/// The step that destroys the defender (see `spec_step`).
fn step_destroyed(
    context: &mut GameContext,
    state: &mut StateMachine,
    resources: &mut StateResources,
    communicator: &mut GameCommunicator,
    new_id: TokenInstanceId,
) -> (r: Result<StepKind, GameError>)
    requires
        old(resources).wf(),
    ensures
        final(resources).wf(),
        final(resources).same_frame_but_players(old(resources)),
        spec_step(
            TriggerState::HasBeenDestroyed,
            old(context).view(),
            *old(resources),
            old(state).groups(),
            old(communicator).sent(),
            new_id,
            *final(resources),
            final(context).view(),
            final(state).groups(),
            final(communicator).sent(),
            res_view(r),
        ),
{
    let defender = match context.get_token_id(context_keys::DEFENDER) {
        Ok(t) => t,
        Err(e) => return Err(e),
    };
    match resources.destroy_token(defender, communicator) {
        Ok(()) => Ok(StepKind::Proceed),
        Err(e) => Err(e),
    }
}

/// The step in which the player draws the first token of their deck (see `spec_step`).
fn step_drawn(
    context: &mut GameContext,
    state: &mut StateMachine,
    resources: &mut StateResources,
    communicator: &mut GameCommunicator,
    new_id: TokenInstanceId,
) -> (r: Result<StepKind, GameError>)
    requires
        old(resources).wf(),
    ensures
        final(resources).wf(),
        final(resources).same_frame_but_players(old(resources)),
        spec_step(
            TriggerState::HasDrawnToken,
            old(context).view(),
            *old(resources),
            old(state).groups(),
            old(communicator).sent(),
            new_id,
            *final(resources),
            final(context).view(),
            final(state).groups(),
            final(communicator).sent(),
            res_view(r),
        ),
{
    let p = match context.get_player_id(context_keys::PLAYER) {
        Ok(p) => p,
        Err(e) => return Err(e),
    };
    let deck = resources.get_player(p).deck;
    let hand = resources.get_player(p).hand;
    let di = match resources.find_location(deck) {
        None => return Err(GameError::LocationNotFound(deck)),
        Some(i) => i,
    };
    match resources.locations[di].get_token() {
        None => {
            let winner = p.opponent();
            communicator.send_game_instruction(InstructionToClient::EndGame { winner });
            Err(GameError::DeckEmpty { winner })
        },
        Some(t) => match resources.move_token(t, hand, None, communicator) {
            Ok(()) => {
                context.insert(context_keys::DRAWN_TOKEN, ContextValue::TokenInstanceId(t));
                Ok(StepKind::Proceed)
            },
            Err(e) => Err(e),
        },
    }
}

/// The step that moves the item into each equipment slot of the unit (see `spec_step`).
fn step_equipped(
    context: &mut GameContext,
    state: &mut StateMachine,
    resources: &mut StateResources,
    communicator: &mut GameCommunicator,
    new_id: TokenInstanceId,
) -> (r: Result<StepKind, GameError>)
    requires
        old(resources).wf(),
    ensures
        final(resources).wf(),
        final(resources).same_frame_but_players(old(resources)),
        spec_step(
            TriggerState::HasBeenEquipped,
            old(context).view(),
            *old(resources),
            old(state).groups(),
            old(communicator).sent(),
            new_id,
            *final(resources),
            final(context).view(),
            final(state).groups(),
            final(communicator).sent(),
            res_view(r),
        ),
{
    let unit = match context.get_token_id(context_keys::EQUIP_TARGET) {
        Ok(t) => t,
        Err(e) => return Err(e),
    };
    let item = match context.get_token_id(context_keys::EQUIPPING_ITEM) {
        Ok(t) => t,
        Err(e) => return Err(e),
    };
    let ui = match resources.find_token(unit) {
        None => return Err(GameError::TokenNotFound(unit)),
        Some(i) => i,
    };
    if resources.find_token(item).is_none() {
        return Err(GameError::TokenNotFound(item));
    }
    let slots = copy_locations(&resources.token_instances[ui].equipment_slots);
    let ghost o0 = Outcome { result: Ok(()), locs: resources.locs(), tokens: resources.tokens(), sent: communicator.sent() };
    let mut k: usize = 0;
    assert(slots@.skip(0) =~= slots@);
    while k < slots.len()
        invariant
            resources.wf(),
            resources.same_frame(old(resources)),
            k <= slots@.len(),
            equip_fold(slots@, item, o0) == equip_fold(
                slots@.skip(k as int),
                item,
                Outcome { result: Ok(()), locs: resources.locs(), tokens: resources.tokens(), sent: communicator.sent() },
            ),
        decreases slots.len() - k,
    {
        assert(slots@.skip(k as int)[0] == slots@[k as int]);
        assert(slots@.skip(k as int).drop_first() =~= slots@.skip(k + 1));
        let _ = resources.move_token(item, slots[k], None, communicator);
        k = k + 1;
    }
    assert(slots@.skip(k as int) =~= Seq::<LocationId>::empty());
    Ok(StepKind::Proceed)
}

/// The part a step does to the game (see `spec_step`).
fn do_step(
    next: TriggerState,
    context: &mut GameContext,
    state: &mut StateMachine,
    resources: &mut StateResources,
    communicator: &mut GameCommunicator,
    new_id: TokenInstanceId,
) -> (r: Result<StepKind, GameError>)
    requires
        old(resources).wf(),
    ensures
        final(resources).wf(),
        final(resources).same_frame_but_players(old(resources)),
        spec_step(
            next,
            old(context).view(),
            *old(resources),
            old(state).groups(),
            old(communicator).sent(),
            new_id,
            *final(resources),
            final(context).view(),
            final(state).groups(),
            final(communicator).sent(),
            res_view(r),
        ),
{
    match next {
        TriggerState::CheckCancel => match read_flag(context, context_keys::CANCEL) {
            Ok(true) => Ok(StepKind::Terminate),
            Ok(false) => Ok(StepKind::Proceed),
            Err(e) => Err(e),
        },
        TriggerState::HasBeenCreated => step_created(context, state, resources, communicator, new_id),
        TriggerState::HasBeenMoved => step_moved(context, state, resources, communicator, new_id),
        TriggerState::HasBeenSummoned => step_summoned(context, state, resources, communicator, new_id),
        TriggerState::HasAttacked => step_attacked(context, state, resources, communicator, new_id),
        TriggerState::HasBeenAttacked => step_been_attacked(context, state, resources, communicator, new_id),
        TriggerState::HasBeenEffectDamaged => step_effect_damaged(context, state, resources, communicator, new_id),
        TriggerState::HasBeenDestroyed => step_destroyed(context, state, resources, communicator, new_id),
        TriggerState::HasDrawnToken => step_drawn(context, state, resources, communicator, new_id),
        TriggerState::HasBeenEquipped => step_equipped(context, state, resources, communicator, new_id),
        _ => Ok(StepKind::Proceed),
    }
}

/// The context once it says whose the step is: for a step about a token, that token
/// (which must be in play) and its owner; otherwise the player the step is about.
pub open spec fn spec_subject(
    next: TriggerState,
    ctx: Map<Seq<char>, ContextValueView>,
    tokens: Map<TokenInstanceId, TokenInstanceView>,
) -> Result<Map<Seq<char>, ContextValueView>, GameErrorView> {
    match subject_key(next) {
        Some(k) => if !ctx.contains_key(k) {
            Err(GameErrorView::MissingContextKey(k))
        } else {
            match ctx[k] {
                ContextValueView::TokenInstanceId(t) => if !tokens.contains_key(t) {
                    Err(GameErrorView::TokenNotFound(t))
                } else {
                    Ok(
                        ctx.insert(context_keys::OWNER@, ContextValueView::PlayerId(tokens[t].owner)).insert(
                            context_keys::TRIGGER_THIS@,
                            ctx[k],
                        ),
                    )
                },
                _ => Err(GameErrorView::WrongContextKind(ContextValueKind::TokenInstanceId)),
            }
        },
        None => match owner_key(next) {
            None => Err(GameErrorView::UnknownSubject),
            Some(k) => if !ctx.contains_key(k) {
                Err(GameErrorView::MissingContextKey(k))
            } else {
                Ok(ctx.insert(context_keys::OWNER@, ctx[k]))
            },
        },
    }
}

/// The items in the equipment slots, in order; a slot that is no location is refused.
pub open spec fn spec_items(slots: Seq<LocationId>, locs: Map<LocationId, LocationView>) -> Result<
    Seq<TokenInstanceId>,
    GameErrorView,
>
    decreases slots.len(),
{
    if slots.len() == 0 {
        Ok(Seq::empty())
    } else if !locs.contains_key(slots[0]) {
        Err(GameErrorView::LocationNotFound(slots[0]))
    } else {
        match spec_items(slots.drop_first(), locs) {
            Err(e) => Err(e),
            Ok(rest) => Ok(
                if locs[slots[0]].tokens.len() > 0 {
                    seq![locs[slots[0]].tokens[0]] + rest
                } else {
                    rest
                },
            ),
        }
    }
}

/// Letting each item react in turn, each named in the context as what acts.
pub open spec fn item_fold(
    items: Seq<TokenInstanceId>,
    next: TriggerState,
    ctx: Map<Seq<char>, ContextValueView>,
    w: WorldView,
    cs: spec_fn(int) -> bool,
) -> (Option<GameErrorView>, Map<Seq<char>, ContextValueView>, WorldView)
    decreases items.len(),
{
    if items.len() == 0 {
        (None, ctx, w)
    } else {
        let ctx1 = ctx.insert(context_keys::ACTION_THIS@, ContextValueView::TokenInstanceId(items[0]));
        let (e, w1) = spec_trigger(items[0], next, ctx1, w, cs);
        match e {
            Some(e) => (Some(e), ctx1, w1),
            None => item_fold(items.drop_first(), next, ctx1, w1, cs),
        }
    }
}

/// One token reacting: first the items in its equipment slots, then the token itself,
/// each named in the context as what acts.
pub open spec fn token_step(
    t: TokenInstanceId,
    next: TriggerState,
    ctx: Map<Seq<char>, ContextValueView>,
    w: WorldView,
    locs: Map<LocationId, LocationView>,
    cs: spec_fn(int) -> bool,
) -> (Option<GameErrorView>, Map<Seq<char>, ContextValueView>, WorldView) {
    if !w.rv.tokens.contains_key(t) {
        (Some(GameErrorView::TokenNotFound(t)), ctx, w)
    } else {
        match spec_items(w.rv.tokens[t].equipment_slots, locs) {
            Err(e) => (Some(e), ctx, w),
            Ok(items) => {
                let (e1, ctx1, w1) = item_fold(items, next, ctx, w, cs);
                match e1 {
                    Some(e) => (Some(e), ctx1, w1),
                    None => {
                        let ctx2 = ctx1.insert(context_keys::ACTION_THIS@, ContextValueView::TokenInstanceId(t));
                        let (e2, w2) = spec_trigger(t, next, ctx2, w1, cs);
                        (e2, ctx2, w2)
                    },
                }
            },
        }
    }
}

/// Letting each token in play react in turn (see `token_step`); the first failure stops
/// the rest.
pub open spec fn trig_fold(
    ts: Seq<TokenInstanceId>,
    next: TriggerState,
    ctx: Map<Seq<char>, ContextValueView>,
    w: WorldView,
    locs: Map<LocationId, LocationView>,
    cs: spec_fn(int) -> bool,
) -> (Option<GameErrorView>, Map<Seq<char>, ContextValueView>, WorldView)
    decreases ts.len(),
{
    if ts.len() == 0 {
        (None, ctx, w)
    } else {
        let (e, ctx1, w1) = token_step(ts[0], next, ctx, w, locs, cs);
        match e {
            Some(e) => (Some(e), ctx1, w1),
            None => trig_fold(ts.drop_first(), next, ctx1, w1, locs, cs),
        }
    }
}

/// What letting the tokens react to a step leads to: the context says whose the step is,
/// then every token in play reacts (see `trig_fold`). Missing board locations are refused.
pub open spec fn spec_phase(
    next: TriggerState,
    ctx: Map<Seq<char>, ContextValueView>,
    locs: Map<LocationId, LocationView>,
    board: Board,
    w: WorldView,
    cs: spec_fn(int) -> bool,
) -> (Option<GameErrorView>, Map<Seq<char>, ContextValueView>, WorldView) {
    match spec_subject(next, ctx, w.rv.tokens) {
        Err(e) => (Some(e), ctx, w),
        Ok(ctx2) => if !(side_locations_exist(locs, board.side_1) && side_locations_exist(locs, board.side_2)) {
            (Some(GameErrorView::InvalidState), ctx2, w)
        } else {
            trig_fold(spec_tokens_in_play(locs, board), next, ctx2, w, locs, cs)
        },
    }
}

impl StateResources {
    /// Whether every location of both sides of the board exists.
    pub fn board_locations_exist(&self) -> (r: bool)
        requires
            self.wf(),
        ensures
            r == (side_locations_exist(self.locs(), self.board.side_1) && side_locations_exist(self.locs(), self.board.side_2)),
    {
        self.side_locations_ok(&self.board.side_1) && self.side_locations_ok(&self.board.side_2)
    }

    fn side_locations_ok(&self, side: &crate::board::BoardSide) -> (r: bool)
        requires
            self.wf(),
        ensures
            r == side_locations_exist(self.locs(), *side),
    {
        if self.find_location(side.hero).is_none() || self.find_location(side.landscape).is_none()
            || self.find_location(side.graveyard).is_none() {
            return false;
        }
        let mut i: usize = 0;
        while i < side.field.len()
            invariant
                self.wf(),
                i <= side.field@.len(),
                forall|j: int| 0 <= j < i ==> self.locs().contains_key(#[trigger] side.field@[j]),
            decreases side.field.len() - i,
        {
            if self.find_location(side.field[i]).is_none() {
                return false;
            }
            i = i + 1;
        }
        true
    }

    /// The items in the equipment slots (see `spec_items`).
    fn items_in(&self, slots: &Vec<LocationId>) -> (r: Result<Vec<TokenInstanceId>, GameError>)
        requires
            self.wf(),
        ensures
            crate::behaviors::ids_view(r) == spec_items(slots@, self.locs()),
    {
        let mut items: Vec<TokenInstanceId> = Vec::new();
        let mut i: usize = slots.len();
        let mut missing: Option<LocationId> = None;
        let mut k: usize = 0;
        while k < slots.len()
            invariant
                self.wf(),
                k <= slots@.len(),
                missing is None ==> forall|j: int| 0 <= j < k ==> self.locs().contains_key(#[trigger] slots@[j]),
                missing matches Some(l) ==> exists|j: int| 0 <= j < k && slots@[j] == l && !self.locs().contains_key(l)
                    && forall|m: int| 0 <= m < j ==> self.locs().contains_key(#[trigger] slots@[m]),
            decreases slots.len() - k,
        {
            if missing.is_none() && self.find_location(slots[k]).is_none() {
                missing = Some(slots[k]);
            }
            k = k + 1;
        }
        match missing {
            Some(l) => {
                proof {
                    let j = choose|j: int|
                        0 <= j < slots@.len() && slots@[j] == l && !self.locs().contains_key(l) && forall|m: int|
                            0 <= m < j ==> self.locs().contains_key(#[trigger] slots@[m]);
                    lemma_items_missing(slots@, self.locs(), j);
                }
                return Err(GameError::LocationNotFound(l));
            },
            None => {},
        }
        // every slot exists: gather from the back so the spec's first-to-last order holds
        proof {
            assert(slots@.skip(slots@.len() as int) =~= Seq::<LocationId>::empty());
        }
        while i > 0
            invariant
                self.wf(),
                i <= slots@.len(),
                forall|j: int| 0 <= j < slots@.len() ==> self.locs().contains_key(#[trigger] slots@[j]),
                spec_items(slots@.skip(i as int), self.locs()) == Ok::<Seq<TokenInstanceId>, GameErrorView>(items@),
            decreases i,
        {
            let ghost rest = slots@.skip(i - 1);
            assert(rest[0] == slots@[i - 1]);
            assert(rest.drop_first() =~= slots@.skip(i as int));
            let li = self.find_location(slots[i - 1]).unwrap();
            match self.locations[li].get_token() {
                Some(t) => {
                    let mut v: Vec<TokenInstanceId> = Vec::new();
                    v.push(t);
                    v.append(&mut items);
                    items = v;
                },
                None => {},
            }
            i = i - 1;
            proof {
                assert(spec_items(slots@.skip(i as int), self.locs()) =~~= Ok::<Seq<TokenInstanceId>, GameErrorView>(items@));
            }
        }
        assert(slots@.skip(0) =~= slots@);
        Ok(items)
    }
}

/// A missing slot with every earlier slot present makes the gathering fail there.
proof fn lemma_items_missing(slots: Seq<LocationId>, locs: Map<LocationId, LocationView>, j: int)
    requires
        0 <= j < slots.len(),
        !locs.contains_key(slots[j]),
        forall|m: int| 0 <= m < j ==> locs.contains_key(#[trigger] slots[m]),
    ensures
        spec_items(slots, locs) == Err::<Seq<TokenInstanceId>, GameErrorView>(GameErrorView::LocationNotFound(slots[j])),
    decreases j,
{
    if j > 0 {
        assert(locs.contains_key(slots[0]));
        let d = slots.drop_first();
        assert forall|m: int| 0 <= m < j - 1 implies locs.contains_key(#[trigger] d[m]) by {
            assert(d[m] == slots[m + 1]);
        }
        lemma_items_missing(d, locs, j - 1);
    }
}

/// Lets the tokens react to a step (see `spec_phase`), random player choices taking flips
/// of `coins`.
fn react(
    next: TriggerState,
    context: &mut GameContext,
    state: &mut StateMachine,
    resources: &mut StateResources,
    communicator: &mut GameCommunicator,
    coins: &mut Coins,
) -> (r: Result<(), GameError>)
    requires
        old(resources).wf(),
    ensures
        final(resources).wf(),
        final(resources).same_frame(old(resources)),
        final(resources).locations == old(resources).locations,
        extends(final(coins)@, old(coins)@),
        forall|cs: spec_fn(int) -> bool|
            agrees(cs, final(coins)@) ==> #[trigger] spec_phase(
                next,
                old(context).view(),
                old(resources).locs(),
                old(resources).board,
                world(*old(resources), *old(state), *old(communicator), old(coins)@.len() as int),
                cs,
            ) == (unit_view(r), final(context).view(), world(*final(resources), *final(state), *final(communicator), final(coins)@.len() as int)),
{
    let ghost wp = world(*resources, *state, *communicator, coins@.len() as int);
    match set_subject(next, context, resources) {
        Ok(()) => {},
        Err(e) => return Err(e),
    }
    if !resources.board_locations_exist() {
        return Err(GameError::InvalidState);
    }
    let ghost locs = resources.locs();
    let ghost w0 = world(*resources, *state, *communicator, coins@.len() as int);
    let ghost ctx0 = context.view();
    let tokens = resources.board.get_tokens_in_play(resources);
    let mut i: usize = 0;
    assert(tokens@.skip(0) =~= tokens@);
    assert forall|cs: spec_fn(int) -> bool| agrees(cs, coins@) implies #[trigger] spec_phase(next, old(context).view(), old(resources).locs(), old(resources).board, wp, cs)
        == trig_fold(tokens@.skip(0), next, context.view(), world(*resources, *state, *communicator, coins@.len() as int), locs, cs) by {}
    while i < tokens.len()
        invariant
            resources.wf(),
            resources.same_frame(old(resources)),
            resources.locations == old(resources).locations,
            locs == resources.locs(),
            i <= tokens@.len(),
            wp == world(*old(resources), *old(state), *old(communicator), old(coins)@.len() as int),
            extends(coins@, old(coins)@),
            forall|cs: spec_fn(int) -> bool|
                agrees(cs, coins@) ==> #[trigger] spec_phase(next, old(context).view(), old(resources).locs(), old(resources).board, wp, cs)
                    == trig_fold(
                    tokens@.skip(i as int),
                    next,
                    context.view(),
                    world(*resources, *state, *communicator, coins@.len() as int),
                    locs,
                    cs,
                ),
        decreases tokens.len() - i,
    {
        let ghost rest = tokens@.skip(i as int);
        assert(rest[0] == tokens@[i as int]);
        assert(rest.drop_first() =~= tokens@.skip(i + 1));
        let ghost c1 = coins@;
        let ghost ctx1 = context.view();
        let ghost w1 = world(*resources, *state, *communicator, coins@.len() as int);
        let rt = react_token(tokens[i], next, context, state, resources, communicator, coins);
        proof {
            assert forall|a: int| 0 <= a < old(coins)@.len() implies #[trigger] coins@[a] == old(coins)@[a] by {
                assert(coins@[a] == c1[a]);
            }
        }
        match rt {
            Ok(()) => {
                proof {
                    assert forall|cs: spec_fn(int) -> bool| agrees(cs, coins@) implies #[trigger] spec_phase(next, old(context).view(), old(resources).locs(), old(resources).board, wp, cs)
                        == trig_fold(tokens@.skip(i + 1), next, context.view(), world(*resources, *state, *communicator, coins@.len() as int), locs, cs) by {
                        lemma_agrees_prefix(cs, coins@, c1);
                        assert(token_step(tokens@[i as int], next, ctx1, w1, locs, cs)
                            == (unit_view(rt), context.view(), world(*resources, *state, *communicator, coins@.len() as int)));
                    }
                }
            },
            Err(e) => {
                proof {
                    assert forall|cs: spec_fn(int) -> bool| agrees(cs, coins@) implies #[trigger] spec_phase(next, old(context).view(), old(resources).locs(), old(resources).board, wp, cs)
                        == (unit_view(Err::<(), GameError>(e)), context.view(), world(*resources, *state, *communicator, coins@.len() as int)) by {
                        lemma_agrees_prefix(cs, coins@, c1);
                        assert(token_step(tokens@[i as int], next, ctx1, w1, locs, cs)
                            == (unit_view(rt), context.view(), world(*resources, *state, *communicator, coins@.len() as int)));
                    }
                }
                return Err(e);
            },
        }
        i = i + 1;
    }
    assert(tokens@.skip(i as int) =~= Seq::<TokenInstanceId>::empty());
    Ok(())
}

/// Lets one token in play react to a step (see `token_step`), random player choices
/// taking flips of `coins`.
fn react_token(
    t: TokenInstanceId,
    next: TriggerState,
    context: &mut GameContext,
    state: &mut StateMachine,
    resources: &mut StateResources,
    communicator: &mut GameCommunicator,
    coins: &mut Coins,
) -> (r: Result<(), GameError>)
    requires
        old(resources).wf(),
    ensures
        final(resources).wf(),
        final(resources).same_frame(old(resources)),
        final(resources).locations == old(resources).locations,
        extends(final(coins)@, old(coins)@),
        forall|cs: spec_fn(int) -> bool|
            agrees(cs, final(coins)@) ==> #[trigger] token_step(
                t,
                next,
                old(context).view(),
                world(*old(resources), *old(state), *old(communicator), old(coins)@.len() as int),
                old(resources).locs(),
                cs,
            ) == (unit_view(r), final(context).view(), world(*final(resources), *final(state), *final(communicator), final(coins)@.len() as int)),
{
    let ghost locs = resources.locs();
    let ti = match resources.find_token(t) {
        None => return Err(GameError::TokenNotFound(t)),
        Some(ti) => ti,
    };
    let slots = copy_locations(&resources.token_instances[ti].equipment_slots);
    let items = match resources.items_in(&slots) {
        Ok(v) => v,
        Err(e) => return Err(e),
    };
    let ghost ctx_a = context.view();
    let ghost w_a = world(*resources, *state, *communicator, coins@.len() as int);
    let mut k: usize = 0;
    assert(items@.skip(0) =~= items@);
    while k < items.len()
        invariant
            resources.wf(),
            resources.same_frame(old(resources)),
            resources.locations == old(resources).locations,
            locs == resources.locs(),
            ctx_a == old(context).view(),
            w_a == world(*old(resources), *old(state), *old(communicator), old(coins)@.len() as int),
            spec_items(w_a.rv.tokens[t].equipment_slots, locs) == Ok::<Seq<TokenInstanceId>, GameErrorView>(items@),
            w_a.rv.tokens.contains_key(t),
            k <= items@.len(),
            extends(coins@, old(coins)@),
            forall|cs: spec_fn(int) -> bool|
                agrees(cs, coins@) ==> #[trigger] item_fold(items@, next, ctx_a, w_a, cs) == item_fold(
                    items@.skip(k as int),
                    next,
                    context.view(),
                    world(*resources, *state, *communicator, coins@.len() as int),
                    cs,
                ),
        decreases items.len() - k,
    {
        let ghost irest = items@.skip(k as int);
        assert(irest[0] == items@[k as int]);
        assert(irest.drop_first() =~= items@.skip(k + 1));
        let ghost ctx0 = context.view();
        context.insert(context_keys::ACTION_THIS, ContextValue::TokenInstanceId(items[k]));
        let ghost c1 = coins@;
        let ghost ctx1 = context.view();
        let ghost w1 = world(*resources, *state, *communicator, coins@.len() as int);
        let rt = trigger_card_behaviors_with(items[k], next, context, state, resources, communicator, coins);
        proof {
            assert forall|a: int| 0 <= a < old(coins)@.len() implies #[trigger] coins@[a] == old(coins)@[a] by {
                assert(coins@[a] == c1[a]);
            }
        }
        match rt {
            Ok(()) => {
                proof {
                    assert forall|cs: spec_fn(int) -> bool| agrees(cs, coins@) implies #[trigger] item_fold(items@, next, ctx_a, w_a, cs)
                        == item_fold(items@.skip(k + 1), next, context.view(), world(*resources, *state, *communicator, coins@.len() as int), cs) by {
                        lemma_agrees_prefix(cs, coins@, c1);
                        assert(spec_trigger(items@[k as int], next, ctx1, w1, cs)
                            == (unit_view(rt), world(*resources, *state, *communicator, coins@.len() as int)));
                        assert(item_fold(items@, next, ctx_a, w_a, cs) == item_fold(irest, next, ctx0, w1, cs));
                    }
                }
            },
            Err(e) => {
                proof {
                    assert forall|cs: spec_fn(int) -> bool| agrees(cs, coins@) implies #[trigger] token_step(t, next, old(context).view(), w_a, locs, cs)
                        == (unit_view(Err::<(), GameError>(e)), context.view(), world(*resources, *state, *communicator, coins@.len() as int)) by {
                        lemma_agrees_prefix(cs, coins@, c1);
                        assert(spec_trigger(items@[k as int], next, ctx1, w1, cs)
                            == (unit_view(rt), world(*resources, *state, *communicator, coins@.len() as int)));
                        assert(item_fold(items@, next, ctx_a, w_a, cs) == item_fold(irest, next, ctx0, w1, cs));
                    }
                }
                return Err(e);
            },
        }
        k = k + 1;
    }
    assert(items@.skip(k as int) =~= Seq::<TokenInstanceId>::empty());
    let ghost c2 = coins@;
    let ghost w2 = world(*resources, *state, *communicator, coins@.len() as int);
    let ghost ctx_end = context.view();
    context.insert(context_keys::ACTION_THIS, ContextValue::TokenInstanceId(t));
    let ghost ctx2 = context.view();
    let r = trigger_card_behaviors_with(t, next, context, state, resources, communicator, coins);
    proof {
        assert forall|a: int| 0 <= a < old(coins)@.len() implies #[trigger] coins@[a] == old(coins)@[a] by {
            assert(coins@[a] == c2[a]);
        }
        assert forall|cs: spec_fn(int) -> bool| agrees(cs, coins@) implies #[trigger] token_step(t, next, old(context).view(), w_a, locs, cs)
            == (unit_view(r), context.view(), world(*resources, *state, *communicator, coins@.len() as int)) by {
            lemma_agrees_prefix(cs, coins@, c2);
            assert(item_fold(items@, next, ctx_a, w_a, cs) == item_fold(items@.skip(k as int), next, ctx_end, w2, cs));
            assert(spec_trigger(t, next, ctx2, w2, cs) == (unit_view(r), world(*resources, *state, *communicator, coins@.len() as int)));
        }
    }
    r
}

/// Says in the context whose the step is (see `spec_subject`).
fn set_subject(next: TriggerState, context: &mut GameContext, resources: &StateResources) -> (r: Result<(), GameError>)
    requires
        resources.wf(),
    ensures
        match spec_subject(next, old(context).view(), resources.tokens()) {
            Ok(c) => r is Ok && final(context).view() == c,
            Err(e) => r matches Err(x) && x@ == e && final(context).view() == old(context).view(),
        },
{
    match what_is_this(next) {
        Ok(key) => {
            let v = match context.get(key) {
                Err(e) => return Err(GameError::MissingContextKey(e.0)),
                Ok(v) => v.duplicate(),
            };
            let t = match v.as_token_instance_id() {
                Ok(t) => t,
                Err(e) => return Err(GameError::WrongContextKind(e.0)),
            };
            let ti = match resources.find_token(t) {
                None => return Err(GameError::TokenNotFound(t)),
                Some(i) => i,
            };
            let owner = resources.token_instances[ti].owner;
            context.insert(context_keys::OWNER, ContextValue::PlayerId(owner));
            context.insert(context_keys::TRIGGER_THIS, v);
        },
        Err(_) => {
            let key = match who_is_owner(next) {
                Ok(k) => k,
                Err(e) => return Err(e),
            };
            let v = match context.get(key) {
                Err(e) => return Err(GameError::MissingContextKey(e.0)),
                Ok(v) => v.duplicate(),
            };
            context.insert(context_keys::OWNER, v);
        },
    }
    Ok(())
}

/// What a group step came to, as a value; a request for prompts has none.
pub open spec fn kind_of(r: Result<TriggerResult, GameError>) -> Option<Result<StepKind, GameErrorView>> {
    match r {
        Ok(TriggerResult::Proceed) => Some(Ok(StepKind::Proceed)),
        Ok(TriggerResult::TerminateGroup) => Some(Ok(StepKind::Terminate)),
        Ok(TriggerResult::ReadPrompt(_)) => None,
        Err(e) => Some(Err(e@)),
    }
}

/// The game after the part a step does to it, and what the tokens' reactions then lead to.
pub open spec fn step_then_react(
    next: TriggerState,
    mid: StateResources,
    ctx1: Map<Seq<char>, ContextValueView>,
    g1: Seq<GroupView>,
    s1: Seq<OutgoingView>,
    sr: Result<StepKind, GameErrorView>,
    cs: spec_fn(int) -> bool,
    post: StateResources,
    ctx_post: Map<Seq<char>, ContextValueView>,
    gq: Seq<GroupView>,
    sq: Seq<OutgoingView>,
    r: Option<Result<StepKind, GameErrorView>>,
) -> bool {
    match sr {
        Err(e) => r == Some(Err::<StepKind, GameErrorView>(e)) && post.locs() == mid.locs() && post.rv() == mid.rv()
            && ctx_post == ctx1 && gq == g1 && sq == s1,
        Ok(k) => if next == TriggerState::CheckCancel {
            r == Some(Ok::<StepKind, GameErrorView>(k)) && post.locs() == mid.locs() && post.rv() == mid.rv()
                && ctx_post == ctx1 && gq == g1 && sq == s1
        } else {
            let (e, ctxf, wf) = spec_phase(
                next,
                ctx1,
                mid.locs(),
                mid.board,
                WorldView { rv: mid.rv(), groups: g1, sent: s1, k: 0 },
                cs,
            );
            &&& post.locs() == mid.locs()
            &&& post.rv() == wf.rv
            &&& gq == wf.groups
            &&& sq == wf.sent
            &&& ctx_post == ctxf
            &&& r == Some(
                match e {
                    Some(e) => Err(e),
                    None => Ok(k),
                },
            )
        },
    }
}

/// What processing the next step `next` of a group with context `ctx` leads to: the part
/// the step does to the game (see `spec_step`), then, unless that failed or the step was a
/// cancel check, the tokens' reactions (see `spec_phase`), whose random player choices read
/// the coin flips of `cs` from its start.
pub open spec fn spec_group_step(
    next: TriggerState,
    ctx: Map<Seq<char>, ContextValueView>,
    pre: StateResources,
    gp: Seq<GroupView>,
    sp: Seq<OutgoingView>,
    new_id: TokenInstanceId,
    cs: spec_fn(int) -> bool,
    post: StateResources,
    ctx_post: Map<Seq<char>, ContextValueView>,
    gq: Seq<GroupView>,
    sq: Seq<OutgoingView>,
    r: Option<Result<StepKind, GameErrorView>>,
) -> bool {
    exists|
        mid: StateResources,
        ctx1: Map<Seq<char>, ContextValueView>,
        g1: Seq<GroupView>,
        s1: Seq<OutgoingView>,
        sr: Result<StepKind, GameErrorView>,
    |
        #![trigger spec_step(next, ctx, pre, gp, sp, new_id, mid, ctx1, g1, s1, sr)]
        spec_step(next, ctx, pre, gp, sp, new_id, mid, ctx1, g1, s1, sr) && mid.wf()
            && step_then_react(next, mid, ctx1, g1, s1, sr, cs, post, ctx_post, gq, sq, r)
}

impl StateTransitionGroup {
    /// Processes the group's next step (see `spec_group_step`). Random player choices of
    /// the reactions take flips of `coins`, which has made none yet, and `new_id` is the
    /// id a token made by the step gets.
    pub fn process_with(
        &mut self,
        state: &mut StateMachine,
        resources: &mut StateResources,
        communicator: &mut GameCommunicator,
        coins: &mut Coins,
        new_id: TokenInstanceId,
    ) -> (r: Result<TriggerResult, GameError>)
        requires
            old(self)@.states.len() > 0,
            old(resources).wf(),
            old(coins)@.len() == 0,
        ensures
            final(self)@.states == old(self)@.states.drop_first(),
            final(resources).wf(),
            final(resources).same_frame_but_players(old(resources)),
            forall|cs: spec_fn(int) -> bool|
                agrees(cs, final(coins)@) ==> #[trigger] spec_group_step(
                    old(self)@.states[0],
                    old(self)@.context,
                    *old(resources),
                    old(state).groups(),
                    old(communicator).sent(),
                    new_id,
                    cs,
                    *final(resources),
                    final(self)@.context,
                    final(state).groups(),
                    final(communicator).sent(),
                    kind_of(r),
                ),
    {
        let next = self.states.pop_front().unwrap();
        let sr = do_step(next, &mut self.context, state, resources, communicator, new_id);
        let ghost mid = *resources;
        let ghost ctx1 = self.context.view();
        let ghost g1 = state.groups();
        let ghost s1 = communicator.sent();
        let k = match sr {
            Err(e) => {
                assert forall|cs: spec_fn(int) -> bool| agrees(cs, coins@) implies #[trigger] step_then_react(next, mid, ctx1, g1, s1, res_view(sr), cs, *resources, self.context.view(), state.groups(), communicator.sent(), Some(Err::<StepKind, GameErrorView>(e@))) by {}
                return Err(e);
            },
            Ok(k) => k,
        };
        let result = match k {
            StepKind::Proceed => TriggerResult::Proceed,
            StepKind::Terminate => TriggerResult::TerminateGroup,
        };
        if next == TriggerState::CheckCancel {
            assert(kind_of(Ok::<TriggerResult, GameError>(result)) == Some(Ok::<StepKind, GameErrorView>(k)));
            assert forall|cs: spec_fn(int) -> bool| agrees(cs, coins@) implies #[trigger] step_then_react(next, mid, ctx1, g1, s1, res_view(sr), cs, *resources, self.context.view(), state.groups(), communicator.sent(), Some(Ok::<StepKind, GameErrorView>(k))) by {}
            return Ok(result);
        }
        let rr = react(next, &mut self.context, state, resources, communicator, coins);
        match rr {
            Err(e) => {
                assert forall|cs: spec_fn(int) -> bool| agrees(cs, coins@) implies #[trigger] step_then_react(next, mid, ctx1, g1, s1, res_view(sr), cs, *resources, self.context.view(), state.groups(), communicator.sent(), Some(Err::<StepKind, GameErrorView>(e@))) by {}
                Err(e)
            },
            Ok(()) => {
                assert(kind_of(Ok::<TriggerResult, GameError>(result)) == Some(Ok::<StepKind, GameErrorView>(k)));
                assert forall|cs: spec_fn(int) -> bool| agrees(cs, coins@) implies #[trigger] step_then_react(next, mid, ctx1, g1, s1, res_view(sr), cs, *resources, self.context.view(), state.groups(), communicator.sent(), Some(Ok::<StepKind, GameErrorView>(k))) by {}
                Ok(result)
            },
        }
    }

    /// Processes the group's next step (see `spec_group_step`), with random player choices
    /// drawn at random and a random id for a token the step makes.
    pub fn process(
        &mut self,
        state: &mut StateMachine,
        resources: &mut StateResources,
        communicator: &mut GameCommunicator,
    ) -> (r: Result<TriggerResult, GameError>)
        requires
            old(self)@.states.len() > 0,
            old(resources).wf(),
        ensures
            final(self)@.states == old(self)@.states.drop_first(),
            final(resources).wf(),
            final(resources).same_frame_but_players(old(resources)),
            exists|cs: spec_fn(int) -> bool, new_id: TokenInstanceId|
                #[trigger] spec_group_step(
                    old(self)@.states[0],
                    old(self)@.context,
                    *old(resources),
                    old(state).groups(),
                    old(communicator).sent(),
                    new_id,
                    cs,
                    *final(resources),
                    final(self)@.context,
                    final(state).groups(),
                    final(communicator).sent(),
                    kind_of(r),
                ),
    {
        let mut coins = Coins::new();
        let new_id = TokenInstanceId(random_u64());
        let r = self.process_with(state, resources, communicator, &mut coins, new_id);
        proof {
            lemma_stream_of_agrees(coins@);
        }
        assert(spec_group_step(
            old(self)@.states[0],
            old(self)@.context,
            *old(resources),
            old(state).groups(),
            old(communicator).sent(),
            new_id,
            stream_of(coins@),
            *resources,
            self@.context,
            state.groups(),
            communicator.sent(),
            kind_of(r),
        ));
        r
    }
}

/// What working on the queue came to.
pub enum ProcessStatus {
    /// Nothing was waiting.
    Idle,
    /// A step was processed, or an exhausted group dropped.
    Progress,
    /// The player must answer these prompts first.
    Prompt(PromptCallback),
}

/// What processing the next step of the queue leads to: with nothing queued, nothing;
/// a first group with no steps left is dropped; otherwise its next step is processed
/// (see `spec_group_step`) and the group, now without that step, stays first (unless the
/// step failed, which drops it).
pub open spec fn spec_process_next(
    pre: StateResources,
    gp: Seq<GroupView>,
    sp: Seq<OutgoingView>,
    new_id: TokenInstanceId,
    cs: spec_fn(int) -> bool,
    post: StateResources,
    gq: Seq<GroupView>,
    sq: Seq<OutgoingView>,
    r: Result<ProcessStatus, GameError>,
) -> bool {
    if gp.len() == 0 {
        r matches Ok(ProcessStatus::Idle) && post == pre && gq == gp && sq == sp
    } else if gp[0].states.len() == 0 {
        r matches Ok(ProcessStatus::Progress) && post == pre && gq == gp.drop_first() && sq == sp
    } else {
        exists|ctx_post: Map<Seq<char>, ContextValueView>, g_rest: Seq<GroupView>, k: Option<Result<StepKind, GameErrorView>>|
            #![trigger spec_group_step(gp[0].states[0], gp[0].context, pre, gp.drop_first(), sp, new_id, cs, post, ctx_post, g_rest, sq, k)]
            spec_group_step(gp[0].states[0], gp[0].context, pre, gp.drop_first(), sp, new_id, cs, post, ctx_post, g_rest, sq, k)
                && match k {
                Some(Err(e)) => r matches Err(x) && x@ == e && gq == g_rest,
                Some(Ok(_)) => r matches Ok(ProcessStatus::Progress)
                    && gq == seq![GroupView { states: gp[0].states.drop_first(), context: ctx_post }] + g_rest,
                None => r matches Ok(ProcessStatus::Prompt(_))
                    && gq == seq![GroupView { states: gp[0].states.drop_first(), context: ctx_post }] + g_rest,
            }
    }
}

/// One step of working through the queue: the game, queue and messages before and after
/// it, the coin flips and token id it was given, and what it came to.
pub struct QueueStep {
    pub pre: StateResources,
    pub gp: Seq<GroupView>,
    pub sp: Seq<OutgoingView>,
    pub cs: spec_fn(int) -> bool,
    pub new_id: TokenInstanceId,
    pub post: StateResources,
    pub gq: Seq<GroupView>,
    pub sq: Seq<OutgoingView>,
    pub r: Result<ProcessStatus, GameError>,
}

/// The steps, one after another, lead from `pre` (queue `gp`, messages `sp`) to `post`
/// (queue `gq`, messages `sq`), each as `spec_process_next` says.
#[verifier::opaque]
pub open spec fn queue_ran(
    steps: Seq<QueueStep>,
    pre: StateResources,
    gp: Seq<GroupView>,
    sp: Seq<OutgoingView>,
    post: StateResources,
    gq: Seq<GroupView>,
    sq: Seq<OutgoingView>,
) -> bool
    decreases steps.len(),
{
    if steps.len() == 0 {
        post == pre && gq == gp && sq == sp
    } else {
        let last = steps.last();
        &&& queue_ran(steps.drop_last(), pre, gp, sp, last.pre, last.gp, last.sp)
        &&& spec_process_next(last.pre, last.gp, last.sp, last.new_id, last.cs, last.post, last.gq, last.sq, last.r)
        &&& post == last.post
        &&& gq == last.gq
        &&& sq == last.sq
    }
}

/// What working through the queue returns after these steps: every step but the last
/// made progress, and the last ended the work with an error, an empty queue or prompts,
/// or was the last of 2^64 - 1 steps of progress, which refuses the game as stuck.
pub open spec fn queue_result(steps: Seq<QueueStep>, r: Result<Option<PromptCallback>, GameError>) -> bool {
    &&& steps.len() > 0
    &&& forall|k: int| 0 <= k < steps.len() - 1 ==> (#[trigger] steps[k].r matches Ok(ProcessStatus::Progress))
    &&& match steps.last().r {
        Err(e) => r == Err::<Option<PromptCallback>, GameError>(e),
        Ok(ProcessStatus::Idle) => r == Ok::<Option<PromptCallback>, GameError>(None),
        Ok(ProcessStatus::Prompt(p)) => r == Ok::<Option<PromptCallback>, GameError>(Some(p)),
        Ok(ProcessStatus::Progress) => steps.len() == u64::MAX && r == Err::<Option<PromptCallback>, GameError>(GameError::InvalidState),
    }
}

impl StateMachine {
    /// Processes the next step of the queue (see `spec_process_next`), random player
    /// choices taking flips of `coins`, which has made none yet.
    pub fn process_next(
        &mut self,
        resources: &mut StateResources,
        communicator: &mut GameCommunicator,
        coins: &mut Coins,
        new_id: TokenInstanceId,
    ) -> (r: Result<ProcessStatus, GameError>)
        requires
            old(resources).wf(),
            old(coins)@.len() == 0,
        ensures
            final(resources).wf(),
            final(resources).same_frame_but_players(old(resources)),
            forall|cs: spec_fn(int) -> bool|
                agrees(cs, final(coins)@) ==> #[trigger] spec_process_next(
                    *old(resources),
                    old(self).groups(),
                    old(communicator).sent(),
                    new_id,
                    cs,
                    *final(resources),
                    final(self).groups(),
                    final(communicator).sent(),
                    r,
                ),
    {
        let ghost gp = self.groups();
        let mut g = match self.state_transition_groups.pop_front() {
            None => {
                return Ok(ProcessStatus::Idle);
            },
            Some(g) => g,
        };
        assert(self.groups() =~= gp.drop_first());
        if g.queue_empty() {
            return Ok(ProcessStatus::Progress);
        }
        let ghost g0 = g@;
        let r = g.process_with(self, resources, communicator, coins, new_id);
        let ghost g_rest = self.groups();
        let ghost kk = kind_of(r);
        assert forall|cs: spec_fn(int) -> bool| agrees(cs, coins@) implies #[trigger] spec_group_step(
            gp[0].states[0],
            gp[0].context,
            *old(resources),
            gp.drop_first(),
            old(communicator).sent(),
            new_id,
            cs,
            *resources,
            g@.context,
            g_rest,
            communicator.sent(),
            kk,
        ) by {
            assert(g0 == gp[0]);
        }
        let out = match r {
            Err(e) => Err(e),
            Ok(TriggerResult::ReadPrompt(mut prompt)) => {
                prompt.context = g.context.duplicate();
                self.state_transition_groups.push_front(g);
                assert(self.groups() =~= seq![g@] + g_rest);
                Ok(ProcessStatus::Prompt(prompt))
            },
            Ok(_) => {
                self.state_transition_groups.push_front(g);
                assert(self.groups() =~= seq![g@] + g_rest);
                Ok(ProcessStatus::Progress)
            },
        };
        assert forall|cs: spec_fn(int) -> bool| agrees(cs, coins@) implies #[trigger] spec_process_next(
            *old(resources),
            gp,
            old(communicator).sent(),
            new_id,
            cs,
            *resources,
            self.groups(),
            communicator.sent(),
            out,
        ) by {
            assert(spec_group_step(
                gp[0].states[0],
                gp[0].context,
                *old(resources),
                gp.drop_first(),
                old(communicator).sent(),
                new_id,
                cs,
                *resources,
                g@.context,
                g_rest,
                communicator.sent(),
                kk,
            ));
        }
        out
    }

    /// Works through the queue until it is empty or the player must answer prompts, one
    /// step after another (see `spec_process_next` and `queue_ran`). Each step gets fresh
    /// random choices and a fresh random id for a token it makes. Only messages are added to
    /// what was said. After 2^64 - 1 steps with the queue still not empty, the game is
    /// refused as stuck.
    pub fn process(
        &mut self,
        resources: &mut StateResources,
        communicator: &mut GameCommunicator,
    ) -> (r: Result<Option<PromptCallback>, GameError>)
        requires
            old(resources).wf(),
        ensures
            final(resources).wf(),
            final(resources).same_frame_but_players(old(resources)),
            kept_in(old(communicator).sent(), final(communicator).sent()),
            r matches Ok(None) ==> final(self).groups().len() == 0,
            exists|steps: Seq<QueueStep>|
                queue_ran(
                    steps,
                    *old(resources),
                    old(self).groups(),
                    old(communicator).sent(),
                    *final(resources),
                    final(self).groups(),
                    final(communicator).sent(),
                ) && queue_result(steps, r),
    {
        let mut budget: u64 = u64::MAX;
        let ghost mut steps: Seq<QueueStep> = Seq::empty();
        proof {
            reveal(queue_ran);
        }
        while budget > 0
            invariant
                resources.wf(),
                resources.same_frame_but_players(old(resources)),
                kept_in(old(communicator).sent(), communicator.sent()),
                queue_ran(
                    steps,
                    *old(resources),
                    old(self).groups(),
                    old(communicator).sent(),
                    *resources,
                    self.groups(),
                    communicator.sent(),
                ),
                steps.len() == u64::MAX - budget,
                forall|k: int| 0 <= k < steps.len() ==> (#[trigger] steps[k].r matches Ok(ProcessStatus::Progress)),
            decreases budget,
        {
            let mut coins = Coins::new();
            let new_id = TokenInstanceId(random_u64());
            let ghost r0 = *resources;
            let ghost g0 = self.groups();
            let ghost s0 = communicator.sent();
            let step = self.process_next(resources, communicator, &mut coins, new_id);
            proof {
                lemma_stream_of_agrees(coins@);
            }
            let ghost cs = stream_of(coins@);
            assert(spec_process_next(r0, g0, s0, new_id, cs, *resources, self.groups(), communicator.sent(), step));
            let ghost st = QueueStep {
                pre: r0,
                gp: g0,
                sp: s0,
                cs,
                new_id,
                post: *resources,
                gq: self.groups(),
                sq: communicator.sent(),
                r: step,
            };
            proof {
                reveal(queue_ran);
                lemma_process_next_keeps(r0, g0, s0, new_id, cs, *resources, self.groups(), communicator.sent(), step);
                lemma_kept_trans(old(communicator).sent(), s0, communicator.sent());
                let s2 = steps.push(st);
                assert(s2.drop_last() =~= steps);
                assert(s2.last() == st);
                steps = s2;
            }
            match step {
                Err(e) => {
                    assert(queue_result(steps, Err::<Option<PromptCallback>, GameError>(e)));
                    return Err(e);
                },
                Ok(ProcessStatus::Idle) => {
                    assert(queue_result(steps, Ok::<Option<PromptCallback>, GameError>(None)));
                    return Ok(None);
                },
                Ok(ProcessStatus::Prompt(p)) => {
                    assert(queue_result(steps, Ok::<Option<PromptCallback>, GameError>(Some(p))));
                    return Ok(Some(p));
                },
                Ok(ProcessStatus::Progress) => {},
            }
            budget = budget - 1;
        }
        assert(queue_result(steps, Err::<Option<PromptCallback>, GameError>(GameError::InvalidState)));
        Err(GameError::InvalidState)
    }

    /// Gives the first group a new context.
    pub fn update_current_context(&mut self, context: GameContext)
        requires
            old(self).groups().len() > 0,
        ensures
            final(self).groups() == old(self).groups().update(
                0,
                GroupView { states: old(self).groups()[0].states, context: context.view() },
            ),
    {
        let ghost gp = self.groups();
        let mut g = self.state_transition_groups.pop_front().unwrap();
        g.context = context;
        let ghost before = self.groups();
        assert(before =~= gp.drop_first());
        self.state_transition_groups.push_front(g);
        assert(self.groups() =~= gp.update(0, GroupView { states: gp[0].states, context: g.context.view() }));
    }
}

} // verus!
