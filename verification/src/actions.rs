//! What the behaviors of tokens do: each action is first planned against the game as it
//! is, then applied.
use vstd::prelude::*;

use crate::behaviors::{ids_view, spec_check, spec_token_target, spec_unit_target};
use crate::context_keys;
use crate::error::{res_view, GameError, GameErrorView};
use crate::game_communicator::{GameCommunicator, OutgoingView};
use crate::game_context::{ctx_player, ctx_token, ContextValueKind, ContextValueView, GameContext};
use crate::id_types::{PlayerId, TokenInstanceId};
use crate::instruction::{InstructionToClient, InstructionView};
use crate::keyed::lemma_keyed_map_update;
use crate::player::Player;
use crate::rng::{agrees, extends, lemma_agrees_prefix, lemma_stream_of_agrees, stream_of, Coins};
use crate::state_machine::{
    spec_create_group, spec_destroy_group, spec_draw_group, spec_effect_damage_group, GroupView,
    StateMachine,
};
use crate::state_resources::{spec_player, token_key, token_val, ResView, StateResources};
use crate::token_data::{
    spec_player_target, TokenBehavior, TokenBehaviorAction, TokenBehaviorTrigger,
    TokenBehaviorTriggerWhenActivator, TokenBehaviorTriggerWhenName,
};
use crate::token_instance::{TokenInstanceView, UnitStats};

verus! {

/// How a behavior's actions went: on, or cancelled.
#[derive(Clone, Copy, PartialEq, Eq, Structural, Debug)]
pub enum CardBehaviorResult {
    Done,
    Cancel,
}

/// A stat an action changes.
#[derive(Clone, Copy, PartialEq, Eq, Structural, Debug)]
pub enum Stat {
    Attack,
    Health,
    Defense,
}

/// What an action will do, worked out against the game as it was when it was planned.
pub enum ActionPlan {
    /// Each player draws, in turn.
    Draw(Vec<PlayerId>),
    /// Each target is destroyed and a token of the replacement kind made where it was.
    Replace { this: TokenInstanceId, targets: Vec<TokenInstanceId>, replacement: String },
    /// Each target's stat goes up by the amount.
    Modify { stat: Stat, targets: Vec<TokenInstanceId>, amount: i32 },
    /// Each target's cost goes up by the amount, down to nothing at least.
    ModifyCost { targets: Vec<TokenInstanceId>, amount: i32 },
    /// Each target is destroyed.
    Destroy { this: TokenInstanceId, targets: Vec<TokenInstanceId> },
    /// Each player's hero takes the damage.
    DamageHeroes { this: TokenInstanceId, players: Vec<PlayerId>, amount: i32 },
    /// Each target takes the damage.
    DamageUnits { this: TokenInstanceId, targets: Vec<TokenInstanceId>, amount: i32 },
    /// The happening the behavior reacts to is cancelled.
    Cancel,
    /// Nothing happens.
    Nothing,
}

/// A plan as a value.
pub enum PlanView {
    Draw(Seq<PlayerId>),
    Replace { this: TokenInstanceId, targets: Seq<TokenInstanceId>, replacement: Seq<char> },
    Modify { stat: Stat, targets: Seq<TokenInstanceId>, amount: i32 },
    ModifyCost { targets: Seq<TokenInstanceId>, amount: i32 },
    Destroy { this: TokenInstanceId, targets: Seq<TokenInstanceId> },
    DamageHeroes { this: TokenInstanceId, players: Seq<PlayerId>, amount: i32 },
    DamageUnits { this: TokenInstanceId, targets: Seq<TokenInstanceId>, amount: i32 },
    Cancel,
    Nothing,
}

impl View for ActionPlan {
    type V = PlanView;

    open spec fn view(&self) -> PlanView {
        match self {
            ActionPlan::Draw(ps) => PlanView::Draw(ps@),
            ActionPlan::Replace { this, targets, replacement } => PlanView::Replace {
                this: *this,
                targets: targets@,
                replacement: replacement@,
            },
            ActionPlan::Modify { stat, targets, amount } => PlanView::Modify {
                stat: *stat,
                targets: targets@,
                amount: *amount,
            },
            ActionPlan::ModifyCost { targets, amount } => PlanView::ModifyCost {
                targets: targets@,
                amount: *amount,
            },
            ActionPlan::Destroy { this, targets } => PlanView::Destroy { this: *this, targets: targets@ },
            ActionPlan::DamageHeroes { this, players, amount } => PlanView::DamageHeroes {
                this: *this,
                players: players@,
                amount: *amount,
            },
            ActionPlan::DamageUnits { this, targets, amount } => PlanView::DamageUnits {
                this: *this,
                targets: targets@,
                amount: *amount,
            },
            ActionPlan::Cancel => PlanView::Cancel,
            ActionPlan::Nothing => PlanView::Nothing,
        }
    }
}

/// A plan's outcome with its error taken as a value.
pub open spec fn plan_view(r: Result<ActionPlan, GameError>) -> Result<PlanView, GameErrorView> {
    match r {
        Ok(p) => Ok(p@),
        Err(e) => Err(e@),
    }
}

/// What an action will do, read against the context and the game, with the coin flips of
/// random player choices read from `cs` starting at flip `k`; the second value is where
/// the next reading would start. Every action first needs the token it belongs to in the
/// context. Actions the game does not do yet are refused.
pub open spec fn spec_plan(
    a: TokenBehaviorAction,
    ctx: Map<Seq<char>, ContextValueView>,
    res: ResView,
    cs: spec_fn(int) -> bool,
    k: int,
) -> (Result<PlanView, GameErrorView>, int) {
    match ctx_token(ctx, context_keys::ACTION_THIS@) {
        Err(e) => (Err(e), k),
        Ok(this) => match a {
            TokenBehaviorAction::DrawToken { target } => match ctx_player(ctx, context_keys::OWNER@) {
                Err(e) => (Err(e), k),
                Ok(owner) => {
                    let (ps, k1) = spec_player_target(target, owner, cs, k);
                    (Ok(PlanView::Draw(ps)), k1)
                },
            },
            TokenBehaviorAction::Replace { target, replacement } => {
                let (rt, k1) = spec_unit_target(target, ctx, res, cs, k);
                (match rt {
                    Err(e) => Err(e),
                    Ok(ts) => Ok(PlanView::Replace { this, targets: ts, replacement: replacement@ }),
                }, k1)
            },
            TokenBehaviorAction::ModifyAttack { target, amount } => {
                let (rt, k1) = spec_unit_target(target, ctx, res, cs, k);
                (match rt {
                    Err(e) => Err(e),
                    Ok(ts) => Ok(PlanView::Modify { stat: Stat::Attack, targets: ts, amount }),
                }, k1)
            },
            TokenBehaviorAction::ModifyHealth { target, amount } => {
                let (rt, k1) = spec_unit_target(target, ctx, res, cs, k);
                (match rt {
                    Err(e) => Err(e),
                    Ok(ts) => Ok(PlanView::Modify { stat: Stat::Health, targets: ts, amount }),
                }, k1)
            },
            TokenBehaviorAction::ModifyDefense { target, amount } => {
                let (rt, k1) = spec_unit_target(target, ctx, res, cs, k);
                (match rt {
                    Err(e) => Err(e),
                    Ok(ts) => Ok(PlanView::Modify { stat: Stat::Defense, targets: ts, amount }),
                }, k1)
            },
            TokenBehaviorAction::ModifyCost { target, amount } => {
                let (rt, k1) = spec_unit_target(target, ctx, res, cs, k);
                (match rt {
                    Err(e) => Err(e),
                    Ok(ts) => Ok(PlanView::ModifyCost { targets: ts, amount }),
                }, k1)
            },
            TokenBehaviorAction::Destroy { target } => {
                let (rt, k1) = spec_token_target(target, ctx, res, cs, k);
                (match rt {
                    Err(_) => Ok(PlanView::Destroy { this, targets: Seq::empty() }),
                    Ok(ts) => Ok(PlanView::Destroy { this, targets: ts }),
                }, k1)
            },
            TokenBehaviorAction::DamageHero { target, amount } => match ctx_player(ctx, context_keys::OWNER@) {
                Err(e) => (Err(e), k),
                Ok(owner) => {
                    let (ps, k1) = spec_player_target(target, owner, cs, k);
                    (Ok(PlanView::DamageHeroes { this, players: ps, amount: amount as i32 }), k1)
                },
            },
            TokenBehaviorAction::DamageUnit { target, amount } => {
                let (rt, k1) = spec_unit_target(target, ctx, res, cs, k);
                (match rt {
                    Err(e) => Err(e),
                    Ok(ts) => Ok(PlanView::DamageUnits { this, targets: ts, amount: amount as i32 }),
                }, k1)
            },
            TokenBehaviorAction::Cancel => (Ok(PlanView::Cancel), k),
            TokenBehaviorAction::RedirectTarget { new_target } => {
                let (rt, k1) = spec_unit_target(new_target, ctx, res, cs, k);
                (match rt {
                    Err(e) => Err(e),
                    Ok(ts) => if ts.len() > 0 {
                        Err(GameErrorView::Unimplemented)
                    } else {
                        Ok(PlanView::Nothing)
                    },
                }, k1)
            },
            _ => (Err(GameErrorView::Unimplemented), k),
        },
    }
}

/// The part of a game that actions change: the tokens (with the rest of what behaviors
/// read), the queued happenings, what the client was told, and how many coin flips of
/// random player choices have been read.
pub struct WorldView {
    pub rv: ResView,
    pub groups: Seq<GroupView>,
    pub sent: Seq<OutgoingView>,
    pub k: int,
}

/// The groups put in front of `g`, one after the other, so the last ends up first.
pub open spec fn fronts(gs: Seq<GroupView>, g: Seq<GroupView>) -> Seq<GroupView>
    decreases gs.len(),
{
    if gs.len() == 0 {
        g
    } else {
        fronts(gs.drop_first(), seq![gs[0]] + g)
    }
}

/// A token with the stat gone up by the amount, if the stat still fits.
pub open spec fn bump(v: TokenInstanceView, stat: Stat, amount: i32) -> Option<TokenInstanceView> {
    let s = v.current_stats;
    let cur = match stat {
        Stat::Attack => s.attack,
        Stat::Health => s.health,
        Stat::Defense => s.defense,
    };
    let n = cur + amount;
    if n < i32::MIN || n > i32::MAX {
        None
    } else {
        let stats = match stat {
            Stat::Attack => UnitStats { attack: n as i32, ..s },
            Stat::Health => UnitStats { health: n as i32, ..s },
            Stat::Defense => UnitStats { defense: n as i32, ..s },
        };
        Some(TokenInstanceView { current_stats: stats, ..v })
    }
}

/// A token with its cost gone up by the amount (the cost read as a signed number), or
/// nothing when that goes below zero; `None` when the sum does not fit.
pub open spec fn bump_cost(v: TokenInstanceView, amount: i32) -> Option<TokenInstanceView> {
    let n = (v.cost as i32) + amount;
    if n < i32::MIN || n > i32::MAX {
        None
    } else if n < 0 {
        Some(TokenInstanceView { cost: 0, ..v })
    } else {
        Some(TokenInstanceView { cost: n as u32, ..v })
    }
}

/// The world with one token changed and the client told of its new data.
pub open spec fn with_token(w: WorldView, t: TokenInstanceId, v: TokenInstanceView) -> WorldView {
    WorldView {
        rv: ResView { tokens: w.rv.tokens.insert(t, v), ..w.rv },
        sent: w.sent.push(OutgoingView::Instruction(InstructionView::UpdateData { token_data: v })),
        ..w
    }
}

/// Raising a stat of each target in turn; a target not in play, or a stat that would not
/// fit, stops it.
pub open spec fn modify_fold(ts: Seq<TokenInstanceId>, stat: Stat, amount: i32, w: WorldView) -> (Option<GameErrorView>, WorldView)
    decreases ts.len(),
{
    if ts.len() == 0 {
        (None, w)
    } else if !w.rv.tokens.contains_key(ts[0]) {
        (Some(GameErrorView::TokenNotFound(ts[0])), w)
    } else {
        match bump(w.rv.tokens[ts[0]], stat, amount) {
            None => (Some(GameErrorView::InvalidState), w),
            Some(v) => modify_fold(ts.drop_first(), stat, amount, with_token(w, ts[0], v)),
        }
    }
}

/// Changing the cost of each target in turn.
pub open spec fn cost_fold(ts: Seq<TokenInstanceId>, amount: i32, w: WorldView) -> (Option<GameErrorView>, WorldView)
    decreases ts.len(),
{
    if ts.len() == 0 {
        (None, w)
    } else if !w.rv.tokens.contains_key(ts[0]) {
        (Some(GameErrorView::TokenNotFound(ts[0])), w)
    } else {
        match bump_cost(w.rv.tokens[ts[0]], amount) {
            None => (Some(GameErrorView::InvalidState), w),
            Some(v) => cost_fold(ts.drop_first(), amount, with_token(w, ts[0], v)),
        }
    }
}

/// Queueing, for each target in turn, the making of its replacement where it is and then
/// its destruction (so the destruction comes first).
pub open spec fn replace_fold(
    ts: Seq<TokenInstanceId>,
    this: TokenInstanceId,
    replacement: Seq<char>,
    w: WorldView,
) -> (Option<GameErrorView>, WorldView)
    decreases ts.len(),
{
    if ts.len() == 0 {
        (None, w)
    } else if !w.rv.tokens.contains_key(ts[0]) {
        (Some(GameErrorView::TokenNotFound(ts[0])), w)
    } else {
        let tok = w.rv.tokens[ts[0]];
        let g = seq![spec_destroy_group(this, ts[0])] + (seq![spec_create_group(replacement, tok.owner, tok.location)] + w.groups);
        replace_fold(ts.drop_first(), this, replacement, WorldView { groups: g, ..w })
    }
}

/// The hero of a player.
pub open spec fn hero_of(res: ResView, p: PlayerId) -> TokenInstanceId {
    match p {
        PlayerId::Player1 => res.player_1.hero,
        PlayerId::Player2 => res.player_2.hero,
    }
}

/// A fold's outcome as a result.
pub open spec fn fold_result(e: Option<GameErrorView>) -> Result<CardBehaviorResult, GameErrorView> {
    match e {
        Some(e) => Err(e),
        None => Ok(CardBehaviorResult::Done),
    }
}

/// What applying a plan leads to.
pub open spec fn spec_apply(p: PlanView, w: WorldView) -> (Result<CardBehaviorResult, GameErrorView>, WorldView) {
    match p {
        PlanView::Draw(ps) => (
            Ok(CardBehaviorResult::Done),
            WorldView { groups: fronts(ps.map_values(|q: PlayerId| spec_draw_group(q)), w.groups), ..w },
        ),
        PlanView::Replace { this, targets, replacement } => {
            let (e, w2) = replace_fold(targets, this, replacement, w);
            (fold_result(e), w2)
        },
        PlanView::Modify { stat, targets, amount } => {
            let (e, w2) = modify_fold(targets, stat, amount, w);
            (fold_result(e), w2)
        },
        PlanView::ModifyCost { targets, amount } => {
            let (e, w2) = cost_fold(targets, amount, w);
            (fold_result(e), w2)
        },
        PlanView::Destroy { this, targets } => (
            Ok(CardBehaviorResult::Done),
            WorldView {
                groups: fronts(targets.map_values(|t: TokenInstanceId| spec_destroy_group(this, t)), w.groups),
                ..w
            },
        ),
        PlanView::DamageHeroes { this, players, amount } => (
            Ok(CardBehaviorResult::Done),
            WorldView {
                groups: fronts(
                    players.map_values(|q: PlayerId| spec_effect_damage_group(this, hero_of(w.rv, q), amount)),
                    w.groups,
                ),
                ..w
            },
        ),
        PlanView::DamageUnits { this, targets, amount } => (
            Ok(CardBehaviorResult::Done),
            WorldView {
                groups: fronts(
                    targets.map_values(|t: TokenInstanceId| spec_effect_damage_group(this, t, amount)),
                    w.groups,
                ),
                ..w
            },
        ),
        PlanView::Cancel => (Ok(CardBehaviorResult::Cancel), w),
        PlanView::Nothing => (Ok(CardBehaviorResult::Done), w),
    }
}

/// The world a game and its queue and messages make up, `k` coin flips having been read.
pub open spec fn world(res: StateResources, state: StateMachine, comm: GameCommunicator, k: int) -> WorldView {
    WorldView { rv: res.rv(), groups: state.groups(), sent: comm.sent(), k }
}

impl TokenBehaviorAction {
    /// Works out what the action will do (see `spec_plan`), random player choices taking
    /// flips of `coins`.
    pub fn plan_with(&self, context: &GameContext, resources: &StateResources, coins: &mut Coins) -> (r: Result<ActionPlan, GameError>)
        requires
            resources.wf(),
        ensures
            extends(final(coins)@, old(coins)@),
            forall|cs: spec_fn(int) -> bool|
                agrees(cs, final(coins)@) ==> #[trigger] spec_plan(*self, context.view(), resources.rv(), cs, old(coins)@.len() as int)
                    == (plan_view(r), final(coins)@.len() as int),
    {
        let this = match context.get_token_id(context_keys::ACTION_THIS) {
            Ok(t) => t,
            Err(e) => return Err(e),
        };
        match self {
            TokenBehaviorAction::DrawToken { target } => {
                let owner = match context.get_player_id(context_keys::OWNER) {
                    Ok(o) => o,
                    Err(e) => return Err(e),
                };
                Ok(ActionPlan::Draw(target.evaluate_with(owner, coins)))
            },
            TokenBehaviorAction::Replace { target, replacement } => match target.evaluate_with(context, resources, coins) {
                Err(e) => Err(e),
                Ok(ts) => Ok(ActionPlan::Replace { this, targets: ts, replacement: replacement.clone() }),
            },
            TokenBehaviorAction::ModifyAttack { target, amount } => match target.evaluate_with(context, resources, coins) {
                Err(e) => Err(e),
                Ok(ts) => Ok(ActionPlan::Modify { stat: Stat::Attack, targets: ts, amount: *amount }),
            },
            TokenBehaviorAction::ModifyHealth { target, amount } => match target.evaluate_with(context, resources, coins) {
                Err(e) => Err(e),
                Ok(ts) => Ok(ActionPlan::Modify { stat: Stat::Health, targets: ts, amount: *amount }),
            },
            TokenBehaviorAction::ModifyDefense { target, amount } => match target.evaluate_with(context, resources, coins) {
                Err(e) => Err(e),
                Ok(ts) => Ok(ActionPlan::Modify { stat: Stat::Defense, targets: ts, amount: *amount }),
            },
            TokenBehaviorAction::ModifyCost { target, amount } => match target.evaluate_with(context, resources, coins) {
                Err(e) => Err(e),
                Ok(ts) => Ok(ActionPlan::ModifyCost { targets: ts, amount: *amount }),
            },
            TokenBehaviorAction::Destroy { target } => match target.evaluate_with(context, resources, coins) {
                Err(_) => Ok(ActionPlan::Destroy { this, targets: Vec::new() }),
                Ok(ts) => Ok(ActionPlan::Destroy { this, targets: ts }),
            },
            TokenBehaviorAction::DamageHero { target, amount } => {
                let owner = match context.get_player_id(context_keys::OWNER) {
                    Ok(o) => o,
                    Err(e) => return Err(e),
                };
                Ok(ActionPlan::DamageHeroes { this, players: target.evaluate_with(owner, coins), amount: *amount as i32 })
            },
            TokenBehaviorAction::DamageUnit { target, amount } => match target.evaluate_with(context, resources, coins) {
                Err(e) => Err(e),
                Ok(ts) => Ok(ActionPlan::DamageUnits { this, targets: ts, amount: *amount as i32 }),
            },
            TokenBehaviorAction::Cancel => Ok(ActionPlan::Cancel),
            TokenBehaviorAction::RedirectTarget { new_target } => match new_target.evaluate_with(context, resources, coins) {
                Err(e) => Err(e),
                Ok(ts) => if ts.len() > 0 {
                    Err(GameError::Unimplemented)
                } else {
                    Ok(ActionPlan::Nothing)
                },
            },
            _ => Err(GameError::Unimplemented),
        }
    }
}

/// A world whose coin flips read so far are `k`.
pub open spec fn at_flip(w: WorldView, k: int) -> WorldView {
    WorldView { k, ..w }
}

proof fn lemma_modify_at(ts: Seq<TokenInstanceId>, stat: Stat, amount: i32, w: WorldView, k: int)
    ensures
        modify_fold(ts, stat, amount, at_flip(w, k)) == (
            modify_fold(ts, stat, amount, w).0,
            at_flip(modify_fold(ts, stat, amount, w).1, k),
        ),
    decreases ts.len(),
{
    if ts.len() > 0 && w.rv.tokens.contains_key(ts[0]) {
        match bump(w.rv.tokens[ts[0]], stat, amount) {
            None => {},
            Some(v) => {
                assert(with_token(at_flip(w, k), ts[0], v) == at_flip(with_token(w, ts[0], v), k));
                lemma_modify_at(ts.drop_first(), stat, amount, with_token(w, ts[0], v), k);
            },
        }
    }
}

proof fn lemma_cost_at(ts: Seq<TokenInstanceId>, amount: i32, w: WorldView, k: int)
    ensures
        cost_fold(ts, amount, at_flip(w, k)) == (cost_fold(ts, amount, w).0, at_flip(cost_fold(ts, amount, w).1, k)),
    decreases ts.len(),
{
    if ts.len() > 0 && w.rv.tokens.contains_key(ts[0]) {
        match bump_cost(w.rv.tokens[ts[0]], amount) {
            None => {},
            Some(v) => {
                assert(with_token(at_flip(w, k), ts[0], v) == at_flip(with_token(w, ts[0], v), k));
                lemma_cost_at(ts.drop_first(), amount, with_token(w, ts[0], v), k);
            },
        }
    }
}

proof fn lemma_replace_at(ts: Seq<TokenInstanceId>, this: TokenInstanceId, replacement: Seq<char>, w: WorldView, k: int)
    ensures
        replace_fold(ts, this, replacement, at_flip(w, k)) == (
            replace_fold(ts, this, replacement, w).0,
            at_flip(replace_fold(ts, this, replacement, w).1, k),
        ),
    decreases ts.len(),
{
    if ts.len() > 0 && w.rv.tokens.contains_key(ts[0]) {
        let tok = w.rv.tokens[ts[0]];
        let g = seq![spec_destroy_group(this, ts[0])] + (seq![spec_create_group(replacement, tok.owner, tok.location)] + w.groups);
        assert(WorldView { groups: g, ..at_flip(w, k) } == at_flip(WorldView { groups: g, ..w }, k));
        lemma_replace_at(ts.drop_first(), this, replacement, WorldView { groups: g, ..w }, k);
    }
}

/// Applying a plan reads no coin flips: it does the same from any count of flips read.
pub proof fn lemma_apply_at(p: PlanView, w: WorldView, k: int)
    ensures
        spec_apply(p, at_flip(w, k)) == (spec_apply(p, w).0, at_flip(spec_apply(p, w).1, k)),
{
    match p {
        PlanView::Replace { this, targets, replacement } => lemma_replace_at(targets, this, replacement, w, k),
        PlanView::Modify { stat, targets, amount } => lemma_modify_at(targets, stat, amount, w, k),
        PlanView::ModifyCost { targets, amount } => lemma_cost_at(targets, amount, w, k),
        _ => {},
    }
}

/// Applies a plan (see `spec_apply`).
pub fn apply_plan(
    plan: &ActionPlan,
    resources: &mut StateResources,
    state: &mut StateMachine,
    communicator: &mut GameCommunicator,
) -> (r: Result<CardBehaviorResult, GameError>)
    requires
        old(resources).wf(),
    ensures
        final(resources).wf(),
        final(resources).same_frame(old(resources)),
        final(resources).locations == old(resources).locations,
        (res_view(r), world(*final(resources), *final(state), *final(communicator), 0)) == spec_apply(
            plan@,
            world(*old(resources), *old(state), *old(communicator), 0),
        ),
{
    let ghost w0 = world(*resources, *state, *communicator, 0);
    match plan {
        ActionPlan::Draw(ps) => {
            let ghost gs = ps@.map_values(|q: PlayerId| spec_draw_group(q));
            let mut i: usize = 0;
            assert(gs.skip(0) =~= gs);
            while i < ps.len()
                invariant
                    i <= ps@.len(),
                    gs == ps@.map_values(|q: PlayerId| spec_draw_group(q)),
                    *resources == *old(resources),
                    communicator.sent() == old(communicator).sent(),
                    fronts(gs, old(state).groups()) == fronts(gs.skip(i as int), state.groups()),
                decreases ps.len() - i,
            {
                assert(gs.skip(i as int)[0] == spec_draw_group(ps@[i as int]));
                assert(gs.skip(i as int).drop_first() =~= gs.skip(i + 1));
                state.draw_token(ps[i]);
                i = i + 1;
            }
            assert(gs.skip(i as int) =~= Seq::<GroupView>::empty());
            Ok(CardBehaviorResult::Done)
        },
        ActionPlan::Replace { this, targets, replacement } => {
            let mut i: usize = 0;
            assert(targets@.skip(0) =~= targets@);
            while i < targets.len()
                invariant
                    resources.wf(),
                    *resources == *old(resources),
                    communicator.sent() == old(communicator).sent(),
                    i <= targets@.len(),
                    w0 == world(*old(resources), *old(state), *old(communicator), 0),
                    plan@ == (PlanView::Replace { this: *this, targets: targets@, replacement: replacement@ }),
                    replace_fold(targets@, *this, replacement@, w0) == replace_fold(
                        targets@.skip(i as int),
                        *this,
                        replacement@,
                        world(*resources, *state, *communicator, 0),
                    ),
                decreases targets.len() - i,
            {
                let ghost rest = targets@.skip(i as int);
                assert(rest[0] == targets@[i as int]);
                assert(rest.drop_first() =~= targets@.skip(i + 1));
                let t = targets[i];
                let ti = match resources.find_token(t) {
                    None => return Err(GameError::TokenNotFound(t)),
                    Some(ti) => ti,
                };
                let owner = resources.token_instances[ti].owner;
                let location = resources.token_instances[ti].location;
                state.create_token(replacement.as_str(), owner, location);
                state.destroy_token(*this, t);
                i = i + 1;
            }
            assert(targets@.skip(i as int) =~= Seq::<TokenInstanceId>::empty());
            Ok(CardBehaviorResult::Done)
        },
        ActionPlan::Modify { stat, targets, amount } => {
            let mut i: usize = 0;
            assert(targets@.skip(0) =~= targets@);
            while i < targets.len()
                invariant
                    resources.wf(),
                    resources.same_frame(old(resources)),
                    resources.locations == old(resources).locations,
                    state.groups() == old(state).groups(),
                    i <= targets@.len(),
                    w0 == world(*old(resources), *old(state), *old(communicator), 0),
                    plan@ == (PlanView::Modify { stat: *stat, targets: targets@, amount: *amount }),
                    modify_fold(targets@, *stat, *amount, w0) == modify_fold(
                        targets@.skip(i as int),
                        *stat,
                        *amount,
                        world(*resources, *state, *communicator, 0),
                    ),
                decreases targets.len() - i,
            {
                let ghost rest = targets@.skip(i as int);
                assert(rest[0] == targets@[i as int]);
                assert(rest.drop_first() =~= targets@.skip(i + 1));
                let t = targets[i];
                let ti = match resources.find_token(t) {
                    None => return Err(GameError::TokenNotFound(t)),
                    Some(ti) => ti,
                };
                let s = resources.token_instances[ti].current_stats;
                let cur = match stat {
                    Stat::Attack => s.attack,
                    Stat::Health => s.health,
                    Stat::Defense => s.defense,
                };
                let n = match cur.checked_add(*amount) {
                    None => return Err(GameError::InvalidState),
                    Some(n) => n,
                };
                let stats = match stat {
                    Stat::Attack => UnitStats { attack: n, ..s },
                    Stat::Health => UnitStats { health: n, ..s },
                    Stat::Defense => UnitStats { defense: n, ..s },
                };
                let cost = resources.token_instances[ti].cost;
                resources.update_token(ti, stats, cost);
                communicator.send_game_instruction(InstructionToClient::UpdateData { token_data: resources.token_instances[ti].duplicate() });
                i = i + 1;
            }
            assert(targets@.skip(i as int) =~= Seq::<TokenInstanceId>::empty());
            Ok(CardBehaviorResult::Done)
        },
        ActionPlan::ModifyCost { targets, amount } => {
            let mut i: usize = 0;
            assert(targets@.skip(0) =~= targets@);
            while i < targets.len()
                invariant
                    resources.wf(),
                    resources.same_frame(old(resources)),
                    resources.locations == old(resources).locations,
                    state.groups() == old(state).groups(),
                    i <= targets@.len(),
                    w0 == world(*old(resources), *old(state), *old(communicator), 0),
                    plan@ == (PlanView::ModifyCost { targets: targets@, amount: *amount }),
                    cost_fold(targets@, *amount, w0) == cost_fold(
                        targets@.skip(i as int),
                        *amount,
                        world(*resources, *state, *communicator, 0),
                    ),
                decreases targets.len() - i,
            {
                let ghost rest = targets@.skip(i as int);
                assert(rest[0] == targets@[i as int]);
                assert(rest.drop_first() =~= targets@.skip(i + 1));
                let t = targets[i];
                let ti = match resources.find_token(t) {
                    None => return Err(GameError::TokenNotFound(t)),
                    Some(ti) => ti,
                };
                let c: i32 = resources.token_instances[ti].cost as i32;
                let n = match c.checked_add(*amount) {
                    None => return Err(GameError::InvalidState),
                    Some(n) => n,
                };
                let cost: u32 = if n < 0 {
                    0
                } else {
                    n as u32
                };
                let stats = resources.token_instances[ti].current_stats;
                resources.update_token(ti, stats, cost);
                communicator.send_game_instruction(InstructionToClient::UpdateData { token_data: resources.token_instances[ti].duplicate() });
                i = i + 1;
            }
            assert(targets@.skip(i as int) =~= Seq::<TokenInstanceId>::empty());
            Ok(CardBehaviorResult::Done)
        },
        ActionPlan::Destroy { this, targets } => {
            let ghost gs = targets@.map_values(|t: TokenInstanceId| spec_destroy_group(*this, t));
            let mut i: usize = 0;
            assert(gs.skip(0) =~= gs);
            while i < targets.len()
                invariant
                    i <= targets@.len(),
                    gs == targets@.map_values(|t: TokenInstanceId| spec_destroy_group(*this, t)),
                    *resources == *old(resources),
                    communicator.sent() == old(communicator).sent(),
                    fronts(gs, old(state).groups()) == fronts(gs.skip(i as int), state.groups()),
                decreases targets.len() - i,
            {
                assert(gs.skip(i as int)[0] == spec_destroy_group(*this, targets@[i as int]));
                assert(gs.skip(i as int).drop_first() =~= gs.skip(i + 1));
                state.destroy_token(*this, targets[i]);
                i = i + 1;
            }
            assert(gs.skip(i as int) =~= Seq::<GroupView>::empty());
            Ok(CardBehaviorResult::Done)
        },
        ActionPlan::DamageHeroes { this, players, amount } => {
            let ghost gs = players@.map_values(|q: PlayerId| spec_effect_damage_group(*this, hero_of(w0.rv, q), *amount));
            let mut i: usize = 0;
            assert(gs.skip(0) =~= gs);
            while i < players.len()
                invariant
                    i <= players@.len(),
                    w0 == world(*old(resources), *old(state), *old(communicator), 0),
                    gs == players@.map_values(|q: PlayerId| spec_effect_damage_group(*this, hero_of(w0.rv, q), *amount)),
                    *resources == *old(resources),
                    communicator.sent() == old(communicator).sent(),
                    fronts(gs, old(state).groups()) == fronts(gs.skip(i as int), state.groups()),
                decreases players.len() - i,
            {
                let hero = resources.get_player(players[i]).hero;
                assert(hero == hero_of(w0.rv, players@[i as int]));
                assert(gs.skip(i as int)[0] == spec_effect_damage_group(*this, hero, *amount));
                assert(gs.skip(i as int).drop_first() =~= gs.skip(i + 1));
                state.deal_effect_damage(*this, hero, *amount);
                i = i + 1;
            }
            assert(gs.skip(i as int) =~= Seq::<GroupView>::empty());
            Ok(CardBehaviorResult::Done)
        },
        ActionPlan::DamageUnits { this, targets, amount } => {
            let ghost gs = targets@.map_values(|t: TokenInstanceId| spec_effect_damage_group(*this, t, *amount));
            let mut i: usize = 0;
            assert(gs.skip(0) =~= gs);
            while i < targets.len()
                invariant
                    i <= targets@.len(),
                    gs == targets@.map_values(|t: TokenInstanceId| spec_effect_damage_group(*this, t, *amount)),
                    *resources == *old(resources),
                    communicator.sent() == old(communicator).sent(),
                    fronts(gs, old(state).groups()) == fronts(gs.skip(i as int), state.groups()),
                decreases targets.len() - i,
            {
                assert(gs.skip(i as int)[0] == spec_effect_damage_group(*this, targets@[i as int], *amount));
                assert(gs.skip(i as int).drop_first() =~= gs.skip(i + 1));
                state.deal_effect_damage(*this, targets[i], *amount);
                i = i + 1;
            }
            assert(gs.skip(i as int) =~= Seq::<GroupView>::empty());
            Ok(CardBehaviorResult::Done)
        },
        ActionPlan::Cancel => Ok(CardBehaviorResult::Cancel),
        ActionPlan::Nothing => Ok(CardBehaviorResult::Done),
    }
}

/// What running an action leads to: its plan against the game as it is, then that plan
/// applied; a plan that cannot be made changes nothing but the flips read.
pub open spec fn spec_run(
    a: TokenBehaviorAction,
    ctx: Map<Seq<char>, ContextValueView>,
    w: WorldView,
    cs: spec_fn(int) -> bool,
) -> (Result<CardBehaviorResult, GameErrorView>, WorldView) {
    let (rp, k1) = spec_plan(a, ctx, w.rv, cs, w.k);
    match rp {
        Err(e) => (Err(e), at_flip(w, k1)),
        Ok(p) => spec_apply(p, at_flip(w, k1)),
    }
}

impl TokenBehaviorAction {
    /// Runs the action (see `spec_run`), random player choices taking flips of `coins`.
    pub fn run_with(
        &self,
        context: &GameContext,
        resources: &mut StateResources,
        state: &mut StateMachine,
        communicator: &mut GameCommunicator,
        coins: &mut Coins,
    ) -> (r: Result<CardBehaviorResult, GameError>)
        requires
            old(resources).wf(),
        ensures
            final(resources).wf(),
            final(resources).same_frame(old(resources)),
            final(resources).locations == old(resources).locations,
            extends(final(coins)@, old(coins)@),
            forall|cs: spec_fn(int) -> bool|
                agrees(cs, final(coins)@) ==> #[trigger] spec_run(
                    *self,
                    context.view(),
                    world(*old(resources), *old(state), *old(communicator), old(coins)@.len() as int),
                    cs,
                ) == (res_view(r), world(*final(resources), *final(state), *final(communicator), final(coins)@.len() as int)),
    {
        let ghost k0 = coins@.len() as int;
        let ghost w0 = world(*resources, *state, *communicator, k0);
        let plan = match self.plan_with(context, resources, coins) {
            Ok(p) => p,
            Err(e) => return Err(e),
        };
        let ghost c1 = coins@;
        let r = apply_plan(&plan, resources, state, communicator);
        proof {
            lemma_apply_at(plan@, world(*old(resources), *old(state), *old(communicator), 0), c1.len() as int);
            assert(at_flip(world(*old(resources), *old(state), *old(communicator), 0), c1.len() as int) == at_flip(w0, c1.len() as int));
            assert forall|cs: spec_fn(int) -> bool| agrees(cs, coins@) implies #[trigger] spec_run(*self, context.view(), w0, cs)
                == (res_view(r), world(*resources, *state, *communicator, coins@.len() as int)) by {
                assert(spec_plan(*self, context.view(), w0.rv, cs, k0) == (plan_view(Ok::<ActionPlan, GameError>(plan)), c1.len() as int));
            }
        }
        r
    }

    /// Runs the action (see `spec_run`), random player choices being drawn at random.
    pub fn run(
        &self,
        context: &GameContext,
        resources: &mut StateResources,
        state: &mut StateMachine,
        communicator: &mut GameCommunicator,
    ) -> (r: Result<CardBehaviorResult, GameError>)
        requires
            old(resources).wf(),
        ensures
            final(resources).wf(),
            final(resources).same_frame(old(resources)),
            final(resources).locations == old(resources).locations,
            exists|cs: spec_fn(int) -> bool, k: int|
                #![trigger spec_run(*self, context.view(), world(*old(resources), *old(state), *old(communicator), 0), cs), world(*final(resources), *final(state), *final(communicator), k)]
                spec_run(*self, context.view(), world(*old(resources), *old(state), *old(communicator), 0), cs)
                    == (res_view(r), world(*final(resources), *final(state), *final(communicator), k)),
    {
        let mut coins = Coins::new();
        let r = self.run_with(context, resources, state, communicator, &mut coins);
        proof {
            lemma_stream_of_agrees(coins@);
            assert(spec_run(*self, context.view(), world(*old(resources), *old(state), *old(communicator), 0), stream_of(coins@))
                == (res_view(r), world(*resources, *state, *communicator, coins@.len() as int)));
        }
        r
    }
}

/// Whether a trigger's activator lets it fire for this token.
pub open spec fn activator_ok(a: TokenBehaviorTriggerWhenActivator, is_owned: bool, is_this: bool) -> bool {
    match a {
        TokenBehaviorTriggerWhenActivator::Owned => is_owned,
        TokenBehaviorTriggerWhenActivator::Opponent => !is_owned,
        TokenBehaviorTriggerWhenActivator::This => is_this,
        TokenBehaviorTriggerWhenActivator::Either => true,
    }
}

/// Whether some trigger fires: each trigger for this step whose activator fits is looked
/// at in turn, and fires unless its extra condition fails; a condition that cannot be
/// checked stops everything. The coin flips of random player choices are read from `cs`
/// starting at flip `k`; the second value is where the next reading would start.
pub open spec fn fires(
    ts: Seq<TokenBehaviorTrigger>,
    name: TokenBehaviorTriggerWhenName,
    is_owned: bool,
    is_this: bool,
    ctx: Map<Seq<char>, ContextValueView>,
    res: ResView,
    cs: spec_fn(int) -> bool,
    k: int,
    acc: bool,
) -> (Result<bool, GameErrorView>, int)
    decreases ts.len(),
{
    if ts.len() == 0 {
        (Ok(acc), k)
    } else if !(activator_ok(ts[0].when.activator, is_owned, is_this) && ts[0].when.name == name) {
        fires(ts.drop_first(), name, is_owned, is_this, ctx, res, cs, k, acc)
    } else {
        match ts[0].and {
            None => fires(ts.drop_first(), name, is_owned, is_this, ctx, res, cs, k, true),
            Some(a) => {
                let (rc, k1) = spec_check(a, ctx, res, cs, k);
                match rc {
                    Err(e) => (Err(e), k1),
                    Ok(b) => fires(ts.drop_first(), name, is_owned, is_this, ctx, res, cs, k1, acc || b),
                }
            },
        }
    }
}

/// Running actions in turn; the first that fails stops the rest.
pub open spec fn actions_fold(
    acts: Seq<TokenBehaviorAction>,
    ctx: Map<Seq<char>, ContextValueView>,
    w: WorldView,
    cs: spec_fn(int) -> bool,
) -> (Option<GameErrorView>, WorldView)
    decreases acts.len(),
{
    if acts.len() == 0 {
        (None, w)
    } else {
        let (r, w2) = spec_run(acts[0], ctx, w, cs);
        match r {
            Err(e) => (Some(e), w2),
            Ok(_) => actions_fold(acts.drop_first(), ctx, w2, cs),
        }
    }
}

/// Going through a token's behaviors in turn: when one of a behavior's triggers fires, its
/// actions run.
pub open spec fn behaviors_fold(
    bs: Seq<TokenBehavior>,
    name: TokenBehaviorTriggerWhenName,
    is_owned: bool,
    is_this: bool,
    ctx: Map<Seq<char>, ContextValueView>,
    w: WorldView,
    cs: spec_fn(int) -> bool,
) -> (Option<GameErrorView>, WorldView)
    decreases bs.len(),
{
    if bs.len() == 0 {
        (None, w)
    } else {
        let (rf, k1) = fires(bs[0].triggers@, name, is_owned, is_this, ctx, w.rv, cs, w.k, false);
        match rf {
            Err(e) => (Some(e), at_flip(w, k1)),
            Ok(false) => behaviors_fold(bs.drop_first(), name, is_owned, is_this, ctx, at_flip(w, k1), cs),
            Ok(true) => {
                let (e, w2) = actions_fold(bs[0].actions@, ctx, at_flip(w, k1), cs);
                match e {
                    Some(e) => (Some(e), w2),
                    None => behaviors_fold(bs.drop_first(), name, is_owned, is_this, ctx, w2, cs),
                }
            },
        }
    }
}

/// Whether the context names this token as what the step is about; a value there that is
/// no token id is refused.
pub open spec fn ctx_is_this(ctx: Map<Seq<char>, ContextValueView>, t: TokenInstanceId) -> Result<bool, GameErrorView> {
    if !ctx.contains_key(context_keys::TRIGGER_THIS@) {
        Ok(false)
    } else {
        match ctx[context_keys::TRIGGER_THIS@] {
            ContextValueView::TokenInstanceId(x) => Ok(x == t),
            _ => Err(GameErrorView::WrongContextKind(ContextValueKind::TokenInstanceId)),
        }
    }
}

/// What a step does to one token's behaviors: the token must be in play and the context
/// must name an owner; the token's behaviors are then gone through (see `behaviors_fold`)
/// with the token's owner compared to the context's.
pub open spec fn spec_trigger(
    token: TokenInstanceId,
    name: TokenBehaviorTriggerWhenName,
    ctx: Map<Seq<char>, ContextValueView>,
    w: WorldView,
    cs: spec_fn(int) -> bool,
) -> (Option<GameErrorView>, WorldView) {
    if !w.rv.tokens.contains_key(token) {
        (Some(GameErrorView::TokenNotFound(token)), w)
    } else {
        match ctx_player(ctx, context_keys::OWNER@) {
            Err(e) => (Some(e), w),
            Ok(owner) => match ctx_is_this(ctx, token) {
                Err(e) => (Some(e), w),
                Ok(is_this) => behaviors_fold(
                    w.rv.registry.tokens@[w.rv.tokens[token].data_index as int].behaviors@,
                    name,
                    w.rv.tokens[token].owner == owner,
                    is_this,
                    ctx,
                    w,
                    cs,
                ),
            },
        }
    }
}

/// An outcome given as an optional error.
pub open spec fn unit_view(r: Result<(), GameError>) -> Option<GameErrorView> {
    match r {
        Ok(_) => None,
        Err(e) => Some(e@),
    }
}

/// Runs action `a` of behavior `b` of token kind `kind` of the registry (see `spec_run`),
/// random player choices taking flips of `coins`.
fn run_registered_action(
    kind: usize,
    b: usize,
    a: usize,
    context: &GameContext,
    resources: &mut StateResources,
    state: &mut StateMachine,
    communicator: &mut GameCommunicator,
    coins: &mut Coins,
) -> (r: Result<CardBehaviorResult, GameError>)
    requires
        old(resources).wf(),
        kind < old(resources).registry.tokens@.len(),
        b < old(resources).registry.tokens@[kind as int].behaviors@.len(),
        a < old(resources).registry.tokens@[kind as int].behaviors@[b as int].actions@.len(),
    ensures
        final(resources).wf(),
        final(resources).same_frame(old(resources)),
        final(resources).locations == old(resources).locations,
        extends(final(coins)@, old(coins)@),
        forall|cs: spec_fn(int) -> bool|
            agrees(cs, final(coins)@) ==> #[trigger] spec_run(
                old(resources).registry.tokens@[kind as int].behaviors@[b as int].actions@[a as int],
                context.view(),
                world(*old(resources), *old(state), *old(communicator), old(coins)@.len() as int),
                cs,
            ) == (res_view(r), world(*final(resources), *final(state), *final(communicator), final(coins)@.len() as int)),
{
    let ghost act = resources.registry.tokens@[kind as int].behaviors@[b as int].actions@[a as int];
    let ghost wcur = world(*resources, *state, *communicator, coins@.len() as int);
    let ghost c1 = coins@;
    let rp = resources.registry.tokens[kind].behaviors[b].actions[a].plan_with(context, resources, coins);
    let ghost cm = coins@;
    let r = match rp {
        Err(e) => Err(e),
        Ok(plan) => apply_plan(&plan, resources, state, communicator),
    };
    proof {
        assert forall|cs: spec_fn(int) -> bool| agrees(cs, coins@) implies #[trigger] spec_run(act, context.view(), wcur, cs)
            == (res_view(r), world(*resources, *state, *communicator, coins@.len() as int)) by {
            assert(spec_plan(act, context.view(), wcur.rv, cs, c1.len() as int) == (plan_view(rp), cm.len() as int));
            match rp {
                Err(_) => {},
                Ok(plan) => {
                    lemma_apply_at(plan@, world(*old(resources), *old(state), *old(communicator), 0), cm.len() as int);
                    assert(at_flip(world(*old(resources), *old(state), *old(communicator), 0), cm.len() as int) == at_flip(wcur, cm.len() as int));
                },
            }
        }
    }
    r
}

/// Runs the behaviors of one token for a step (see `spec_trigger`), random player choices
/// taking flips of `coins`.
pub fn trigger_card_behaviors_with(
    token_instance_id: TokenInstanceId,
    trigger_name: TokenBehaviorTriggerWhenName,
    context: &GameContext,
    state: &mut StateMachine,
    resources: &mut StateResources,
    communicator: &mut GameCommunicator,
    coins: &mut Coins,
) -> (r: Result<(), GameError>)
    requires
        old(resources).wf(),
    ensures
        final(resources).wf(),
        final(resources).same_frame(old(resources)),
        final(resources).locations == old(resources).locations,
        extends(final(coins)@, old(coins)@),
        forall|cs: spec_fn(int) -> bool|
            agrees(cs, final(coins)@) ==> #[trigger] spec_trigger(
                token_instance_id,
                trigger_name,
                context.view(),
                world(*old(resources), *old(state), *old(communicator), old(coins)@.len() as int),
                cs,
            ) == (unit_view(r), world(*final(resources), *final(state), *final(communicator), final(coins)@.len() as int)),
{
    let ghost ctx = context.view();
    let ghost w0 = world(*resources, *state, *communicator, coins@.len() as int);
    let ti = match resources.find_token(token_instance_id) {
        None => return Err(GameError::TokenNotFound(token_instance_id)),
        Some(ti) => ti,
    };
    let owner = match context.get_player_id(context_keys::OWNER) {
        Ok(o) => o,
        Err(e) => return Err(e),
    };
    let is_owned = resources.token_instances[ti].owner == owner;
    let is_this = match context.get(context_keys::TRIGGER_THIS) {
        Err(_) => false,
        Ok(v) => match v.as_token_instance_id() {
            Ok(t) => t == token_instance_id,
            Err(e) => return Err(GameError::WrongContextKind(e.0)),
        },
    };
    let kind = resources.token_instances[ti].data_index;
    let ghost bs = resources.registry.tokens@[kind as int].behaviors@;
    let nb = resources.registry.tokens[kind].behaviors.len();
    let mut b: usize = 0;
    assert(bs.skip(0) =~= bs);
    assert forall|cs: spec_fn(int) -> bool| agrees(cs, coins@) implies #[trigger] spec_trigger(token_instance_id, trigger_name, ctx, w0, cs)
        == behaviors_fold(bs.skip(0), trigger_name, is_owned, is_this, ctx, world(*resources, *state, *communicator, coins@.len() as int), cs) by {}
    while b < nb
        invariant
            resources.wf(),
            resources.same_frame(old(resources)),
            resources.locations == old(resources).locations,
            kind < resources.registry.tokens@.len(),
            bs == resources.registry.tokens@[kind as int].behaviors@,
            nb == bs.len(),
            b <= nb,
            ctx == context.view(),
            w0 == world(*old(resources), *old(state), *old(communicator), old(coins)@.len() as int),
            extends(coins@, old(coins)@),
            forall|cs: spec_fn(int) -> bool|
                agrees(cs, coins@) ==> #[trigger] spec_trigger(token_instance_id, trigger_name, ctx, w0, cs) == behaviors_fold(
                    bs.skip(b as int),
                    trigger_name,
                    is_owned,
                    is_this,
                    ctx,
                    world(*resources, *state, *communicator, coins@.len() as int),
                    cs,
                ),
        decreases nb - b,
    {
        assert(bs.skip(b as int)[0] == bs[b as int]);
        assert(bs.skip(b as int).drop_first() =~= bs.skip(b + 1));
        let ghost trs = bs[b as int].triggers@;
        let ghost cb = coins@;
        let ghost wb = world(*resources, *state, *communicator, coins@.len() as int);
        let nt = resources.registry.tokens[kind].behaviors[b].triggers.len();
        let mut any = false;
        let mut k: usize = 0;
        assert(trs.skip(0) =~= trs);
        while k < nt
            invariant
                resources.wf(),
                resources.same_frame(old(resources)),
                resources.locations == old(resources).locations,
                wb == world(*resources, *state, *communicator, cb.len() as int),
                ctx == context.view(),
                kind < resources.registry.tokens@.len(),
                bs == resources.registry.tokens@[kind as int].behaviors@,
                b < bs.len(),
                trs == bs[b as int].triggers@,
                nt == trs.len(),
                k <= nt,
                extends(coins@, cb),
                extends(cb, old(coins)@),
                w0 == world(*old(resources), *old(state), *old(communicator), old(coins)@.len() as int),
                bs.skip(b as int)[0] == bs[b as int],
                bs.skip(b as int).drop_first() == bs.skip(b + 1),
                forall|cs: spec_fn(int) -> bool|
                    agrees(cs, cb) ==> #[trigger] spec_trigger(token_instance_id, trigger_name, ctx, w0, cs) == behaviors_fold(
                        bs.skip(b as int),
                        trigger_name,
                        is_owned,
                        is_this,
                        ctx,
                        wb,
                        cs,
                    ),
                forall|cs: spec_fn(int) -> bool|
                    agrees(cs, coins@) ==> #[trigger] fires(trs, trigger_name, is_owned, is_this, ctx, wb.rv, cs, cb.len() as int, false)
                        == fires(trs.skip(k as int), trigger_name, is_owned, is_this, ctx, wb.rv, cs, coins@.len() as int, any),
            decreases nt - k,
        {
            assert(trs.skip(k as int)[0] == trs[k as int]);
            assert(trs.skip(k as int).drop_first() =~= trs.skip(k + 1));
            let ghost ck = coins@;
            let trigger = &resources.registry.tokens[kind].behaviors[b].triggers[k];
            let act_ok = match trigger.when.activator {
                TokenBehaviorTriggerWhenActivator::Owned => is_owned,
                TokenBehaviorTriggerWhenActivator::Opponent => !is_owned,
                TokenBehaviorTriggerWhenActivator::This => is_this,
                TokenBehaviorTriggerWhenActivator::Either => true,
            };
            if act_ok && trigger.when.name == trigger_name {
                match &trigger.and {
                    None => {
                        any = true;
                    },
                    Some(a) => {
                        let rc = a.check_with(context, resources, coins);
                        proof {
                            assert(*trigger == trs[k as int]);
                            assert forall|i: int| 0 <= i < cb.len() implies #[trigger] coins@[i] == cb[i] by {
                                assert(coins@[i] == ck[i]);
                            }
                        }
                        match rc {
                            Err(e) => {
                                proof {
                                    assert forall|i: int| 0 <= i < old(coins)@.len() implies #[trigger] coins@[i] == old(coins)@[i] by {
                                        assert(coins@[i] == cb[i]);
                                    }
                                    assert forall|cs: spec_fn(int) -> bool| agrees(cs, coins@) implies #[trigger] spec_trigger(token_instance_id, trigger_name, ctx, w0, cs)
                                        == (unit_view(Err::<(), GameError>(e)), world(*resources, *state, *communicator, coins@.len() as int)) by {
                                        lemma_agrees_prefix(cs, coins@, ck);
                                        lemma_agrees_prefix(cs, coins@, cb);
                                        assert(spec_check(*a, ctx, wb.rv, cs, ck.len() as int) == (Err::<bool, GameErrorView>(e@), coins@.len() as int));
                                        assert(fires(trs, trigger_name, is_owned, is_this, ctx, wb.rv, cs, cb.len() as int, false)
                                            == fires(trs.skip(k as int), trigger_name, is_owned, is_this, ctx, wb.rv, cs, ck.len() as int, any));
                                    }
                                }
                                return Err(e);
                            },
                            Ok(bv) => {
                                proof {
                                    assert forall|cs: spec_fn(int) -> bool| agrees(cs, coins@) implies #[trigger] fires(trs, trigger_name, is_owned, is_this, ctx, wb.rv, cs, cb.len() as int, false)
                                        == fires(trs.skip(k + 1), trigger_name, is_owned, is_this, ctx, wb.rv, cs, coins@.len() as int, any || bv) by {
                                        lemma_agrees_prefix(cs, coins@, ck);
                                        assert(spec_check(*a, ctx, wb.rv, cs, ck.len() as int) == (Ok::<bool, GameErrorView>(bv), coins@.len() as int));
                                    }
                                }
                                any = any || bv;
                            },
                        }
                    },
                }
            }
            k = k + 1;
        }
        assert(trs.skip(k as int) =~= Seq::<TokenBehaviorTrigger>::empty());
        proof {
            assert forall|i: int| 0 <= i < old(coins)@.len() implies #[trigger] coins@[i] == old(coins)@[i] by {
                assert(coins@[i] == cb[i]);
            }
        }
        let ghost wa = world(*resources, *state, *communicator, coins@.len() as int);
        let ghost ca = coins@;
        assert(wa == at_flip(wb, ca.len() as int));
        assert forall|cs: spec_fn(int) -> bool| agrees(cs, coins@) implies #[trigger] spec_trigger(token_instance_id, trigger_name, ctx, w0, cs)
            == (if any {
                let (e, w2) = actions_fold(bs[b as int].actions@, ctx, wa, cs);
                match e {
                    Some(e) => (Some(e), w2),
                    None => behaviors_fold(bs.skip(b + 1), trigger_name, is_owned, is_this, ctx, w2, cs),
                }
            } else {
                behaviors_fold(bs.skip(b + 1), trigger_name, is_owned, is_this, ctx, wa, cs)
            }) by {
            lemma_agrees_prefix(cs, coins@, cb);
            assert(fires(trs, trigger_name, is_owned, is_this, ctx, wb.rv, cs, cb.len() as int, false) == (Ok::<bool, GameErrorView>(any), ca.len() as int));
        }
        if any {
            let ghost acts = bs[b as int].actions@;
            let na = resources.registry.tokens[kind].behaviors[b].actions.len();
            let mut a: usize = 0;
            assert(acts.skip(0) =~= acts);
            while a < na
                invariant
                    resources.wf(),
                    resources.same_frame(old(resources)),
                    resources.locations == old(resources).locations,
                    kind < resources.registry.tokens@.len(),
                    bs == resources.registry.tokens@[kind as int].behaviors@,
                    b < bs.len(),
                    acts == bs[b as int].actions@,
                    na == acts.len(),
                    a <= na,
                    ctx == context.view(),
                    w0 == world(*old(resources), *old(state), *old(communicator), old(coins)@.len() as int),
                    extends(coins@, ca),
                    extends(ca, old(coins)@),
                    forall|cs: spec_fn(int) -> bool|
                        agrees(cs, ca) ==> #[trigger] spec_trigger(token_instance_id, trigger_name, ctx, w0, cs) == ({
                            let (e, w2) = actions_fold(acts, ctx, wa, cs);
                            match e {
                                Some(e) => (Some(e), w2),
                                None => behaviors_fold(bs.skip(b + 1), trigger_name, is_owned, is_this, ctx, w2, cs),
                            }
                        }),
                    forall|cs: spec_fn(int) -> bool|
                        agrees(cs, coins@) ==> #[trigger] actions_fold(acts, ctx, wa, cs) == actions_fold(
                            acts.skip(a as int),
                            ctx,
                            world(*resources, *state, *communicator, coins@.len() as int),
                            cs,
                        ),
                decreases na - a,
            {
                assert(acts.skip(a as int)[0] == acts[a as int]);
                assert(acts.skip(a as int).drop_first() =~= acts.skip(a + 1));
                let ghost c1 = coins@;
                let ghost wcur = world(*resources, *state, *communicator, coins@.len() as int);
                let ghost act = acts[a as int];
                let r = run_registered_action(kind, b, a, context, resources, state, communicator, coins);
                proof {
                    assert forall|i: int| 0 <= i < ca.len() implies #[trigger] coins@[i] == ca[i] by {
                        assert(coins@[i] == c1[i]);
                    }
                    assert forall|i: int| 0 <= i < old(coins)@.len() implies #[trigger] coins@[i] == old(coins)@[i] by {
                        assert(coins@[i] == ca[i]);
                    }
                }
                match r {
                    Ok(_) => {
                        proof {
                            assert forall|cs: spec_fn(int) -> bool| agrees(cs, coins@) implies #[trigger] actions_fold(acts, ctx, wa, cs)
                                == actions_fold(acts.skip(a + 1), ctx, world(*resources, *state, *communicator, coins@.len() as int), cs) by {
                                lemma_agrees_prefix(cs, coins@, c1);
                                assert(spec_run(act, ctx, wcur, cs) == (res_view(r), world(*resources, *state, *communicator, coins@.len() as int)));
                            }
                        }
                    },
                    Err(e) => {
                        proof {
                            assert forall|cs: spec_fn(int) -> bool| agrees(cs, coins@) implies #[trigger] spec_trigger(token_instance_id, trigger_name, ctx, w0, cs)
                                == (unit_view(Err::<(), GameError>(e)), world(*resources, *state, *communicator, coins@.len() as int)) by {
                                lemma_agrees_prefix(cs, coins@, ca);
                                lemma_agrees_prefix(cs, coins@, c1);
                                assert(spec_run(act, ctx, wcur, cs) == (res_view(r), world(*resources, *state, *communicator, coins@.len() as int)));
                                assert(actions_fold(acts, ctx, wa, cs) == actions_fold(acts.skip(a as int), ctx, wcur, cs));
                            }
                        }
                        return Err(e);
                    },
                }
                a = a + 1;
            }
            assert(acts.skip(a as int) =~= Seq::<TokenBehaviorAction>::empty());
            proof {
                assert forall|cs: spec_fn(int) -> bool| agrees(cs, coins@) implies #[trigger] spec_trigger(token_instance_id, trigger_name, ctx, w0, cs)
                    == behaviors_fold(bs.skip(b + 1), trigger_name, is_owned, is_this, ctx, world(*resources, *state, *communicator, coins@.len() as int), cs) by {
                    lemma_agrees_prefix(cs, coins@, ca);
                    assert(actions_fold(acts, ctx, wa, cs) == actions_fold(acts.skip(a as int), ctx, world(*resources, *state, *communicator, coins@.len() as int), cs));
                }
            }
        }
        b = b + 1;
    }
    assert(bs.skip(b as int) =~= Seq::<TokenBehavior>::empty());
    Ok(())
}

/// Runs the behaviors of one token for a step (see `spec_trigger`), random player choices
/// being drawn at random.
pub fn trigger_card_behaviors(
    token_instance_id: TokenInstanceId,
    trigger_name: TokenBehaviorTriggerWhenName,
    context: &GameContext,
    state: &mut StateMachine,
    resources: &mut StateResources,
    communicator: &mut GameCommunicator,
) -> (r: Result<(), GameError>)
    requires
        old(resources).wf(),
    ensures
        final(resources).wf(),
        final(resources).same_frame(old(resources)),
        final(resources).locations == old(resources).locations,
        exists|cs: spec_fn(int) -> bool, k: int|
            #![trigger spec_trigger(token_instance_id, trigger_name, context.view(), world(*old(resources), *old(state), *old(communicator), 0), cs), world(*final(resources), *final(state), *final(communicator), k)]
            spec_trigger(
                token_instance_id,
                trigger_name,
                context.view(),
                world(*old(resources), *old(state), *old(communicator), 0),
                cs,
            ) == (unit_view(r), world(*final(resources), *final(state), *final(communicator), k)),
{
    let mut coins = Coins::new();
    let r = trigger_card_behaviors_with(token_instance_id, trigger_name, context, state, resources, communicator, &mut coins);
    proof {
        lemma_stream_of_agrees(coins@);
        assert(spec_trigger(token_instance_id, trigger_name, context.view(), world(*old(resources), *old(state), *old(communicator), 0), stream_of(coins@))
            == (unit_view(r), world(*resources, *state, *communicator, coins@.len() as int)));
    }
    r
}

} // verus!
