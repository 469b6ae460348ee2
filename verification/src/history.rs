//! What has been said to the client stays said: every step of the game only adds
//! messages after those already sent.
use vstd::prelude::*;

use crate::actions::{
    actions_fold, behaviors_fold, cost_fold, modify_fold, replace_fold, spec_apply, spec_run, spec_trigger,
    PlanView, Stat, WorldView,
};
use crate::animation_presets::AnimationPreset;
use crate::game_communicator::OutgoingView;
use crate::game_context::ContextValueView;
use crate::id_types::{LocationId, TokenInstanceId};
use crate::locations::LocationView;
use crate::process::{
    equip_fold, item_fold, spec_group_step, spec_phase, spec_process_next, spec_step, step_then_react,
    token_step, trig_fold, ProcessStatus, StepKind,
};
use crate::state_machine::GroupView;
use crate::state_resources::{spec_destroy, spec_move_token, Outcome, StateResources};
use crate::token_data::{TokenBehavior, TokenBehaviorAction, TokenBehaviorTriggerWhenName as TriggerState};
use crate::token_instance::TokenInstanceView;
use crate::error::{GameError, GameErrorView};
use crate::context_keys;
use crate::game_context::{ctx_location, ctx_player, ctx_token};
use crate::state_resources::spec_player;

verus! {

/// `b` starts with everything `a` holds, in the same order.
pub open spec fn kept_in(a: Seq<OutgoingView>, b: Seq<OutgoingView>) -> bool {
    &&& a.len() <= b.len()
    &&& forall|i: int| 0 <= i < a.len() ==> #[trigger] b[i] == a[i]
}

/// Keeping is transitive.
pub proof fn lemma_kept_trans(a: Seq<OutgoingView>, b: Seq<OutgoingView>, c: Seq<OutgoingView>)
    requires
        kept_in(a, b),
        kept_in(b, c),
    ensures
        kept_in(a, c),
{
    assert forall|i: int| 0 <= i < a.len() implies #[trigger] c[i] == a[i] by {
        assert(b[i] == a[i]);
        assert(c[i] == b[i]);
    }
}

/// A move only adds messages.
pub proof fn lemma_move_keeps(
    locs: Map<LocationId, LocationView>,
    tokens: Map<TokenInstanceId, TokenInstanceView>,
    sent: Seq<OutgoingView>,
    t: TokenInstanceId,
    to: LocationId,
    animation: Option<AnimationPreset>,
)
    ensures
        kept_in(sent, spec_move_token(locs, tokens, sent, t, to, animation).sent),
{
    let o = spec_move_token(locs, tokens, sent, t, to, animation);
    assert forall|i: int| 0 <= i < sent.len() implies #[trigger] o.sent[i] == sent[i] by {}
}

/// Destroying a token only adds messages.
pub proof fn lemma_destroy_keeps(pre: StateResources, sent: Seq<OutgoingView>, t: TokenInstanceId)
    ensures
        kept_in(sent, spec_destroy(pre, sent, t).sent),
{
    if pre.tokens().contains_key(t) {
        let tok = pre.tokens()[t];
        lemma_move_keeps(
            pre.locs(),
            pre.tokens(),
            sent,
            t,
            crate::board::spec_side(pre.board, tok.owner).graveyard,
            Some(AnimationPreset::EaseInOut),
        );
    }
}

/// Equipping an item into each slot only adds messages.
pub proof fn lemma_equip_keeps(slots: Seq<LocationId>, item: TokenInstanceId, o: Outcome)
    ensures
        kept_in(o.sent, equip_fold(slots, item, o).sent),
    decreases slots.len(),
{
    if slots.len() > 0 {
        let o2 = spec_move_token(o.locs, o.tokens, o.sent, item, slots[0], None);
        lemma_move_keeps(o.locs, o.tokens, o.sent, item, slots[0], None);
        lemma_equip_keeps(slots.drop_first(), item, Outcome { result: Ok(()), ..o2 });
        lemma_kept_trans(o.sent, o2.sent, equip_fold(slots, item, o).sent);
    }
}

proof fn lemma_modify_keeps(ts: Seq<TokenInstanceId>, stat: Stat, amount: i32, w: WorldView)
    ensures
        kept_in(w.sent, modify_fold(ts, stat, amount, w).1.sent),
    decreases ts.len(),
{
    if ts.len() > 0 && w.rv.tokens.contains_key(ts[0]) {
        match crate::actions::bump(w.rv.tokens[ts[0]], stat, amount) {
            None => {},
            Some(v) => {
                let w1 = crate::actions::with_token(w, ts[0], v);
                lemma_modify_keeps(ts.drop_first(), stat, amount, w1);
                lemma_kept_trans(w.sent, w1.sent, modify_fold(ts, stat, amount, w).1.sent);
            },
        }
    }
}

proof fn lemma_cost_keeps(ts: Seq<TokenInstanceId>, amount: i32, w: WorldView)
    ensures
        kept_in(w.sent, cost_fold(ts, amount, w).1.sent),
    decreases ts.len(),
{
    if ts.len() > 0 && w.rv.tokens.contains_key(ts[0]) {
        match crate::actions::bump_cost(w.rv.tokens[ts[0]], amount) {
            None => {},
            Some(v) => {
                let w1 = crate::actions::with_token(w, ts[0], v);
                lemma_cost_keeps(ts.drop_first(), amount, w1);
                lemma_kept_trans(w.sent, w1.sent, cost_fold(ts, amount, w).1.sent);
            },
        }
    }
}

proof fn lemma_replace_keeps(ts: Seq<TokenInstanceId>, this: TokenInstanceId, replacement: Seq<char>, w: WorldView)
    ensures
        replace_fold(ts, this, replacement, w).1.sent == w.sent,
    decreases ts.len(),
{
    if ts.len() > 0 && w.rv.tokens.contains_key(ts[0]) {
        let tok = w.rv.tokens[ts[0]];
        let g = seq![crate::state_machine::spec_destroy_group(this, ts[0])] + (seq![
            crate::state_machine::spec_create_group(replacement, tok.owner, tok.location),
        ] + w.groups);
        lemma_replace_keeps(ts.drop_first(), this, replacement, WorldView { groups: g, ..w });
    }
}

/// Running an action only adds messages.
pub proof fn lemma_run_keeps(a: TokenBehaviorAction, ctx: Map<Seq<char>, ContextValueView>, w: WorldView, cs: spec_fn(int) -> bool)
    ensures
        kept_in(w.sent, spec_run(a, ctx, w, cs).1.sent),
{
    let (rp, k1) = crate::actions::spec_plan(a, ctx, w.rv, cs, w.k);
    let w1 = crate::actions::at_flip(w, k1);
    match rp {
        Err(_) => {},
        Ok(p) => match p {
            PlanView::Replace { this, targets, replacement } => lemma_replace_keeps(targets, this, replacement, w1),
            PlanView::Modify { stat, targets, amount } => lemma_modify_keeps(targets, stat, amount, w1),
            PlanView::ModifyCost { targets, amount } => lemma_cost_keeps(targets, amount, w1),
            _ => {},
        },
    }
}

proof fn lemma_actions_keeps(acts: Seq<TokenBehaviorAction>, ctx: Map<Seq<char>, ContextValueView>, w: WorldView, cs: spec_fn(int) -> bool)
    ensures
        kept_in(w.sent, actions_fold(acts, ctx, w, cs).1.sent),
    decreases acts.len(),
{
    if acts.len() > 0 {
        let (r, w2) = spec_run(acts[0], ctx, w, cs);
        lemma_run_keeps(acts[0], ctx, w, cs);
        if r is Ok {
            lemma_actions_keeps(acts.drop_first(), ctx, w2, cs);
            lemma_kept_trans(w.sent, w2.sent, actions_fold(acts, ctx, w, cs).1.sent);
        }
    }
}

proof fn lemma_behaviors_keeps(
    bs: Seq<TokenBehavior>,
    name: TriggerState,
    is_owned: bool,
    is_this: bool,
    ctx: Map<Seq<char>, ContextValueView>,
    w: WorldView,
    cs: spec_fn(int) -> bool,
)
    ensures
        kept_in(w.sent, behaviors_fold(bs, name, is_owned, is_this, ctx, w, cs).1.sent),
    decreases bs.len(),
{
    if bs.len() > 0 {
        let (rf, k1) = crate::actions::fires(bs[0].triggers@, name, is_owned, is_this, ctx, w.rv, cs, w.k, false);
        let w1 = crate::actions::at_flip(w, k1);
        match rf {
            Err(_) => {},
            Ok(false) => lemma_behaviors_keeps(bs.drop_first(), name, is_owned, is_this, ctx, w1, cs),
            Ok(true) => {
                let (e, w2) = actions_fold(bs[0].actions@, ctx, w1, cs);
                lemma_actions_keeps(bs[0].actions@, ctx, w1, cs);
                if e is None {
                    lemma_behaviors_keeps(bs.drop_first(), name, is_owned, is_this, ctx, w2, cs);
                    lemma_kept_trans(w.sent, w2.sent, behaviors_fold(bs, name, is_owned, is_this, ctx, w, cs).1.sent);
                }
            },
        }
    }
}

/// A token's reaction only adds messages.
pub proof fn lemma_trigger_keeps(
    token: TokenInstanceId,
    name: TriggerState,
    ctx: Map<Seq<char>, ContextValueView>,
    w: WorldView,
    cs: spec_fn(int) -> bool,
)
    ensures
        kept_in(w.sent, spec_trigger(token, name, ctx, w, cs).1.sent),
{
    if w.rv.tokens.contains_key(token) {
        match crate::game_context::ctx_player(ctx, crate::context_keys::OWNER@) {
            Err(_) => {},
            Ok(owner) => match crate::actions::ctx_is_this(ctx, token) {
                Err(_) => {},
                Ok(is_this) => lemma_behaviors_keeps(
                    w.rv.registry.tokens@[w.rv.tokens[token].data_index as int].behaviors@,
                    name,
                    w.rv.tokens[token].owner == owner,
                    is_this,
                    ctx,
                    w,
                    cs,
                ),
            },
        }
    }
}

proof fn lemma_items_keeps(
    items: Seq<TokenInstanceId>,
    next: TriggerState,
    ctx: Map<Seq<char>, ContextValueView>,
    w: WorldView,
    cs: spec_fn(int) -> bool,
)
    ensures
        kept_in(w.sent, item_fold(items, next, ctx, w, cs).2.sent),
    decreases items.len(),
{
    if items.len() > 0 {
        let ctx1 = ctx.insert(crate::context_keys::ACTION_THIS@, ContextValueView::TokenInstanceId(items[0]));
        let (e, w1) = spec_trigger(items[0], next, ctx1, w, cs);
        lemma_trigger_keeps(items[0], next, ctx1, w, cs);
        if e is None {
            lemma_items_keeps(items.drop_first(), next, ctx1, w1, cs);
            lemma_kept_trans(w.sent, w1.sent, item_fold(items, next, ctx, w, cs).2.sent);
        }
    }
}

proof fn lemma_token_step_keeps(
    t: TokenInstanceId,
    next: TriggerState,
    ctx: Map<Seq<char>, ContextValueView>,
    w: WorldView,
    locs: Map<LocationId, LocationView>,
    cs: spec_fn(int) -> bool,
)
    ensures
        kept_in(w.sent, token_step(t, next, ctx, w, locs, cs).2.sent),
{
    if w.rv.tokens.contains_key(t) {
        match crate::process::spec_items(w.rv.tokens[t].equipment_slots, locs) {
            Err(_) => {},
            Ok(items) => {
                let (e1, ctx1, w1) = item_fold(items, next, ctx, w, cs);
                lemma_items_keeps(items, next, ctx, w, cs);
                if e1 is None {
                    let ctx2 = ctx1.insert(crate::context_keys::ACTION_THIS@, ContextValueView::TokenInstanceId(t));
                    lemma_trigger_keeps(t, next, ctx2, w1, cs);
                    lemma_kept_trans(w.sent, w1.sent, token_step(t, next, ctx, w, locs, cs).2.sent);
                }
            },
        }
    }
}

proof fn lemma_trig_fold_keeps(
    ts: Seq<TokenInstanceId>,
    next: TriggerState,
    ctx: Map<Seq<char>, ContextValueView>,
    w: WorldView,
    locs: Map<LocationId, LocationView>,
    cs: spec_fn(int) -> bool,
)
    ensures
        kept_in(w.sent, trig_fold(ts, next, ctx, w, locs, cs).2.sent),
    decreases ts.len(),
{
    if ts.len() > 0 {
        let (e, ctx1, w1) = token_step(ts[0], next, ctx, w, locs, cs);
        lemma_token_step_keeps(ts[0], next, ctx, w, locs, cs);
        if e is None {
            lemma_trig_fold_keeps(ts.drop_first(), next, ctx1, w1, locs, cs);
            lemma_kept_trans(w.sent, w1.sent, trig_fold(ts, next, ctx, w, locs, cs).2.sent);
        }
    }
}

/// The tokens' reactions to a step only add messages.
pub proof fn lemma_phase_keeps(
    next: TriggerState,
    ctx: Map<Seq<char>, ContextValueView>,
    locs: Map<LocationId, LocationView>,
    board: crate::board::Board,
    w: WorldView,
    cs: spec_fn(int) -> bool,
)
    ensures
        kept_in(w.sent, spec_phase(next, ctx, locs, board, w, cs).2.sent),
{
    match crate::process::spec_subject(next, ctx, w.rv.tokens) {
        Err(_) => {},
        Ok(ctx2) => {
            if crate::state_resources::side_locations_exist(locs, board.side_1)
                && crate::state_resources::side_locations_exist(locs, board.side_2) {
                lemma_trig_fold_keeps(crate::board::spec_tokens_in_play(locs, board), next, ctx2, w, locs, cs);
            }
        },
    }
}

/// The part a step does to the game only adds messages.
pub proof fn lemma_step_keeps(
    next: TriggerState,
    ctx: Map<Seq<char>, ContextValueView>,
    pre: StateResources,
    gp: Seq<GroupView>,
    sp: Seq<OutgoingView>,
    new_id: TokenInstanceId,
    post: StateResources,
    ctx_post: Map<Seq<char>, ContextValueView>,
    gq: Seq<GroupView>,
    sq: Seq<OutgoingView>,
    r: Result<StepKind, GameErrorView>,
)
    requires
        spec_step(next, ctx, pre, gp, sp, new_id, post, ctx_post, gq, sq, r),
    ensures
        kept_in(sp, sq),
{
    match next {
        TriggerState::HasBeenMoved => match ctx_token(ctx, context_keys::TOKEN_INSTANCE@) {
            Ok(t) => match ctx_location(ctx, context_keys::TO_LOCATION@) {
                Ok(to) => lemma_move_keeps(pre.locs(), pre.tokens(), sp, t, to, Some(AnimationPreset::EaseInOut)),
                Err(_) => {},
            },
            Err(_) => {},
        },
        TriggerState::HasBeenDestroyed => match ctx_token(ctx, context_keys::DEFENDER@) {
            Ok(d) => lemma_destroy_keeps(pre, sp, d),
            Err(_) => {},
        },
        TriggerState::HasDrawnToken => match ctx_player(ctx, context_keys::PLAYER@) {
            Ok(p) => {
                let deck = spec_player(pre, p).deck;
                let hand = spec_player(pre, p).hand;
                if pre.locs().contains_key(deck) && pre.locs()[deck].tokens.len() > 0 {
                    lemma_move_keeps(pre.locs(), pre.tokens(), sp, pre.locs()[deck].tokens[0], hand, None);
                }
            },
            Err(_) => {},
        },
        TriggerState::HasBeenEquipped => match ctx_token(ctx, context_keys::EQUIP_TARGET@) {
            Ok(unit) => match ctx_token(ctx, context_keys::EQUIPPING_ITEM@) {
                Ok(item) => if pre.tokens().contains_key(unit) && pre.tokens().contains_key(item) {
                    lemma_equip_keeps(
                        pre.tokens()[unit].equipment_slots,
                        item,
                        Outcome { result: Ok(()), locs: pre.locs(), tokens: pre.tokens(), sent: sp },
                    );
                },
                Err(_) => {},
            },
            Err(_) => {},
        },
        _ => {},
    }
}

/// A step, with the tokens' reactions to it, only adds messages.
pub proof fn lemma_group_step_keeps(
    next: TriggerState,
    ctx: Map<Seq<char>, ContextValueView>,
    pre: StateResources,
    gp: Seq<GroupView>,
    sp: Seq<OutgoingView>,
    new_id: TokenInstanceId,
    cs: spec_fn(int) -> bool,
    post: StateResources,
    ctx_post: Map<Seq<char>, ContextValueView>,
    gq: Seq<GroupView>,
    sq: Seq<OutgoingView>,
    r: Option<Result<StepKind, GameErrorView>>,
)
    requires
        spec_group_step(next, ctx, pre, gp, sp, new_id, cs, post, ctx_post, gq, sq, r),
    ensures
        kept_in(sp, sq),
{
    let (mid, ctx1, g1, s1, sr) = choose|
        mid: StateResources,
        ctx1: Map<Seq<char>, ContextValueView>,
        g1: Seq<GroupView>,
        s1: Seq<OutgoingView>,
        sr: Result<StepKind, GameErrorView>,
    |
        #![trigger spec_step(next, ctx, pre, gp, sp, new_id, mid, ctx1, g1, s1, sr)]
        spec_step(next, ctx, pre, gp, sp, new_id, mid, ctx1, g1, s1, sr) && mid.wf()
            && step_then_react(next, mid, ctx1, g1, s1, sr, cs, post, ctx_post, gq, sq, r);
    lemma_step_keeps(next, ctx, pre, gp, sp, new_id, mid, ctx1, g1, s1, sr);
    if sr is Ok && next != TriggerState::CheckCancel {
        lemma_phase_keeps(
            next,
            ctx1,
            mid.locs(),
            mid.board,
            WorldView { rv: mid.rv(), groups: g1, sent: s1, k: 0 },
            cs,
        );
    }
    lemma_kept_trans(sp, s1, sq);
}

/// Processing the next step of the queue only adds messages.
pub proof fn lemma_process_next_keeps(
    pre: StateResources,
    gp: Seq<GroupView>,
    sp: Seq<OutgoingView>,
    new_id: TokenInstanceId,
    cs: spec_fn(int) -> bool,
    post: StateResources,
    gq: Seq<GroupView>,
    sq: Seq<OutgoingView>,
    r: Result<ProcessStatus, GameError>,
)
    requires
        spec_process_next(pre, gp, sp, new_id, cs, post, gq, sq, r),
    ensures
        kept_in(sp, sq),
{
    if gp.len() > 0 && gp[0].states.len() > 0 {
        let (ctx_post, g_rest, k) = choose|
            ctx_post: Map<Seq<char>, ContextValueView>,
            g_rest: Seq<GroupView>,
            k: Option<Result<StepKind, GameErrorView>>,
        |
            #![trigger spec_group_step(gp[0].states[0], gp[0].context, pre, gp.drop_first(), sp, new_id, cs, post, ctx_post, g_rest, sq, k)]
            spec_group_step(gp[0].states[0], gp[0].context, pre, gp.drop_first(), sp, new_id, cs, post, ctx_post, g_rest, sq, k)
                && match k {
                Some(Err(e)) => r matches Err(x) && x@ == e && gq == g_rest,
                Some(Ok(_)) => r matches Ok(ProcessStatus::Progress)
                    && gq == seq![GroupView { states: gp[0].states.drop_first(), context: ctx_post }] + g_rest,
                None => r matches Ok(ProcessStatus::Prompt(_))
                    && gq == seq![GroupView { states: gp[0].states.drop_first(), context: ctx_post }] + g_rest,
            };
        lemma_group_step_keeps(gp[0].states[0], gp[0].context, pre, gp.drop_first(), sp, new_id, cs, post, ctx_post, g_rest, sq, k);
    }
}

} // verus!
