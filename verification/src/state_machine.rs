//! The queue of pending happenings: each group is a run of trigger steps that share what
//! they are about.
use vstd::prelude::*;
use std::collections::VecDeque;

use crate::context_keys;
use crate::game_context::{ContextValue, ContextValueView, GameContext};
use crate::id_types::{LocationId, PlayerId, TokenInstanceId};
use crate::token_data::TokenBehaviorTriggerWhenName as TriggerState;

verus! {

/// A run of trigger steps and what they are about.
pub struct StateTransitionGroup {
    pub states: VecDeque<TriggerState>,
    pub context: GameContext,
}

/// A group as a value.
pub struct GroupView {
    pub states: Seq<TriggerState>,
    pub context: Map<Seq<char>, ContextValueView>,
}

impl View for StateTransitionGroup {
    type V = GroupView;

    open spec fn view(&self) -> GroupView {
        GroupView { states: self.states@, context: self.context.view() }
    }
}

impl StateTransitionGroup {
    /// No steps, nothing known.
    pub fn new() -> (r: Self)
        ensures
            r@.states == Seq::<TriggerState>::empty(),
            r@.context == Map::<Seq<char>, ContextValueView>::empty(),
    {
        Self { states: VecDeque::new(), context: GameContext::new() }
    }

    /// Whether no step is left.
    pub fn queue_empty(&self) -> (r: bool)
        ensures
            r == (self@.states.len() == 0),
    {
        self.states.len() == 0
    }
}

/// The groups waiting to be processed, the next one first.
pub struct StateMachine {
    pub state_transition_groups: VecDeque<StateTransitionGroup>,
}

/// The group a happening becomes: its steps and what they are about.
pub open spec fn group(states: Seq<TriggerState>, context: Map<Seq<char>, ContextValueView>) -> GroupView {
    GroupView { states, context }
}

pub open spec fn spec_move_group(t: TokenInstanceId, to: LocationId) -> GroupView {
    group(
        seq![TriggerState::WillBeMoved, TriggerState::CheckCancel, TriggerState::HasBeenMoved],
        Map::empty().insert(context_keys::TOKEN_INSTANCE@, ContextValueView::TokenInstanceId(t)).insert(
            context_keys::TO_LOCATION@,
            ContextValueView::LocationId(to),
        ),
    )
}

pub open spec fn spec_summon_group(t: TokenInstanceId, to: LocationId) -> GroupView {
    group(
        seq![
            TriggerState::WillBeMoved,
            TriggerState::WillBeSummoned,
            TriggerState::HasBeenMoved,
            TriggerState::HasBeenSummoned,
        ],
        Map::empty().insert(context_keys::TOKEN_INSTANCE@, ContextValueView::TokenInstanceId(t)).insert(
            context_keys::TO_LOCATION@,
            ContextValueView::LocationId(to),
        ),
    )
}

pub open spec fn spec_attack_group(
    attacker: TokenInstanceId,
    defender: TokenInstanceId,
    is_counter_attack: bool,
) -> GroupView {
    group(
        seq![
            TriggerState::WillAttack,
            TriggerState::WillBeAttacked,
            TriggerState::CheckCancel,
            TriggerState::HasAttacked,
            TriggerState::HasBeenAttacked,
        ],
        Map::empty().insert(context_keys::ATTACKER@, ContextValueView::TokenInstanceId(attacker)).insert(
            context_keys::DEFENDER@,
            ContextValueView::TokenInstanceId(defender),
        ).insert(context_keys::IS_COUNTER_ATTACK@, ContextValueView::Bool(is_counter_attack)),
    )
}

pub open spec fn spec_effect_damage_group(
    attacker: TokenInstanceId,
    defender: TokenInstanceId,
    amount: i32,
) -> GroupView {
    group(
        seq![TriggerState::WillBeEffectDamaged, TriggerState::HasBeenEffectDamaged],
        Map::empty().insert(context_keys::ATTACKER@, ContextValueView::TokenInstanceId(attacker)).insert(
            context_keys::DEFENDER@,
            ContextValueView::TokenInstanceId(defender),
        ).insert(context_keys::EFFECT_DAMAGE@, ContextValueView::I64(amount as i64)),
    )
}

pub open spec fn spec_defeat_group(attacker: TokenInstanceId, defender: TokenInstanceId) -> GroupView {
    group(
        seq![
            TriggerState::WillDefeat,
            TriggerState::WillBeDefeated,
            TriggerState::WillBeDestroyed,
            TriggerState::CheckCancel,
            TriggerState::HasDefeated,
            TriggerState::HasBeenDefeated,
            TriggerState::HasBeenDestroyed,
        ],
        Map::empty().insert(context_keys::ATTACKER@, ContextValueView::TokenInstanceId(attacker)).insert(
            context_keys::DEFENDER@,
            ContextValueView::TokenInstanceId(defender),
        ),
    )
}

pub open spec fn spec_destroy_group(attacker: TokenInstanceId, defender: TokenInstanceId) -> GroupView {
    group(
        seq![TriggerState::WillBeDestroyed, TriggerState::CheckCancel, TriggerState::HasBeenDestroyed],
        Map::empty().insert(context_keys::ATTACKER@, ContextValueView::TokenInstanceId(attacker)).insert(
            context_keys::DEFENDER@,
            ContextValueView::TokenInstanceId(defender),
        ),
    )
}

pub open spec fn spec_create_group(token_id: Seq<char>, owner: PlayerId, location: LocationId) -> GroupView {
    group(
        seq![TriggerState::HasBeenCreated],
        Map::empty().insert(context_keys::CREATING_TOKEN@, ContextValueView::String(token_id)).insert(
            context_keys::PLAYER@,
            ContextValueView::PlayerId(owner),
        ).insert(context_keys::TO_LOCATION@, ContextValueView::LocationId(location)),
    )
}

pub open spec fn spec_draw_group(player: PlayerId) -> GroupView {
    group(
        seq![
            TriggerState::WillDrawToken,
            TriggerState::CheckCancel,
            TriggerState::HasDrawnToken,
            TriggerState::HasBeenDrawn,
        ],
        Map::empty().insert(context_keys::PLAYER@, ContextValueView::PlayerId(player)),
    )
}

pub open spec fn spec_equip_group(unit: TokenInstanceId, item: TokenInstanceId) -> GroupView {
    group(
        seq![
            TriggerState::WillBeEquipped,
            TriggerState::WillEquip,
            TriggerState::CheckCancel,
            TriggerState::HasBeenEquipped,
            TriggerState::HasEquipped,
        ],
        Map::empty().insert(context_keys::EQUIP_TARGET@, ContextValueView::TokenInstanceId(unit)).insert(
            context_keys::EQUIPPING_ITEM@,
            ContextValueView::TokenInstanceId(item),
        ),
    )
}

impl StateMachine {
    /// The groups, the next one first.
    pub open spec fn groups(&self) -> Seq<GroupView> {
        self.state_transition_groups@.map_values(|g: StateTransitionGroup| g@)
    }

    /// Nothing pending.
    pub fn new() -> (r: Self)
        ensures
            r.groups() == Seq::<GroupView>::empty(),
    {
        let r = Self { state_transition_groups: VecDeque::new() };
        assert(r.groups() =~= Seq::<GroupView>::empty());
        r
    }

    fn push_front_group(&mut self, g: StateTransitionGroup)
        ensures
            final(self).groups() == seq![g@] + old(self).groups(),
    {
        self.state_transition_groups.push_front(g);
        assert(self.groups() =~= seq![g@] + old(self).groups());
    }

    fn push_back_group(&mut self, g: StateTransitionGroup)
        ensures
            final(self).groups() == old(self).groups().push(g@),
    {
        self.state_transition_groups.push_back(g);
        assert(self.groups() =~= old(self).groups().push(g@));
    }

    /// Queues a move of the token to the location, to happen next.
    pub fn move_token(&mut self, token_instance_id: TokenInstanceId, target_location: LocationId)
        ensures
            final(self).groups() == seq![spec_move_group(token_instance_id, target_location)] + old(
                self,
            ).groups(),
    {
        let mut g = StateTransitionGroup::new();
        g.context.insert(context_keys::TOKEN_INSTANCE, ContextValue::TokenInstanceId(token_instance_id));
        g.context.insert(context_keys::TO_LOCATION, ContextValue::LocationId(target_location));
        g.states.push_back(TriggerState::WillBeMoved);
        g.states.push_back(TriggerState::CheckCancel);
        g.states.push_back(TriggerState::HasBeenMoved);
        assert(g@.states =~= spec_move_group(token_instance_id, target_location).states);
        self.push_front_group(g);
    }

    /// Queues the summoning of the token to the location, to happen next.
    pub fn summon_token(&mut self, token_instance_id: TokenInstanceId, target_location: LocationId)
        ensures
            final(self).groups() == seq![spec_summon_group(token_instance_id, target_location)]
                + old(self).groups(),
    {
        let mut g = StateTransitionGroup::new();
        g.context.insert(context_keys::TOKEN_INSTANCE, ContextValue::TokenInstanceId(token_instance_id));
        g.context.insert(context_keys::TO_LOCATION, ContextValue::LocationId(target_location));
        g.states.push_back(TriggerState::WillBeMoved);
        g.states.push_back(TriggerState::WillBeSummoned);
        g.states.push_back(TriggerState::HasBeenMoved);
        g.states.push_back(TriggerState::HasBeenSummoned);
        assert(g@.states =~= spec_summon_group(token_instance_id, target_location).states);
        self.push_front_group(g);
    }

    /// Queues an attack: next, or after everything pending when it is a counter-attack.
    pub fn attack(&mut self, attacker: TokenInstanceId, defender: TokenInstanceId, is_counter_attack: bool)
        ensures
            is_counter_attack ==> final(self).groups() == old(self).groups().push(
                spec_attack_group(attacker, defender, is_counter_attack),
            ),
            !is_counter_attack ==> final(self).groups() == seq![spec_attack_group(attacker, defender, is_counter_attack)]
                + old(self).groups(),
    {
        let mut g = StateTransitionGroup::new();
        g.context.insert(context_keys::ATTACKER, ContextValue::TokenInstanceId(attacker));
        g.context.insert(context_keys::DEFENDER, ContextValue::TokenInstanceId(defender));
        g.context.insert(context_keys::IS_COUNTER_ATTACK, ContextValue::Bool(is_counter_attack));
        g.states.push_back(TriggerState::WillAttack);
        g.states.push_back(TriggerState::WillBeAttacked);
        g.states.push_back(TriggerState::CheckCancel);
        g.states.push_back(TriggerState::HasAttacked);
        g.states.push_back(TriggerState::HasBeenAttacked);
        assert(g@.states =~= spec_attack_group(attacker, defender, is_counter_attack).states);
        if is_counter_attack {
            self.push_back_group(g);
        } else {
            self.push_front_group(g);
        }
    }

    /// Queues damage from an effect, to happen next.
    pub fn deal_effect_damage(&mut self, attacker: TokenInstanceId, defender: TokenInstanceId, amount: i32)
        ensures
            final(self).groups() == seq![spec_effect_damage_group(attacker, defender, amount)] + old(
                self,
            ).groups(),
    {
        let mut g = StateTransitionGroup::new();
        g.context.insert(context_keys::ATTACKER, ContextValue::TokenInstanceId(attacker));
        g.context.insert(context_keys::DEFENDER, ContextValue::TokenInstanceId(defender));
        g.context.insert(context_keys::EFFECT_DAMAGE, ContextValue::I64(amount as i64));
        g.states.push_back(TriggerState::WillBeEffectDamaged);
        g.states.push_back(TriggerState::HasBeenEffectDamaged);
        assert(g@.states =~= spec_effect_damage_group(attacker, defender, amount).states);
        self.push_front_group(g);
    }

    /// Queues the defeat of the defender by the attacker, to happen next.
    pub fn defeat(&mut self, attacker: TokenInstanceId, defender: TokenInstanceId)
        ensures
            final(self).groups() == seq![spec_defeat_group(attacker, defender)] + old(self).groups(),
    {
        let mut g = StateTransitionGroup::new();
        g.context.insert(context_keys::ATTACKER, ContextValue::TokenInstanceId(attacker));
        g.context.insert(context_keys::DEFENDER, ContextValue::TokenInstanceId(defender));
        g.states.push_back(TriggerState::WillDefeat);
        g.states.push_back(TriggerState::WillBeDefeated);
        g.states.push_back(TriggerState::WillBeDestroyed);
        g.states.push_back(TriggerState::CheckCancel);
        g.states.push_back(TriggerState::HasDefeated);
        g.states.push_back(TriggerState::HasBeenDefeated);
        g.states.push_back(TriggerState::HasBeenDestroyed);
        assert(g@.states =~= spec_defeat_group(attacker, defender).states);
        self.push_front_group(g);
    }

    /// Queues the destruction of the defender, to happen next.
    pub fn destroy_token(&mut self, attacker: TokenInstanceId, defender: TokenInstanceId)
        ensures
            final(self).groups() == seq![spec_destroy_group(attacker, defender)] + old(self).groups(),
    {
        let mut g = StateTransitionGroup::new();
        g.context.insert(context_keys::ATTACKER, ContextValue::TokenInstanceId(attacker));
        g.context.insert(context_keys::DEFENDER, ContextValue::TokenInstanceId(defender));
        g.states.push_back(TriggerState::WillBeDestroyed);
        g.states.push_back(TriggerState::CheckCancel);
        g.states.push_back(TriggerState::HasBeenDestroyed);
        assert(g@.states =~= spec_destroy_group(attacker, defender).states);
        self.push_front_group(g);
    }

    /// Queues the making of a token of the given kind for `owner` at `location`, to happen next.
    pub fn create_token(&mut self, token_id: &str, owner: PlayerId, location: LocationId)
        ensures
            final(self).groups() == seq![spec_create_group(token_id@, owner, location)] + old(
                self,
            ).groups(),
    {
        let mut g = StateTransitionGroup::new();
        g.context.insert(context_keys::CREATING_TOKEN, ContextValue::String(String::from_str(token_id)));
        g.context.insert(context_keys::PLAYER, ContextValue::PlayerId(owner));
        g.context.insert(context_keys::TO_LOCATION, ContextValue::LocationId(location));
        g.states.push_back(TriggerState::HasBeenCreated);
        assert(g@.states =~= spec_create_group(token_id@, owner, location).states);
        self.push_front_group(g);
    }

    /// Queues a draw by the player, to happen next.
    pub fn draw_token(&mut self, player: PlayerId)
        ensures
            final(self).groups() == seq![spec_draw_group(player)] + old(self).groups(),
    {
        let mut g = StateTransitionGroup::new();
        g.context.insert(context_keys::PLAYER, ContextValue::PlayerId(player));
        g.states.push_back(TriggerState::WillDrawToken);
        g.states.push_back(TriggerState::CheckCancel);
        g.states.push_back(TriggerState::HasDrawnToken);
        g.states.push_back(TriggerState::HasBeenDrawn);
        assert(g@.states =~= spec_draw_group(player).states);
        self.push_front_group(g);
    }

    /// Queues equipping the item to the unit, to happen next.
    pub fn equip_item(&mut self, unit: TokenInstanceId, item: TokenInstanceId)
        ensures
            final(self).groups() == seq![spec_equip_group(unit, item)] + old(self).groups(),
    {
        let mut g = StateTransitionGroup::new();
        g.context.insert(context_keys::EQUIP_TARGET, ContextValue::TokenInstanceId(unit));
        g.context.insert(context_keys::EQUIPPING_ITEM, ContextValue::TokenInstanceId(item));
        g.states.push_back(TriggerState::WillBeEquipped);
        g.states.push_back(TriggerState::WillEquip);
        g.states.push_back(TriggerState::CheckCancel);
        g.states.push_back(TriggerState::HasBeenEquipped);
        g.states.push_back(TriggerState::HasEquipped);
        assert(g@.states =~= spec_equip_group(unit, item).states);
        self.push_front_group(g);
    }
}

} // verus!
