//! Whose turn it is, what a player starts a turn with, and the choices offered to the
//! player whose turn it is.
use vstd::prelude::*;
use crate::game_context::ContextValueView;

use crate::animation_presets::AnimationPreset;
use crate::board::{spec_side, Board};
use crate::game_communicator::{GameCommunicator, OutgoingView};
use crate::instruction::{InstructionToClient, InstructionView};
use crate::keyed::{keyed_map, lemma_keyed_map_pointwise, lemma_keyed_map_update};
use crate::player::Player;
use crate::state_machine::{spec_draw_group, GroupView, StateMachine};
use crate::state_resources::{spec_player, token_key, token_val};
use crate::token_data::TokenCategory;
use crate::token_instance::{TokenInstanceView, UnitStats};
use crate::error::GameError;
use crate::id_types::{spec_opponent, LocationId, PlayerId, PromptInstanceId, TokenInstanceId};
use crate::location_ids::{identify_location, spec_identify_location, spec_is_field, spec_is_field_of};
use crate::prompts::{PromptCallback, PromptCallbackKind, PromptProfile, PromptType};
use crate::state_resources::StateResources;
use crate::token_instance::TokenInstance;

use crate::history::kept_in;

verus! {

/// The prompts under the ids `ids`, one for each profile, added in order.
pub open spec fn spec_prompts_from(ids: Seq<PromptInstanceId>, profiles: Seq<PromptProfile>) -> Map<
    PromptInstanceId,
    PromptProfile,
>
    decreases ids.len(),
{
    if ids.len() == 0 {
        Map::empty()
    } else {
        spec_prompts_from(ids.drop_last(), profiles).insert(ids.last(), profiles[ids.len() - 1])
    }
}

/// Whether the token is on a field slot.
pub open spec fn on_field(t: TokenInstance) -> bool {
    match spec_identify_location(t.location) {
        Some(l) => spec_is_field(l),
        None => false,
    }
}

/// The tokens of `player` on a field slot, in order.
pub open spec fn spec_selectable(s: Seq<TokenInstance>, player: PlayerId) -> Seq<TokenInstanceId>
    decreases s.len(),
{
    if s.len() == 0 {
        Seq::empty()
    } else {
        spec_selectable(s.drop_last(), player) + if s.last().owner == player && on_field(s.last()) {
            seq![s.last().instance_id]
        } else {
            Seq::empty()
        }
    }
}

/// Every token of `player` is at a location whose kind is known.
pub open spec fn owned_identified(s: Seq<TokenInstance>, player: PlayerId) -> bool {
    forall|i: int| 0 <= i < s.len() && (#[trigger] s[i]).owner == player ==> spec_identify_location(s[i].location) is Some
}

/// A prompt of the given type for each token, offered to `player`.
pub open spec fn prompt_profiles(ts: Seq<TokenInstanceId>, player: PlayerId, attack: bool) -> Seq<PromptProfile> {
    ts.map_values(
        |t: TokenInstanceId|
            PromptProfile {
                prompt_type: if attack {
                    PromptType::AttackCard(t)
                } else {
                    PromptType::SelectCard(t)
                },
                value: false,
                owner: player,
            },
    )
}

/// `cb` holds one prompt for each of `ts`, in order, under ids that came out at random.
pub open spec fn prompts_for(cb: PromptCallback, ts: Seq<TokenInstanceId>, player: PlayerId, attack: bool) -> bool {
    exists|ids: Seq<PromptInstanceId>|
        ids.len() == ts.len() && cb.prompts() == spec_prompts_from(ids, prompt_profiles(ts, player, attack))
}

/// The prompts to select an attacker (see `StateResources::show_selectable_tokens`).
pub open spec fn spec_selectable_shown(res: StateResources, r: Result<PromptCallback, GameError>) -> bool {
    &&& owned_identified(res.token_instances@, res.current_turn) ==> (r matches Ok(cb) && {
        &&& cb.wf()
        &&& cb.kind == PromptCallbackKind::SelectAttacker
        &&& cb.cancelable
        &&& cb.context.view() == Map::<Seq<char>, ContextValueView>::empty()
        &&& prompts_for(cb, spec_selectable(res.token_instances@, res.current_turn), res.current_turn, false)
    })
    &&& !owned_identified(res.token_instances@, res.current_turn) ==> r == Err::<PromptCallback, GameError>(
        GameError::UnknownLocation(first_unknown_owned(res.token_instances@, res.current_turn)),
    )
}

impl StateResources {
    /// The prompts to select one of the units of the player whose turn it is on the field
    /// (to attack with): one per such unit, in the order the tokens are kept. A unit of
    /// that player at an unknown location is refused.
    pub fn show_selectable_tokens(&self) -> (r: Result<PromptCallback, GameError>)
        requires
            self.wf(),
        ensures
            spec_selectable_shown(*self, r),
    {
        let mut callback = PromptCallback::new(PromptCallbackKind::SelectAttacker, true);
        let ghost ids: Seq<PromptInstanceId> = Seq::empty();
        let ghost player = self.current_turn;
        let mut i: usize = 0;
        proof {
            assert(callback.prompts() =~= spec_prompts_from(ids, prompt_profiles(spec_selectable(self.token_instances@.take(0), player), player, false)));
        }
        while i < self.token_instances.len()
            invariant
                self.wf(),
                player == self.current_turn,
                i <= self.token_instances@.len(),
                callback.wf(),
                callback.kind == PromptCallbackKind::SelectAttacker,
                callback.context.view() == Map::<Seq<char>, ContextValueView>::empty(),
                callback.cancelable,
                ids.len() == spec_selectable(self.token_instances@.take(i as int), player).len(),
                callback.prompts() == spec_prompts_from(
                    ids,
                    prompt_profiles(spec_selectable(self.token_instances@.take(i as int), player), player, false),
                ),
                owned_identified(self.token_instances@.take(i as int), player),
            decreases self.token_instances.len() - i,
        {
            let token = &self.token_instances[i];
            let ghost s0 = self.token_instances@.take(i as int);
            let ghost s1 = self.token_instances@.take(i + 1);
            assert(s1.drop_last() =~= s0);
            assert(s1.last() == *token);
            if token.owner != self.current_turn {
                assert(spec_selectable(s1, player) =~= spec_selectable(s0, player));
            } else {
                let l = match identify_location(token.location) {
                    Ok(l) => l,
                    Err(e) => {
                        assert(!owned_identified(self.token_instances@, player)) by {
                            assert(self.token_instances@[i as int] == *token);
                        }
                        proof {
                            assert forall|j: int| 0 <= j < i && (#[trigger] self.token_instances@[j]).owner == player
                                implies spec_identify_location(self.token_instances@[j].location) is Some by {
                                assert(self.token_instances@[j] == s0[j]);
                            }
                            lemma_first_unknown_owned_at(self.token_instances@, player, i as int);
                        }
                        return Err(GameError::UnknownLocation(e.0));
                    },
                };
                if !l.is_field() {
                    assert(spec_selectable(s1, player) =~= spec_selectable(s0, player));
                } else {
                    let ghost before = callback.prompts();
                    let profile = PromptProfile {
                        prompt_type: PromptType::SelectCard(token.instance_id),
                        value: false,
                        owner: self.current_turn,
                    };
                    callback.add_prompt(profile);
                    proof {
                        let id = choose|id: PromptInstanceId| callback.prompts() == before.insert(id, profile);
                        let sel0 = spec_selectable(s0, player);
                        let sel1 = spec_selectable(s1, player);
                        assert(sel1 =~= sel0.push(token.instance_id));
                        let ids1 = ids.push(id);
                        assert(ids1.drop_last() =~= ids);
                        assert(prompt_profiles(sel1, player, false).take(sel0.len() as int) =~= prompt_profiles(sel0, player, false));
                        assert(prompt_profiles(sel1, player, false)[sel0.len() as int] == profile);
                        lemma_prompts_from_prefix(ids, prompt_profiles(sel1, player, false), prompt_profiles(sel0, player, false));
                        ids = ids1;
                    }
                }
            }
            proof {
                assert forall|j: int| 0 <= j < s1.len() && (#[trigger] s1[j]).owner == player implies spec_identify_location(s1[j].location) is Some by {
                    if j < i {
                        assert(s1[j] == s0[j]);
                    }
                }
            }
            i = i + 1;
        }
        assert(self.token_instances@.take(i as int) =~= self.token_instances@);
        Ok(callback)
    }
}

/// The prompts added depend only on the profiles of the ids given.
pub proof fn lemma_prompts_from_prefix(ids: Seq<PromptInstanceId>, p1: Seq<PromptProfile>, p0: Seq<PromptProfile>)
    requires
        ids.len() <= p0.len(),
        p0.len() <= p1.len(),
        p1.take(p0.len() as int) == p0,
    ensures
        spec_prompts_from(ids, p1) == spec_prompts_from(ids, p0),
    decreases ids.len(),
{
    if ids.len() > 0 {
        lemma_prompts_from_prefix(ids.drop_last(), p1, p0);
        assert(p1[ids.len() - 1] == p1.take(p0.len() as int)[ids.len() - 1]);
    }
}

/// The ids and locations of the tokens on field slots of `player`, in order.
pub open spec fn spec_field_pairs(s: Seq<TokenInstance>, player: PlayerId) -> Seq<(TokenInstanceId, LocationId)>
    decreases s.len(),
{
    if s.len() == 0 {
        Seq::empty()
    } else {
        spec_field_pairs(s.drop_last(), player) + match spec_identify_location(s.last().location) {
            Some(l) => if spec_is_field_of(l, player) {
                seq![(s.last().instance_id, s.last().location)]
            } else {
                Seq::empty()
            },
            None => Seq::empty(),
        }
    }
}

/// Every token is at a location whose kind is known.
pub open spec fn all_identified(s: Seq<TokenInstance>) -> bool {
    forall|i: int| 0 <= i < s.len() ==> spec_identify_location((#[trigger] s[i]).location) is Some
}

/// Every one of the locations is a field slot on the board.
pub open spec fn all_positioned(board: Board, s: Seq<(TokenInstanceId, LocationId)>) -> bool {
    forall|i: int| 0 <= i < s.len() ==> board.spec_slot_position((#[trigger] s[i]).1) is Some
}

/// The id of the location of the first token whose location names no kind of place.
pub open spec fn first_unknown(s: Seq<TokenInstance>) -> u64
    decreases s.len(),
{
    if s.len() == 0 {
        0
    } else if spec_identify_location(s[0].location) is None {
        s[0].location.0
    } else {
        first_unknown(s.drop_first())
    }
}

/// The id of the location of the first token of `player` whose location names no kind
/// of place.
pub open spec fn first_unknown_owned(s: Seq<TokenInstance>, player: PlayerId) -> u64
    decreases s.len(),
{
    if s.len() == 0 {
        0
    } else if s[0].owner == player && spec_identify_location(s[0].location) is None {
        s[0].location.0
    } else {
        first_unknown_owned(s.drop_first(), player)
    }
}

/// The first of the locations that is no field slot on the board.
pub open spec fn first_unpositioned(board: Board, s: Seq<(TokenInstanceId, LocationId)>) -> LocationId
    decreases s.len(),
{
    if s.len() == 0 {
        LocationId(0)
    } else if board.spec_slot_position(s[0].1) is None {
        s[0].1
    } else {
        first_unpositioned(board, s.drop_first())
    }
}

proof fn lemma_first_unknown_at(s: Seq<TokenInstance>, i: int)
    requires
        0 <= i < s.len(),
        forall|j: int| 0 <= j < i ==> spec_identify_location((#[trigger] s[j]).location) is Some,
        spec_identify_location(s[i].location) is None,
    ensures
        first_unknown(s) == s[i].location.0,
    decreases i,
{
    if i > 0 {
        let t = s.drop_first();
        assert forall|j: int| 0 <= j < i - 1 implies spec_identify_location((#[trigger] t[j]).location) is Some by {
            assert(t[j] == s[j + 1]);
        }
        assert(s[0] == s[0]);
        lemma_first_unknown_at(t, i - 1);
    }
}

proof fn lemma_first_unknown_owned_at(s: Seq<TokenInstance>, player: PlayerId, i: int)
    requires
        0 <= i < s.len(),
        forall|j: int| 0 <= j < i && (#[trigger] s[j]).owner == player ==> spec_identify_location(s[j].location) is Some,
        s[i].owner == player,
        spec_identify_location(s[i].location) is None,
    ensures
        first_unknown_owned(s, player) == s[i].location.0,
    decreases i,
{
    if i > 0 {
        let t = s.drop_first();
        assert forall|j: int| 0 <= j < i - 1 && (#[trigger] t[j]).owner == player implies spec_identify_location(t[j].location) is Some by {
            assert(t[j] == s[j + 1]);
        }
        assert(s[0] == s[0]);
        lemma_first_unknown_owned_at(t, player, i - 1);
    }
}

proof fn lemma_first_unpositioned_at(board: Board, s: Seq<(TokenInstanceId, LocationId)>, i: int)
    requires
        0 <= i < s.len(),
        forall|j: int| 0 <= j < i ==> board.spec_slot_position((#[trigger] s[j]).1) is Some,
        board.spec_slot_position(s[i].1) is None,
    ensures
        first_unpositioned(board, s) == s[i].1,
    decreases i,
{
    if i > 0 {
        let t = s.drop_first();
        assert forall|j: int| 0 <= j < i - 1 implies board.spec_slot_position((#[trigger] t[j]).1) is Some by {
            assert(t[j] == s[j + 1]);
        }
        assert(s[0] == s[0]);
        lemma_first_unpositioned_at(board, t, i - 1);
    }
}

/// The row (`z`) of a field slot.
pub open spec fn row_of(board: Board, loc: LocationId) -> i32 {
    board.spec_slot_position(loc).unwrap().z
}

/// The front-most row among the slots, or `start` if that is lower.
pub open spec fn min_row(board: Board, s: Seq<(TokenInstanceId, LocationId)>, start: i32) -> i32
    decreases s.len(),
{
    if s.len() == 0 {
        start
    } else {
        let m = min_row(board, s.drop_last(), start);
        let z = row_of(board, s.last().1);
        if z < m {
            z
        } else {
            m
        }
    }
}

/// The tokens whose slot is in the given row, in order.
pub open spec fn in_row(board: Board, s: Seq<(TokenInstanceId, LocationId)>, row: i32) -> Seq<TokenInstanceId>
    decreases s.len(),
{
    if s.len() == 0 {
        Seq::empty()
    } else {
        in_row(board, s.drop_last(), row) + if row_of(board, s.last().1) == row {
            seq![s.last().0]
        } else {
            Seq::empty()
        }
    }
}

/// What can be attacked: the opponent's units in their front-most row; when there are
/// none, the opponent's hero, which must then be in its slot and in play.
pub open spec fn spec_attackable(r: StateResources) -> Result<Seq<TokenInstanceId>, GameError> {
    let opp = spec_opponent(r.current_turn);
    let pairs = spec_field_pairs(r.token_instances@, opp);
    if !all_identified(r.token_instances@) {
        Err(GameError::UnknownLocation(first_unknown(r.token_instances@)))
    } else if !all_positioned(r.board, pairs) {
        Err(GameError::NotAFieldSlot(first_unpositioned(r.board, pairs)))
    } else {
        let front = in_row(r.board, pairs, min_row(r.board, pairs, 100));
        if front.len() > 0 {
            Ok(front)
        } else {
            let hero_slot = spec_side(r.board, opp).hero;
            if !r.locs().contains_key(hero_slot) {
                Err(GameError::LocationNotFound(hero_slot))
            } else if r.locs()[hero_slot].tokens.len() == 0 {
                Err(GameError::HeroNotFound(opp))
            } else if !r.tokens().contains_key(r.locs()[hero_slot].tokens[0]) {
                Err(GameError::TokenNotFound(r.locs()[hero_slot].tokens[0]))
            } else {
                Ok(seq![r.locs()[hero_slot].tokens[0]])
            }
        }
    }
}

impl StateResources {
    /// The ids and locations of the tokens on field slots of `player`; a token at an
    /// unknown location is refused.
    pub fn field_pairs(&self, player: PlayerId) -> (r: Result<Vec<(TokenInstanceId, LocationId)>, GameError>)
        ensures
            all_identified(self.token_instances@) ==> (r matches Ok(v) && v@ == spec_field_pairs(self.token_instances@, player)),
            !all_identified(self.token_instances@) ==> r == Err::<Vec<(TokenInstanceId, LocationId)>, GameError>(
                GameError::UnknownLocation(first_unknown(self.token_instances@)),
            ),
    {
        let mut v: Vec<(TokenInstanceId, LocationId)> = Vec::new();
        let mut i: usize = 0;
        while i < self.token_instances.len()
            invariant
                i <= self.token_instances@.len(),
                all_identified(self.token_instances@.take(i as int)),
                v@ == spec_field_pairs(self.token_instances@.take(i as int), player),
            decreases self.token_instances.len() - i,
        {
            let token = &self.token_instances[i];
            let ghost s0 = self.token_instances@.take(i as int);
            let ghost s1 = self.token_instances@.take(i + 1);
            assert(s1.drop_last() =~= s0);
            assert(s1.last() == *token);
            let l = match identify_location(token.location) {
                Ok(l) => l,
                Err(e) => {
                    assert(self.token_instances@[i as int] == *token);
                    proof {
                        assert forall|j: int| 0 <= j < i implies spec_identify_location((#[trigger] self.token_instances@[j]).location) is Some by {
                            assert(self.token_instances@[j] == s0[j]);
                        }
                        lemma_first_unknown_at(self.token_instances@, i as int);
                    }
                    return Err(GameError::UnknownLocation(e.0));
                },
            };
            if l.is_field_of(player) {
                v.push((token.instance_id, token.location));
            }
            assert(v@ =~= spec_field_pairs(s1, player));
            assert forall|j: int| 0 <= j < s1.len() implies spec_identify_location((#[trigger] s1[j]).location) is Some by {
                if j < i {
                    assert(s1[j] == s0[j]);
                }
            }
            i = i + 1;
        }
        assert(self.token_instances@.take(i as int) =~= self.token_instances@);
        Ok(v)
    }

    /// The prompts to pick what the selected unit attacks (see `spec_attackable`); in the
    /// first round nothing can be attacked. A unit at a location whose kind is unknown,
    /// or an opponent's unit on a slot that is on neither side of the board, is refused.
    pub fn show_attackable_tokens(&self) -> (r: Result<PromptCallback, GameError>)
        requires
            self.wf(),
        ensures
            self.round == 0 ==> (r matches Ok(cb) && cb.wf() && cb.kind == PromptCallbackKind::ChooseAttackTarget
                && cb.cancelable && cb.prompts() == Map::<PromptInstanceId, PromptProfile>::empty()
                && cb.context.view() == Map::<Seq<char>, ContextValueView>::empty()),
            self.round != 0 ==> match spec_attackable(*self) {
                Ok(ts) => r matches Ok(cb) && {
                    &&& cb.wf()
                    &&& cb.kind == PromptCallbackKind::ChooseAttackTarget
                    &&& cb.cancelable
                    &&& cb.context.view() == Map::<Seq<char>, ContextValueView>::empty()
                    &&& prompts_for(cb, ts, self.current_turn, true)
                },
                Err(e) => r == Err::<PromptCallback, GameError>(e),
            },
    {
        let mut callback = PromptCallback::new(PromptCallbackKind::ChooseAttackTarget, true);
        if self.round == 0 {
            return Ok(callback);
        }
        let opp = self.current_turn.opponent();
        let pairs = match self.field_pairs(opp) {
            Ok(p) => p,
            Err(e) => return Err(e),
        };
        let mut row: i32 = 100;
        let mut i: usize = 0;
        while i < pairs.len()
            invariant
                self.wf(),
                self.round != 0,
                opp == spec_opponent(self.current_turn),
                all_identified(self.token_instances@),
                pairs@ == spec_field_pairs(self.token_instances@, opp),
                i <= pairs@.len(),
                all_positioned(self.board, pairs@.take(i as int)),
                row == min_row(self.board, pairs@.take(i as int), 100),
            decreases pairs.len() - i,
        {
            let ghost s0 = pairs@.take(i as int);
            let ghost s1 = pairs@.take(i + 1);
            assert(s1.drop_last() =~= s0);
            assert(s1.last() == pairs@[i as int]);
            let z = match self.board.get_slot_position(pairs[i].1) {
                Ok(p) => p.z,
                Err(e) => {
                    proof {
                        assert(pairs@[i as int] == s1[i as int]);
                        assert(!all_positioned(self.board, pairs@));
                        assert forall|j: int| 0 <= j < i implies self.board.spec_slot_position((#[trigger] pairs@[j]).1) is Some by {
                            assert(pairs@[j] == s0[j]);
                        }
                        lemma_first_unpositioned_at(self.board, pairs@, i as int);
                    }
                    return Err(GameError::NotAFieldSlot(e.0));
                },
            };
            if z < row {
                row = z;
            }
            assert forall|j: int| 0 <= j < s1.len() implies self.board.spec_slot_position((#[trigger] s1[j]).1) is Some by {
                if j < i {
                    assert(s1[j] == s0[j]);
                }
            }
            i = i + 1;
        }
        assert(pairs@.take(i as int) =~= pairs@);
        let mut front: Vec<TokenInstanceId> = Vec::new();
        let mut k: usize = 0;
        while k < pairs.len()
            invariant
                self.wf(),
                self.round != 0,
                opp == spec_opponent(self.current_turn),
                all_identified(self.token_instances@),
                pairs@ == spec_field_pairs(self.token_instances@, opp),
                row == min_row(self.board, pairs@, 100),
                k <= pairs@.len(),
                all_positioned(self.board, pairs@),
                front@ == in_row(self.board, pairs@.take(k as int), row),
            decreases pairs.len() - k,
        {
            let ghost s0 = pairs@.take(k as int);
            let ghost s1 = pairs@.take(k + 1);
            assert(s1.drop_last() =~= s0);
            assert(s1.last() == pairs@[k as int]);
            assert(self.board.spec_slot_position(pairs@[k as int].1) is Some);
            let z = match self.board.get_slot_position(pairs[k].1) {
                Ok(p) => p.z,
                Err(_) => {
                    return Err(GameError::InvalidState);
                },
            };
            if z == row {
                front.push(pairs[k].0);
            }
            assert(front@ =~= in_row(self.board, s1, row));
            k = k + 1;
        }
        assert(pairs@.take(k as int) =~= pairs@);
        if front.len() == 0 {
            let hero_slot = self.board.get_side(opp).hero;
            let li = match self.find_location(hero_slot) {
                None => return Err(GameError::LocationNotFound(hero_slot)),
                Some(li) => li,
            };
            let t = match self.locations[li].get_token() {
                None => return Err(GameError::HeroNotFound(opp)),
                Some(t) => t,
            };
            if self.find_token(t).is_none() {
                return Err(GameError::TokenNotFound(t));
            }
            front.push(t);
            assert(front@ =~= seq![t]);
        }
        let ghost ts = front@;
        let ghost player = self.current_turn;
        let ghost ids: Seq<PromptInstanceId> = Seq::empty();
        let mut j: usize = 0;
        proof {
            assert(callback.prompts() =~= spec_prompts_from(ids, prompt_profiles(ts.take(0), player, true)));
        }
        while j < front.len()
            invariant
                ts == front@,
                player == self.current_turn,
                j <= front@.len(),
                callback.wf(),
                callback.kind == PromptCallbackKind::ChooseAttackTarget,
                callback.context.view() == Map::<Seq<char>, ContextValueView>::empty(),
                callback.cancelable,
                ids.len() == j,
                callback.prompts() == spec_prompts_from(ids, prompt_profiles(ts.take(j as int), player, true)),
            decreases front.len() - j,
        {
            let ghost before = callback.prompts();
            let profile = PromptProfile {
                prompt_type: PromptType::AttackCard(front[j]),
                value: false,
                owner: self.current_turn,
            };
            callback.add_prompt(profile);
            proof {
                let id = choose|id: PromptInstanceId| callback.prompts() == before.insert(id, profile);
                let p0 = prompt_profiles(ts.take(j as int), player, true);
                let p1 = prompt_profiles(ts.take(j + 1), player, true);
                let ids1 = ids.push(id);
                assert(ids1.drop_last() =~= ids);
                assert(p1.take(j as int) =~= p0);
                assert(p1[j as int] == profile);
                lemma_prompts_from_prefix(ids, p1, p0);
                ids = ids1;
            }
            j = j + 1;
        }
        assert(ts.take(j as int) =~= ts);
        Ok(callback)
    }
}

/// Whether a location is a field slot.
pub open spec fn field_location(loc: LocationId) -> bool {
    match spec_identify_location(loc) {
        Some(l) => spec_is_field(l),
        None => false,
    }
}

/// A unit back at its base defense.
pub open spec fn refreshed(v: TokenInstanceView) -> TokenInstanceView {
    TokenInstanceView { current_stats: UnitStats { defense: v.base_stats.defense, ..v.current_stats }, ..v }
}

/// What a turn start does to a token: the units of `player` on the field get their base
/// defense back, the others stay as they are.
pub open spec fn refresh_fn(player: PlayerId) -> spec_fn(TokenInstanceView) -> TokenInstanceView {
    |v: TokenInstanceView| if v.owner == player && field_location(v.location) {
        refreshed(v)
    } else {
        v
    }
}

/// What the client is told of those units, in order: each is raised, updated and set down.
pub open spec fn refresh_messages(s: Seq<TokenInstance>, player: PlayerId) -> Seq<OutgoingView>
    decreases s.len(),
{
    if s.len() == 0 {
        Seq::empty()
    } else {
        let t = s.last();
        refresh_messages(s.drop_last(), player) + if t.owner == player && field_location(t.location) {
            seq![
                OutgoingView::Instruction(
                    InstructionView::Animate {
                        token: t.instance_id,
                        location: t.location,
                        duration_ms: 200,
                        preset: AnimationPreset::Raise,
                    },
                ),
                OutgoingView::Instruction(InstructionView::UpdateData { token_data: refreshed(t@) }),
                OutgoingView::Instruction(
                    InstructionView::Animate {
                        token: t.instance_id,
                        location: t.location,
                        duration_ms: 200,
                        preset: AnimationPreset::EaseInOut,
                    },
                ),
            ]
        } else {
            Seq::empty()
        }
    }
}

/// What starting the turn of the player whose turn it is leads to: the player gets half
/// the round number (rounded up) plus ten thaum, a draw is queued for them, their units
/// on the field get their base defense back, and their hero gets its kind's defense back.
pub open spec fn spec_start_turn(
    pre: StateResources,
    post: StateResources,
    groups_pre: Seq<GroupView>,
    groups_post: Seq<GroupView>,
    sent_pre: Seq<OutgoingView>,
    sent_post: Seq<OutgoingView>,
    r: Result<(), GameError>,
) -> bool {
    let player = pre.current_turn;
    let thaum = (pre.round / 2 + pre.round % 2 + 10) as u32;
    let p1 = Player { thaum, ..spec_player(pre, player) };
    let sent1 = sent_pre.push(
        OutgoingView::Instruction(InstructionView::SetThaum { player_id: player, amount: thaum }),
    );
    &&& groups_post == seq![spec_draw_group(player)] + groups_pre
    &&& post.same_frame_but_players(&pre)
    &&& spec_player(post, player) == p1
    &&& spec_player(post, spec_opponent(player)) == spec_player(pre, spec_opponent(player))
    &&& post.locs() == pre.locs()
    &&& if !all_identified(pre.token_instances@) {
        &&& r == Err::<(), GameError>(GameError::UnknownLocation(first_unknown(pre.token_instances@)))
        &&& post.tokens() == pre.tokens()
        &&& sent_post == sent1
    } else {
        let toks1 = pre.tokens().map_values(refresh_fn(player));
        let sent2 = sent1 + refresh_messages(pre.token_instances@, player);
        if !toks1.contains_key(p1.hero) {
            &&& r == Err::<(), GameError>(GameError::HeroNotFound(player))
            &&& post.tokens() == toks1
            &&& sent_post == sent2
        } else {
            let h = toks1[p1.hero];
            let h2 = match pre.registry.tokens@[h.data_index as int].token_category {
                TokenCategory::Hero { defense, .. } => TokenInstanceView {
                    current_stats: UnitStats { defense, ..h.current_stats },
                    ..h
                },
                _ => h,
            };
            &&& r is Ok
            &&& post.tokens() == toks1.insert(p1.hero, h2)
            &&& sent_post == sent2.push(OutgoingView::Instruction(InstructionView::UpdateData { token_data: h2 }))
        }
    }
}

impl StateResources {
    /// Whether every token is at a location whose kind is known; fails with the first
    /// location that is not.
    pub fn check_locations_known(&self) -> (r: Result<(), GameError>)
        ensures
            all_identified(self.token_instances@) ==> r is Ok,
            !all_identified(self.token_instances@) ==> r == Err::<(), GameError>(
                GameError::UnknownLocation(first_unknown(self.token_instances@)),
            ),
    {
        let mut i: usize = 0;
        while i < self.token_instances.len()
            invariant
                i <= self.token_instances@.len(),
                forall|j: int| 0 <= j < i ==> spec_identify_location((#[trigger] self.token_instances@[j]).location) is Some,
            decreases self.token_instances.len() - i,
        {
            match identify_location(self.token_instances[i].location) {
                Ok(_) => {},
                Err(e) => {
                    proof {
                        lemma_first_unknown_at(self.token_instances@, i as int);
                    }
                    return Err(GameError::UnknownLocation(e.0));
                },
            }
            i = i + 1;
        }
        Ok(())
    }

    /// Starts the turn of the player whose turn it is (see `spec_start_turn`).
    pub fn start_turn(&mut self, state: &mut StateMachine, communicator: &mut GameCommunicator) -> (r: Result<(), GameError>)
        requires
            old(self).wf(),
        ensures
            kept_in(old(communicator).sent(), final(communicator).sent()),
            final(self).wf(),
            spec_start_turn(*old(self), *final(self), old(state).groups(), final(state).groups(), old(communicator).sent(), final(communicator).sent(), r),
    {
        let player = self.current_turn;
        let thaum = self.round / 2 + self.round % 2;
        Player::set_thaum(player, self, thaum + 10, communicator);
        state.draw_token(player);
        match self.check_locations_known() {
            Ok(()) => {},
            Err(e) => return Err(e),
        }
        let ghost mid = *self;
        let ghost sent1 = communicator.sent();
        let ghost f = refresh_fn(player);
        proof {
            assert(mid.token_instances@.take(0) =~= Seq::<TokenInstance>::empty());
            assert(communicator.sent() =~= sent1 + refresh_messages(mid.token_instances@.take(0), player));
        }
        let mut i: usize = 0;
        while i < self.token_instances.len()
            invariant
                mid.wf(),
                mid.registry == old(self).registry,
                player == mid.current_turn,
                f == refresh_fn(player),
                i <= self.token_instances@.len(),
                self.token_instances@.len() == mid.token_instances@.len(),
                self.same_frame(&mid),
                self.locations == mid.locations,
                all_identified(mid.token_instances@),
                forall|j: int| 0 <= j < self.token_instances@.len() ==> #[trigger] self.token_instances@[j].instance_id == mid.token_instances@[j].instance_id,
                forall|j: int| 0 <= j < i ==> #[trigger] self.token_instances@[j]@ == f(mid.token_instances@[j]@),
                forall|j: int| i <= j < self.token_instances@.len() ==> #[trigger] self.token_instances@[j] == mid.token_instances@[j],
                communicator.sent() == sent1 + refresh_messages(mid.token_instances@.take(i as int), player),
            decreases self.token_instances.len() - i,
        {
            let ghost s0 = mid.token_instances@.take(i as int);
            let ghost s1 = mid.token_instances@.take(i + 1);
            assert(s1.drop_last() =~= s0);
            assert(s1.last() == mid.token_instances@[i as int]);
            let location = self.token_instances[i].location;
            assert(mid.token_instances@[i as int].location == location);
            let on_field = match identify_location(location) {
                Ok(l) => l.is_field(),
                Err(_) => false,
            };
            if self.token_instances[i].owner == player && on_field {
                let base = self.token_instances[i].base_stats.defense;
                self.token_instances[i].current_stats.defense = base;
                let id = self.token_instances[i].instance_id;
                communicator.send_game_instruction(
                    InstructionToClient::Animate { token: id, location, duration_ms: 200, preset: AnimationPreset::Raise },
                );
                communicator.send_game_instruction(
                    InstructionToClient::UpdateData { token_data: self.token_instances[i].duplicate() },
                );
                communicator.send_game_instruction(
                    InstructionToClient::Animate { token: id, location, duration_ms: 200, preset: AnimationPreset::EaseInOut },
                );
            }
            proof {
                assert(self.token_instances@[i as int]@ == f(mid.token_instances@[i as int]@));
                assert(communicator.sent() =~= sent1 + refresh_messages(s1, player));
            }
            i = i + 1;
        }
        proof {
            assert(mid.token_instances@.take(i as int) =~= mid.token_instances@);
            lemma_keyed_map_pointwise(mid.token_instances@, self.token_instances@, token_key(), token_val(), f);
            assert forall|a: int, b: int|
                0 <= a < self.token_instances@.len() && 0 <= b < self.token_instances@.len() && a != b implies token_key()(
                self.token_instances@[a],
            ) != token_key()(self.token_instances@[b]) by {
                assert(token_key()(self.token_instances@[a]) == token_key()(mid.token_instances@[a]));
                assert(token_key()(self.token_instances@[b]) == token_key()(mid.token_instances@[b]));
            }
            assert forall|j: int| 0 <= j < self.token_instances@.len() implies #[trigger] self.token_instances@[j].data_index < self.registry.tokens@.len() by {
                assert(self.token_instances@[j]@ == f(mid.token_instances@[j]@));
            }
        }
        let hero = self.get_player(player).hero;
        let hi = match self.find_token(hero) {
            None => return Err(GameError::HeroNotFound(player)),
            Some(hi) => hi,
        };
        let kind = self.token_instances[hi].data_index;
        let defense: Option<i32> = match &self.registry.tokens[kind].token_category {
            TokenCategory::Hero { defense, .. } => Some(*defense),
            _ => None,
        };
        let ghost toks0 = self.token_instances@;
        match defense {
            Some(d) => {
                self.token_instances[hi].current_stats.defense = d;
            },
            None => {},
        }
        proof {
            lemma_keyed_map_update(toks0, token_key(), token_val(), hi as int, self.token_instances@[hi as int]);
            assert(self.tokens() =~= keyed_map(toks0, token_key(), token_val()).insert(hero, self.token_instances@[hi as int]@));
        }
        communicator.send_game_instruction(InstructionToClient::UpdateData { token_data: self.token_instances[hi].duplicate() });
        Ok(())
    }

    /// Hands the turn to `player_id`: the round goes up by one, the client is told, and
    /// the player's turn starts (see `spec_start_turn`).
    pub fn set_current_turn(
        &mut self,
        player_id: PlayerId,
        state: &mut StateMachine,
        communicator: &mut GameCommunicator,
    ) -> (r: Result<(), GameError>)
        requires
            old(self).wf(),
            old(self).round < u32::MAX,
        ensures
            kept_in(old(communicator).sent(), final(communicator).sent()),
            final(self).wf(),
            ({
                let mid = StateResources { current_turn: player_id, round: (old(self).round + 1) as u32, ..*old(self) };
                spec_start_turn(
                    mid,
                    *final(self),
                    old(state).groups(),
                    final(state).groups(),
                    old(communicator).sent().push(OutgoingView::Instruction(InstructionView::PassTurn { player_id })),
                    final(communicator).sent(),
                    r,
                )
            }),
    {
        self.current_turn = player_id;
        self.round = self.round + 1;
        communicator.send_game_instruction(InstructionToClient::PassTurn { player_id });
        self.start_turn(state, communicator)
    }
}

} // verus!
