//! Everything a running game holds: locations, tokens in play, players, board and turn.
use vstd::prelude::*;

use crate::animation_presets::AnimationPreset;
use crate::board::{spec_side, Board, BoardSide};
use crate::error::GameError;
use crate::game_communicator::{GameCommunicator, OutgoingView};
use crate::id_types::{LocationId, PlayerId, TokenInstanceId};
use crate::instruction::{InstructionToClient, InstructionView};
use crate::keyed::{
    keyed_map, keys_unique, lemma_keyed_map_domain, lemma_keyed_map_index, lemma_keyed_map_push,
    lemma_keyed_map_pointwise, lemma_keyed_map_update,
};
use crate::location_ids::{
    identify_location, spec_identify_location, spec_is_field, LocationIdentity, PLAYER_1_DECK,
    PLAYER_1_HAND, PLAYER_2_DECK, PLAYER_2_HAND,
};
use crate::locations::{without, LocationStore, LocationView};
use crate::player::Player;
use crate::registry::{spec_category_stats, TokenRegistry};
use crate::rng::{random_bool, random_u64};
use crate::token_data::TokenCategory;
use crate::token_instance::{TokenInstance, TokenInstanceView, UnitStats};

verus! {

pub open spec fn loc_key() -> spec_fn(LocationStore) -> LocationId {
    |l: LocationStore| l.spec_location_id()
}

pub open spec fn loc_val() -> spec_fn(LocationStore) -> LocationView {
    |l: LocationStore| l@
}

pub open spec fn token_key() -> spec_fn(TokenInstance) -> TokenInstanceId {
    |t: TokenInstance| t.instance_id
}

pub open spec fn token_val() -> spec_fn(TokenInstance) -> TokenInstanceView {
    |t: TokenInstance| t@
}

/// What a location holds once `t` is taken out: a slot is emptied whatever it held, a
/// collection keeps all its other tokens in order.
pub open spec fn loc_after_remove(v: LocationView, t: TokenInstanceId) -> LocationView {
    LocationView {
        tokens: if v.is_slot {
            Seq::empty()
        } else {
            without(v.tokens, t)
        },
        ..v
    }
}

/// What checking whether the token may be played to the location (see
/// `StateResources::can_player_summon_token`) answers, with messages `sp` before and `sq`
/// after.
pub open spec fn spec_summon_check(
    res: StateResources,
    token_instance_id: TokenInstanceId,
    to_location: LocationId,
    sp: Seq<OutgoingView>,
    sq: Seq<OutgoingView>,
    r: Result<bool, GameError>,
) -> bool {
    if !res.tokens().contains_key(token_instance_id) {
        r == Err::<bool, GameError>(GameError::TokenNotFound(token_instance_id)) && sq == sp
    } else {
        let tok = res.tokens()[token_instance_id];
        if tok.location == to_location {
            r == Ok::<bool, GameError>(false) && sq == sp
        } else {
            let allow = tok.owner == res.current_turn && tok.location == spec_player(res, tok.owner).hand
                && spec_side(res.board, tok.owner).field@.contains(to_location)
                && tok.cost <= spec_player(res, res.current_turn).thaum;
            &&& r == Ok::<bool, GameError>(allow)
            &&& sq == if allow {
                sp
            } else {
                sp.push(OutgoingView::Instruction(InstructionView::MoveToken { token: token_instance_id, to: tok.location }))
            }
        }
    }
}

/// Emptying every location (see `StateResources::reset_game`): the client is told of each
/// location in turn.
pub open spec fn spec_reset(pre: StateResources, post: StateResources, sp: Seq<OutgoingView>, sq: Seq<OutgoingView>) -> bool {
    &&& post.same_frame(&pre)
    &&& post.tokens() == pre.tokens()
    &&& post.locs() == pre.locs().map_values(|v: LocationView| LocationView { tokens: Seq::empty(), ..v })
    &&& sq == sp + pre.locations@.map_values(
        |l: LocationStore| OutgoingView::Instruction(InstructionView::ClearLocation { location: l.spec_location_id() }),
    )
}

/// What a location holds once `t` is put in.
pub open spec fn loc_after_add(v: LocationView, t: TokenInstanceId) -> LocationView {
    LocationView { tokens: v.tokens.push(t), ..v }
}

/// A collection always takes another token; a slot only when empty.
pub open spec fn loc_has_room(v: LocationView) -> bool {
    !v.is_slot || v.tokens.len() == 0
}

/// What a step leads to: its result, the locations and tokens after it, and everything
/// said to the client by then.
pub struct Outcome {
    pub result: Result<(), GameError>,
    pub locs: Map<LocationId, LocationView>,
    pub tokens: Map<TokenInstanceId, TokenInstanceView>,
    pub sent: Seq<OutgoingView>,
}

/// What moving token `t` to `to` leads to. The token leaves its location first and is
/// marked as being at `to`; then `to` must exist and have room. The client is told of the
/// animation, if any, then of the move. A token that comes onto a field slot from
/// anywhere else is revealed, and the client told so. Ids that name no kind of place are
/// refused after the move is done.
pub open spec fn spec_move_token(
    locs: Map<LocationId, LocationView>,
    tokens: Map<TokenInstanceId, TokenInstanceView>,
    sent: Seq<OutgoingView>,
    t: TokenInstanceId,
    to: LocationId,
    animation: Option<AnimationPreset>,
) -> Outcome {
    if !tokens.contains_key(t) {
        Outcome { result: Err(GameError::TokenNotFound(t)), locs, tokens, sent }
    } else {
        let tok = tokens[t];
        let from = tok.location;
        if !locs.contains_key(from) {
            Outcome { result: Err(GameError::LocationNotFound(from)), locs, tokens, sent }
        } else {
            let locs1 = locs.insert(from, loc_after_remove(locs[from], t));
            let tok1 = TokenInstanceView { location: to, ..tok };
            let tokens1 = tokens.insert(t, tok1);
            if !locs1.contains_key(to) {
                Outcome { result: Err(GameError::LocationNotFound(to)), locs: locs1, tokens: tokens1, sent }
            } else if !loc_has_room(locs1[to]) {
                Outcome { result: Err(GameError::SlotOccupied(to)), locs: locs1, tokens: tokens1, sent }
            } else {
                let locs2 = locs1.insert(to, loc_after_add(locs1[to], t));
                let sent1 = match animation {
                    Some(a) => sent.push(
                        OutgoingView::Instruction(
                            InstructionView::Animate { token: t, location: to, duration_ms: 500, preset: a },
                        ),
                    ),
                    None => sent,
                };
                let sent2 = sent1.push(OutgoingView::Instruction(InstructionView::MoveToken { token: t, to }));
                match spec_identify_location(from) {
                    None => Outcome {
                        result: Err(GameError::UnknownLocation(from.0)),
                        locs: locs2,
                        tokens: tokens1,
                        sent: sent2,
                    },
                    Some(a) => match spec_identify_location(to) {
                        None => Outcome {
                            result: Err(GameError::UnknownLocation(to.0)),
                            locs: locs2,
                            tokens: tokens1,
                            sent: sent2,
                        },
                        Some(b) => if !spec_is_field(a) && spec_is_field(b) {
                            Outcome {
                                result: Ok(()),
                                locs: locs2,
                                tokens: tokens.insert(t, TokenInstanceView { hidden: false, ..tok1 }),
                                sent: sent2.push(OutgoingView::Instruction(InstructionView::Reveal { token: t })),
                            }
                        } else {
                            Outcome { result: Ok(()), locs: locs2, tokens: tokens1, sent: sent2 }
                        },
                    },
                }
            }
        }
    }
}

/// The kind of token the registry has under `id`.
pub open spec fn spec_kind_index(registry: TokenRegistry, id: Seq<char>) -> int {
    choose|i: int| 0 <= i < registry.tokens@.len() && #[trigger] registry.tokens@[i].id@ == id
}

/// A token just made of the kind at `kind`: the kind's cost, stats and types, hidden and
/// with nothing equipped.
pub open spec fn spec_new_token(
    registry: TokenRegistry,
    kind: int,
    t: TokenInstanceId,
    location: LocationId,
    owner: PlayerId,
) -> TokenInstanceView {
    TokenInstanceView {
        data_index: kind as usize,
        owner,
        location,
        instance_id: t,
        cost: registry.tokens@[kind].cost,
        base_stats: spec_category_stats(registry.tokens@[kind].token_category),
        current_stats: spec_category_stats(registry.tokens@[kind].token_category),
        equipment_slots: Seq::empty(),
        token_types: registry.tokens@[kind].types@,
        hidden: true,
    }
}

/// The tokens of a run of locations, one location after the other.
pub open spec fn spec_tokens_of(
    locs: Map<LocationId, LocationView>,
    ids: Seq<LocationId>,
) -> Seq<TokenInstanceId>
    decreases ids.len(),
{
    if ids.len() == 0 {
        Seq::empty()
    } else {
        spec_tokens_of(locs, ids.drop_last()) + locs[ids.last()].tokens
    }
}

/// The tokens of one side of the board: hero, landscape, each field slot, graveyard.
pub open spec fn spec_side_tokens(locs: Map<LocationId, LocationView>, side: BoardSide) -> Seq<
    TokenInstanceId,
> {
    locs[side.hero].tokens + locs[side.landscape].tokens + spec_tokens_of(locs, side.field@)
        + locs[side.graveyard].tokens
}

/// Every location of the side exists.
pub open spec fn side_locations_exist(locs: Map<LocationId, LocationView>, side: BoardSide) -> bool {
    &&& locs.contains_key(side.hero)
    &&& locs.contains_key(side.landscape)
    &&& locs.contains_key(side.graveyard)
    &&& forall|i: int| 0 <= i < side.field@.len() ==> locs.contains_key(#[trigger] side.field@[i])
}

/// Everything a running game holds.
pub struct StateResources {
    pub locations: Vec<LocationStore>,
    pub token_instances: Vec<TokenInstance>,
    pub round: u32,
    pub player_1: Player,
    pub player_2: Player,
    pub current_turn: PlayerId,
    pub board: Board,
    pub location_counter: u64,
    /// Which unit each equipment slot belongs to.
    pub equipment_slot_owners: Vec<(LocationId, TokenInstanceId)>,
    /// The kinds of token the game can make.
    pub registry: TokenRegistry,
}

pub open spec fn spec_player(r: StateResources, id: PlayerId) -> Player {
    match id {
        PlayerId::Player1 => r.player_1,
        PlayerId::Player2 => r.player_2,
    }
}

/// The resources with the player of this id replaced.
pub open spec fn spec_with_player(r: StateResources, id: PlayerId, p: Player) -> StateResources {
    match id {
        PlayerId::Player1 => StateResources { player_1: p, ..r },
        PlayerId::Player2 => StateResources { player_2: p, ..r },
    }
}

/// What the behaviors of tokens read of a game, as a value: the tokens in play by id and
/// in the order they are kept, the board, the kinds, the owners of equipment slots and
/// the players.
pub struct ResView {
    pub tokens: Map<TokenInstanceId, TokenInstanceView>,
    pub ids: Seq<TokenInstanceId>,
    pub board: Board,
    pub registry: TokenRegistry,
    pub slot_owners: Seq<(LocationId, TokenInstanceId)>,
    pub player_1: Player,
    pub player_2: Player,
}

impl StateResources {
    /// What the behaviors of tokens read of the game.
    pub open spec fn rv(&self) -> ResView {
        ResView {
            tokens: self.tokens(),
            ids: self.token_instances@.map_values(|t: TokenInstance| t.instance_id),
            board: self.board,
            registry: self.registry,
            slot_owners: self.equipment_slot_owners@,
            player_1: self.player_1,
            player_2: self.player_2,
        }
    }

    /// The locations by id.
    pub open spec fn locs(&self) -> Map<LocationId, LocationView> {
        keyed_map(self.locations@, loc_key(), loc_val())
    }

    /// The tokens in play by id.
    pub open spec fn tokens(&self) -> Map<TokenInstanceId, TokenInstanceView> {
        keyed_map(self.token_instances@, token_key(), token_val())
    }

    /// No two locations share an id, no two tokens share an id, and every token's kind
    /// is in the registry.
    pub open spec fn wf(&self) -> bool {
        &&& keys_unique(self.locations@, loc_key())
        &&& keys_unique(self.token_instances@, token_key())
        &&& self.registry.wf()
        &&& self.board.wf()
        &&& forall|i: int|
            0 <= i < self.token_instances@.len() ==> #[trigger] self.token_instances@[i].data_index
                < self.registry.tokens@.len()
    }

    /// What stays the same when only locations and tokens change.
    pub open spec fn same_frame(&self, other: &StateResources) -> bool {
        &&& self.round == other.round
        &&& self.player_1 == other.player_1
        &&& self.player_2 == other.player_2
        &&& self.current_turn == other.current_turn
        &&& self.board == other.board
        &&& self.location_counter == other.location_counter
        &&& self.equipment_slot_owners == other.equipment_slot_owners
        &&& self.registry == other.registry
    }

    /// What stays the same when only locations, tokens and the board change.
    pub open spec fn same_frame_but_board(&self, other: &StateResources) -> bool {
        &&& self.round == other.round
        &&& self.player_1 == other.player_1
        &&& self.player_2 == other.player_2
        &&& self.current_turn == other.current_turn
        &&& self.location_counter == other.location_counter
        &&& self.equipment_slot_owners == other.equipment_slot_owners
        &&& self.registry == other.registry
    }

    /// What stays the same when only locations, tokens and players change.
    pub open spec fn same_frame_but_players(&self, other: &StateResources) -> bool {
        &&& self.round == other.round
        &&& self.current_turn == other.current_turn
        &&& self.board == other.board
        &&& self.location_counter == other.location_counter
        &&& self.equipment_slot_owners == other.equipment_slot_owners
        &&& self.registry == other.registry
    }

    /// Gives the token at place `i` new current stats and a new cost.
    pub fn update_token(&mut self, i: usize, stats: UnitStats, cost: u32)
        requires
            old(self).wf(),
            i < old(self).token_instances@.len(),
        ensures
            final(self).wf(),
            final(self).same_frame(old(self)),
            final(self).locations == old(self).locations,
            final(self).token_instances@.len() == old(self).token_instances@.len(),
            final(self).token_instances@[i as int]@ == (TokenInstanceView {
                current_stats: stats,
                cost,
                ..old(self).token_instances@[i as int]@
            }),
            final(self).rv() == (ResView {
                tokens: old(self).tokens().insert(
                    old(self).token_instances@[i as int].instance_id,
                    TokenInstanceView { current_stats: stats, cost, ..old(self).token_instances@[i as int]@ },
                ),
                ..old(self).rv()
            }),
    {
        let ghost before = self.token_instances@;
        self.token_instances[i].current_stats = stats;
        self.token_instances[i].cost = cost;
        proof {
            assert(self.token_instances@ == before.update(i as int, self.token_instances@[i as int]));
            lemma_keyed_map_update(before, token_key(), token_val(), i as int, self.token_instances@[i as int]);
            assert(self.token_instances@.map_values(|t: TokenInstance| t.instance_id) =~= before.map_values(
                |t: TokenInstance| t.instance_id,
            ));
            assert(self.rv().tokens =~= old(self).tokens().insert(
                old(self).token_instances@[i as int].instance_id,
                TokenInstanceView { current_stats: stats, cost, ..old(self).token_instances@[i as int]@ },
            ));
        }
    }

    /// Shuffles the location at place `i`.
    pub fn shuffle_location(&mut self, i: usize)
        requires
            old(self).wf(),
            i < old(self).locations@.len(),
        ensures
            final(self).wf(),
            final(self).same_frame(old(self)),
            final(self).tokens() == old(self).tokens(),
            ({
                let id = old(self).locations@[i as int].spec_location_id();
                &&& final(self).locs().dom() == old(self).locs().dom()
                &&& forall|k: LocationId| #[trigger] final(self).locs().contains_key(k) && k != id ==> final(self).locs()[k] == old(self).locs()[k]
                &&& final(self).locs()[id].location_id == old(self).locs()[id].location_id
                &&& final(self).locs()[id].is_slot == old(self).locs()[id].is_slot
                &&& final(self).locs()[id].tokens.to_multiset() == old(self).locs()[id].tokens.to_multiset()
            }),
    {
        let ghost before = self.locations@;
        self.locations[i].shuffle();
        proof {
            assert(self.locations@ == before.update(i as int, self.locations@[i as int]));
            lemma_keyed_map_index(before, loc_key(), loc_val(), i as int);
            lemma_keyed_map_update(before, loc_key(), loc_val(), i as int, self.locations@[i as int]);
        }
    }

    /// A game with no locations and no tokens yet; who moves first is picked at random.
    pub fn new(registry: TokenRegistry) -> (r: Self)
        requires
            registry.wf(),
        ensures
            r.wf(),
            r.locs() == Map::<LocationId, LocationView>::empty(),
            r.tokens() == Map::<TokenInstanceId, TokenInstanceView>::empty(),
            r.round == 0,
            r.player_1 == Player::spec_new(PlayerId::Player1, LocationId(PLAYER_1_DECK), LocationId(PLAYER_1_HAND)),
            r.player_2 == Player::spec_new(PlayerId::Player2, LocationId(PLAYER_2_DECK), LocationId(PLAYER_2_HAND)),
            r.board.is_initial(),
            r.location_counter == 0,
            r.equipment_slot_owners@.len() == 0,
            r.registry == registry,
    {
        let r = Self {
            locations: Vec::new(),
            token_instances: Vec::new(),
            round: 0,
            player_1: Player::new(PlayerId::Player1, LocationId(PLAYER_1_DECK), LocationId(PLAYER_1_HAND)),
            player_2: Player::new(PlayerId::Player2, LocationId(PLAYER_2_DECK), LocationId(PLAYER_2_HAND)),
            current_turn: if random_bool() {
                PlayerId::Player1
            } else {
                PlayerId::Player2
            },
            board: Board::new(),
            location_counter: 0,
            equipment_slot_owners: Vec::new(),
            registry,
        };
        assert(r.locs() =~= Map::<LocationId, LocationView>::empty());
        assert(r.tokens() =~= Map::<TokenInstanceId, TokenInstanceView>::empty());
        r
    }

    /// Where the token with this id stands.
    pub fn find_token(&self, id: TokenInstanceId) -> (r: Option<usize>)
        requires
            self.wf(),
        ensures
            r matches Some(i) ==> i < self.token_instances@.len()
                && self.token_instances@[i as int].instance_id == id
                && self.tokens().contains_key(id)
                && self.tokens()[id] == self.token_instances@[i as int]@,
            r is None ==> !self.tokens().contains_key(id),
    {
        let mut i: usize = 0;
        while i < self.token_instances.len()
            invariant
                self.wf(),
                i <= self.token_instances.len(),
                forall|j: int| 0 <= j < i ==> self.token_instances@[j].instance_id != id,
            decreases self.token_instances.len() - i,
        {
            if self.token_instances[i].instance_id == id {
                proof {
                    lemma_keyed_map_index(self.token_instances@, token_key(), token_val(), i as int);
                }
                return Some(i);
            }
            i = i + 1;
        }
        proof {
            lemma_keyed_map_domain(self.token_instances@, token_key(), token_val(), id);
        }
        None
    }

    /// Where the location with this id stands.
    pub fn find_location(&self, id: LocationId) -> (r: Option<usize>)
        requires
            self.wf(),
        ensures
            r matches Some(i) ==> i < self.locations@.len()
                && self.locations@[i as int].spec_location_id() == id
                && self.locs().contains_key(id)
                && self.locs()[id] == self.locations@[i as int]@,
            r is None ==> !self.locs().contains_key(id),
    {
        let mut i: usize = 0;
        while i < self.locations.len()
            invariant
                self.wf(),
                i <= self.locations.len(),
                forall|j: int| 0 <= j < i ==> self.locations@[j].spec_location_id() != id,
            decreases self.locations.len() - i,
        {
            if self.locations[i].get_location_id() == id {
                proof {
                    lemma_keyed_map_index(self.locations@, loc_key(), loc_val(), i as int);
                }
                return Some(i);
            }
            i = i + 1;
        }
        proof {
            lemma_keyed_map_domain(self.locations@, loc_key(), loc_val(), id);
        }
        None
    }

    /// Adds a location, or puts it in place of the one with the same id.
    pub fn insert_location(&mut self, location: LocationStore)
        requires
            old(self).wf(),
        ensures
            final(self).wf(),
            final(self).locs() == old(self).locs().insert(location.spec_location_id(), location@),
            final(self).tokens() == old(self).tokens(),
            final(self).token_instances@ == old(self).token_instances@,
            final(self).same_frame(old(self)),
    {
        let id = location.get_location_id();
        match self.find_location(id) {
            Some(i) => {
                proof {
                    lemma_keyed_map_update(self.locations@, loc_key(), loc_val(), i as int, location);
                }
                self.locations.set(i, location);
            },
            None => {
                proof {
                    lemma_keyed_map_push(self.locations@, loc_key(), loc_val(), location);
                }
                self.locations.push(location);
            },
        }
    }

    /// The player with this id.
    pub fn get_player(&self, id: PlayerId) -> (r: &Player)
        ensures
            *r == spec_player(*self, id),
    {
        match id {
            PlayerId::Player1 => &self.player_1,
            PlayerId::Player2 => &self.player_2,
        }
    }

    /// The player with this id, to change.
    pub fn get_player_mut(&mut self, id: PlayerId) -> (r: &mut Player)
        ensures
            *r == spec_player(*old(self), id),
            id == PlayerId::Player1 ==> final(self).player_1 == *final(r) && final(self).player_2
                == old(self).player_2,
            id == PlayerId::Player2 ==> final(self).player_2 == *final(r) && final(self).player_1
                == old(self).player_1,
            final(self).locations == old(self).locations,
            final(self).token_instances == old(self).token_instances,
            final(self).round == old(self).round,
            final(self).current_turn == old(self).current_turn,
            final(self).board == old(self).board,
            final(self).location_counter == old(self).location_counter,
            final(self).equipment_slot_owners == old(self).equipment_slot_owners,
            final(self).registry == old(self).registry,
    {
        match id {
            PlayerId::Player1 => &mut self.player_1,
            PlayerId::Player2 => &mut self.player_2,
        }
    }

    /// Empties a location and tells the client so.
    pub fn clear_location(&mut self, location: LocationId, communicator: &mut GameCommunicator) -> (r: Result<(), GameError>)
        requires
            old(self).wf(),
        ensures
            final(self).wf(),
            final(self).same_frame(old(self)),
            final(self).tokens() == old(self).tokens(),
            old(self).locs().contains_key(location) ==> {
                &&& r is Ok
                &&& final(self).locs() == old(self).locs().insert(
                    location,
                    LocationView { tokens: Seq::empty(), ..old(self).locs()[location] },
                )
                &&& final(communicator).sent() == old(communicator).sent().push(
                    OutgoingView::Instruction(InstructionView::ClearLocation { location }),
                )
            },
            !old(self).locs().contains_key(location) ==> {
                &&& r == Err::<(), GameError>(GameError::LocationNotFound(location))
                &&& final(self).locs() == old(self).locs()
                &&& final(communicator).sent() == old(communicator).sent()
            },
    {
        match self.find_location(location) {
            None => Err(GameError::LocationNotFound(location)),
            Some(i) => {
                let ghost before = self.locations@;
                self.locations[i].clear();
                proof {
                    assert(self.locations@ == before.update(i as int, self.locations@[i as int]));
                    lemma_keyed_map_update(before, loc_key(), loc_val(), i as int, self.locations@[i as int]);
                    assert(self.locs() =~= old(self).locs().insert(
                        location,
                        LocationView { tokens: Seq::empty(), ..old(self).locs()[location] },
                    ));
                }
                communicator.send_game_instruction(InstructionToClient::ClearLocation { location });
                Ok(())
            },
        }
    }

    /// Moves a token to another location (see `spec_move_token`).
    pub fn move_token(
        &mut self,
        token_instance_id: TokenInstanceId,
        to: LocationId,
        animation: Option<AnimationPreset>,
        communicator: &mut GameCommunicator,
    ) -> (r: Result<(), GameError>)
        requires
            old(self).wf(),
        ensures
            final(self).wf(),
            final(self).same_frame(old(self)),
            ({
                let o = spec_move_token(
                    old(self).locs(),
                    old(self).tokens(),
                    old(communicator).sent(),
                    token_instance_id,
                    to,
                    animation,
                );
                &&& r == o.result
                &&& final(self).locs() == o.locs
                &&& final(self).tokens() == o.tokens
                &&& final(communicator).sent() == o.sent
            }),
    {
        let ti = match self.find_token(token_instance_id) {
            Some(i) => i,
            None => return Err(GameError::TokenNotFound(token_instance_id)),
        };
        let from = self.token_instances[ti].location;
        let fi = match self.find_location(from) {
            Some(i) => i,
            None => return Err(GameError::LocationNotFound(from)),
        };
        let ghost locs0 = self.locations@;
        self.locations[fi].remove_token(token_instance_id);
        proof {
            lemma_keyed_map_update(locs0, loc_key(), loc_val(), fi as int, self.locations@[fi as int]);
            assert(self.locs() =~= old(self).locs().insert(from, loc_after_remove(old(self).locs()[from], token_instance_id)));
        }
        let ghost toks0 = self.token_instances@;
        self.token_instances[ti].location = to;
        proof {
            lemma_keyed_map_update(toks0, token_key(), token_val(), ti as int, self.token_instances@[ti as int]);
            assert(self.token_instances@[ti as int]@ == TokenInstanceView { location: to, ..old(self).tokens()[token_instance_id] });
        }
        let toi = match self.find_location(to) {
            Some(i) => i,
            None => return Err(GameError::LocationNotFound(to)),
        };
        let ghost locs1 = self.locations@;
        match self.locations[toi].add_token(token_instance_id) {
            Ok(()) => {},
            Err(_) => {
                proof {
                    lemma_keyed_map_update(locs1, loc_key(), loc_val(), toi as int, self.locations@[toi as int]);
                    assert(self.locs() =~= keyed_map(locs1, loc_key(), loc_val()));
                }
                return Err(GameError::SlotOccupied(to));
            },
        }
        proof {
            lemma_keyed_map_update(locs1, loc_key(), loc_val(), toi as int, self.locations@[toi as int]);
        }
        let to_id = self.locations[toi].get_location_id();
        match animation {
            Some(a) => {
                communicator.send_game_instruction(
                    InstructionToClient::Animate {
                        token: token_instance_id,
                        location: to,
                        duration_ms: 500,
                        preset: a,
                    },
                );
            },
            None => {},
        }
        communicator.send_game_instruction(
            InstructionToClient::MoveToken { token: token_instance_id, to: to_id },
        );
        let old_location = match identify_location(from) {
            Ok(l) => l,
            Err(e) => return Err(GameError::UnknownLocation(e.0)),
        };
        let new_location = match identify_location(to) {
            Ok(l) => l,
            Err(e) => return Err(GameError::UnknownLocation(e.0)),
        };
        if !old_location.is_field() && new_location.is_field() {
            let ghost toks1 = self.token_instances@;
            self.token_instances[ti].hidden = false;
            proof {
                lemma_keyed_map_update(toks1, token_key(), token_val(), ti as int, self.token_instances@[ti as int]);
            }
            communicator.send_game_instruction(InstructionToClient::Reveal { token: token_instance_id });
        }
        Ok(())
    }

    /// Empties every location, telling the client of each in turn.
    pub fn reset_game(&mut self, communicator: &mut GameCommunicator) -> (r: Result<(), GameError>)
        requires
            old(self).wf(),
        ensures
            r is Ok,
            final(self).wf(),
            spec_reset(*old(self), *final(self), old(communicator).sent(), final(communicator).sent()),
    {
        let ghost f = |v: LocationView| LocationView { tokens: Seq::empty(), ..v };
        let ghost g = |l: LocationStore|
            OutgoingView::Instruction(
                InstructionView::ClearLocation { location: l.spec_location_id() },
            );
        let mut i: usize = 0;
        while i < self.locations.len()
            invariant
                i <= self.locations.len(),
                self.locations@.len() == old(self).locations@.len(),
                self.token_instances@ == old(self).token_instances@,
                self.same_frame(old(self)),
                old(self).wf(),
                f == (|v: LocationView| LocationView { tokens: Seq::empty(), ..v }),
                g == (|l: LocationStore|
                    OutgoingView::Instruction(
                        InstructionView::ClearLocation { location: l.spec_location_id() },
                    )),
                forall|j: int|
                    0 <= j < self.locations@.len() ==> #[trigger] self.locations@[j].spec_location_id()
                        == old(self).locations@[j].spec_location_id(),
                forall|j: int|
                    0 <= j < i ==> #[trigger] self.locations@[j]@ == f(old(self).locations@[j]@),
                forall|j: int|
                    i <= j < self.locations@.len() ==> #[trigger] self.locations@[j] == old(
                        self,
                    ).locations@[j],
                communicator.sent() == old(communicator).sent() + old(self).locations@.take(
                    i as int,
                ).map_values(g),
            decreases self.locations.len() - i,
        {
            let location = self.locations[i].get_location_id();
            self.locations[i].clear();
            communicator.send_game_instruction(InstructionToClient::ClearLocation { location });
            proof {
                assert(old(self).locations@.take(i + 1).map_values(g) =~= old(self).locations@.take(
                    i as int,
                ).map_values(g).push(g(old(self).locations@[i as int])));
            }
            i = i + 1;
        }
        proof {
            assert(old(self).locations@.take(i as int) =~= old(self).locations@);
            lemma_keyed_map_pointwise(old(self).locations@, self.locations@, loc_key(), loc_val(), f);
            assert forall|a: int, b: int|
                0 <= a < self.locations@.len() && 0 <= b < self.locations@.len() && a != b implies loc_key()(
                self.locations@[a],
            ) != loc_key()(self.locations@[b]) by {
                assert(loc_key()(self.locations@[a]) == loc_key()(old(self).locations@[a]));
                assert(loc_key()(self.locations@[b]) == loc_key()(old(self).locations@[b]));
            }
        }
        Ok(())
    }

    /// Makes a token of the kind `id` with the instance id `t`, owned by `owner`, at
    /// `location`: refused when `location` does not exist or no kind is called `id`.
    /// Otherwise the client is told of the new token and its behaviors, the token is in
    /// play under `t` (replacing a token that already had that id), and it is put at
    /// `location`, which a taken slot refuses.
    pub fn create_token_with_id(
        &mut self,
        id: &str,
        t: TokenInstanceId,
        location: LocationId,
        owner: PlayerId,
        communicator: &mut GameCommunicator,
    ) -> (r: Result<TokenInstanceId, GameError>)
        requires
            old(self).wf(),
        ensures
            final(self).wf(),
            final(self).same_frame(old(self)),
            spec_create_token(*old(self), *final(self), old(communicator).sent(), final(communicator).sent(), r, id@, t, location, owner),
    {
        let li = match self.find_location(location) {
            Some(i) => i,
            None => return Err(GameError::LocationNotFound(location)),
        };
        let token = match self.registry.instance_token(id, t, location, owner) {
            Ok(token) => token,
            Err(e) => return Err(GameError::UnknownTokenKind(e.0)),
        };
        proof {
            let k = spec_kind_index(self.registry, id@);
            assert(self.registry.tokens@[token.data_index as int].id@ == id@);
            assert(k == token.data_index as int);
            assert(token.equipment_slots@ =~= Seq::<LocationId>::empty());
            assert(token@ == spec_new_token(self.registry, k, t, location, owner));
        }
        communicator.send_game_instruction(
            InstructionToClient::CreateToken {
                token_data: token.duplicate(),
                instance_id: t,
                player_id: owner,
                location_id: self.locations[li].get_location_id(),
            },
        );
        communicator.send_game_instruction(InstructionToClient::UpdateBehaviors { token_data: token.duplicate() });
        match self.find_token(t) {
            Some(i) => {
                proof {
                    lemma_keyed_map_update(self.token_instances@, token_key(), token_val(), i as int, token);
                }
                self.token_instances.set(i, token);
            },
            None => {
                proof {
                    lemma_keyed_map_push(self.token_instances@, token_key(), token_val(), token);
                }
                self.token_instances.push(token);
            },
        }
        let ghost locs0 = self.locations@;
        match self.locations[li].add_token(t) {
            Ok(()) => {
                proof {
                    lemma_keyed_map_update(locs0, loc_key(), loc_val(), li as int, self.locations@[li as int]);
                }
                Ok(t)
            },
            Err(_) => {
                proof {
                    lemma_keyed_map_update(locs0, loc_key(), loc_val(), li as int, self.locations@[li as int]);
                    assert(self.locs() =~= old(self).locs());
                }
                Err(GameError::SlotOccupied(location))
            },
        }
    }

    /// Makes a token of the kind `id` under a random instance id (see `create_token_with_id`).
    pub fn create_token(
        &mut self,
        id: &str,
        location: LocationId,
        owner: PlayerId,
        communicator: &mut GameCommunicator,
    ) -> (r: Result<TokenInstanceId, GameError>)
        requires
            old(self).wf(),
        ensures
            final(self).wf(),
            final(self).same_frame(old(self)),
            exists|t: TokenInstanceId|
                spec_create_token(*old(self), *final(self), old(communicator).sent(), final(communicator).sent(), r, id@, t, location, owner),
    {
        let t = TokenInstanceId(random_u64());
        self.create_token_with_id(id, t, location, owner, communicator)
    }

    /// Sends a token to its owner's graveyard, or, for a hero, ends the game.
    pub fn destroy_token(&mut self, token_instance_id: TokenInstanceId, communicator: &mut GameCommunicator) -> (r: Result<(), GameError>)
        requires
            old(self).wf(),
        ensures
            final(self).wf(),
            final(self).same_frame(old(self)),
            ({
                let o = spec_destroy(*old(self), old(communicator).sent(), token_instance_id);
                &&& r == o.result
                &&& final(self).locs() == o.locs
                &&& final(self).tokens() == o.tokens
                &&& final(communicator).sent() == o.sent
            }),
    {
        let ti = match self.find_token(token_instance_id) {
            Some(i) => i,
            None => return Err(GameError::TokenNotFound(token_instance_id)),
        };
        let owner = self.token_instances[ti].owner;
        let kind = self.token_instances[ti].data_index;
        let is_hero = match self.registry.tokens[kind].token_category {
            TokenCategory::Hero { .. } => true,
            _ => false,
        };
        if is_hero {
            let winner = owner.opponent();
            communicator.send_game_instruction(InstructionToClient::EndGame { winner });
            return Err(GameError::HeroDestroyed { winner });
        }
        let graveyard = self.board.get_side(owner).graveyard;
        self.move_token(token_instance_id, graveyard, Some(AnimationPreset::EaseInOut), communicator)
    }

    /// Whether a player may play the token from hand to the location. A token already
    /// there is refused with nothing said. Otherwise it must be the owner's turn, the
    /// token must be in the owner's hand, the location must be a field slot of the
    /// owner, and the current player must have the thaum; when any of these fails the
    /// client is told to put the token back where it was.
    pub fn can_player_summon_token(
        &self,
        token_instance_id: TokenInstanceId,
        to_location: LocationId,
        communicator: &mut GameCommunicator,
    ) -> (r: Result<bool, GameError>)
        requires
            self.wf(),
        ensures
            spec_summon_check(*self, token_instance_id, to_location, old(communicator).sent(), final(communicator).sent(), r),
    {
        let ti = match self.find_token(token_instance_id) {
            Some(i) => i,
            None => return Err(GameError::TokenNotFound(token_instance_id)),
        };
        let token = &self.token_instances[ti];
        let token_location = token.location;
        if token.location == to_location {
            return Ok(false);
        }
        let mut allow = true;
        if token.owner != self.current_turn {
            allow = false;
        }
        if token.location != self.get_player(token.owner).hand {
            allow = false;
        }
        if self.board.get_side(token.owner).field_index(to_location).is_none() {
            allow = false;
        }
        if token.cost > self.get_player(self.current_turn).thaum {
            allow = false;
        }
        if !allow {
            communicator.send_game_instruction(
                InstructionToClient::MoveToken { token: token_instance_id, to: token_location },
            );
        }
        Ok(allow)
    }

    /// The tokens of a run of locations, one location after the other.
    pub fn tokens_of(&self, ids: &Vec<LocationId>) -> (r: Vec<TokenInstanceId>)
        requires
            self.wf(),
            forall|i: int| 0 <= i < ids@.len() ==> self.locs().contains_key(#[trigger] ids@[i]),
        ensures
            r@ == spec_tokens_of(self.locs(), ids@),
    {
        let mut r: Vec<TokenInstanceId> = Vec::new();
        let mut i: usize = 0;
        while i < ids.len()
            invariant
                self.wf(),
                i <= ids.len(),
                forall|j: int| 0 <= j < ids@.len() ==> self.locs().contains_key(#[trigger] ids@[j]),
                r@ == spec_tokens_of(self.locs(), ids@.take(i as int)),
            decreases ids.len() - i,
        {
            let li = self.find_location(ids[i]).unwrap();
            let mut more = self.locations[li].get_tokens();
            r.append(&mut more);
            proof {
                assert(ids@.take(i + 1).drop_last() =~= ids@.take(i as int));
            }
            i = i + 1;
        }
        assert(ids@.take(ids.len() as int) =~= ids@);
        r
    }

    /// The tokens of one location.
    pub fn tokens_at(&self, id: LocationId) -> (r: Vec<TokenInstanceId>)
        requires
            self.wf(),
            self.locs().contains_key(id),
        ensures
            r@ == self.locs()[id].tokens,
    {
        let li = self.find_location(id).unwrap();
        self.locations[li].get_tokens()
    }
}

/// What destroying token `t` leads to: a token not in play is refused; a hero ends the
/// game, its owner's opponent winning, and the client is told; any other token goes to
/// its owner's graveyard with an animation (see `spec_move_token`).
pub open spec fn spec_destroy(pre: StateResources, sent: Seq<OutgoingView>, t: TokenInstanceId) -> Outcome {
    if !pre.tokens().contains_key(t) {
        Outcome { result: Err(GameError::TokenNotFound(t)), locs: pre.locs(), tokens: pre.tokens(), sent }
    } else {
        let tok = pre.tokens()[t];
        if pre.registry.tokens@[tok.data_index as int].token_category is Hero {
            let winner = crate::id_types::spec_opponent(tok.owner);
            Outcome {
                result: Err(GameError::HeroDestroyed { winner }),
                locs: pre.locs(),
                tokens: pre.tokens(),
                sent: sent.push(OutgoingView::Instruction(InstructionView::EndGame { winner })),
            }
        } else {
            spec_move_token(
                pre.locs(),
                pre.tokens(),
                sent,
                t,
                spec_side(pre.board, tok.owner).graveyard,
                Some(AnimationPreset::EaseInOut),
            )
        }
    }
}

/// What making a token of kind `id` under instance id `t` leads to (see
/// `StateResources::create_token_with_id`).
pub open spec fn spec_create_token(
    pre: StateResources,
    post: StateResources,
    sent_pre: Seq<OutgoingView>,
    sent_post: Seq<OutgoingView>,
    r: Result<TokenInstanceId, GameError>,
    id: Seq<char>,
    t: TokenInstanceId,
    location: LocationId,
    owner: PlayerId,
) -> bool {
    if !pre.locs().contains_key(location) {
        &&& r == Err::<TokenInstanceId, GameError>(GameError::LocationNotFound(location))
        &&& post.locs() == pre.locs() && post.tokens() == pre.tokens() && sent_post == sent_pre
    } else if !pre.registry.spec_has(id) {
        &&& (r matches Err(GameError::UnknownTokenKind(s)) && s@ == id)
        &&& post.locs() == pre.locs() && post.tokens() == pre.tokens() && sent_post == sent_pre
    } else {
        let nt = spec_new_token(pre.registry, spec_kind_index(pre.registry, id), t, location, owner);
        &&& post.tokens() == pre.tokens().insert(t, nt)
        &&& sent_post == sent_pre.push(
            OutgoingView::Instruction(
                InstructionView::CreateToken {
                    token_data: nt,
                    instance_id: t,
                    location_id: location,
                    player_id: owner,
                },
            ),
        ).push(OutgoingView::Instruction(InstructionView::UpdateBehaviors { token_data: nt }))
        &&& if loc_has_room(pre.locs()[location]) {
            &&& r == Ok::<TokenInstanceId, GameError>(t)
            &&& post.locs() == pre.locs().insert(location, loc_after_add(pre.locs()[location], t))
        } else {
            &&& r == Err::<TokenInstanceId, GameError>(GameError::SlotOccupied(location))
            &&& post.locs() == pre.locs()
        }
    }
}

impl Board {
    /// Which landscape a token on a field slot stands on: the landscape of the side whose
    /// field holds the slot.
    pub fn get_relevant_landscape(&self, resources: &StateResources, token: TokenInstanceId) -> (r: Option<LocationId>)
        requires
            resources.wf(),
        ensures
            r == (if !resources.tokens().contains_key(token) {
                None
            } else if self.side_1.field@.contains(resources.tokens()[token].location) {
                Some(self.side_1.landscape)
            } else if self.side_2.field@.contains(resources.tokens()[token].location) {
                Some(self.side_2.landscape)
            } else {
                None
            }),
    {
        let ti = match resources.find_token(token) {
            Some(i) => i,
            None => return None,
        };
        let location = resources.token_instances[ti].location;
        if self.side_1.field_index(location).is_some() {
            Some(self.side_1.landscape)
        } else if self.side_2.field_index(location).is_some() {
            Some(self.side_2.landscape)
        } else {
            None
        }
    }
}

impl TokenInstance {
    /// Whether the token is in neither graveyard.
    pub fn is_alive(&self, resources: &StateResources, board: &Board) -> (r: bool)
        requires
            resources.wf(),
            resources.locs().contains_key(board.side_1.graveyard),
            resources.locs().contains_key(board.side_2.graveyard),
        ensures
            r == (!resources.locs()[board.side_1.graveyard].tokens.contains(self.instance_id)
                && !resources.locs()[board.side_2.graveyard].tokens.contains(self.instance_id)),
    {
        let g1 = resources.find_location(board.side_1.graveyard).unwrap();
        let g2 = resources.find_location(board.side_2.graveyard).unwrap();
        !resources.locations[g1].contains(self.instance_id) && !resources.locations[g2].contains(self.instance_id)
    }
}

} // verus!
