//! The two sides of the board: each player's hero, landscape, field slots and graveyard.
use vstd::prelude::*;

use crate::error::GameError;
use crate::game_communicator::{GameCommunicator, OutgoingView};
use crate::id_types::{spec_opponent, LocationId, PlayerId, TokenInstanceId};
use crate::instruction::{InstructionToClient, InstructionView};
use crate::locations::{LocationStore, TokenSlot};
use crate::locations::LocationView;
use crate::state_resources::{side_locations_exist, spec_side_tokens, StateResources};
use crate::location_ids::{
    player_field_location_id, player_graveyard_location_id, player_hero_location_id,
    player_landscape_location_id, spec_field_location, spec_graveyard_location, spec_hero_location,
    spec_landscape_location, PLAYER_2_FIELD_BASE,
};
use crate::token_data::{SlotPosition, TokenCategory};

use crate::history::kept_in;

verus! {

/// One player's side of the board.
pub struct BoardSide {
    pub hero: LocationId,
    pub landscape: LocationId,
    /// The field slots, in the order the landscape lists them.
    pub field: Vec<LocationId>,
    /// Where each field slot lies on the landscape, index for index.
    pub field_slot_positions: Vec<SlotPosition>,
    pub graveyard: LocationId,
    pub owner: PlayerId,
}

/// Both sides of the board.
pub struct Board {
    pub side_1: BoardSide,
    pub side_2: BoardSide,
}

impl BoardSide {
    /// Every field slot has a position.
    pub open spec fn wf(&self) -> bool {
        self.field@.len() == self.field_slot_positions@.len()
    }

    /// The side of `owner` at the start of a game: its fixed slots and no field yet.
    pub fn new(owner: PlayerId) -> (r: BoardSide)
        ensures
            r.hero == spec_hero_location(owner),
            r.landscape == spec_landscape_location(owner),
            r.graveyard == spec_graveyard_location(owner),
            r.field@.len() == 0,
            r.field_slot_positions@.len() == 0,
            r.owner == owner,
            r.wf(),
    {
        BoardSide {
            hero: player_hero_location_id(owner),
            landscape: player_landscape_location_id(owner),
            field: Vec::new(),
            field_slot_positions: Vec::new(),
            graveyard: player_graveyard_location_id(owner),
            owner,
        }
    }

    /// The first place of a field slot in the field, if the slot is on this side.
    pub fn field_index(&self, location: LocationId) -> (r: Option<usize>)
        ensures
            r matches Some(i) ==> first_index_at(self.field@, location, i as int),
            r is None ==> !self.field@.contains(location),
    {
        let mut i: usize = 0;
        while i < self.field.len()
            invariant
                i <= self.field.len(),
                forall|j: int| 0 <= j < i ==> self.field@[j] != location,
            decreases self.field.len() - i,
        {
            if self.field[i] == location {
                return Some(i);
            }
            i = i + 1;
        }
        None
    }
}

/// `i` is the first place of `x` in `s`.
pub open spec fn first_index_at<T>(s: Seq<T>, x: T, i: int) -> bool {
    &&& 0 <= i < s.len()
    &&& s[i] == x
    &&& forall|j: int| 0 <= j < i ==> s[j] != x
}

/// The position of a field slot on a side (by its first place in the field), if the slot
/// is on it.
pub open spec fn spec_side_position(side: BoardSide, location: LocationId) -> Option<SlotPosition> {
    if side.field@.contains(location) {
        let i = choose|i: int| first_index_at(side.field@, location, i);
        Some(side.field_slot_positions@[i])
    } else {
        None
    }
}

pub open spec fn spec_side(board: Board, id: PlayerId) -> BoardSide {
    match id {
        PlayerId::Player1 => board.side_1,
        PlayerId::Player2 => board.side_2,
    }
}

/// A location that is no field slot of either side.
#[derive(Clone, Copy, PartialEq, Eq, Structural, Debug)]
pub struct NotAFieldSlot(pub LocationId);

impl Board {
    pub open spec fn wf(&self) -> bool {
        &&& self.side_1.wf()
        &&& self.side_2.wf()
        &&& self.side_1.owner == PlayerId::Player1
        &&& self.side_2.owner == PlayerId::Player2
    }

    /// The position of a field slot: the first side's slots are looked at first.
    pub open spec fn spec_slot_position(&self, location: LocationId) -> Option<SlotPosition> {
        match spec_side_position(self.side_1, location) {
            Some(p) => Some(p),
            None => spec_side_position(self.side_2, location),
        }
    }

    /// Both sides have their fixed slots and no field yet.
    pub open spec fn is_initial(&self) -> bool {
        &&& self.side_1.hero == spec_hero_location(PlayerId::Player1)
        &&& self.side_1.landscape == spec_landscape_location(PlayerId::Player1)
        &&& self.side_1.graveyard == spec_graveyard_location(PlayerId::Player1)
        &&& self.side_2.hero == spec_hero_location(PlayerId::Player2)
        &&& self.side_2.landscape == spec_landscape_location(PlayerId::Player2)
        &&& self.side_2.graveyard == spec_graveyard_location(PlayerId::Player2)
        &&& self.side_1.field@.len() == 0
        &&& self.side_2.field@.len() == 0
        &&& self.wf()
    }

    /// A board with both sides as a game starts.
    pub fn new() -> (r: Board)
        ensures
            r.is_initial(),
    {
        Board { side_1: BoardSide::new(PlayerId::Player1), side_2: BoardSide::new(PlayerId::Player2) }
    }

    /// The side of a player.
    pub fn get_side(&self, id: PlayerId) -> (r: &BoardSide)
        ensures
            *r == spec_side(*self, id),
    {
        match id {
            PlayerId::Player1 => &self.side_1,
            PlayerId::Player2 => &self.side_2,
        }
    }

    /// The side of a player, to change.
    pub fn get_side_mut(&mut self, id: PlayerId) -> (r: &mut BoardSide)
        ensures
            *r == spec_side(*old(self), id),
            id == PlayerId::Player1 ==> final(self).side_1 == *final(r) && final(self).side_2
                == old(self).side_2,
            id == PlayerId::Player2 ==> final(self).side_2 == *final(r) && final(self).side_1
                == old(self).side_1,
    {
        match id {
            PlayerId::Player1 => &mut self.side_1,
            PlayerId::Player2 => &mut self.side_2,
        }
    }

    /// Where a field slot lies on its landscape.
    pub fn get_slot_position(&self, location: LocationId) -> (r: Result<SlotPosition, NotAFieldSlot>)
        requires
            self.wf(),
        ensures
            r == (match self.spec_slot_position(location) {
                Some(p) => Ok::<SlotPosition, NotAFieldSlot>(p),
                None => Err(NotAFieldSlot(location)),
            }),
    {
        match self.side_1.field_index(location) {
            Some(i) => {
                proof {
                    let j = choose|j: int| first_index_at(self.side_1.field@, location, j);
                    assert(self.side_1.field@.contains(location));
                    assert(j == i);
                }
                Ok(self.side_1.field_slot_positions[i])
            },
            None => match self.side_2.field_index(location) {
                Some(i) => {
                    proof {
                        let j = choose|j: int| first_index_at(self.side_2.field@, location, j);
                        assert(self.side_2.field@.contains(location));
                        assert(j == i);
                    }
                    Ok(self.side_2.field_slot_positions[i])
                },
                None => Err(NotAFieldSlot(location)),
            },
        }
    }
}

/// The tokens of both sides: the first side's, then the second's.
pub open spec fn spec_tokens_in_play(locs: Map<LocationId, LocationView>, board: Board) -> Seq<TokenInstanceId> {
    spec_side_tokens(locs, board.side_1) + spec_side_tokens(locs, board.side_2)
}

impl BoardSide {
    /// The tokens on this side: the hero's slot, the landscape's slot, each field slot in
    /// order, then the graveyard.
    pub fn get_tokens_in_play(&self, resources: &StateResources) -> (r: Vec<TokenInstanceId>)
        requires
            resources.wf(),
            side_locations_exist(resources.locs(), *self),
        ensures
            r@ == spec_side_tokens(resources.locs(), *self),
    {
        let mut tokens = resources.tokens_at(self.hero);
        let mut landscape = resources.tokens_at(self.landscape);
        tokens.append(&mut landscape);
        let mut field = resources.tokens_of(&self.field);
        tokens.append(&mut field);
        let mut graveyard = resources.tokens_at(self.graveyard);
        tokens.append(&mut graveyard);
        tokens
    }
}

impl Board {
    /// The tokens of both sides, the first side's first.
    pub fn get_tokens_in_play(&self, resources: &StateResources) -> (r: Vec<TokenInstanceId>)
        requires
            resources.wf(),
            side_locations_exist(resources.locs(), self.side_1),
            side_locations_exist(resources.locs(), self.side_2),
        ensures
            r@ == spec_tokens_in_play(resources.locs(), *self),
    {
        let mut tokens = self.side_1.get_tokens_in_play(resources);
        let mut more = self.side_2.get_tokens_in_play(resources);
        tokens.append(&mut more);
        tokens
    }
}

/// The field slot ids a landscape with `n` slots gives its owner, in order.
pub open spec fn spec_field_ids(owner: PlayerId, n: nat) -> Seq<LocationId> {
    Seq::new(n, |i: int| spec_field_location(owner, i))
}

/// The instructions that tell the client of those field slots, in order.
pub open spec fn spec_slot_messages(owner: PlayerId, n: nat) -> Seq<OutgoingView> {
    Seq::new(
        n,
        |i: int|
            OutgoingView::Instruction(
                InstructionView::AddLandscapeSlot {
                    player_id: owner,
                    index: i as u64,
                    location_id: spec_field_location(owner, i),
                },
            ),
    )
}

/// The locations with an empty field slot under each of `ids`.
pub open spec fn with_empty_slots(locs: Map<LocationId, LocationView>, ids: Seq<LocationId>) -> Map<
    LocationId,
    LocationView,
> {
    locs.union_prefer_right(
        Map::new(
            |k: LocationId| ids.contains(k),
            |k: LocationId| LocationView { location_id: k, is_slot: true, tokens: Seq::empty() },
        ),
    )
}

/// `post` is `pre` with the field slots `ids` at the positions `positions` added last.
pub open spec fn side_extended(
    pre: BoardSide,
    post: BoardSide,
    ids: Seq<LocationId>,
    positions: Seq<SlotPosition>,
) -> bool {
    &&& post.field@ == pre.field@ + ids
    &&& post.field_slot_positions@ == pre.field_slot_positions@ + positions
    &&& post.hero == pre.hero
    &&& post.landscape == pre.landscape
    &&& post.graveyard == pre.graveyard
    &&& post.owner == pre.owner
}

/// What giving `owner` the field slots of the landscape in their landscape slot leads to.
/// The landscape slot must exist and hold a token in play whose kind is a landscape; then
/// each of its slots, in order, becomes a field slot of the side, with its position, an
/// empty location, and an instruction to the client.
pub open spec fn spec_add_landscape_slots(
    pre: StateResources,
    post: StateResources,
    sent_pre: Seq<OutgoingView>,
    sent_post: Seq<OutgoingView>,
    owner: PlayerId,
    r: Result<(), GameError>,
) -> bool {
    let side = spec_side(pre.board, owner);
    let unchanged = post.locs() == pre.locs() && post.tokens() == pre.tokens() && post.board == pre.board
        && sent_post == sent_pre;
    if !pre.locs().contains_key(side.landscape) {
        r == Err::<(), GameError>(GameError::LocationNotFound(side.landscape)) && unchanged
    } else if pre.locs()[side.landscape].tokens.len() == 0 {
        r == Err::<(), GameError>(GameError::NoLandscape(owner)) && unchanged
    } else {
        let t = pre.locs()[side.landscape].tokens[0];
        if !pre.tokens().contains_key(t) {
            r == Err::<(), GameError>(GameError::TokenNotFound(t)) && unchanged
        } else {
            match pre.registry.tokens@[pre.tokens()[t].data_index as int].token_category {
                TokenCategory::Landscape { slots } => if slots@.len() > u64::MAX - PLAYER_2_FIELD_BASE {
                    r == Err::<(), GameError>(GameError::InvalidState) && unchanged
                } else {
                    let n = slots@.len();
                    let ids = spec_field_ids(owner, n);
                    &&& r is Ok
                    &&& side_extended(side, spec_side(post.board, owner), ids, slots@)
                    &&& spec_side(post.board, spec_opponent(owner)) == spec_side(pre.board, spec_opponent(owner))
                    &&& post.locs() == with_empty_slots(pre.locs(), ids)
                    &&& post.tokens() == pre.tokens()
                    &&& sent_post == sent_pre + spec_slot_messages(owner, n)
                },
                _ => r == Err::<(), GameError>(GameError::NotALandscape(owner)) && unchanged,
            }
        }
    }
}

impl BoardSide {
    /// Gives `owner` a field slot for each slot of the landscape in their landscape slot
    /// (see `spec_add_landscape_slots`).
    pub fn add_landscape_slots(
        owner: PlayerId,
        resources: &mut StateResources,
        communicator: &mut GameCommunicator,
    ) -> (r: Result<(), GameError>)
        requires
            old(resources).wf(),
        ensures
            kept_in(old(communicator).sent(), final(communicator).sent()),
            final(resources).wf(),
            final(resources).same_frame_but_board(old(resources)),
            spec_add_landscape_slots(*old(resources), *final(resources), old(communicator).sent(), final(communicator).sent(), owner, r),
    {
        let landscape_location = resources.board.get_side(owner).landscape;
        let li = match resources.find_location(landscape_location) {
            None => return Err(GameError::LocationNotFound(landscape_location)),
            Some(i) => i,
        };
        let t = match resources.locations[li].get_token() {
            None => return Err(GameError::NoLandscape(owner)),
            Some(t) => t,
        };
        let ti = match resources.find_token(t) {
            None => return Err(GameError::TokenNotFound(t)),
            Some(i) => i,
        };
        let kind = resources.token_instances[ti].data_index;
        let slots: Vec<SlotPosition> = match &resources.registry.tokens[kind].token_category {
            TokenCategory::Landscape { slots } => copy_positions(slots),
            _ => return Err(GameError::NotALandscape(owner)),
        };
        if slots.len() as u64 > u64::MAX - PLAYER_2_FIELD_BASE {
            return Err(GameError::InvalidState);
        }
        let ghost pre = *resources;
        let ghost side0 = spec_side(pre.board, owner);
        let ghost n = slots@.len();
        let mut i: usize = 0;
        proof {
            assert(side0.field@ + spec_field_ids(owner, 0) =~= side0.field@);
            assert(side0.field_slot_positions@ + slots@.take(0) =~= side0.field_slot_positions@);
            assert(with_empty_slots(pre.locs(), spec_field_ids(owner, 0)) =~= pre.locs());
            assert(communicator.sent() =~= old(communicator).sent() + spec_slot_messages(owner, 0));
        }
        while i < slots.len()
            invariant
                resources.wf(),
                resources.same_frame_but_board(&pre),
                pre == *old(resources),
                side0 == spec_side(pre.board, owner),
                n == slots@.len(),
                slots@.len() <= u64::MAX - PLAYER_2_FIELD_BASE,
                i <= n,
                side_extended(side0, spec_side(resources.board, owner), spec_field_ids(owner, i as nat), slots@.take(i as int)),
                spec_side(resources.board, spec_opponent(owner)) == spec_side(pre.board, spec_opponent(owner)),
                resources.locs() == with_empty_slots(pre.locs(), spec_field_ids(owner, i as nat)),
                resources.tokens() == pre.tokens(),
                communicator.sent() == old(communicator).sent() + spec_slot_messages(owner, i as nat),
            decreases slots.len() - i,
        {
            let index = i as u64;
            let location_id = player_field_location_id(owner, index);
            communicator.send_game_instruction(
                InstructionToClient::AddLandscapeSlot { player_id: owner, index, location_id },
            );
            let side = resources.board.get_side_mut(owner);
            side.field.push(location_id);
            side.field_slot_positions.push(slots[i]);
            resources.insert_location(LocationStore::Slot(TokenSlot::new(location_id)));
            proof {
                assert(spec_field_ids(owner, (i + 1) as nat) =~= spec_field_ids(owner, i as nat).push(location_id));
                assert(slots@.take(i + 1) =~= slots@.take(i as int).push(slots@[i as int]));
                assert(spec_slot_messages(owner, (i + 1) as nat) =~= spec_slot_messages(owner, i as nat).push(
                    OutgoingView::Instruction(
                        InstructionView::AddLandscapeSlot { player_id: owner, index, location_id },
                    ),
                ));
                let ids0 = spec_field_ids(owner, i as nat);
                let ids1 = spec_field_ids(owner, (i + 1) as nat);
                assert forall|k: LocationId| ids1.contains(k) == (ids0.contains(k) || k == location_id) by {
                    if ids1.contains(k) {
                        let j = choose|j: int| 0 <= j < ids1.len() && ids1[j] == k;
                        if j < i {
                            assert(ids0[j] == k);
                        }
                    }
                    if ids0.contains(k) {
                        let j = choose|j: int| 0 <= j < ids0.len() && ids0[j] == k;
                        assert(ids1[j] == k);
                    }
                    if k == location_id {
                        assert(ids1[i as int] == k);
                    }
                }
                assert(resources.locs() =~= with_empty_slots(pre.locs(), ids1));
            }
            i = i + 1;
        }
        proof {
            assert(slots@.take(n as int) =~= slots@);
        }
        Ok(())
    }
}

/// A copy of a list of positions.
pub fn copy_positions(v: &Vec<SlotPosition>) -> (r: Vec<SlotPosition>)
    ensures
        r@ == v@,
{
    let mut r: Vec<SlotPosition> = Vec::new();
    let mut i: usize = 0;
    while i < v.len()
        invariant
            i <= v@.len(),
            r@ == v@.take(i as int),
        decreases v.len() - i,
    {
        r.push(v[i]);
        i = i + 1;
        assert(r@ =~= v@.take(i as int));
    }
    assert(v@.take(i as int) =~= v@);
    r
}

/// What preparing both landscapes (see `Board::prepare_landscapes`) leads to, from `pre`
/// with messages `sp` to `post` with messages `sq`.
pub open spec fn spec_landscapes_prepared(
    pre: StateResources,
    post: StateResources,
    sp: Seq<OutgoingView>,
    sq: Seq<OutgoingView>,
    r: Result<(), GameError>,
) -> bool {
    &&& post.same_frame_but_board(&pre)
    &&& exists|mid: StateResources, sent_mid: Seq<OutgoingView>, r1: Result<(), GameError>|
        spec_add_landscape_slots(pre, mid, sp, sent_mid, PlayerId::Player1, r1) && if r1 is Err {
            r == r1 && post.locs() == mid.locs() && post.tokens() == mid.tokens() && post.board == mid.board
                && sq == sent_mid
        } else {
            spec_add_landscape_slots(mid, post, sent_mid, sq, PlayerId::Player2, r)
        }
}

impl Board {
    /// Gives both players the field slots of their landscapes, the first player first; a
    /// failure for the first player leaves the second as it was.
    pub fn prepare_landscapes(resources: &mut StateResources, communicator: &mut GameCommunicator) -> (r: Result<(), GameError>)
        requires
            old(resources).wf(),
        ensures
            kept_in(old(communicator).sent(), final(communicator).sent()),
            final(resources).wf(),
            spec_landscapes_prepared(*old(resources), *final(resources), old(communicator).sent(), final(communicator).sent(), r),
    {
        let r1 = BoardSide::add_landscape_slots(PlayerId::Player1, resources, communicator);
        let ghost mid = *resources;
        let ghost sent_mid = communicator.sent();
        match r1 {
            Err(e) => {
                assert(spec_add_landscape_slots(*old(resources), mid, old(communicator).sent(), sent_mid, PlayerId::Player1, Err(e)));
                Err(e)
            },
            Ok(()) => {
                let r = BoardSide::add_landscape_slots(PlayerId::Player2, resources, communicator);
                assert(spec_add_landscape_slots(*old(resources), mid, old(communicator).sent(), sent_mid, PlayerId::Player1, Ok(())));
                r
            },
        }
    }
}

} // verus!
