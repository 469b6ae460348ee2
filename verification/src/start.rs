//! Starting a game: the fixed locations, both decks from the client's lists, heroes,
//! landscapes and field slots, the opening hands and the first turn.
use vstd::prelude::*;

use crate::board::Board;
use crate::error::GameError;
use crate::game_communicator::GameCommunicator;
use crate::id_types::{LocationId, PlayerId};
use crate::location_ids::{
    PLAYER_1_DECK, PLAYER_1_GRAVEYARD, PLAYER_1_HAND, PLAYER_1_HERO, PLAYER_1_LANDSCAPE,
    PLAYER_2_DECK, PLAYER_2_GRAVEYARD, PLAYER_2_HAND, PLAYER_2_HERO, PLAYER_2_LANDSCAPE,
};
use crate::locations::{LocationStore, TokenCollection, TokenSlot};
use crate::player::Player;
use crate::state_machine::{spec_draw_group, GroupView, StateMachine};
use crate::state_resources::{spec_player, spec_reset, spec_with_player, StateResources};
use crate::player::{spec_populated, spec_prepared};
use crate::board::spec_landscapes_prepared;
use crate::turn::spec_start_turn;
use crate::finder::tag_read;
use crate::locations::LocationView;
use crate::game_communicator::OutgoingView;
use crate::instruction::InstructionView;
use crate::tag::{get_tag, spec_get_tag};

use crate::history::kept_in;

verus! {

/// The draws of the opening hands, queued `n` times for each player in turn, the second
/// player's draw first each time.
pub open spec fn opening_draws(n: nat) -> Seq<GroupView>
    decreases n,
{
    if n == 0 {
        Seq::empty()
    } else {
        seq![spec_draw_group(PlayerId::Player2), spec_draw_group(PlayerId::Player1)] + opening_draws((n - 1) as nat)
    }
}

/// A location with nothing in it, as a value.
pub open spec fn empty_location(id: u64, is_slot: bool) -> LocationView {
    LocationView { location_id: LocationId(id), is_slot, tokens: Seq::empty() }
}

/// The locations with the fixed locations of a game put in, empty: both decks and hands,
/// the hero and landscape slots, and both graveyards.
pub open spec fn with_fixed_locations(locs: Map<LocationId, LocationView>) -> Map<LocationId, LocationView> {
    locs.insert(LocationId(PLAYER_1_DECK), empty_location(PLAYER_1_DECK, false))
        .insert(LocationId(PLAYER_1_HAND), empty_location(PLAYER_1_HAND, false))
        .insert(LocationId(PLAYER_2_DECK), empty_location(PLAYER_2_DECK, false))
        .insert(LocationId(PLAYER_2_HAND), empty_location(PLAYER_2_HAND, false))
        .insert(LocationId(PLAYER_1_HERO), empty_location(PLAYER_1_HERO, true))
        .insert(LocationId(PLAYER_2_HERO), empty_location(PLAYER_2_HERO, true))
        .insert(LocationId(PLAYER_1_LANDSCAPE), empty_location(PLAYER_1_LANDSCAPE, true))
        .insert(LocationId(PLAYER_2_LANDSCAPE), empty_location(PLAYER_2_LANDSCAPE, true))
        .insert(LocationId(PLAYER_1_GRAVEYARD), empty_location(PLAYER_1_GRAVEYARD, false))
        .insert(LocationId(PLAYER_2_GRAVEYARD), empty_location(PLAYER_2_GRAVEYARD, false))
}

/// The game, and what was said, after each part of starting a game.
pub struct StartTrace {
    pub inserted: StateResources,
    pub reset: StateResources,
    pub sent_reset: Seq<OutgoingView>,
    pub deck_1: StateResources,
    pub sent_deck_1: Seq<OutgoingView>,
    pub r_deck_1: Result<(), GameError>,
    pub deck_2: StateResources,
    pub sent_deck_2: Seq<OutgoingView>,
    pub r_deck_2: Result<(), GameError>,
    pub prep_1: StateResources,
    pub sent_prep_1: Seq<OutgoingView>,
    pub r_prep_1: Result<(), GameError>,
    pub prep_2: StateResources,
    pub sent_prep_2: Seq<OutgoingView>,
    pub r_prep_2: Result<(), GameError>,
    pub lands: StateResources,
    pub sent_lands: Seq<OutgoingView>,
    pub r_lands: Result<(), GameError>,
}

/// A player's thaum set to nothing, and the message that says so.
pub open spec fn no_thaum(r: StateResources, p: PlayerId) -> StateResources {
    spec_with_player(r, p, Player { thaum: 0, ..spec_player(r, p) })
}

pub open spec fn no_thaum_message(p: PlayerId) -> OutgoingView {
    OutgoingView::Instruction(InstructionView::SetThaum { player_id: p, amount: 0 })
}

/// Starting a game from `data` (see `StateMachine::start_game`) leads from `pre` (queue
/// `gp`, messages `sp`) to `post` (queue `gq`, messages `sq`) through the states of `t`:
/// the fixed locations are put in and every location emptied; the sections `set1` and
/// `set2` are read; each player's deck is filled, then each player's thaum set to nothing
/// and deck prepared; the landscapes give their slots; five opening draws for each
/// player are queued; the round goes up and the current player's turn starts. The first
/// part that fails ends the start with its error.
#[verifier::opaque]
pub open spec fn spec_started(
    pre: StateResources,
    post: StateResources,
    gp: Seq<GroupView>,
    gq: Seq<GroupView>,
    sp: Seq<OutgoingView>,
    sq: Seq<OutgoingView>,
    data: Seq<char>,
    r: Result<(), GameError>,
    t: StartTrace,
) -> bool {
    &&& t.inserted.locs() == with_fixed_locations(pre.locs())
    &&& t.inserted.tokens() == pre.tokens()
    &&& t.inserted.same_frame(&pre)
    &&& spec_reset(t.inserted, t.reset, sp, t.sent_reset)
    &&& match (tag_read("set1"@, data), tag_read("set2"@, data)) {
        (Err(e), _) => (r matches Err(x) && x@ == e) && post == t.reset && sq == t.sent_reset && gq == gp,
        (Ok(_), Err(e)) => (r matches Err(x) && x@ == e) && post == t.reset && sq == t.sent_reset && gq == gp,
        (Ok(set1), Ok(set2)) => {
            &&& spec_populated(t.reset, t.deck_1, t.sent_reset, t.sent_deck_1, PlayerId::Player1, set1, t.r_deck_1)
            &&& if t.r_deck_1 is Err {
                r == t.r_deck_1 && post == t.deck_1 && sq == t.sent_deck_1 && gq == gp
            } else {
                &&& spec_populated(t.deck_1, t.deck_2, t.sent_deck_1, t.sent_deck_2, PlayerId::Player2, set2, t.r_deck_2)
                &&& if t.r_deck_2 is Err {
                    r == t.r_deck_2 && post == t.deck_2 && sq == t.sent_deck_2 && gq == gp
                } else {
                    &&& spec_prepared(
                        no_thaum(t.deck_2, PlayerId::Player1),
                        t.prep_1,
                        t.sent_deck_2.push(no_thaum_message(PlayerId::Player1)),
                        t.sent_prep_1,
                        PlayerId::Player1,
                        t.r_prep_1,
                    )
                    &&& if t.r_prep_1 is Err {
                        r == t.r_prep_1 && post == t.prep_1 && sq == t.sent_prep_1 && gq == gp
                    } else {
                        &&& spec_prepared(
                            no_thaum(t.prep_1, PlayerId::Player2),
                            t.prep_2,
                            t.sent_prep_1.push(no_thaum_message(PlayerId::Player2)),
                            t.sent_prep_2,
                            PlayerId::Player2,
                            t.r_prep_2,
                        )
                        &&& if t.r_prep_2 is Err {
                            r == t.r_prep_2 && post == t.prep_2 && sq == t.sent_prep_2 && gq == gp
                        } else {
                            &&& spec_landscapes_prepared(t.prep_2, t.lands, t.sent_prep_2, t.sent_lands, t.r_lands)
                            &&& if t.r_lands is Err {
                                r == t.r_lands && post == t.lands && sq == t.sent_lands && gq == gp
                            } else if t.lands.round == u32::MAX {
                                r == Err::<(), GameError>(GameError::InvalidState) && post == t.lands && sq == t.sent_lands
                                    && gq == opening_draws(5) + gp
                            } else {
                                let player = t.lands.current_turn;
                                spec_start_turn(
                                    StateResources { round: (t.lands.round + 1) as u32, ..t.lands },
                                    post,
                                    opening_draws(5) + gp,
                                    gq,
                                    t.sent_lands.push(OutgoingView::Instruction(InstructionView::PassTurn { player_id: player })),
                                    sq,
                                    r,
                                )
                            }
                        }
                    }
                }
            }
        },
    }
}

impl StateMachine {
    /// Starts a game from the client's data, which holds each player's deck as a
    /// comma-separated list of kind ids in the sections `set1` and `set2`: the fixed
    /// locations are made and emptied, both decks filled and prepared (hero, landscape,
    /// shuffle) with no thaum, the landscapes give the field slots, five draws for each
    /// player are queued, and the player whose turn it is starts the first turn (see
    /// `spec_started`).
    #[verifier::rlimit(60)]
    pub fn start_game(
        &mut self,
        data: &str,
        resources: &mut StateResources,
        communicator: &mut GameCommunicator,
    ) -> (r: Result<(), GameError>)
        requires
            old(resources).wf(),
        ensures
            kept_in(old(communicator).sent(), final(communicator).sent()),
            final(resources).wf(),
            final(resources).current_turn == old(resources).current_turn,
            spec_get_tag("set1"@, data@) is Err ==> r is Err,
            spec_get_tag("set2"@, data@) is Err ==> r is Err,
            r is Ok ==> {
                &&& final(resources).round == old(resources).round + 1
                &&& final(self).groups() == seq![spec_draw_group(old(resources).current_turn)] + opening_draws(5)
                    + old(self).groups()
            },
            exists|t: StartTrace|
                spec_started(
                    *old(resources),
                    *final(resources),
                    old(self).groups(),
                    final(self).groups(),
                    old(communicator).sent(),
                    final(communicator).sent(),
                    data@,
                    r,
                    t,
                ),
    {
        let ghost pre = *resources;
        let ghost sp = communicator.sent();
        let ghost gp = self.groups();
        proof {
            reveal(spec_started);
        }
        resources.insert_location(LocationStore::Collection(TokenCollection::new(LocationId(PLAYER_1_DECK))));
        resources.insert_location(LocationStore::Collection(TokenCollection::new(LocationId(PLAYER_1_HAND))));
        resources.insert_location(LocationStore::Collection(TokenCollection::new(LocationId(PLAYER_2_DECK))));
        resources.insert_location(LocationStore::Collection(TokenCollection::new(LocationId(PLAYER_2_HAND))));
        resources.insert_location(LocationStore::Slot(TokenSlot::new(LocationId(PLAYER_1_HERO))));
        resources.insert_location(LocationStore::Slot(TokenSlot::new(LocationId(PLAYER_2_HERO))));
        resources.insert_location(LocationStore::Slot(TokenSlot::new(LocationId(PLAYER_1_LANDSCAPE))));
        resources.insert_location(LocationStore::Slot(TokenSlot::new(LocationId(PLAYER_2_LANDSCAPE))));
        resources.insert_location(LocationStore::Collection(TokenCollection::new(LocationId(PLAYER_1_GRAVEYARD))));
        resources.insert_location(LocationStore::Collection(TokenCollection::new(LocationId(PLAYER_2_GRAVEYARD))));
        let ghost mut t = StartTrace {
            inserted: *resources,
            reset: *resources,
            sent_reset: sp,
            deck_1: *resources,
            sent_deck_1: sp,
            r_deck_1: Ok(()),
            deck_2: *resources,
            sent_deck_2: sp,
            r_deck_2: Ok(()),
            prep_1: *resources,
            sent_prep_1: sp,
            r_prep_1: Ok(()),
            prep_2: *resources,
            sent_prep_2: sp,
            r_prep_2: Ok(()),
            lands: *resources,
            sent_lands: sp,
            r_lands: Ok(()),
        };
        assert(t.inserted.locs() =~= with_fixed_locations(pre.locs()));
        match resources.reset_game(communicator) {
            Ok(()) => {},
            Err(e) => return Err(e),
        }
        proof {
            t.reset = *resources;
            t.sent_reset = communicator.sent();
            reveal_strlit("set1");
            reveal_strlit("set2");
        }
        let set_1 = match get_tag("set1", data) {
            Ok(s) => s,
            Err(e) => {
                assert(spec_started(pre, *resources, gp, self.groups(), sp, communicator.sent(), data@, Err(e), t));
                return Err(e);
            },
        };
        let set_2 = match get_tag("set2", data) {
            Ok(s) => s,
            Err(e) => {
                assert(spec_started(pre, *resources, gp, self.groups(), sp, communicator.sent(), data@, Err(e), t));
                return Err(e);
            },
        };
        let r1 = Player::populate_deck(PlayerId::Player1, set_1.as_str(), resources, communicator);
        proof {
            t.deck_1 = *resources;
            t.sent_deck_1 = communicator.sent();
            t.r_deck_1 = r1;
        }
        match r1 {
            Ok(()) => {},
            Err(e) => {
                assert(spec_started(pre, *resources, gp, self.groups(), sp, communicator.sent(), data@, Err(e), t));
                return Err(e);
            },
        }
        let r2 = Player::populate_deck(PlayerId::Player2, set_2.as_str(), resources, communicator);
        proof {
            t.deck_2 = *resources;
            t.sent_deck_2 = communicator.sent();
            t.r_deck_2 = r2;
        }
        match r2 {
            Ok(()) => {},
            Err(e) => {
                assert(spec_started(pre, *resources, gp, self.groups(), sp, communicator.sent(), data@, Err(e), t));
                return Err(e);
            },
        }
        Player::set_thaum(PlayerId::Player1, resources, 0, communicator);
        let r3 = Player::prepare_deck(PlayerId::Player1, resources, communicator);
        proof {
            t.prep_1 = *resources;
            t.sent_prep_1 = communicator.sent();
            t.r_prep_1 = r3;
        }
        match r3 {
            Ok(()) => {},
            Err(e) => {
                assert(spec_started(pre, *resources, gp, self.groups(), sp, communicator.sent(), data@, Err(e), t));
                return Err(e);
            },
        }
        Player::set_thaum(PlayerId::Player2, resources, 0, communicator);
        let r4 = Player::prepare_deck(PlayerId::Player2, resources, communicator);
        proof {
            t.prep_2 = *resources;
            t.sent_prep_2 = communicator.sent();
            t.r_prep_2 = r4;
        }
        match r4 {
            Ok(()) => {},
            Err(e) => {
                assert(spec_started(pre, *resources, gp, self.groups(), sp, communicator.sent(), data@, Err(e), t));
                return Err(e);
            },
        }
        let r5 = Board::prepare_landscapes(resources, communicator);
        proof {
            t.lands = *resources;
            t.sent_lands = communicator.sent();
            t.r_lands = r5;
        }
        match r5 {
            Ok(()) => {},
            Err(e) => {
                assert(spec_started(pre, *resources, gp, self.groups(), sp, communicator.sent(), data@, Err(e), t));
                return Err(e);
            },
        }
        let mut i: usize = 0;
        while i < 5
            invariant
                i <= 5,
                self.groups() == opening_draws(i as nat) + gp,
            decreases 5 - i,
        {
            self.draw_token(PlayerId::Player1);
            self.draw_token(PlayerId::Player2);
            proof {
                assert(opening_draws((i + 1) as nat) =~= seq![spec_draw_group(PlayerId::Player2), spec_draw_group(PlayerId::Player1)] + opening_draws(i as nat));
                assert(self.groups() =~= opening_draws((i + 1) as nat) + gp);
            }
            i = i + 1;
        }
        if resources.round == u32::MAX {
            assert(spec_started(pre, *resources, gp, self.groups(), sp, communicator.sent(), data@, Err(GameError::InvalidState), t));
            return Err(GameError::InvalidState);
        }
        let current = resources.current_turn;
        let r = resources.set_current_turn(current, self, communicator);
        proof {
            assert(seq![spec_draw_group(current)] + (opening_draws(5) + gp) =~= seq![spec_draw_group(current)] + opening_draws(5) + gp);
            assert(spec_started(pre, *resources, gp, self.groups(), sp, communicator.sent(), data@, r, t));
        }
        r
    }
}

} // verus!
