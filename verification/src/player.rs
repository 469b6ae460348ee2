//! A player: thaum to spend, and where the player's deck, hand, hero and landscape are.
use vstd::prelude::*;

use crate::game_communicator::{GameCommunicator, OutgoingView};
use crate::id_types::{LocationId, PlayerId, TokenInstanceId};
use crate::instruction::{InstructionToClient, InstructionView};
use crate::error::GameError;
use crate::id_types::spec_opponent;
use crate::locations::LocationView;
use crate::board::spec_side;
use crate::registry::TokenRegistry;
use crate::state_resources::Outcome;
use crate::token_data::TokenCategory;
use crate::state_resources::{
    spec_create_token, spec_kind_index, spec_move_token, spec_new_token, spec_player,
    spec_with_player, StateResources,
};
use crate::text::{spec_split, split_on};
use crate::token_instance::TokenInstanceView;

use crate::history::kept_in;

verus! {

pub struct Player {
    pub thaum: u32,
    pub id: PlayerId,
    pub deck: LocationId,
    pub hand: LocationId,
    pub hero: TokenInstanceId,
    pub landscape: TokenInstanceId,
}

/// What filling a player's deck from `data` (see `Player::populate_deck`) leads to, from
/// `pre` with messages `sp` to `post` with messages `sq`.
pub open spec fn spec_populated(
    pre: StateResources,
    post: StateResources,
    sp: Seq<OutgoingView>,
    sq: Seq<OutgoingView>,
    player_id: PlayerId,
    data: Seq<char>,
    r: Result<(), GameError>,
) -> bool {
    &&& post.same_frame(&pre)
    &&& {
        let deck = spec_player(pre, player_id).deck;
        let pieces = spec_split(data, ',');
        &&& !pre.locs().contains_key(deck) ==> {
            &&& r == Err::<(), GameError>(GameError::LocationNotFound(deck))
            &&& post.locs() == pre.locs()
            &&& post.tokens() == pre.tokens()
            &&& sq == sp
        }
        &&& r is Ok ==> exists|made: Seq<TokenInstanceId>|
            made.len() == pieces.len() && spec_deck_filled(
                pre,
                post,
                sp,
                sq,
                pieces,
                made,
                deck,
                player_id,
            )
        &&& (r is Err && pre.locs().contains_key(deck)) ==> exists|
            made: Seq<TokenInstanceId>,
            mid: StateResources,
            sent_mid: Seq<OutgoingView>,
            t: TokenInstanceId,
            cr: Result<TokenInstanceId, GameError>,
        |
            #![trigger spec_deck_filled(pre, mid, sp, sent_mid, pieces, made, deck, player_id), spec_create_token(mid, post, sent_mid, sq, cr, pieces[made.len() as int], t, deck, player_id)]
            made.len() < pieces.len() && spec_deck_filled(
                pre,
                mid,
                sp,
                sent_mid,
                pieces,
                made,
                deck,
                player_id,
            ) && spec_create_token(
                mid,
                post,
                sent_mid,
                sq,
                cr,
                pieces[made.len() as int],
                t,
                deck,
                player_id,
            ) && (cr matches Err(e) && r == Err::<(), GameError>(e))
        &&& (pre.locs().contains_key(deck) && !pre.locs()[deck].is_slot
            && forall|k: int| 0 <= k < pieces.len() ==> pre.registry.spec_has(#[trigger] pieces[k]))
            ==> r is Ok
    }
}

/// What preparing a player's deck (see `Player::prepare_deck`) leads to, from `pre` with
/// messages `sp` to `post` with messages `sq`.
pub open spec fn spec_prepared(
    pre: StateResources,
    post: StateResources,
    sp: Seq<OutgoingView>,
    sq: Seq<OutgoingView>,
    player_id: PlayerId,
    r: Result<(), GameError>,
) -> bool {
    &&& post.same_frame_but_players(&pre)
    &&& spec_player(post, spec_opponent(player_id)) == spec_player(pre, spec_opponent(player_id))
    &&& {
        let pre = pre;
        let post = post;
        let deck = spec_player(pre, player_id).deck;
        let side = spec_side(pre.board, player_id);
        if !pre.locs().contains_key(deck) {
            &&& r == Err::<(), GameError>(GameError::LocationNotFound(deck))
            &&& post.locs() == pre.locs()
            &&& post.tokens() == pre.tokens()
            &&& spec_player(post, player_id) == spec_player(pre, player_id)
            &&& sq == sp
        } else {
            let (o1, h) = spec_pick_and_place(pre.locs(), pre.tokens(), sp, pre.registry, deck, side.hero, true);
            if o1.result is Err {
                &&& r == o1.result
                &&& post.locs() == o1.locs
                &&& post.tokens() == o1.tokens
                &&& sq == o1.sent
                &&& spec_player(post, player_id) == spec_with_picks(spec_player(pre, player_id), h, None)
            } else {
                let (o2, l) = spec_pick_and_place(o1.locs, o1.tokens, o1.sent, pre.registry, deck, side.landscape, false);
                &&& spec_player(post, player_id) == spec_with_picks(spec_player(pre, player_id), h, l)
                &&& post.tokens() == o2.tokens
                &&& sq == o2.sent
                &&& r == o2.result
                &&& o2.result is Err ==> post.locs() == o2.locs
                &&& o2.result is Ok ==> {
                    &&& post.locs().dom() == o2.locs.dom()
                    &&& forall|k: LocationId| #[trigger] post.locs().contains_key(k) && k != deck ==> post.locs()[k] == o2.locs[k]
                    &&& post.locs()[deck].location_id == o2.locs[deck].location_id
                    &&& post.locs()[deck].is_slot == o2.locs[deck].is_slot
                    &&& post.locs()[deck].tokens.to_multiset() == o2.locs[deck].tokens.to_multiset()
                }
            }
        }
    }
}

impl Player {
    pub open spec fn spec_new(id: PlayerId, deck: LocationId, hand: LocationId) -> Player {
        Player { id, thaum: 0, deck, hand, hero: TokenInstanceId(0), landscape: TokenInstanceId(0) }
    }

    /// A player with no thaum, whose hero and landscape are not known yet.
    pub fn new(id: PlayerId, deck: LocationId, hand: LocationId) -> (r: Self)
        ensures
            r == Self::spec_new(id, deck, hand),
    {
        Self { id, thaum: 0, deck, hand, hero: TokenInstanceId(0), landscape: TokenInstanceId(0) }
    }

    /// Sets the player's thaum and tells the client.
    pub fn set_thaum(
        player_id: PlayerId,
        resources: &mut StateResources,
        thaum: u32,
        communicator: &mut GameCommunicator,
    )
        ensures
            *final(resources) == spec_with_player(
                *old(resources),
                player_id,
                Player { thaum, ..spec_player(*old(resources), player_id) },
            ),
            final(communicator).sent() == old(communicator).sent().push(
                OutgoingView::Instruction(InstructionView::SetThaum { player_id, amount: thaum }),
            ),
    {
        resources.get_player_mut(player_id).thaum = thaum;
        communicator.send_game_instruction(InstructionToClient::SetThaum { player_id, amount: thaum });
    }

    /// Takes `amount` from the player's thaum and tells the client what is left.
    pub fn spend_thaum(
        player_id: PlayerId,
        resources: &mut StateResources,
        amount: u32,
        communicator: &mut GameCommunicator,
    )
        requires
            spec_player(*old(resources), player_id).thaum >= amount,
        ensures
            ({
                let left = (spec_player(*old(resources), player_id).thaum - amount) as u32;
                &&& *final(resources) == spec_with_player(
                    *old(resources),
                    player_id,
                    Player { thaum: left, ..spec_player(*old(resources), player_id) },
                )
                &&& final(communicator).sent() == old(communicator).sent().push(
                    OutgoingView::Instruction(InstructionView::SetThaum { player_id, amount: left }),
                )
            }),
    {
        let p = resources.get_player_mut(player_id);
        p.thaum = p.thaum - amount;
        let thaum = resources.get_player(player_id).thaum;
        communicator.send_game_instruction(InstructionToClient::SetThaum { player_id, amount: thaum });
    }

    /// Makes one token in the player's deck for each comma-separated kind id in `data`,
    /// in order, each under a random instance id. A missing deck is refused before
    /// anything is made; otherwise the first token that cannot be made ends the filling.
    pub fn populate_deck(
        player_id: PlayerId,
        data: &str,
        resources: &mut StateResources,
        communicator: &mut GameCommunicator,
    ) -> (r: Result<(), GameError>)
        requires
            old(resources).wf(),
        ensures
            kept_in(old(communicator).sent(), final(communicator).sent()),
            final(resources).wf(),
            final(resources).same_frame(old(resources)),
            spec_populated(*old(resources), *final(resources), old(communicator).sent(), final(communicator).sent(), player_id, data@, r),
    {
        let deck = resources.get_player(player_id).deck;
        if resources.find_location(deck).is_none() {
            return Err(GameError::LocationNotFound(deck));
        }
        let pieces = split_on(data, ',');
        let ghost views = pieces@.map_values(|x: String| x@);
        let ghost made: Seq<TokenInstanceId> = Seq::empty();
        proof {
            assert(spec_made_tokens(resources.registry, views, made, deck, player_id) =~= Map::empty());
            assert(resources.tokens() =~= resources.tokens().union_prefer_right(Map::empty()));
            assert(resources.locs() =~= resources.locs().insert(deck, loc_after_add_all(resources.locs()[deck], made)));
            assert(communicator.sent() =~= communicator.sent() + spec_made_messages(resources.registry, views, made, deck, player_id));
        }
        let mut i: usize = 0;
        while i < pieces.len()
            invariant
                resources.wf(),
                resources.same_frame(old(resources)),
                deck == spec_player(*old(resources), player_id).deck,
                old(resources).locs().contains_key(deck),
                views == pieces@.map_values(|x: String| x@),
                views == spec_split(data@, ','),
                i <= pieces@.len(),
                made.len() == i,
                spec_deck_filled(
                    *old(resources),
                    *resources,
                    old(communicator).sent(),
                    communicator.sent(),
                    views,
                    made,
                    deck,
                    player_id,
                ),
            decreases pieces.len() - i,
        {
            let ghost pre = *resources;
            let ghost sent_pre = communicator.sent();
            let piece = pieces[i].as_str();
            assert(piece@ == views[i as int]);
            let res = resources.create_token(piece, deck, player_id, communicator);
            let ghost t = choose|t: TokenInstanceId|
                spec_create_token(pre, *resources, sent_pre, communicator.sent(), res, piece@, t, deck, player_id);
            match res {
                Ok(id) => {
                    proof {
                        let reg = old(resources).registry;
                        let nt = spec_new_token(reg, spec_kind_index(reg, views[i as int]), id, deck, player_id);
                        let made2 = made.push(id);
                        assert(made2.drop_last() =~= made);
                        assert(spec_made_tokens(reg, views, made2, deck, player_id) == spec_made_tokens(
                            reg,
                            views,
                            made,
                            deck,
                            player_id,
                        ).insert(id, nt));
                        assert(resources.tokens() =~= old(resources).tokens().union_prefer_right(
                            spec_made_tokens(reg, views, made2, deck, player_id),
                        ));
                        assert(resources.locs() =~= old(resources).locs().insert(
                            deck,
                            loc_after_add_all(old(resources).locs()[deck], made2),
                        ));
                        assert(communicator.sent() =~= old(communicator).sent() + spec_made_messages(
                            reg,
                            views,
                            made2,
                            deck,
                            player_id,
                        ));
                        made = made2;
                    }
                },
                Err(e) => {
                    assert(spec_deck_filled(*old(resources), pre, old(communicator).sent(), sent_pre, views, made, deck, player_id));
                    assert(spec_create_token(pre, *resources, sent_pre, communicator.sent(), res, views[made.len() as int], t, deck, player_id));
                    return Err(e);
                },
            }
            i = i + 1;
        }
        Ok(())
    }

    /// The player draws the first token of their deck into their hand; with an empty deck
    /// the other player wins and the client is told so.
    pub fn draw_card(
        player_id: PlayerId,
        resources: &mut StateResources,
        communicator: &mut GameCommunicator,
    ) -> (r: Result<(), GameError>)
        requires
            old(resources).wf(),
            old(resources).locs().contains_key(spec_player(*old(resources), player_id).deck),
        ensures
            final(resources).wf(),
            final(resources).same_frame(old(resources)),
            ({
                let deck = spec_player(*old(resources), player_id).deck;
                let hand = spec_player(*old(resources), player_id).hand;
                let ts = old(resources).locs()[deck].tokens;
                if ts.len() == 0 {
                    let winner = spec_opponent(player_id);
                    &&& r == Err::<(), GameError>(GameError::DeckEmpty { winner })
                    &&& final(resources).locs() == old(resources).locs()
                    &&& final(resources).tokens() == old(resources).tokens()
                    &&& final(communicator).sent() == old(communicator).sent().push(
                        OutgoingView::Instruction(InstructionView::EndGame { winner }),
                    )
                } else {
                    let o = spec_move_token(
                        old(resources).locs(),
                        old(resources).tokens(),
                        old(communicator).sent(),
                        ts[0],
                        hand,
                        None,
                    );
                    &&& r == o.result
                    &&& final(resources).locs() == o.locs
                    &&& final(resources).tokens() == o.tokens
                    &&& final(communicator).sent() == o.sent
                }
            }),
    {
        let deck = resources.get_player(player_id).deck;
        let hand = resources.get_player(player_id).hand;
        let di = resources.find_location(deck).unwrap();
        match resources.locations[di].get_token() {
            None => {
                let winner = player_id.opponent();
                communicator.send_game_instruction(InstructionToClient::EndGame { winner });
                Err(GameError::DeckEmpty { winner })
            },
            Some(t) => resources.move_token(t, hand, None, communicator),
        }
    }
}

/// A location with `made` put in, in order.
pub open spec fn loc_after_add_all(v: LocationView, made: Seq<TokenInstanceId>) -> LocationView {
    LocationView { tokens: v.tokens + made, ..v }
}

/// The two messages that tell the client of a new token and its behaviors.
pub open spec fn create_messages(nt: TokenInstanceView, location: LocationId, owner: PlayerId) -> Seq<OutgoingView> {
    seq![
        OutgoingView::Instruction(
            InstructionView::CreateToken {
                token_data: nt,
                instance_id: nt.instance_id,
                location_id: location,
                player_id: owner,
            },
        ),
        OutgoingView::Instruction(InstructionView::UpdateBehaviors { token_data: nt }),
    ]
}

/// The tokens made in a deck, one for each of the first pieces, under the ids in `made`.
pub open spec fn spec_made_tokens(
    reg: TokenRegistry,
    pieces: Seq<Seq<char>>,
    made: Seq<TokenInstanceId>,
    deck: LocationId,
    owner: PlayerId,
) -> Map<TokenInstanceId, TokenInstanceView>
    decreases made.len(),
{
    if made.len() == 0 {
        Map::empty()
    } else {
        let k = made.len() - 1;
        spec_made_tokens(reg, pieces, made.drop_last(), deck, owner).insert(
            made[k],
            spec_new_token(reg, spec_kind_index(reg, pieces[k]), made[k], deck, owner),
        )
    }
}

/// What the client is told while those tokens are made.
pub open spec fn spec_made_messages(
    reg: TokenRegistry,
    pieces: Seq<Seq<char>>,
    made: Seq<TokenInstanceId>,
    deck: LocationId,
    owner: PlayerId,
) -> Seq<OutgoingView>
    decreases made.len(),
{
    if made.len() == 0 {
        Seq::empty()
    } else {
        let k = made.len() - 1;
        spec_made_messages(reg, pieces, made.drop_last(), deck, owner) + create_messages(
            spec_new_token(reg, spec_kind_index(reg, pieces[k]), made[k], deck, owner),
            deck,
            owner,
        )
    }
}

/// `post` is `pre` with one token made in the deck for each of the first `made.len()`
/// pieces, in order, under the ids in `made`: each piece names a kind, the tokens are in
/// play and last in the deck, and the client was told of each.
pub open spec fn spec_deck_filled(
    pre: StateResources,
    post: StateResources,
    sent_pre: Seq<OutgoingView>,
    sent_post: Seq<OutgoingView>,
    pieces: Seq<Seq<char>>,
    made: Seq<TokenInstanceId>,
    deck: LocationId,
    owner: PlayerId,
) -> bool {
    &&& forall|k: int| 0 <= k < made.len() ==> pre.registry.spec_has(#[trigger] pieces[k])
    &&& post.tokens() == pre.tokens().union_prefer_right(
        spec_made_tokens(pre.registry, pieces, made, deck, owner),
    )
    &&& post.locs() == pre.locs().insert(deck, loc_after_add_all(pre.locs()[deck], made))
    &&& sent_post == sent_pre + spec_made_messages(pre.registry, pieces, made, deck, owner)
}

/// The ids of `s` that `p` holds of, in order.
pub open spec fn keep_where(s: Seq<TokenInstanceId>, p: spec_fn(TokenInstanceId) -> bool) -> Seq<TokenInstanceId>
    decreases s.len(),
{
    if s.len() == 0 {
        Seq::empty()
    } else {
        keep_where(s.drop_last(), p) + if p(s.last()) {
            seq![s.last()]
        } else {
            Seq::empty()
        }
    }
}

/// Whether the token is in play and of the hero kind (or, when `hero` is false, the
/// landscape kind).
pub open spec fn of_kind(
    reg: TokenRegistry,
    tokens: Map<TokenInstanceId, TokenInstanceView>,
    hero: bool,
) -> spec_fn(TokenInstanceId) -> bool {
    |t: TokenInstanceId|
        tokens.contains_key(t) && if hero {
            reg.tokens@[tokens[t].data_index as int].token_category is Hero
        } else {
            reg.tokens@[tokens[t].data_index as int].token_category is Landscape
        }
}

/// Finding the one hero (or landscape) in the deck and moving it to `place`: what it leads
/// to, and which token was picked.
pub open spec fn spec_pick_and_place(
    locs: Map<LocationId, LocationView>,
    tokens: Map<TokenInstanceId, TokenInstanceView>,
    sent: Seq<OutgoingView>,
    reg: TokenRegistry,
    deck: LocationId,
    place: LocationId,
    hero: bool,
) -> (Outcome, Option<TokenInstanceId>) {
    let found = keep_where(locs[deck].tokens, of_kind(reg, tokens, hero));
    if found.len() == 0 {
        let e = if hero { GameError::NoHeroInDeck } else { GameError::NoLandscapeInDeck };
        (Outcome { result: Err(e), locs, tokens, sent }, None)
    } else if found.len() > 1 {
        let e = if hero { GameError::SeveralHeroesInDeck } else { GameError::SeveralLandscapesInDeck };
        (Outcome { result: Err(e), locs, tokens, sent }, None)
    } else {
        (spec_move_token(locs, tokens, sent, found[0], place, None), Some(found[0]))
    }
}

/// The player as it is once its hero (and landscape) may have been picked.
pub open spec fn spec_with_picks(p: Player, hero: Option<TokenInstanceId>, landscape: Option<TokenInstanceId>) -> Player {
    Player {
        hero: match hero {
            Some(h) => h,
            None => p.hero,
        },
        landscape: match landscape {
            Some(l) => l,
            None => p.landscape,
        },
        ..p
    }
}

impl StateResources {
    /// The ids of `ids` whose tokens are in play and of the hero kind (or the landscape
    /// kind), in order.
    pub fn tokens_of_kind(&self, ids: &Vec<TokenInstanceId>, hero: bool) -> (r: Vec<TokenInstanceId>)
        requires
            self.wf(),
        ensures
            r@ == keep_where(ids@, of_kind(self.registry, self.tokens(), hero)),
    {
        let ghost p = of_kind(self.registry, self.tokens(), hero);
        let mut r: Vec<TokenInstanceId> = Vec::new();
        let mut i: usize = 0;
        while i < ids.len()
            invariant
                self.wf(),
                p == of_kind(self.registry, self.tokens(), hero),
                i <= ids@.len(),
                r@ == keep_where(ids@.take(i as int), p),
            decreases ids.len() - i,
        {
            let t = ids[i];
            let keep = match self.find_token(t) {
                None => false,
                Some(ti) => {
                    let kind = self.token_instances[ti].data_index;
                    if hero {
                        match self.registry.tokens[kind].token_category {
                            TokenCategory::Hero { .. } => true,
                            _ => false,
                        }
                    } else {
                        match self.registry.tokens[kind].token_category {
                            TokenCategory::Landscape { .. } => true,
                            _ => false,
                        }
                    }
                },
            };
            assert(keep == p(t));
            if keep {
                r.push(t);
            }
            assert(ids@.take(i + 1).drop_last() =~= ids@.take(i as int));
            assert(ids@.take(i + 1).last() == t);
            i = i + 1;
        }
        assert(ids@.take(ids.len() as int) =~= ids@);
        r
    }
}

impl Player {
    /// Finds the one hero and the one landscape in the player's deck, puts them in the
    /// player's hero and landscape slots, and shuffles the deck.
    pub fn prepare_deck(
        player_id: PlayerId,
        resources: &mut StateResources,
        communicator: &mut GameCommunicator,
    ) -> (r: Result<(), GameError>)
        requires
            old(resources).wf(),
        ensures
            kept_in(old(communicator).sent(), final(communicator).sent()),
            final(resources).wf(),
            spec_prepared(*old(resources), *final(resources), old(communicator).sent(), final(communicator).sent(), player_id, r),
    {
        let deck = resources.get_player(player_id).deck;
        let di = match resources.find_location(deck) {
            None => return Err(GameError::LocationNotFound(deck)),
            Some(i) => i,
        };
        let deck_tokens = resources.locations[di].get_tokens();
        let heroes = resources.tokens_of_kind(&deck_tokens, true);
        if heroes.len() == 0 {
            return Err(GameError::NoHeroInDeck);
        }
        if heroes.len() > 1 {
            return Err(GameError::SeveralHeroesInDeck);
        }
        let hero = heroes[0];
        resources.get_player_mut(player_id).hero = hero;
        let hero_location = resources.board.get_side(player_id).hero;
        match resources.move_token(hero, hero_location, None, communicator) {
            Ok(()) => {},
            Err(e) => return Err(e),
        }
        let di = resources.find_location(deck).unwrap();
        let deck_tokens = resources.locations[di].get_tokens();
        let landscapes = resources.tokens_of_kind(&deck_tokens, false);
        if landscapes.len() == 0 {
            return Err(GameError::NoLandscapeInDeck);
        }
        if landscapes.len() > 1 {
            return Err(GameError::SeveralLandscapesInDeck);
        }
        let landscape = landscapes[0];
        resources.get_player_mut(player_id).landscape = landscape;
        let landscape_location = resources.board.get_side(player_id).landscape;
        match resources.move_token(landscape, landscape_location, None, communicator) {
            Ok(()) => {},
            Err(e) => return Err(e),
        }
        let di = resources.find_location(deck).unwrap();
        resources.shuffle_location(di);
        Ok(())
    }
}

} // verus!
