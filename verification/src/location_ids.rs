//! The fixed location ids of a game and what kind of place each id names.
use vstd::prelude::*;

use crate::id_types::{LocationId, PlayerId};

verus! {

/// The numbers of the fixed location ids.
pub const PLAYER_1_DECK: u64 = 100;
pub const PLAYER_1_HAND: u64 = 101;
pub const PLAYER_1_HERO: u64 = 102;
pub const PLAYER_1_LANDSCAPE: u64 = 103;
pub const PLAYER_1_GRAVEYARD: u64 = 104;
pub const PLAYER_2_DECK: u64 = 200;
pub const PLAYER_2_HAND: u64 = 201;
pub const PLAYER_2_HERO: u64 = 202;
pub const PLAYER_2_LANDSCAPE: u64 = 203;
pub const PLAYER_2_GRAVEYARD: u64 = 204;

/// First id of the first player's field slots; the second player's start at 2000.
pub const PLAYER_1_FIELD_BASE: u64 = 1000;
pub const PLAYER_2_FIELD_BASE: u64 = 2000;

/// The deck of a player. The index is not used: each player has one deck.
pub fn player_deck_location_id(player: PlayerId, index: u64) -> (r: LocationId)
    ensures
        r == (if player == PlayerId::Player1 {
            LocationId(PLAYER_1_DECK)
        } else {
            LocationId(PLAYER_2_DECK)
        }),
{
    if player == PlayerId::Player1 {
        LocationId(PLAYER_1_DECK)
    } else {
        LocationId(PLAYER_2_DECK)
    }
}

/// The hand of a player. The index is not used: each player has one hand.
pub fn player_hand_location_id(player: PlayerId, index: u64) -> (r: LocationId)
    ensures
        r == (if player == PlayerId::Player1 {
            LocationId(PLAYER_1_HAND)
        } else {
            LocationId(PLAYER_2_HAND)
        }),
{
    if player == PlayerId::Player1 {
        LocationId(PLAYER_1_HAND)
    } else {
        LocationId(PLAYER_2_HAND)
    }
}

pub open spec fn spec_hero_location(player: PlayerId) -> LocationId {
    if player == PlayerId::Player1 {
        LocationId(PLAYER_1_HERO)
    } else {
        LocationId(PLAYER_2_HERO)
    }
}

pub open spec fn spec_landscape_location(player: PlayerId) -> LocationId {
    if player == PlayerId::Player1 {
        LocationId(PLAYER_1_LANDSCAPE)
    } else {
        LocationId(PLAYER_2_LANDSCAPE)
    }
}

pub open spec fn spec_graveyard_location(player: PlayerId) -> LocationId {
    if player == PlayerId::Player1 {
        LocationId(PLAYER_1_GRAVEYARD)
    } else {
        LocationId(PLAYER_2_GRAVEYARD)
    }
}

pub open spec fn spec_field_location(player: PlayerId, index: int) -> LocationId {
    LocationId(
        (if player == PlayerId::Player1 {
            PLAYER_1_FIELD_BASE
        } else {
            PLAYER_2_FIELD_BASE
        } + index) as u64,
    )
}

/// The hero slot of a player.
pub fn player_hero_location_id(player: PlayerId) -> (r: LocationId)
    ensures
        r == spec_hero_location(player),
{
    if player == PlayerId::Player1 {
        LocationId(PLAYER_1_HERO)
    } else {
        LocationId(PLAYER_2_HERO)
    }
}

/// The landscape slot of a player.
pub fn player_landscape_location_id(player: PlayerId) -> (r: LocationId)
    ensures
        r == spec_landscape_location(player),
{
    if player == PlayerId::Player1 {
        LocationId(PLAYER_1_LANDSCAPE)
    } else {
        LocationId(PLAYER_2_LANDSCAPE)
    }
}

/// The graveyard of a player.
pub fn player_graveyard_location_id(player: PlayerId) -> (r: LocationId)
    ensures
        r == spec_graveyard_location(player),
{
    if player == PlayerId::Player1 {
        LocationId(PLAYER_1_GRAVEYARD)
    } else {
        LocationId(PLAYER_2_GRAVEYARD)
    }
}

/// The field slot with the given index of a player: 1000 + index for the first player,
/// 2000 + index for the second.
pub fn player_field_location_id(player: PlayerId, index: u64) -> (r: LocationId)
    requires
        index <= u64::MAX - PLAYER_2_FIELD_BASE,
    ensures
        r == spec_field_location(player, index as int),
{
    LocationId(
        if player == PlayerId::Player1 {
            PLAYER_1_FIELD_BASE
        } else {
            PLAYER_2_FIELD_BASE
        } + index,
    )
}

/// The kind of place a location id names.
#[derive(Clone, Copy, PartialEq, Eq, Structural, Hash, Debug)]
pub enum LocationIdentity {
    Player1Deck,
    Player1Hand,
    Player1Hero,
    Player1Landscape,
    Player1Graveyard,
    Player1Field,
    Player2Deck,
    Player2Hand,
    Player2Hero,
    Player2Landscape,
    Player2Graveyard,
    Player2Field,
}

pub open spec fn spec_is_field(l: LocationIdentity) -> bool {
    l == LocationIdentity::Player1Field || l == LocationIdentity::Player2Field
}

pub open spec fn spec_is_field_of(l: LocationIdentity, player: PlayerId) -> bool {
    match player {
        PlayerId::Player1 => l == LocationIdentity::Player1Field,
        PlayerId::Player2 => l == LocationIdentity::Player2Field,
    }
}

impl LocationIdentity {
    /// Whether the location is a field slot of either player.
    pub fn is_field(&self) -> (r: bool)
        ensures
            r == spec_is_field(*self),
    {
        match self {
            LocationIdentity::Player1Field | LocationIdentity::Player2Field => true,
            _ => false,
        }
    }

    /// Whether the location is a field slot of the given player.
    pub fn is_field_of(&self, player: PlayerId) -> (r: bool)
        ensures
            r == spec_is_field_of(*self, player),
    {
        match player {
            PlayerId::Player1 => *self == LocationIdentity::Player1Field,
            PlayerId::Player2 => *self == LocationIdentity::Player2Field,
        }
    }
}

/// A field slot of a player is a field slot.
pub proof fn lemma_field_of_is_field(l: LocationIdentity, player: PlayerId)
    requires
        spec_is_field_of(l, player),
    ensures
        spec_is_field(l),
{
}

/// What kind of place a location id names, if any.
pub open spec fn spec_identify_location(id: LocationId) -> Option<LocationIdentity> {
    let v = id.0;
    if v == 101 {
        Some(LocationIdentity::Player1Hand)
    } else if v == 100 {
        Some(LocationIdentity::Player1Deck)
    } else if v == 102 {
        Some(LocationIdentity::Player1Hero)
    } else if v == 103 {
        Some(LocationIdentity::Player1Landscape)
    } else if v == 104 {
        Some(LocationIdentity::Player1Graveyard)
    } else if v == 201 {
        Some(LocationIdentity::Player2Hand)
    } else if v == 200 {
        Some(LocationIdentity::Player2Deck)
    } else if v == 202 {
        Some(LocationIdentity::Player2Hero)
    } else if v == 203 {
        Some(LocationIdentity::Player2Landscape)
    } else if v == 204 {
        Some(LocationIdentity::Player2Graveyard)
    } else if 1000 <= v < 2000 {
        Some(LocationIdentity::Player1Field)
    } else if 2000 <= v < 3000 {
        Some(LocationIdentity::Player2Field)
    } else {
        None
    }
}

/// A location id that names no kind of place.
#[derive(Clone, Copy, PartialEq, Eq, Structural, Debug)]
pub struct UnknownLocation(pub u64);

/// Tells what kind of place a location id names; fails for an id outside every range.
pub fn identify_location(location_id: LocationId) -> (r: Result<LocationIdentity, UnknownLocation>)
    ensures
        r == (match spec_identify_location(location_id) {
            Some(l) => Ok(l),
            None => Err(UnknownLocation(location_id.0)),
        }),
{
    let v = location_id.0;
    if v == 101 {
        Ok(LocationIdentity::Player1Hand)
    } else if v == 100 {
        Ok(LocationIdentity::Player1Deck)
    } else if v == 102 {
        Ok(LocationIdentity::Player1Hero)
    } else if v == 103 {
        Ok(LocationIdentity::Player1Landscape)
    } else if v == 104 {
        Ok(LocationIdentity::Player1Graveyard)
    } else if v == 201 {
        Ok(LocationIdentity::Player2Hand)
    } else if v == 200 {
        Ok(LocationIdentity::Player2Deck)
    } else if v == 202 {
        Ok(LocationIdentity::Player2Hero)
    } else if v == 203 {
        Ok(LocationIdentity::Player2Landscape)
    } else if v == 204 {
        Ok(LocationIdentity::Player2Graveyard)
    } else if v >= 1000 && v < 2000 {
        Ok(LocationIdentity::Player1Field)
    } else if v >= 2000 && v < 3000 {
        Ok(LocationIdentity::Player2Field)
    } else {
        Err(UnknownLocation(v))
    }
}

/// Every field slot id a player gets from `player_field_location_id` with an index
/// below 1000 is identified as a field slot of that player.
pub proof fn lemma_field_location_identified(player: PlayerId, index: int)
    requires
        0 <= index < 1000,
    ensures
        spec_identify_location(spec_field_location(player, index)) == Some(
            if player == PlayerId::Player1 {
                LocationIdentity::Player1Field
            } else {
                LocationIdentity::Player2Field
            },
        ),
{
}

} // verus!
