//! Identifiers of players, locations, tokens and prompts.
use vstd::prelude::*;

use crate::text::{decimal, parse_u64, spec_parse_u64, u64_to_decimal, IntParseError};

verus! {

/// An identifier the server hands out for something that exists during a game.
pub type ServerInstanceId = u64;

/// Identifies a place where tokens can be (a deck, a hand, a field slot, ...).
#[derive(Clone, Copy, PartialEq, Eq, Structural, Hash, Debug)]
pub struct LocationId(pub ServerInstanceId);

/// Identifies a card during a game.
#[derive(Clone, Copy, PartialEq, Eq, Structural, Hash, Debug)]
pub struct CardInstanceId(pub ServerInstanceId);

/// Identifies a token during a game.
#[derive(Clone, Copy, PartialEq, Eq, Structural, Hash, Debug)]
pub struct TokenInstanceId(pub ServerInstanceId);

/// Identifies a prompt shown to a player.
#[derive(Clone, Copy, PartialEq, Eq, Structural, Hash, Debug)]
pub struct PromptInstanceId(pub ServerInstanceId);

/// One of the two players.
#[derive(Clone, Copy, PartialEq, Eq, Structural, Hash, Debug)]
pub enum PlayerId {
    Player1,
    Player2,
}

pub open spec fn spec_opponent(p: PlayerId) -> PlayerId {
    match p {
        PlayerId::Player1 => PlayerId::Player2,
        PlayerId::Player2 => PlayerId::Player1,
    }
}

/// The number a player has on the wire.
pub open spec fn spec_player_number(p: PlayerId) -> u32 {
    match p {
        PlayerId::Player1 => 0,
        PlayerId::Player2 => 1,
    }
}

impl PlayerId {
    /// The other player.
    pub fn opponent(&self) -> (r: PlayerId)
        ensures
            r == spec_opponent(*self),
            r != *self,
    {
        match self {
            PlayerId::Player1 => PlayerId::Player2,
            PlayerId::Player2 => PlayerId::Player1,
        }
    }

    /// The player's number: 0 for the first player, 1 for the second.
    pub fn number(&self) -> (r: u32)
        ensures
            r == spec_player_number(*self),
    {
        match self {
            PlayerId::Player1 => 0,
            PlayerId::Player2 => 1,
        }
    }

    /// The player's name as shown to people.
    pub fn to_string(&self) -> (s: String)
        ensures
            s@ == (match *self {
                PlayerId::Player1 => "Player 1"@,
                PlayerId::Player2 => "Player 2"@,
            }),
    {
        match self {
            PlayerId::Player1 => String::from_str("Player 1"),
            PlayerId::Player2 => String::from_str("Player 2"),
        }
    }
}

/// Taking the opponent twice gives the player back.
pub proof fn lemma_opponent_involution(p: PlayerId)
    ensures
        spec_opponent(spec_opponent(p)) == p,
        spec_opponent(p) != p,
{
}

impl LocationId {
    /// Parses a location id from its decimal form.
    pub fn from_str(s: &str) -> (r: Result<LocationId, IntParseError>)
        ensures
            r == (match spec_parse_u64(s@) {
                Ok(v) => Ok(LocationId(v)),
                Err(e) => Err(e),
            }),
    {
        match parse_u64(s) {
            Ok(v) => Ok(LocationId(v)),
            Err(e) => Err(e),
        }
    }

    /// The decimal form of the id.
    pub fn to_string(&self) -> (s: String)
        ensures
            s@ == decimal(self.0 as nat),
    {
        u64_to_decimal(self.0)
    }
}

impl CardInstanceId {
    /// Parses a card instance id from its decimal form.
    pub fn from_str(s: &str) -> (r: Result<CardInstanceId, IntParseError>)
        ensures
            r == (match spec_parse_u64(s@) {
                Ok(v) => Ok(CardInstanceId(v)),
                Err(e) => Err(e),
            }),
    {
        match parse_u64(s) {
            Ok(v) => Ok(CardInstanceId(v)),
            Err(e) => Err(e),
        }
    }

    /// The decimal form of the id.
    pub fn to_string(&self) -> (s: String)
        ensures
            s@ == decimal(self.0 as nat),
    {
        u64_to_decimal(self.0)
    }
}

impl TokenInstanceId {
    /// Parses a token instance id from its decimal form.
    pub fn from_str(s: &str) -> (r: Result<TokenInstanceId, IntParseError>)
        ensures
            r == (match spec_parse_u64(s@) {
                Ok(v) => Ok(TokenInstanceId(v)),
                Err(e) => Err(e),
            }),
    {
        match parse_u64(s) {
            Ok(v) => Ok(TokenInstanceId(v)),
            Err(e) => Err(e),
        }
    }

    /// The decimal form of the id.
    pub fn to_string(&self) -> (s: String)
        ensures
            s@ == decimal(self.0 as nat),
    {
        u64_to_decimal(self.0)
    }
}

impl PromptInstanceId {
    /// Parses a prompt instance id from its decimal form.
    pub fn from_str(s: &str) -> (r: Result<PromptInstanceId, IntParseError>)
        ensures
            r == (match spec_parse_u64(s@) {
                Ok(v) => Ok(PromptInstanceId(v)),
                Err(e) => Err(e),
            }),
    {
        match parse_u64(s) {
            Ok(v) => Ok(PromptInstanceId(v)),
            Err(e) => Err(e),
        }
    }

    /// The decimal form of the id.
    pub fn to_string(&self) -> (s: String)
        ensures
            s@ == decimal(self.0 as nat),
    {
        u64_to_decimal(self.0)
    }
}

} // verus!
