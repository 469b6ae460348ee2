//! Why a step of the game could not be taken.
use vstd::prelude::*;

use crate::game_context::ContextValueKind;
use crate::id_types::{LocationId, PlayerId, TokenInstanceId};
use crate::text::{decimal, push_decimal, push_str, IntParseError};

verus! {

/// Why a step of the game could not be taken.
#[derive(Clone, PartialEq, Eq, Debug)]
pub enum GameError {
    /// No token in play has this id.
    TokenNotFound(TokenInstanceId),
    /// No location of the game has this id.
    LocationNotFound(LocationId),
    /// The slot already holds a token.
    SlotOccupied(LocationId),
    /// The id names no kind of place.
    UnknownLocation(u64),
    /// No kind of token has this id.
    UnknownTokenKind(String),
    /// A hero was destroyed: the game is over and the other player won.
    HeroDestroyed { winner: PlayerId },
    /// A player had to draw from an empty deck: the game is over and the other player won.
    DeckEmpty { winner: PlayerId },
    NoHeroInDeck,
    SeveralHeroesInDeck,
    NoLandscapeInDeck,
    SeveralLandscapesInDeck,
    /// The landscape slot of the player holds no token.
    NoLandscape(PlayerId),
    /// The token in the landscape slot is not a landscape.
    NotALandscape(PlayerId),
    /// The player's hero is not in play.
    HeroNotFound(PlayerId),
    /// The location is no field slot.
    NotAFieldSlot(LocationId),
    /// The location is no equipment slot.
    NotAnEquipmentSlot(LocationId),
    MissingContextKey(String),
    WrongContextKind(ContextValueKind),
    /// A message lacks the opening of a tag.
    TagNotFound(String),
    /// A message lacks the closing of a tag.
    ClosingTagNotFound(String),
    /// A tag closes before it opens.
    TagOutOfOrder(String),
    InvalidNumber(IntParseError),
    InvalidBool,
    /// No prompt has this id.
    PromptNotFound(u64),
    /// The client sent an instruction the game does not know.
    UnknownInstruction(String),
    /// A step of a happening says neither what it is about nor whose it is.
    UnknownSubject,
    /// A behavior asks for something the game does not do yet.
    Unimplemented,
    /// The step needs a state of the game that the game is not in.
    InvalidState,
}

/// Why a step could not be taken, as a value.
pub enum GameErrorView {
    TokenNotFound(TokenInstanceId),
    LocationNotFound(LocationId),
    SlotOccupied(LocationId),
    UnknownLocation(u64),
    UnknownTokenKind(Seq<char>),
    HeroDestroyed { winner: PlayerId },
    DeckEmpty { winner: PlayerId },
    NoHeroInDeck,
    SeveralHeroesInDeck,
    NoLandscapeInDeck,
    SeveralLandscapesInDeck,
    NoLandscape(PlayerId),
    NotALandscape(PlayerId),
    HeroNotFound(PlayerId),
    NotAFieldSlot(LocationId),
    NotAnEquipmentSlot(LocationId),
    MissingContextKey(Seq<char>),
    WrongContextKind(ContextValueKind),
    TagNotFound(Seq<char>),
    ClosingTagNotFound(Seq<char>),
    TagOutOfOrder(Seq<char>),
    InvalidNumber(IntParseError),
    InvalidBool,
    PromptNotFound(u64),
    UnknownInstruction(Seq<char>),
    UnknownSubject,
    Unimplemented,
    InvalidState,
}

impl View for GameError {
    type V = GameErrorView;

    open spec fn view(&self) -> GameErrorView {
        match self {
            GameError::TokenNotFound(t) => GameErrorView::TokenNotFound(*t),
            GameError::LocationNotFound(l) => GameErrorView::LocationNotFound(*l),
            GameError::SlotOccupied(l) => GameErrorView::SlotOccupied(*l),
            GameError::UnknownLocation(v) => GameErrorView::UnknownLocation(*v),
            GameError::UnknownTokenKind(s) => GameErrorView::UnknownTokenKind(s@),
            GameError::HeroDestroyed { winner } => GameErrorView::HeroDestroyed { winner: *winner },
            GameError::DeckEmpty { winner } => GameErrorView::DeckEmpty { winner: *winner },
            GameError::NoHeroInDeck => GameErrorView::NoHeroInDeck,
            GameError::SeveralHeroesInDeck => GameErrorView::SeveralHeroesInDeck,
            GameError::NoLandscapeInDeck => GameErrorView::NoLandscapeInDeck,
            GameError::SeveralLandscapesInDeck => GameErrorView::SeveralLandscapesInDeck,
            GameError::NoLandscape(p) => GameErrorView::NoLandscape(*p),
            GameError::NotALandscape(p) => GameErrorView::NotALandscape(*p),
            GameError::HeroNotFound(p) => GameErrorView::HeroNotFound(*p),
            GameError::NotAFieldSlot(l) => GameErrorView::NotAFieldSlot(*l),
            GameError::NotAnEquipmentSlot(l) => GameErrorView::NotAnEquipmentSlot(*l),
            GameError::MissingContextKey(s) => GameErrorView::MissingContextKey(s@),
            GameError::WrongContextKind(k) => GameErrorView::WrongContextKind(*k),
            GameError::TagNotFound(s) => GameErrorView::TagNotFound(s@),
            GameError::ClosingTagNotFound(s) => GameErrorView::ClosingTagNotFound(s@),
            GameError::TagOutOfOrder(s) => GameErrorView::TagOutOfOrder(s@),
            GameError::InvalidNumber(e) => GameErrorView::InvalidNumber(*e),
            GameError::InvalidBool => GameErrorView::InvalidBool,
            GameError::PromptNotFound(v) => GameErrorView::PromptNotFound(*v),
            GameError::UnknownInstruction(s) => GameErrorView::UnknownInstruction(s@),
            GameError::UnknownSubject => GameErrorView::UnknownSubject,
            GameError::Unimplemented => GameErrorView::Unimplemented,
            GameError::InvalidState => GameErrorView::InvalidState,
        }
    }
}

/// A result with its error taken as a value.
pub open spec fn res_view<T>(r: Result<T, GameError>) -> Result<T, GameErrorView> {
    match r {
        Ok(v) => Ok(v),
        Err(e) => Err(e@),
    }
}

/// The name a kind of context value goes by in messages.
pub open spec fn kind_name(k: ContextValueKind) -> Seq<char> {
    match k {
        ContextValueKind::String => "String"@,
        ContextValueKind::U64 => "u64"@,
        ContextValueKind::I64 => "i64"@,
        ContextValueKind::Bool => "bool"@,
        ContextValueKind::TokenInstanceId => "TokenInstanceId"@,
        ContextValueKind::LocationId => "LocationId"@,
        ContextValueKind::PlayerId => "PlayerId"@,
    }
}

fn kind_name_exec(k: ContextValueKind) -> (r: &'static str)
    ensures
        r@ == kind_name(k),
{
    proof {
        reveal_strlit("String");
        reveal_strlit("u64");
        reveal_strlit("i64");
        reveal_strlit("bool");
        reveal_strlit("TokenInstanceId");
        reveal_strlit("LocationId");
        reveal_strlit("PlayerId");
    }
    match k {
        ContextValueKind::String => "String",
        ContextValueKind::U64 => "u64",
        ContextValueKind::I64 => "i64",
        ContextValueKind::Bool => "bool",
        ContextValueKind::TokenInstanceId => "TokenInstanceId",
        ContextValueKind::LocationId => "LocationId",
        ContextValueKind::PlayerId => "PlayerId",
    }
}

/// How a failed integer reading is told, as the standard library tells it.
pub open spec fn int_error_text(e: IntParseError) -> Seq<char> {
    match e {
        IntParseError::Empty => "cannot parse integer from empty string"@,
        IntParseError::InvalidDigit => "invalid digit found in string"@,
        IntParseError::Overflow => "number too large to fit in target type"@,
    }
}

fn int_error_text_exec(e: IntParseError) -> (r: &'static str)
    ensures
        r@ == int_error_text(e),
{
    proof {
        reveal_strlit("cannot parse integer from empty string");
        reveal_strlit("invalid digit found in string");
        reveal_strlit("number too large to fit in target type");
    }
    match e {
        IntParseError::Empty => "cannot parse integer from empty string",
        IntParseError::InvalidDigit => "invalid digit found in string",
        IntParseError::Overflow => "number too large to fit in target type",
    }
}

/// How an error is told to the client.
pub open spec fn spec_message(e: GameErrorView) -> Seq<char> {
    match e {
        GameErrorView::TokenNotFound(t) => "Unable to find token "@ + decimal(t.0 as nat),
        GameErrorView::LocationNotFound(l) => "Location "@ + decimal(l.0 as nat) + " does not exist"@,
        GameErrorView::SlotOccupied(l) => "Location "@ + decimal(l.0 as nat) + " is already occupied"@,
        GameErrorView::UnknownLocation(v) => "Unable to identify location id: "@ + decimal(v as nat),
        GameErrorView::UnknownTokenKind(k) => "No token with the id "@ + k,
        GameErrorView::HeroDestroyed { .. } => "Game has concluded"@,
        GameErrorView::DeckEmpty { .. } => "Ran out of tokens, game concluded"@,
        GameErrorView::NoHeroInDeck => "No hero found in deck"@,
        GameErrorView::SeveralHeroesInDeck => "Found more than one hero in deck"@,
        GameErrorView::NoLandscapeInDeck => "No hero found in deck"@,
        GameErrorView::SeveralLandscapesInDeck => "Found more than one hero in deck"@,
        GameErrorView::NoLandscape(_) => "Landscape token was not provided"@,
        GameErrorView::NotALandscape(_) => "Given landscape was not a landscape"@,
        GameErrorView::HeroNotFound(_) => "Hero not found"@,
        GameErrorView::NotAFieldSlot(l) => "Location "@ + decimal(l.0 as nat) + " is not a field slot"@,
        GameErrorView::NotAnEquipmentSlot(_) => "Item is not in equipment slot"@,
        GameErrorView::MissingContextKey(k) => "Failed to find key "@ + k + " in GameContext"@,
        GameErrorView::WrongContextKind(kind) => "Tried to cast context value to "@ + kind_name(kind) + " when it is not a "@ + kind_name(kind),
        GameErrorView::TagNotFound(_) => "Tried to get tag in data but no tag was found"@,
        GameErrorView::ClosingTagNotFound(_) => "Tried to get tag in data but no closing tag was found"@,
        GameErrorView::TagOutOfOrder(k) => "Tag "@ + k + " closes before it opens"@,
        GameErrorView::InvalidNumber(e) => int_error_text(e),
        GameErrorView::InvalidBool => "provided string was not `true` or `false`"@,
        GameErrorView::PromptNotFound(_) => "Failed to find prompt with given instance id"@,
        GameErrorView::UnknownInstruction(k) => "Unknown instruction: "@ + k,
        GameErrorView::UnknownSubject => "Can't specify what this step is about"@,
        GameErrorView::Unimplemented => "not implemented"@,
        GameErrorView::InvalidState => "The game is not in a state that allows this"@,
    }
}

impl GameError {
    /// How the error is told to the client (see `spec_message`).
    pub fn message(&self) -> (r: String)
        ensures
            r@ == spec_message(self@),
    {
        let mut s = String::new();
        match self {
            GameError::TokenNotFound(t) => {
                push_str(&mut s, "Unable to find token "); push_decimal(&mut s, t.0);
                proof {
                    reveal_strlit("Unable to find token ");
                }
            },
            GameError::LocationNotFound(l) => {
                push_str(&mut s, "Location "); push_decimal(&mut s, l.0); push_str(&mut s, " does not exist");
                proof {
                    reveal_strlit("Location ");
                    reveal_strlit(" does not exist");
                }
            },
            GameError::SlotOccupied(l) => {
                push_str(&mut s, "Location "); push_decimal(&mut s, l.0); push_str(&mut s, " is already occupied");
                proof {
                    reveal_strlit("Location ");
                    reveal_strlit(" is already occupied");
                }
            },
            GameError::UnknownLocation(v) => {
                push_str(&mut s, "Unable to identify location id: "); push_decimal(&mut s, *v);
                proof {
                    reveal_strlit("Unable to identify location id: ");
                }
            },
            GameError::UnknownTokenKind(k) => {
                push_str(&mut s, "No token with the id "); push_str(&mut s, k.as_str());
                proof {
                    reveal_strlit("No token with the id ");
                }
            },
            GameError::HeroDestroyed { .. } => {
                push_str(&mut s, "Game has concluded");
                proof {
                    reveal_strlit("Game has concluded");
                }
            },
            GameError::DeckEmpty { .. } => {
                push_str(&mut s, "Ran out of tokens, game concluded");
                proof {
                    reveal_strlit("Ran out of tokens, game concluded");
                }
            },
            GameError::NoHeroInDeck => {
                push_str(&mut s, "No hero found in deck");
                proof {
                    reveal_strlit("No hero found in deck");
                }
            },
            GameError::SeveralHeroesInDeck => {
                push_str(&mut s, "Found more than one hero in deck");
                proof {
                    reveal_strlit("Found more than one hero in deck");
                }
            },
            GameError::NoLandscapeInDeck => {
                push_str(&mut s, "No hero found in deck");
                proof {
                    reveal_strlit("No hero found in deck");
                }
            },
            GameError::SeveralLandscapesInDeck => {
                push_str(&mut s, "Found more than one hero in deck");
                proof {
                    reveal_strlit("Found more than one hero in deck");
                }
            },
            GameError::NoLandscape(_) => {
                push_str(&mut s, "Landscape token was not provided");
                proof {
                    reveal_strlit("Landscape token was not provided");
                }
            },
            GameError::NotALandscape(_) => {
                push_str(&mut s, "Given landscape was not a landscape");
                proof {
                    reveal_strlit("Given landscape was not a landscape");
                }
            },
            GameError::HeroNotFound(_) => {
                push_str(&mut s, "Hero not found");
                proof {
                    reveal_strlit("Hero not found");
                }
            },
            GameError::NotAFieldSlot(l) => {
                push_str(&mut s, "Location "); push_decimal(&mut s, l.0); push_str(&mut s, " is not a field slot");
                proof {
                    reveal_strlit("Location ");
                    reveal_strlit(" is not a field slot");
                }
            },
            GameError::NotAnEquipmentSlot(_) => {
                push_str(&mut s, "Item is not in equipment slot");
                proof {
                    reveal_strlit("Item is not in equipment slot");
                }
            },
            GameError::MissingContextKey(k) => {
                push_str(&mut s, "Failed to find key "); push_str(&mut s, k.as_str()); push_str(&mut s, " in GameContext");
                proof {
                    reveal_strlit("Failed to find key ");
                    reveal_strlit(" in GameContext");
                }
            },
            GameError::WrongContextKind(kind) => {
                let n = kind_name_exec(*kind); push_str(&mut s, "Tried to cast context value to "); push_str(&mut s, n); push_str(&mut s, " when it is not a "); push_str(&mut s, n);
                proof {
                    reveal_strlit("Tried to cast context value to ");
                    reveal_strlit(" when it is not a ");
                }
            },
            GameError::TagNotFound(_) => {
                push_str(&mut s, "Tried to get tag in data but no tag was found");
                proof {
                    reveal_strlit("Tried to get tag in data but no tag was found");
                }
            },
            GameError::ClosingTagNotFound(_) => {
                push_str(&mut s, "Tried to get tag in data but no closing tag was found");
                proof {
                    reveal_strlit("Tried to get tag in data but no closing tag was found");
                }
            },
            GameError::TagOutOfOrder(k) => {
                push_str(&mut s, "Tag "); push_str(&mut s, k.as_str()); push_str(&mut s, " closes before it opens");
                proof {
                    reveal_strlit("Tag ");
                    reveal_strlit(" closes before it opens");
                }
            },
            GameError::InvalidNumber(e) => {
                push_str(&mut s, int_error_text_exec(*e));
                proof {
                }
            },
            GameError::InvalidBool => {
                push_str(&mut s, "provided string was not `true` or `false`");
                proof {
                    reveal_strlit("provided string was not `true` or `false`");
                }
            },
            GameError::PromptNotFound(_) => {
                push_str(&mut s, "Failed to find prompt with given instance id");
                proof {
                    reveal_strlit("Failed to find prompt with given instance id");
                }
            },
            GameError::UnknownInstruction(k) => {
                push_str(&mut s, "Unknown instruction: "); push_str(&mut s, k.as_str());
                proof {
                    reveal_strlit("Unknown instruction: ");
                }
            },
            GameError::UnknownSubject => {
                push_str(&mut s, "Can't specify what this step is about");
                proof {
                    reveal_strlit("Can't specify what this step is about");
                }
            },
            GameError::Unimplemented => {
                push_str(&mut s, "not implemented");
                proof {
                    reveal_strlit("not implemented");
                }
            },
            GameError::InvalidState => {
                push_str(&mut s, "The game is not in a state that allows this");
                proof {
                    reveal_strlit("The game is not in a state that allows this");
                }
            },
        }
        assert(s@ =~= spec_message(self@));
        s
    }
}

} // verus!
