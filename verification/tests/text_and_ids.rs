use thaum::animation_presets::AnimationPreset;
use thaum::error::GameError;
use thaum::id_types::{CardInstanceId, LocationId, PlayerId, PromptInstanceId, TokenInstanceId};
use thaum::instruction::InstructionToClient;
use thaum::location_ids::{
    identify_location, player_deck_location_id, player_field_location_id, player_graveyard_location_id,
    player_hand_location_id, player_hero_location_id, player_landscape_location_id, LocationIdentity,
};
use thaum::prompts::{HighlightType, PromptType};
use thaum::registry::TokenRegistry;
use thaum::tag::{get_tag, Tag};
use thaum::text::{
    i64_to_decimal, parse_bool, parse_u64, split_on, str_eq, u64_to_decimal, IntParseError,
};

#[test]
fn decimal_text_of_numbers() {
    assert_eq!(u64_to_decimal(0), "0");
    assert_eq!(u64_to_decimal(7), "7");
    assert_eq!(u64_to_decimal(12345), "12345");
    assert_eq!(u64_to_decimal(u64::MAX), "18446744073709551615");
    assert_eq!(i64_to_decimal(-42), "-42");
    assert_eq!(i64_to_decimal(0), "0");
    assert_eq!(i64_to_decimal(i64::MIN), "-9223372036854775808");
}

#[test]
fn parse_unsigned_numbers() {
    assert_eq!(parse_u64("42"), Ok(42));
    assert_eq!(parse_u64("+7"), Ok(7));
    assert_eq!(parse_u64("007"), Ok(7));
    assert_eq!(parse_u64("18446744073709551615"), Ok(u64::MAX));
    assert_eq!(parse_u64(""), Err(IntParseError::Empty));
    assert_eq!(parse_u64("+"), Err(IntParseError::InvalidDigit));
    assert_eq!(parse_u64("4a"), Err(IntParseError::InvalidDigit));
    assert_eq!(parse_u64("-1"), Err(IntParseError::InvalidDigit));
    assert_eq!(parse_u64("18446744073709551616"), Err(IntParseError::Overflow));
}

#[test]
fn ids_read_back_from_their_text() {
    for n in [0u64, 9, 10, 1003, u64::MAX] {
        assert_eq!(TokenInstanceId::from_str(&TokenInstanceId(n).to_string()), Ok(TokenInstanceId(n)));
        assert_eq!(LocationId::from_str(&LocationId(n).to_string()), Ok(LocationId(n)));
        assert_eq!(CardInstanceId::from_str(&CardInstanceId(n).to_string()), Ok(CardInstanceId(n)));
        assert_eq!(PromptInstanceId::from_str(&PromptInstanceId(n).to_string()), Ok(PromptInstanceId(n)));
    }
    assert_eq!(LocationId::from_str("x"), Err(IntParseError::InvalidDigit));
}

#[test]
fn players_and_opponents() {
    assert_eq!(PlayerId::Player1.opponent(), PlayerId::Player2);
    assert_eq!(PlayerId::Player2.opponent(), PlayerId::Player1);
    assert_eq!(PlayerId::Player1.opponent().opponent(), PlayerId::Player1);
    assert_eq!(PlayerId::Player1.number(), 0);
    assert_eq!(PlayerId::Player2.number(), 1);
    assert_eq!(PlayerId::Player1.to_string(), "Player 1");
    assert_eq!(PlayerId::Player2.to_string(), "Player 2");
}

#[test]
fn split_messages_on_a_separator() {
    assert_eq!(split_on("start_game|data", '|'), vec!["start_game".to_string(), "data".to_string()]);
    assert_eq!(split_on("abc", '|'), vec!["abc".to_string()]);
    assert_eq!(split_on("a||b", '|'), vec!["a".to_string(), "".to_string(), "b".to_string()]);
    assert_eq!(split_on("", '|'), vec!["".to_string()]);
    assert_eq!(split_on("a|", '|'), vec!["a".to_string(), "".to_string()]);
}

#[test]
fn booleans_and_text_equality() {
    assert_eq!(parse_bool("true"), Some(true));
    assert_eq!(parse_bool("false"), Some(false));
    assert_eq!(parse_bool("True"), None);
    assert!(str_eq("abc", "abc"));
    assert!(!str_eq("abc", "abd"));
    assert!(!str_eq("abc", "ab"));
}

#[test]
fn reading_tags_of_a_message() {
    assert_eq!(get_tag("token", "/token/5/!token/"), Ok("5".to_string()));
    assert_eq!(
        get_tag("location", "/token/5/!token//location/1002/!location/"),
        Ok("1002".to_string())
    );
    assert_eq!(get_tag("set1", "/set1//!set1/"), Ok("".to_string()));
    assert_eq!(get_tag("token", "/location/5/!location/"), Err(GameError::TagNotFound("token".to_string())));
    assert_eq!(get_tag("token", "/token/5"), Err(GameError::ClosingTagNotFound("token".to_string())));
    assert_eq!(get_tag("token", "/!token//token/5"), Err(GameError::TagOutOfOrder("token".to_string())));
}

#[test]
fn a_written_section_reads_back() {
    for (tag, v) in [("token", "12"), ("a", "x/y"), ("deck", ""), ("set", "/!sex/")] {
        let data = format!("/{tag}/{v}/!{tag}/");
        assert_eq!(get_tag(tag, &data), Ok(v.to_string()));
    }
    assert_eq!(get_tag("t", "/t/a/!t/b/!t/"), Ok("a".to_string()));
}

#[test]
fn tag_texts() {
    let reg = TokenRegistry::new();
    assert_eq!(Tag::U64(7).build(&reg), "//7/!");
    assert_eq!(Tag::Seconds(500).build(&reg), "//0.5/!");
    assert_eq!(Tag::Seconds(1250).build(&reg), "//1.25/!");
    assert_eq!(Tag::Seconds(2000).build(&reg), "//2/!");
    assert_eq!(Tag::Seconds(1).build(&reg), "//0.001/!");
    assert_eq!(Tag::Player(PlayerId::Player2).build(&reg), "//1/!");
    assert_eq!(Tag::String("hi".to_string()).build(&reg), "//hi/!");
    assert_eq!(Tag::LocationId(LocationId(1003)).build(&reg), "//1003/!");
    assert_eq!(
        Tag::PromptType(PromptType::SelectCard(TokenInstanceId(3))).build(&reg),
        "//SelectCard(TokenInstanceId(3))/!"
    );
    assert_eq!(
        Tag::PromptType(PromptType::SelectFieldSlot(LocationId(1001))).build(&reg),
        "//SelectFieldSlot(LocationId(1001))/!"
    );
}

#[test]
fn instruction_texts() {
    let reg = TokenRegistry::new();
    let text = |i: InstructionToClient| i.build(&reg);
    assert_eq!(
        text(InstructionToClient::MoveToken { token: TokenInstanceId(2), to: LocationId(5) }),
        Ok("move_token|//2/!//2/!//5/!".to_string())
    );
    assert_eq!(
        text(InstructionToClient::SetThaum { player_id: PlayerId::Player1, amount: 3 }),
        Ok("set_thaum|//2/!//0/!//3/!".to_string())
    );
    assert_eq!(
        text(InstructionToClient::AddLandscapeSlot {
            player_id: PlayerId::Player2,
            index: 1,
            location_id: LocationId(2001)
        }),
        Ok("add_slot|//3/!//1/!//1/!//2001/!".to_string())
    );
    assert_eq!(
        text(InstructionToClient::PassTurn { player_id: PlayerId::Player2 }),
        Ok("set_turn|//1/!//1/!".to_string())
    );
    assert_eq!(
        text(InstructionToClient::ClearLocation { location: LocationId(104) }),
        Ok("clear_location|//1/!//104/!".to_string())
    );
    assert_eq!(
        text(InstructionToClient::Animate {
            token: TokenInstanceId(1),
            location: LocationId(5),
            duration_ms: 500,
            preset: AnimationPreset::EaseInOut
        }),
        Ok("animate|//4/!//1/!//5/!//0.5/!//EaseInOut/!".to_string())
    );
    assert_eq!(
        text(InstructionToClient::AddPrompt {
            prompt_instance_id: PromptInstanceId(9),
            prompt_type: PromptType::AttackCard(TokenInstanceId(4))
        }),
        Ok("add_prompt|//3/!//9/!//4/!\"//AttackCard/!\"".to_string())
    );
    assert_eq!(
        text(InstructionToClient::RemovePrompt { prompt_instance_id: PromptInstanceId(9) }),
        Ok("remove_prompt|//1/!//9/!".to_string())
    );
    assert_eq!(
        text(InstructionToClient::Reveal { token: TokenInstanceId(8) }),
        Ok("reveal|//1/!//8/!".to_string())
    );
    assert_eq!(
        text(InstructionToClient::EndGame { winner: PlayerId::Player2 }),
        Ok("end_game|//1/!//1/!".to_string())
    );
    assert_eq!(
        text(InstructionToClient::AddEquipmentSlot {
            token: TokenInstanceId(3),
            slot_location_id: LocationId(7)
        }),
        Ok("add_equipment_slot|//2/!//3/!//7/!".to_string())
    );
    assert_eq!(
        text(InstructionToClient::Destroy { token: TokenInstanceId(1) }),
        Err(GameError::Unimplemented)
    );
}

#[test]
fn prompt_and_highlight_names() {
    assert_eq!(HighlightType::SelectCard.to_instruction_string(), "card_select");
    assert_eq!(HighlightType::AttackCard.to_instruction_string(), "card_attack");
    assert_eq!(HighlightType::SelectFieldSlot.to_instruction_string(), "slot_select");
    assert_eq!(PromptType::AttackCard(TokenInstanceId(1)).to_instruction_string(), "card_attack");
    assert_eq!(PromptType::SelectFieldSlot(LocationId(1)).to_string(), "SelectFieldSlot");
    assert_eq!(AnimationPreset::Raise.to_string(), "Raise");
    assert_eq!(AnimationPreset::SelectForAttack.to_string(), "SelectForAttack");
}

#[test]
fn error_messages() {
    assert_eq!(GameError::TokenNotFound(TokenInstanceId(5)).message(), "Unable to find token 5");
    assert_eq!(GameError::LocationNotFound(LocationId(12)).message(), "Location 12 does not exist");
    assert_eq!(GameError::SlotOccupied(LocationId(1001)).message(), "Location 1001 is already occupied");
    assert_eq!(GameError::UnknownInstruction("dance".to_string()).message(), "Unknown instruction: dance");
    assert_eq!(GameError::HeroDestroyed { winner: PlayerId::Player1 }.message(), "Game has concluded");
    assert_eq!(GameError::UnknownLocation(77).message(), "Unable to identify location id: 77");
    assert_eq!(GameError::TagOutOfOrder("x".to_string()).message(), "Tag x closes before it opens");
    assert_eq!(GameError::Unimplemented.message(), "not implemented");
    assert_eq!(GameError::NoLandscapeInDeck.message(), "No hero found in deck");
}

#[test]
fn fixed_location_ids() {
    assert_eq!(player_deck_location_id(PlayerId::Player1, 0), LocationId(100));
    assert_eq!(player_hand_location_id(PlayerId::Player2, 3), LocationId(201));
    assert_eq!(player_hero_location_id(PlayerId::Player1), LocationId(102));
    assert_eq!(player_landscape_location_id(PlayerId::Player2), LocationId(203));
    assert_eq!(player_graveyard_location_id(PlayerId::Player1), LocationId(104));
    assert_eq!(player_field_location_id(PlayerId::Player1, 3), LocationId(1003));
    assert_eq!(player_field_location_id(PlayerId::Player2, 0), LocationId(2000));
}

#[test]
fn identifying_locations() {
    assert_eq!(identify_location(LocationId(100)), Ok(LocationIdentity::Player1Deck));
    assert_eq!(identify_location(LocationId(204)), Ok(LocationIdentity::Player2Graveyard));
    let field = identify_location(LocationId(1005)).unwrap();
    assert!(field.is_field());
    assert!(field.is_field_of(PlayerId::Player1));
    assert!(!field.is_field_of(PlayerId::Player2));
    assert!(!identify_location(LocationId(101)).unwrap().is_field());
    assert!(identify_location(LocationId(5)).is_err());
}
