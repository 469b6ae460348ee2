use thaum::error::GameError;
use thaum::game_communicator::Outgoing;
use thaum::id_types::{LocationId, PlayerId, TokenInstanceId};
use thaum::prompts::{PromptCallbackKind, PromptType};
use thaum::registry::TokenRegistry;
use thaum::session::GameSession;
use thaum::token_data::{SlotPosition, TokenCategory, TokenData};
use thaum::token_instance::UnitStats;

fn kind(id: &str, cost: u32, category: TokenCategory) -> TokenData {
    TokenData {
        nightly: false,
        id: id.to_string(),
        name: id.to_string(),
        description: Some(format!("A {}", id)),
        cost,
        types: Vec::new(),
        token_category: category,
        behaviors: Vec::new(),
    }
}

fn registry() -> TokenRegistry {
    let mut r = TokenRegistry::new();
    r.insert(kind("hero", 0, TokenCategory::Hero { health: 20, defense: 2 }));
    r.insert(kind(
        "land",
        0,
        TokenCategory::Landscape {
            slots: vec![
                SlotPosition { x: 0, y: 0, z: 0 },
                SlotPosition { x: 1, y: 0, z: 0 },
                SlotPosition { x: 0, y: 1, z: 0 },
            ],
        },
    ));
    r.insert(kind("soldier", 1, TokenCategory::Unit { health: 3, attack: 2, defense: 1 }));
    r
}

const DECK: &str = "hero,land,soldier,soldier,soldier,soldier,soldier,soldier,soldier";

fn start_message() -> String {
    format!("start_game|/set1/{}/!set1//set2/{}/!set2/", DECK, DECK)
}

fn texts(s: &mut GameSession) -> Vec<String> {
    let reg = &s.resources.registry;
    s.communicator
        .take_outbox()
        .into_iter()
        .map(|o| match o {
            Outgoing::Instruction(i) => i.build(reg).unwrap_or_else(|_| "destroy".to_string()),
            Outgoing::Info(t) => format!("info:{}", t),
            Outgoing::Warning(t) => format!("warn:{}", t),
            Outgoing::Error(t) => format!("error:{}", t),
            Outgoing::Raw(t) => format!("raw:{}", t),
        })
        .collect()
}

fn hand_of(p: PlayerId) -> LocationId {
    match p {
        PlayerId::Player1 => LocationId(101),
        PlayerId::Player2 => LocationId(201),
    }
}

fn deck_of(p: PlayerId) -> LocationId {
    match p {
        PlayerId::Player1 => LocationId(100),
        PlayerId::Player2 => LocationId(200),
    }
}

fn started() -> GameSession {
    let mut s = GameSession::new(registry());
    assert_eq!(s.handle_message(&start_message()), Ok(()));
    s
}

fn soldier_in_hand(s: &GameSession, p: PlayerId) -> TokenInstanceId {
    s.resources
        .token_instances
        .iter()
        .find(|t| t.owner == p && t.location == hand_of(p) && t.data_index == 2)
        .map(|t| t.instance_id)
        .unwrap()
}

#[test]
fn a_message_in_another_shape_is_ignored() {
    let mut s = GameSession::new(registry());
    assert_eq!(s.handle_message("hello"), Ok(()));
    assert_eq!(s.handle_message("a|b|c"), Ok(()));
    assert!(s.communicator.take_outbox().is_empty());
    assert!(s.current_callback.is_none());
}

#[test]
fn an_unknown_instruction_is_told_to_the_client() {
    let mut s = GameSession::new(registry());
    assert_eq!(s.handle_message("dance|now"), Ok(()));
    let out = texts(&mut s);
    assert_eq!(out[0], "error:Unknown instruction: dance");
    assert!(s.current_callback.is_some());
}

#[test]
fn starting_a_game_deals_the_opening_hands() {
    let mut s = started();
    let current = s.resources.current_turn;
    let other = current.opponent();
    assert_eq!(s.resources.round, 1);
    assert_eq!(s.resources.tokens_at(hand_of(current)).len(), 6);
    assert_eq!(s.resources.tokens_at(hand_of(other)).len(), 5);
    assert_eq!(s.resources.tokens_at(deck_of(current)).len(), 1);
    assert_eq!(s.resources.tokens_at(deck_of(other)).len(), 2);
    for p in [PlayerId::Player1, PlayerId::Player2] {
        let side = s.resources.board.get_side(p);
        assert_eq!(side.field.len(), 3);
        assert_eq!(s.resources.tokens_at(side.hero).len(), 1);
        assert_eq!(s.resources.tokens_at(side.landscape).len(), 1);
    }
    assert_eq!(s.resources.get_player(current).thaum, 11);
    let cb = s.current_callback.as_ref().unwrap();
    assert_eq!(cb.kind, PromptCallbackKind::SelectAttacker);
    assert!(cb.prompt_instances.is_empty());
    let out = texts(&mut s);
    let thaum = format!("set_thaum|//2/!//{}/!//11/!", current.number());
    assert!(out.contains(&thaum));
    assert!(out.iter().any(|t| t.starts_with("add_slot|//3/!")));
}

#[test]
fn a_start_without_decks_is_refused() {
    let mut s = GameSession::new(registry());
    assert_eq!(s.handle_message("start_game|nothing"), Ok(()));
    let out = texts(&mut s);
    assert!(out.contains(&"error:Tried to get tag in data but no tag was found".to_string()));
}

#[test]
fn summoning_a_unit_from_hand() {
    let mut s = started();
    let current = s.resources.current_turn;
    let t = soldier_in_hand(&s, current);
    let slot = s.resources.board.get_side(current).field[0];
    let _ = texts(&mut s);
    let msg = format!("move_token|/token/{}/!token//location/{}/!location/", t.0, slot.0);
    assert_eq!(s.handle_message(&msg), Ok(()));
    assert_eq!(s.resources.tokens_at(slot), vec![t]);
    assert_eq!(s.resources.get_player(current).thaum, 10);
    let cb = s.current_callback.as_ref().unwrap();
    assert_eq!(cb.kind, PromptCallbackKind::SelectAttacker);
    assert_eq!(cb.prompt_instances.len(), 1);
    assert_eq!(cb.prompt_instances[0].1.prompt_type, PromptType::SelectCard(t));
    let out = texts(&mut s);
    assert!(out.contains(&format!("move_token|//2/!//{}/!//{}/!", t.0, slot.0)));
    assert!(out.contains(&format!("set_thaum|//2/!//{}/!//10/!", current.number())));
}

#[test]
fn a_refused_summon_puts_the_token_back() {
    let mut s = started();
    let other = s.resources.current_turn.opponent();
    let t = soldier_in_hand(&s, other);
    let slot = s.resources.board.get_side(other).field[0];
    let _ = texts(&mut s);
    let msg = format!("move_token|/token/{}/!token//location/{}/!location/", t.0, slot.0);
    assert_eq!(s.handle_message(&msg), Ok(()));
    assert!(s.resources.tokens_at(slot).is_empty());
    let out = texts(&mut s);
    assert!(out.contains(&format!("move_token|//2/!//{}/!//{}/!", t.0, hand_of(other).0)));
}

#[test]
fn moving_an_unknown_token_ends_the_session() {
    let mut s = started();
    let msg = "move_token|/token/424242/!token//location/1000/!location/";
    assert_eq!(s.handle_message(msg), Err(GameError::TokenNotFound(TokenInstanceId(424242))));
}

#[test]
fn passing_the_turn() {
    let mut s = started();
    let current = s.resources.current_turn;
    assert_eq!(s.handle_message("pass_turn|"), Ok(()));
    assert_eq!(s.resources.current_turn, current.opponent());
    assert_eq!(s.resources.round, 2);
    assert_eq!(s.resources.get_player(current.opponent()).thaum, 11);
    assert_eq!(s.resources.tokens_at(hand_of(current.opponent())).len(), 6);
}

#[test]
fn attacking_with_a_summoned_unit() {
    let mut s = started();
    let current = s.resources.current_turn;
    let t = soldier_in_hand(&s, current);
    let slot = s.resources.board.get_side(current).field[0];
    let msg = format!("move_token|/token/{}/!token//location/{}/!location/", t.0, slot.0);
    assert_eq!(s.handle_message(&msg), Ok(()));
    let select = s.current_callback.as_ref().unwrap().prompt_instances[0].0;
    let answer = format!("callback|/callback_id/{}/!callback_id//value/true/!value/", select.0);
    assert_eq!(s.handle_message(&answer), Ok(()));
    let cb = s.current_callback.as_ref().unwrap();
    assert_eq!(cb.kind, PromptCallbackKind::ChooseAttackTarget);
    assert!(!cb.prompt_instances.is_empty());
    let (target_prompt, profile) = cb.prompt_instances[0];
    let target = match profile.prompt_type {
        PromptType::AttackCard(x) => x,
        _ => panic!("not an attack prompt"),
    };
    let before = s.resources.token_instances[s.resources.find_token(target).unwrap()].current_stats;
    let answer = format!("callback|/callback_id/{}/!callback_id//value/true/!value/", target_prompt.0);
    assert_eq!(s.handle_message(&answer), Ok(()));
    let after = s.resources.token_instances[s.resources.find_token(target).unwrap()].current_stats;
    let defense = before.defense - 2;
    let expected = if defense <= 0 {
        UnitStats { health: (before.health + defense).max(0), defense: 0, attack: before.attack }
    } else {
        UnitStats { health: before.health, defense, attack: before.attack }
    };
    assert_eq!(after, expected);
}

#[test]
fn an_answer_that_names_no_prompt_ends_the_session() {
    let mut s = started();
    let r = s.handle_message("callback|/callback_id/7/!callback_id//value/true/!value/");
    assert_eq!(r, Err(GameError::PromptNotFound(7)));
}

#[test]
fn an_unknown_instruction_closes_the_open_prompts_first() {
    let mut s = started();
    let current = s.resources.current_turn;
    let t = soldier_in_hand(&s, current);
    let slot = s.resources.board.get_side(current).field[0];
    let msg = format!("move_token|/token/{}/!token//location/{}/!location/", t.0, slot.0);
    assert_eq!(s.handle_message(&msg), Ok(()));
    let open = s.current_callback.as_ref().unwrap().prompt_instances[0].0;
    let _ = texts(&mut s);
    assert_eq!(s.handle_message("dance|now"), Ok(()));
    let out = texts(&mut s);
    assert_eq!(out[0], format!("remove_prompt|//1/!//{}/!", open.0));
    assert_eq!(out[1], "error:Unknown instruction: dance");
}

#[test]
fn a_move_that_cannot_be_read_ends_the_session() {
    let mut s = started();
    assert_eq!(
        s.handle_message("move_token|/token/abc/!token//location/1000/!location/"),
        Err(GameError::InvalidNumber(thaum::text::IntParseError::InvalidDigit))
    );
    let mut s = started();
    assert_eq!(
        s.handle_message("move_token|/location/1000/!location/"),
        Err(GameError::TagNotFound("token".to_string()))
    );
    let mut s = started();
    assert_eq!(
        s.handle_message("move_card|/card/5/!card/"),
        Err(GameError::TagNotFound("location".to_string()))
    );
}

#[test]
fn playing_a_card_from_hand() {
    let mut s = started();
    let current = s.resources.current_turn;
    let t = soldier_in_hand(&s, current);
    let slot = s.resources.board.get_side(current).field[1];
    let msg = format!("move_card|/card/{}/!card//location/{}/!location/", t.0, slot.0);
    assert_eq!(s.handle_message(&msg), Ok(()));
    assert_eq!(s.resources.tokens_at(slot), vec![t]);
    assert_eq!(s.resources.get_player(current).thaum, 10);
    let msg = "move_card|/card/99999/!card//location/1000/!location/";
    assert_eq!(s.handle_message(msg), Err(GameError::TokenNotFound(TokenInstanceId(99999))));
}

#[test]
fn the_last_round_cannot_be_passed() {
    let mut s = started();
    s.resources.round = u32::MAX;
    assert_eq!(s.handle_message("pass_turn|"), Err(GameError::InvalidState));
}

#[test]
fn a_start_with_an_unknown_kind_is_refused() {
    let mut s = GameSession::new(registry());
    let msg = format!("start_game|/set1/hero,land,dragon/!set1//set2/{}/!set2/", DECK);
    assert_eq!(s.handle_message(&msg), Ok(()));
    let out = texts(&mut s);
    assert!(out.contains(&"error:No token with the id dragon".to_string()));
    assert_eq!(s.resources.round, 0);
}

#[test]
fn a_deck_without_a_hero_is_refused() {
    let mut s = GameSession::new(registry());
    let msg = format!("start_game|/set1/land,soldier,soldier/!set1//set2/{}/!set2/", DECK);
    assert_eq!(s.handle_message(&msg), Ok(()));
    let out = texts(&mut s);
    assert!(out.contains(&"error:No hero found in deck".to_string()));
    assert!(out.iter().any(|t| t.starts_with("clear_location|")));
}

#[test]
fn units_on_a_field_stand_on_their_side_landscape() {
    let mut s = started();
    let current = s.resources.current_turn;
    let t = soldier_in_hand(&s, current);
    assert_eq!(s.resources.board.get_relevant_landscape(&s.resources, t), None);
    let side = s.resources.board.get_side(current);
    let slot = side.field[2];
    let landscape = side.landscape;
    let msg = format!("move_token|/token/{}/!token//location/{}/!location/", t.0, slot.0);
    assert_eq!(s.handle_message(&msg), Ok(()));
    assert_eq!(s.resources.board.get_relevant_landscape(&s.resources, t), Some(landscape));
    assert_eq!(s.resources.board.get_relevant_landscape(&s.resources, TokenInstanceId(424242)), None);
    let i = s.resources.find_token(t).unwrap();
    assert!(s.resources.token_instances[i].is_alive(&s.resources, &s.resources.board));
    let mut com = thaum::game_communicator::GameCommunicator::new();
    assert_eq!(s.resources.destroy_token(t, &mut com), Ok(()));
    let i = s.resources.find_token(t).unwrap();
    assert!(!s.resources.token_instances[i].is_alive(&s.resources, &s.resources.board));
}
