use thaum::error::GameError;
use thaum::game_communicator::{GameCommunicator, Outgoing};
use thaum::game_context::{ContextValue, ContextValueKind, GameContext};
use thaum::id_types::{LocationId, PlayerId, PromptInstanceId, TokenInstanceId};
use thaum::instruction::InstructionToClient;
use thaum::locations::{LocationStore, SlotOccupied, TokenCollection, TokenSlot};
use thaum::prompts::{PromptCallback, PromptCallbackKind, PromptProfile, PromptType};
use thaum::registry::{TokenNotFound, TokenRegistry};
use thaum::state_machine::StateMachine;
use thaum::state_resources::StateResources;
use thaum::tag::Tag;
use thaum::token_data::{SlotPosition, TokenBehaviorTriggerWhenName, TokenCategory, TokenData};
use thaum::token_instance::UnitStats;

fn kind(id: &str, cost: u32, category: TokenCategory) -> TokenData {
    TokenData {
        nightly: false,
        id: id.to_string(),
        name: format!("The {}", id),
        description: None,
        cost,
        types: vec!["human".to_string()],
        token_category: category,
        behaviors: Vec::new(),
    }
}

fn registry() -> TokenRegistry {
    let mut r = TokenRegistry::new();
    r.insert(kind("hero", 0, TokenCategory::Hero { health: 20, defense: 2 }));
    r.insert(kind(
        "land",
        0,
        TokenCategory::Landscape {
            slots: vec![
                SlotPosition { x: 0, y: 0, z: 0 },
                SlotPosition { x: 1, y: 0, z: 0 },
                SlotPosition { x: 0, y: 1, z: 0 },
            ],
        },
    ));
    r.insert(kind("soldier", 1, TokenCategory::Unit { health: 3, attack: 2, defense: 1 }));
    r.insert(kind("sword", 1, TokenCategory::Item));
    r
}

fn instruction_texts(communicator: &mut GameCommunicator, reg: &TokenRegistry) -> Vec<String> {
    communicator
        .take_outbox()
        .into_iter()
        .map(|o| match o {
            Outgoing::Instruction(i) => i.build(reg).unwrap_or_else(|_| "destroy".to_string()),
            Outgoing::Info(s) => format!("info:{}", s),
            Outgoing::Warning(s) => format!("warn:{}", s),
            Outgoing::Error(s) => format!("error:{}", s),
            Outgoing::Raw(s) => format!("raw:{}", s),
        })
        .collect()
}

#[test]
fn registry_finds_and_replaces_kinds() {
    let mut r = registry();
    assert_eq!(r.tokens.len(), 4);
    assert_eq!(r.find("soldier"), Some(2));
    assert_eq!(r.find("dragon"), None);
    r.insert(kind("soldier", 5, TokenCategory::Unit { health: 1, attack: 1, defense: 1 }));
    assert_eq!(r.tokens.len(), 4);
    assert_eq!(r.get_data("soldier").unwrap().cost, 5);
    assert_eq!(r.get_data("dragon").err(), Some(TokenNotFound("dragon".to_string())));
}

#[test]
fn registry_makes_tokens_of_a_kind() {
    let r = registry();
    let t = r.instance_token("soldier", TokenInstanceId(9), LocationId(100), PlayerId::Player2).unwrap();
    assert_eq!(t.data_index, 2);
    assert_eq!(t.owner, PlayerId::Player2);
    assert_eq!(t.location, LocationId(100));
    assert_eq!(t.cost, 1);
    assert_eq!(t.base_stats, UnitStats { health: 3, defense: 1, attack: 2 });
    assert_eq!(t.current_stats, t.base_stats);
    assert!(t.hidden);
    assert_eq!(t.token_types, vec!["human".to_string()]);
    let hero = r.instance_token("hero", TokenInstanceId(1), LocationId(102), PlayerId::Player1).unwrap();
    assert_eq!(hero.base_stats, UnitStats { health: 20, defense: 2, attack: 0 });
    assert!(r.instance_token("dragon", TokenInstanceId(1), LocationId(1), PlayerId::Player1).is_err());
}

#[test]
fn token_data_tag_text() {
    let r = registry();
    let d = r.get_data("soldier").unwrap();
    assert_eq!(Tag::TokenData(d).build(&r), "//soldier;;2;;The soldier (1);; ;;1;;3;;1;;2;;human;;/!");
    let t = r.instance_token("hero", TokenInstanceId(1), LocationId(102), PlayerId::Player1).unwrap();
    assert_eq!(Tag::TokenInstanceData(t).build(&r), "//hero;;0;;The hero (0);;;;0;;20;;2;;0;;human;;/!");
}

#[test]
fn context_reads_back_what_was_written() {
    let mut c = GameContext::new();
    c.insert("token", ContextValue::TokenInstanceId(TokenInstanceId(3)));
    c.insert("flag", ContextValue::Bool(true));
    assert_eq!(c.get_token_id("token"), Ok(TokenInstanceId(3)));
    assert_eq!(c.get_bool("flag"), Ok(true));
    c.insert("token", ContextValue::TokenInstanceId(TokenInstanceId(4)));
    assert_eq!(c.get_token_id("token"), Ok(TokenInstanceId(4)));
    assert_eq!(c.get_bool("flag"), Ok(true));
    assert_eq!(c.get_bool("token"), Err(GameError::WrongContextKind(ContextValueKind::Bool)));
    assert_eq!(c.get_i64("missing"), Err(GameError::MissingContextKey("missing".to_string())));
    assert!(c.contains_key("flag"));
    assert!(!c.contains_key("missing"));
    let mut d = GameContext::new();
    d.insert("flag", ContextValue::Bool(false));
    d.insert("n", ContextValue::I64(-2));
    c.append(&d);
    assert_eq!(c.get_bool("flag"), Ok(false));
    assert_eq!(c.get_i64("n"), Ok(-2));
    assert_eq!(c.duplicate().get_token_id("token"), Ok(TokenInstanceId(4)));
}

#[test]
fn slots_hold_one_token() {
    let mut s = TokenSlot::new(LocationId(1001));
    assert!(s.has_room());
    assert_eq!(s.add_token(TokenInstanceId(1)), Ok(()));
    assert_eq!(s.add_token(TokenInstanceId(2)), Err(SlotOccupied(LocationId(1001))));
    assert_eq!(s.get_token(), Some(TokenInstanceId(1)));
    assert!(s.contains(TokenInstanceId(1)));
    s.remove_token(TokenInstanceId(7));
    assert_eq!(s.get_token(), None);
}

#[test]
fn collections_keep_order_and_contents() {
    let mut c = TokenCollection::new(LocationId(100));
    for i in 1..=5 {
        assert_eq!(c.add_token(TokenInstanceId(i)), Ok(()));
    }
    c.remove_token(TokenInstanceId(3));
    assert_eq!(
        c.get_tokens(),
        vec![TokenInstanceId(1), TokenInstanceId(2), TokenInstanceId(4), TokenInstanceId(5)]
    );
    assert!(!c.contains(TokenInstanceId(3)));
    assert_eq!(c.get_token(), Some(TokenInstanceId(1)));
    c.shuffle();
    let mut after = c.get_tokens();
    after.sort_by_key(|t| t.0);
    assert_eq!(after, vec![TokenInstanceId(1), TokenInstanceId(2), TokenInstanceId(4), TokenInstanceId(5)]);
    c.clear();
    assert!(c.get_tokens().is_empty());
    let mut store = LocationStore::Slot(TokenSlot::new(LocationId(102)));
    assert_eq!(store.add_token(TokenInstanceId(1)), Ok(()));
    assert!(!store.has_room());
    assert_eq!(store.get_location_id(), LocationId(102));
}

fn resources_with_locations() -> StateResources {
    let mut res = StateResources::new(registry());
    res.insert_location(LocationStore::Collection(TokenCollection::new(LocationId(100))));
    res.insert_location(LocationStore::Collection(TokenCollection::new(LocationId(101))));
    res.insert_location(LocationStore::Collection(TokenCollection::new(LocationId(104))));
    res.insert_location(LocationStore::Slot(TokenSlot::new(LocationId(102))));
    res.insert_location(LocationStore::Slot(TokenSlot::new(LocationId(1000))));
    res
}

#[test]
fn creating_a_token_under_an_id_in_use_replaces_it() {
    let mut res = resources_with_locations();
    let mut com = GameCommunicator::new();
    assert_eq!(
        res.create_token_with_id("soldier", TokenInstanceId(50), LocationId(101), PlayerId::Player1, &mut com),
        Ok(TokenInstanceId(50))
    );
    assert_eq!(
        res.create_token_with_id("soldier", TokenInstanceId(50), LocationId(104), PlayerId::Player2, &mut com),
        Ok(TokenInstanceId(50))
    );
    assert_eq!(res.token_instances.len(), 1);
    let ti = res.find_token(TokenInstanceId(50)).unwrap();
    assert_eq!(res.token_instances[ti].location, LocationId(104));
    assert_eq!(res.token_instances[ti].owner, PlayerId::Player2);
    assert_eq!(res.tokens_at(LocationId(101)), vec![TokenInstanceId(50)]);
    assert_eq!(res.tokens_at(LocationId(104)), vec![TokenInstanceId(50)]);
    assert_eq!(instruction_texts(&mut com, &res.registry).len(), 4);
}

#[test]
fn creating_and_moving_tokens() {
    let mut res = resources_with_locations();
    let mut com = GameCommunicator::new();
    let t = res
        .create_token_with_id("soldier", TokenInstanceId(50), LocationId(101), PlayerId::Player1, &mut com)
        .unwrap();
    assert_eq!(t, TokenInstanceId(50));
    assert_eq!(
        res.create_token_with_id("soldier", TokenInstanceId(51), LocationId(999), PlayerId::Player1, &mut com),
        Err(GameError::LocationNotFound(LocationId(999)))
    );
    assert!(matches!(
        res.create_token_with_id("dragon", TokenInstanceId(52), LocationId(101), PlayerId::Player1, &mut com),
        Err(GameError::UnknownTokenKind(_))
    ));
    let texts = instruction_texts(&mut com, &res.registry);
    assert_eq!(texts.len(), 2);
    assert!(texts[0].starts_with("create_token|//4/!//soldier;;2;;"));
    assert!(texts[1].starts_with("update_behaviors|//2/!//50/!"));

    assert_eq!(res.tokens_at(LocationId(101)), vec![TokenInstanceId(50)]);
    assert_eq!(res.move_token(TokenInstanceId(50), LocationId(1000), None, &mut com), Ok(()));
    assert_eq!(res.tokens_at(LocationId(101)), Vec::<TokenInstanceId>::new());
    assert_eq!(res.tokens_at(LocationId(1000)), vec![TokenInstanceId(50)]);
    let ti = res.find_token(TokenInstanceId(50)).unwrap();
    assert_eq!(res.token_instances[ti].location, LocationId(1000));
    assert!(!res.token_instances[ti].hidden);
    let texts = instruction_texts(&mut com, &res.registry);
    assert_eq!(texts, vec!["move_token|//2/!//50/!//1000/!".to_string(), "reveal|//1/!//50/!".to_string()]);

    let other = res
        .create_token_with_id("soldier", TokenInstanceId(60), LocationId(101), PlayerId::Player1, &mut com)
        .unwrap();
    assert_eq!(
        res.move_token(other, LocationId(1000), None, &mut com),
        Err(GameError::SlotOccupied(LocationId(1000)))
    );
    assert_eq!(
        res.move_token(TokenInstanceId(77), LocationId(1000), None, &mut com),
        Err(GameError::TokenNotFound(TokenInstanceId(77)))
    );
}

#[test]
fn destroyed_tokens_go_to_the_graveyard() {
    let mut res = resources_with_locations();
    let mut com = GameCommunicator::new();
    res.board.side_1.graveyard = LocationId(104);
    let t = res
        .create_token_with_id("soldier", TokenInstanceId(5), LocationId(1000), PlayerId::Player1, &mut com)
        .unwrap();
    let _ = com.take_outbox();
    assert_eq!(res.destroy_token(t, &mut com), Ok(()));
    assert_eq!(res.tokens_at(LocationId(104)), vec![t]);
    assert_eq!(res.tokens_at(LocationId(1000)), Vec::<TokenInstanceId>::new());
    let texts = instruction_texts(&mut com, &res.registry);
    assert_eq!(
        texts,
        vec![
            "animate|//4/!//5/!//104/!//0.5/!//EaseInOut/!".to_string(),
            "move_token|//2/!//5/!//104/!".to_string(),
        ]
    );
}

#[test]
fn destroying_a_hero_ends_the_game() {
    let mut res = resources_with_locations();
    let mut com = GameCommunicator::new();
    let h = res
        .create_token_with_id("hero", TokenInstanceId(1), LocationId(102), PlayerId::Player1, &mut com)
        .unwrap();
    let _ = com.take_outbox();
    assert_eq!(res.destroy_token(h, &mut com), Err(GameError::HeroDestroyed { winner: PlayerId::Player2 }));
    assert_eq!(res.tokens_at(LocationId(102)), vec![h]);
    assert_eq!(instruction_texts(&mut com, &res.registry), vec!["end_game|//1/!//1/!".to_string()]);
}

#[test]
fn clearing_a_location() {
    let mut res = resources_with_locations();
    let mut com = GameCommunicator::new();
    res.create_token_with_id("soldier", TokenInstanceId(5), LocationId(100), PlayerId::Player1, &mut com)
        .unwrap();
    let _ = com.take_outbox();
    assert_eq!(res.clear_location(LocationId(100), &mut com), Ok(()));
    assert!(res.tokens_at(LocationId(100)).is_empty());
    assert_eq!(instruction_texts(&mut com, &res.registry), vec!["clear_location|//1/!//100/!".to_string()]);
}

#[test]
fn prompts_are_found_by_id() {
    let mut cb = PromptCallback::new(PromptCallbackKind::SelectAttacker, true);
    let p = PromptProfile {
        prompt_type: PromptType::SelectCard(TokenInstanceId(4)),
        value: false,
        owner: PlayerId::Player1,
    };
    cb.add_prompt_with_id(PromptInstanceId(10), p);
    cb.add_prompt_with_id(PromptInstanceId(11), p);
    assert_eq!(cb.find_prompt(PromptInstanceId(11)), Some(1));
    assert_eq!(cb.find_prompt(PromptInstanceId(12)), None);
    assert!(cb.ids_distinct());
    cb.add_prompt(p);
    assert_eq!(cb.prompt_instances.len(), 3);
    let mut com = GameCommunicator::new();
    cb.cancel(&mut com);
    let texts = instruction_texts(&mut com, &TokenRegistry::new());
    assert_eq!(texts[0], "remove_prompt|//1/!//10/!");
    assert_eq!(texts[1], "remove_prompt|//1/!//11/!");
    assert_eq!(texts.len(), 3);
}

#[test]
fn queued_happenings_are_taken_newest_first() {
    let mut sm = StateMachine::new();
    sm.move_token(TokenInstanceId(1), LocationId(1000));
    sm.summon_token(TokenInstanceId(2), LocationId(1001));
    sm.draw_token(PlayerId::Player1);
    assert_eq!(sm.state_transition_groups.len(), 3);
    let first = &sm.state_transition_groups[0];
    assert_eq!(first.states.front(), Some(&TokenBehaviorTriggerWhenName::WillDrawToken));
    let second = &sm.state_transition_groups[1];
    assert_eq!(second.states.len(), 4);
    assert_eq!(second.context.get_token_id("token_instance"), Ok(TokenInstanceId(2)));
    let third = &sm.state_transition_groups[2];
    assert_eq!(
        third.states.iter().copied().collect::<Vec<_>>(),
        vec![
            TokenBehaviorTriggerWhenName::WillBeMoved,
            TokenBehaviorTriggerWhenName::CheckCancel,
            TokenBehaviorTriggerWhenName::HasBeenMoved
        ]
    );
}

#[test]
fn instructions_from_outgoing_messages() {
    let mut com = GameCommunicator::new();
    com.send_info("hello");
    com.send_error("bad");
    com.send_game_instruction(InstructionToClient::PassTurn { player_id: PlayerId::Player1 });
    let texts = instruction_texts(&mut com, &TokenRegistry::new());
    assert_eq!(texts, vec!["info:hello".to_string(), "error:bad".to_string(), "set_turn|//1/!//0/!".to_string()]);
    assert!(com.take_outbox().is_empty());
}

#[test]
fn the_finder_lists_and_hands_out_kinds() {
    let r = registry();
    let answers = thaum::finder::finder_answers(&r, "search|").unwrap();
    assert_eq!(answers.len(), 2);
    assert_eq!(answers[0], "clear_results|//0/!");
    assert!(answers[1].starts_with("add_result|//1/!//hero;;0;;The hero (0);; ;;0;;20;;2;;0;;human;;/!//INS//"));
    assert_eq!(answers[1].matches("add_result|").count(), 4);
    assert!(answers[1].ends_with("//INS//"));
    assert_eq!(
        thaum::finder::finder_answers(&r, "get_set_token|/id/soldier/!id//slot/3/!slot/"),
        Ok(vec!["add_set_token|//2/!//3/!//soldier;;2;;The soldier (1);; ;;1;;3;;1;;2;;human;;/!".to_string()])
    );
    assert_eq!(
        thaum::finder::finder_answers(&r, "get_set_token|/id/dragon/!id//slot/3/!slot/"),
        Err(GameError::UnknownTokenKind("dragon".to_string()))
    );
    assert_eq!(
        thaum::finder::finder_answers(&r, "get_set_token|/slot/3/!slot/"),
        Err(GameError::TagNotFound("id".to_string()))
    );
    assert_eq!(thaum::finder::finder_answers(&r, "dance|x"), Ok(Vec::new()));
    assert_eq!(thaum::finder::finder_answers(&r, "search"), Ok(Vec::new()));
}

#[test]
fn messages_on_the_wire() {
    let r = TokenRegistry::new();
    assert_eq!(Outgoing::Info("hi".to_string()).to_wire(&r), Ok("info|hi".to_string()));
    assert_eq!(Outgoing::Warning("careful".to_string()).to_wire(&r), Ok("warn|careful".to_string()));
    assert_eq!(Outgoing::Error("bad".to_string()).to_wire(&r), Ok("error|bad".to_string()));
    assert_eq!(Outgoing::Raw("x|y".to_string()).to_wire(&r), Ok("x|y".to_string()));
    let m = Outgoing::Instruction(InstructionToClient::Reveal { token: TokenInstanceId(3) });
    assert!(m.fits(&r));
    assert_eq!(m.to_wire(&r), Ok("reveal|//1/!//3/!".to_string()));
    let d = Outgoing::Instruction(InstructionToClient::Destroy { token: TokenInstanceId(3) });
    assert_eq!(d.to_wire(&r), Err(GameError::Unimplemented));
}
