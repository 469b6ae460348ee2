use thaum::actions::CardBehaviorResult;
use thaum::error::GameError;
use thaum::game_communicator::GameCommunicator;
use thaum::game_context::{ContextValue, GameContext};
use thaum::id_types::{LocationId, PlayerId, TokenInstanceId};
use thaum::locations::{LocationStore, TokenCollection};
use thaum::process::{what_is_this, who_is_owner};
use thaum::registry::TokenRegistry;
use thaum::rng::Coins;
use thaum::state_machine::StateMachine;
use thaum::state_resources::StateResources;
use thaum::token_data::{
    parse_activator, parse_trigger_name, parse_trigger_when, CountCondition, PlayerTarget, SlotPosition,
    TokenBehaviorAction, TokenBehaviorTriggerAnd, TokenBehaviorTriggerWhen, TokenBehaviorTriggerWhenActivator,
    TokenBehaviorTriggerWhenName, TokenCategory, TokenData, TokenFilter, TriggerWhenError, UnitTarget,
};
use thaum::token_instance::UnitStats;

fn pos(x: i32, y: i32, z: i32) -> SlotPosition {
    SlotPosition { x, y, z }
}

#[test]
fn adjacency_of_slot_positions() {
    assert!(pos(0, 0, 0).is_adjacent_to(pos(1, 0, 0)));
    assert!(pos(1, 0, 0).is_adjacent_to(pos(0, 0, 0)));
    assert!(pos(0, 0, 0).is_adjacent_to(pos(0, 0, -1)));
    assert!(!pos(0, 0, 0).is_adjacent_to(pos(1, 1, 0)));
    assert!(!pos(0, 0, 0).is_adjacent_to(pos(0, 0, 0)));
    assert!(!pos(0, 0, 0).is_adjacent_to(pos(2, 0, 0)));
    assert!(!pos(i32::MIN, 0, 0).is_adjacent_to(pos(i32::MAX, 0, 0)));
}

#[test]
fn count_conditions() {
    assert!(CountCondition::Greater.evaluate(3, 2));
    assert!(!CountCondition::Greater.evaluate(2, 2));
    assert!(CountCondition::GreaterEqual.evaluate(2, 2));
    assert!(CountCondition::Less.evaluate(-1, 0));
    assert!(CountCondition::LessEqual.evaluate(0, 0));
    assert!(CountCondition::Equal.evaluate(4, 4));
    assert!(CountCondition::NotEqual.evaluate(4, 5));
    for (a, b) in [(1, 2), (2, 2), (3, 2)] {
        assert_ne!(CountCondition::Equal.evaluate(a, b), CountCondition::NotEqual.evaluate(a, b));
        assert_ne!(CountCondition::Less.evaluate(a, b), CountCondition::GreaterEqual.evaluate(a, b));
        assert_ne!(CountCondition::Greater.evaluate(a, b), CountCondition::LessEqual.evaluate(a, b));
    }
}

#[test]
fn player_targets() {
    let p1 = PlayerId::Player1;
    let p2 = PlayerId::Player2;
    let mut coins = Coins::planned(vec![true, false]);
    assert_eq!(PlayerTarget::Owner.evaluate_with(p2, &mut coins), vec![p2]);
    assert_eq!(PlayerTarget::Opponent.evaluate_with(p2, &mut coins), vec![p1]);
    assert_eq!(PlayerTarget::Either.evaluate_with(p2, &mut coins), vec![p1, p2]);
    assert!(coins.flips.is_empty());
    assert_eq!(PlayerTarget::Random.evaluate_with(p2, &mut coins), vec![p1]);
    assert_eq!(PlayerTarget::Random.evaluate_with(p2, &mut coins), vec![p2]);
    assert_eq!(coins.flips, vec![true, false]);
    let r = PlayerTarget::Random.evaluate(p1);
    assert_eq!(r.len(), 1);
}

#[test]
fn coins_follow_the_plan_then_draw() {
    let mut coins = Coins::planned(vec![false]);
    assert!(!coins.flip());
    let _ = coins.flip();
    assert_eq!(coins.flips.len(), 2);
    assert_eq!(coins.flips[0], false);
}

#[test]
fn damage_takes_defense_first() {
    let mut s = UnitStats { health: 5, defense: 2, attack: 1 };
    s.process_damage(1);
    assert_eq!(s, UnitStats { health: 5, defense: 1, attack: 1 });
    s.process_damage(3);
    assert_eq!(s, UnitStats { health: 3, defense: 0, attack: 1 });
    s.process_damage(10);
    assert_eq!(s, UnitStats { health: 0, defense: 0, attack: 1 });
    let mut t = UnitStats { health: 5, defense: 2, attack: 1 };
    t.process_damage(0);
    assert_eq!(t, UnitStats { health: 5, defense: 2, attack: 1 });
    t.process_damage(-3);
    assert_eq!(t, UnitStats { health: 5, defense: 5, attack: 1 });
}

#[test]
fn reading_trigger_texts() {
    assert_eq!(parse_activator("owned"), Some(TokenBehaviorTriggerWhenActivator::Owned));
    assert_eq!(parse_activator("owner"), Some(TokenBehaviorTriggerWhenActivator::Owned));
    assert_eq!(parse_activator("either"), Some(TokenBehaviorTriggerWhenActivator::Either));
    assert_eq!(parse_activator("nobody"), None);
    assert_eq!(parse_trigger_name("turn_started"), Some(TokenBehaviorTriggerWhenName::TurnStarted));
    assert_eq!(parse_trigger_name("has_been_summoned"), Some(TokenBehaviorTriggerWhenName::HasBeenSummoned));
    assert_eq!(parse_trigger_name("flying"), None);
    assert_eq!(
        parse_trigger_when("this:has_been_summoned"),
        Ok(TokenBehaviorTriggerWhen {
            activator: TokenBehaviorTriggerWhenActivator::This,
            name: TokenBehaviorTriggerWhenName::HasBeenSummoned
        })
    );
    assert_eq!(
        parse_trigger_when("opponent:turn_ended"),
        Ok(TokenBehaviorTriggerWhen {
            activator: TokenBehaviorTriggerWhenActivator::Opponent,
            name: TokenBehaviorTriggerWhenName::TurnEnded
        })
    );
    assert_eq!(parse_trigger_when("x:turn_started"), Err(TriggerWhenError::UnknownActivator));
    assert_eq!(parse_trigger_when("this:flying"), Err(TriggerWhenError::UnknownTriggerName));
    assert_eq!(parse_trigger_when("this"), Err(TriggerWhenError::NotTwoParts));
    assert_eq!(parse_trigger_when("this:turn_started:x"), Err(TriggerWhenError::NotTwoParts));
}

#[test]
fn what_each_step_is_about() {
    assert_eq!(what_is_this(TokenBehaviorTriggerWhenName::HasBeenMoved), Ok("token_instance"));
    assert_eq!(what_is_this(TokenBehaviorTriggerWhenName::HasAttacked), Ok("attacker"));
    assert_eq!(what_is_this(TokenBehaviorTriggerWhenName::WillBeAttacked), Ok("defender"));
    assert_eq!(what_is_this(TokenBehaviorTriggerWhenName::TurnStarted), Err(GameError::UnknownSubject));
    assert_eq!(who_is_owner(TokenBehaviorTriggerWhenName::WillDrawToken), Ok("player"));
    assert_eq!(who_is_owner(TokenBehaviorTriggerWhenName::HasBeenMoved), Err(GameError::UnknownSubject));
}

fn soldier_game() -> (StateResources, TokenInstanceId) {
    let mut reg = TokenRegistry::new();
    reg.insert(TokenData {
        nightly: false,
        id: "soldier".to_string(),
        name: "Soldier".to_string(),
        description: None,
        cost: 2,
        types: vec!["human".to_string()],
        token_category: TokenCategory::Unit { health: 3, attack: 2, defense: 1 },
        behaviors: Vec::new(),
    });
    let mut res = StateResources::new(reg);
    res.insert_location(LocationStore::Collection(TokenCollection::new(LocationId(101))));
    let mut com = GameCommunicator::new();
    let t = res
        .create_token_with_id("soldier", TokenInstanceId(7), LocationId(101), PlayerId::Player1, &mut com)
        .unwrap();
    (res, t)
}

fn context_of(t: TokenInstanceId) -> GameContext {
    let mut c = GameContext::new();
    c.insert("action_this", ContextValue::TokenInstanceId(t));
    c.insert("owner", ContextValue::PlayerId(PlayerId::Player1));
    c
}

#[test]
fn actions_change_the_stats_of_their_targets() {
    let (mut res, t) = soldier_game();
    let mut sm = StateMachine::new();
    let mut com = GameCommunicator::new();
    let ctx = context_of(t);
    let a = TokenBehaviorAction::ModifyAttack { target: UnitTarget::This, amount: 3 };
    assert_eq!(a.run(&ctx, &mut res, &mut sm, &mut com), Ok(CardBehaviorResult::Done));
    let i = res.find_token(t).unwrap();
    assert_eq!(res.token_instances[i].current_stats, UnitStats { health: 3, defense: 1, attack: 5 });
    let a = TokenBehaviorAction::ModifyHealth { target: UnitTarget::This, amount: -1 };
    assert_eq!(a.run(&ctx, &mut res, &mut sm, &mut com), Ok(CardBehaviorResult::Done));
    assert_eq!(res.token_instances[i].current_stats.health, 2);
    let a = TokenBehaviorAction::ModifyCost { target: UnitTarget::This, amount: -2 };
    assert_eq!(a.run(&ctx, &mut res, &mut sm, &mut com), Ok(CardBehaviorResult::Done));
    assert_eq!(res.token_instances[i].cost, 0);
    let a = TokenBehaviorAction::ModifyAttack { target: UnitTarget::This, amount: i32::MAX };
    assert_eq!(a.run(&ctx, &mut res, &mut sm, &mut com), Err(GameError::InvalidState));
}

#[test]
fn actions_that_queue_happenings() {
    let (mut res, t) = soldier_game();
    let mut sm = StateMachine::new();
    let mut com = GameCommunicator::new();
    let ctx = context_of(t);
    let a = TokenBehaviorAction::DrawToken { target: PlayerTarget::Either };
    assert_eq!(a.run(&ctx, &mut res, &mut sm, &mut com), Ok(CardBehaviorResult::Done));
    assert_eq!(sm.state_transition_groups.len(), 2);
    assert_eq!(sm.state_transition_groups[0].context.get_player_id("player"), Ok(PlayerId::Player2));
    assert_eq!(sm.state_transition_groups[1].context.get_player_id("player"), Ok(PlayerId::Player1));
    let a = TokenBehaviorAction::DamageUnit { target: UnitTarget::This, amount: 4 };
    assert_eq!(a.run(&ctx, &mut res, &mut sm, &mut com), Ok(CardBehaviorResult::Done));
    assert_eq!(sm.state_transition_groups.len(), 3);
    assert_eq!(sm.state_transition_groups[0].context.get_token_id("defender"), Ok(t));
    assert_eq!(sm.state_transition_groups[0].context.get_i64("effect_damage"), Ok(4));
    assert_eq!(TokenBehaviorAction::Cancel.run(&ctx, &mut res, &mut sm, &mut com), Ok(CardBehaviorResult::Cancel));
}

#[test]
fn actions_need_the_token_they_belong_to() {
    let (mut res, _) = soldier_game();
    let mut sm = StateMachine::new();
    let mut com = GameCommunicator::new();
    let a = TokenBehaviorAction::Cancel;
    assert_eq!(
        a.run(&GameContext::new(), &mut res, &mut sm, &mut com),
        Err(GameError::MissingContextKey("action_this".to_string()))
    );
    let ctx = context_of(TokenInstanceId(7));
    let a = TokenBehaviorAction::SetCounter {
        target: thaum::token_data::TokenTarget::This,
        counter: "c".to_string(),
        value: 1,
    };
    assert_eq!(a.run(&ctx, &mut res, &mut sm, &mut com), Err(GameError::Unimplemented));
}

#[test]
fn filters_keep_the_tokens_that_match() {
    let (res, t) = soldier_game();
    let ctx = context_of(t);
    let mut ids = vec![t];
    let f = TokenFilter {
        owned_by: Some(PlayerTarget::Owner),
        adjacent_to: None,
        contains_types: Some(vec!["human".to_string()]),
        id_is: Some(vec!["soldier".to_string()]),
    };
    assert_eq!(f.evaluate(&mut ids, &ctx, &res), Ok(()));
    assert_eq!(ids, vec![t]);
    let f = TokenFilter {
        owned_by: Some(PlayerTarget::Opponent),
        adjacent_to: None,
        contains_types: None,
        id_is: None,
    };
    let mut coins = Coins::planned(vec![true]);
    assert_eq!(f.evaluate_with(&mut ids, &ctx, &res, &mut coins), Ok(()));
    assert!(ids.is_empty());
    assert!(coins.flips.is_empty());
    let f = TokenFilter { owned_by: Some(PlayerTarget::Random), adjacent_to: None, contains_types: None, id_is: None };
    let mut ids = vec![t, t, t];
    let mut coins = Coins::planned(vec![true, false, true]);
    assert_eq!(f.evaluate_with(&mut ids, &ctx, &res, &mut coins), Ok(()));
    assert_eq!(ids, vec![t, t]);
    assert_eq!(coins.flips, vec![true, false, true]);
    let mut ids = vec![t];
    let f = TokenFilter { owned_by: None, adjacent_to: None, contains_types: Some(vec!["elf".to_string()]), id_is: None };
    assert_eq!(f.evaluate(&mut ids, &ctx, &res), Ok(()));
    assert!(ids.is_empty());
}

#[test]
fn trigger_conditions() {
    let (res, t) = soldier_game();
    let ctx = context_of(t);
    let types = TokenBehaviorTriggerAnd::TypeContains {
        target: thaum::token_data::TokenTarget::This,
        types: vec!["human".to_string()],
    };
    assert_eq!(types.check(&ctx, &res), Ok(true));
    let types = TokenBehaviorTriggerAnd::TypeContains {
        target: thaum::token_data::TokenTarget::This,
        types: vec!["elf".to_string()],
    };
    assert_eq!(types.check(&ctx, &res), Ok(false));
}
