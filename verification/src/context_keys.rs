//! The names under which the steps of the game keep what they are about.
use vstd::prelude::*;

verus! {

pub const OWNER: &'static str = "owner";
pub const TOKEN_INSTANCE: &'static str = "token_instance";
pub const EQUIP_TARGET: &'static str = "equip_target";
pub const EQUIPPING_ITEM: &'static str = "equipping_item";
pub const TRIGGER_THIS: &'static str = "trigger_this";
pub const ACTION_THIS: &'static str = "action_this";
pub const ATTACKER: &'static str = "attacker";
pub const DEFENDER: &'static str = "defender";
pub const FROM_LOCATION: &'static str = "from_location";
pub const TO_LOCATION: &'static str = "to_location";
pub const CANCEL: &'static str = "cancel";
pub const SELECTED_TOKEN: &'static str = "selected_token";
pub const IS_COUNTER_ATTACK: &'static str = "is_counter_attack";
pub const EFFECT_DAMAGE: &'static str = "effect_damage";
pub const CREATING_TOKEN: &'static str = "creating_token";
pub const PLAYER: &'static str = "player";
pub const DRAWN_TOKEN: &'static str = "drawn_token";

} // verus!
