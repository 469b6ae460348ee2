//! What a token is: the data that behavior files describe, and the small rules on it.
use vstd::prelude::*;

use crate::id_types::PlayerId;
use crate::rng::{agrees, extends, random_bool, Coins};
use crate::text::str_eq;

verus! {

/// The description of a kind of token, as its file gives it.
pub struct TokenData {
    pub nightly: bool,
    pub id: String,
    pub name: String,
    pub description: Option<String>,
    pub cost: u32,
    pub types: Vec<String>,
    pub token_category: TokenCategory,
    pub behaviors: Vec<TokenBehavior>,
}

/// A position on a landscape.
#[derive(Clone, Copy, PartialEq, Eq, Structural, Debug)]
pub struct SlotPosition {
    pub x: i32,
    pub y: i32,
    pub z: i32,
}

pub open spec fn abs(v: int) -> int {
    if v < 0 {
        -v
    } else {
        v
    }
}

/// Two positions are adjacent when they are one step apart along exactly one axis.
pub open spec fn spec_adjacent(a: SlotPosition, b: SlotPosition) -> bool {
    abs(a.x - b.x) + abs(a.y - b.y) + abs(a.z - b.z) == 1
}

fn abs_diff(a: i32, b: i32) -> (r: i64)
    ensures
        r == abs(a - b),
{
    let d: i64 = a as i64 - b as i64;
    if d < 0 {
        -d
    } else {
        d
    }
}

impl SlotPosition {
    /// Whether the two positions are one step apart along exactly one axis.
    pub fn is_adjacent_to(&self, other: SlotPosition) -> (r: bool)
        ensures
            r == spec_adjacent(*self, other),
    {
        let delta_x = abs_diff(self.x, other.x);
        let delta_y = abs_diff(self.y, other.y);
        let delta_z = abs_diff(self.z, other.z);
        delta_x + delta_y + delta_z == 1
    }
}

/// Adjacency does not depend on which position is asked about the other.
pub proof fn lemma_adjacent_symmetric(a: SlotPosition, b: SlotPosition)
    ensures
        spec_adjacent(a, b) == spec_adjacent(b, a),
{
}

/// No position is adjacent to itself.
pub proof fn lemma_adjacent_irreflexive(a: SlotPosition)
    ensures
        !spec_adjacent(a, a),
{
}

/// What kind of token a token is, with the numbers that kind carries.
pub enum TokenCategory {
    Hero { health: i32, defense: i32 },
    Landscape { slots: Vec<SlotPosition> },
    Unit { health: i32, attack: i32, defense: i32 },
    Item,
    Command,
}

/// Something a token does: when its triggers fire, its actions run.
pub struct TokenBehavior {
    pub name: Option<String>,
    pub description: Option<String>,
    pub triggers: Vec<TokenBehaviorTrigger>,
    pub actions: Vec<TokenBehaviorAction>,
}

pub struct TokenBehaviorTrigger {
    pub when: TokenBehaviorTriggerWhen,
    pub and: Option<TokenBehaviorTriggerAnd>,
}

/// Whose event fires the trigger, and which event.
#[derive(PartialEq, Eq, Structural, Debug)]
pub struct TokenBehaviorTriggerWhen {
    pub activator: TokenBehaviorTriggerWhenActivator,
    pub name: TokenBehaviorTriggerWhenName,
}

#[derive(Clone, Copy, PartialEq, Eq, Structural, Debug)]
pub enum TokenBehaviorTriggerWhenActivator {
    Owned,
    Opponent,
    This,
    Either,
}

#[derive(Clone, Copy, PartialEq, Eq, Structural, Debug)]
pub enum TokenBehaviorTriggerWhenName {
    TurnStarted,
    TurnEnded,
    HasBeenCreated,
    WillDrawToken,
    HasDrawnToken,
    HasBeenDrawn,
    WillDestroy,
    WillBeDestroyed,
    HasDestroyed,
    HasBeenDestroyed,
    WillBeMoved,
    HasBeenMoved,
    WillBeSummoned,
    HasBeenSummoned,
    WillAttack,
    WillBeAttacked,
    HasAttacked,
    HasBeenAttacked,
    TookDamage,
    WillBeEffectDamaged,
    HasBeenEffectDamaged,
    WillDefeat,
    WillBeDefeated,
    HasDefeated,
    HasBeenDefeated,
    WillLeaveLandscape,
    HasLeftLandscape,
    WillEnterLandscape,
    HasEnteredLandscape,
    WillEquip,
    HasEquipped,
    WillBeEquipped,
    HasBeenEquipped,
    WillCast,
    HasCast,
    CheckCancel,
}

/// The snake-case spellings of the activators; `owner` is another name for `owned`.
pub open spec fn spec_parse_activator(s: Seq<char>) -> Option<TokenBehaviorTriggerWhenActivator> {
    if s == "owned"@ || s == "owner"@ {
        Some(TokenBehaviorTriggerWhenActivator::Owned)
    } else if s == "opponent"@ {
        Some(TokenBehaviorTriggerWhenActivator::Opponent)
    } else if s == "this"@ {
        Some(TokenBehaviorTriggerWhenActivator::This)
    } else if s == "either"@ {
        Some(TokenBehaviorTriggerWhenActivator::Either)
    } else {
        None
    }
}

/// Reads an activator from its snake-case spelling.
pub fn parse_activator(s: &str) -> (r: Option<TokenBehaviorTriggerWhenActivator>)
    ensures
        r == spec_parse_activator(s@),
{
    if str_eq(s, "owned") || str_eq(s, "owner") {
        Some(TokenBehaviorTriggerWhenActivator::Owned)
    } else if str_eq(s, "opponent") {
        Some(TokenBehaviorTriggerWhenActivator::Opponent)
    } else if str_eq(s, "this") {
        Some(TokenBehaviorTriggerWhenActivator::This)
    } else if str_eq(s, "either") {
        Some(TokenBehaviorTriggerWhenActivator::Either)
    } else {
        None
    }
}

/// The snake-case names of the trigger names, as behavior files spell them.
pub open spec fn spec_parse_trigger_name(s: Seq<char>) -> Option<TokenBehaviorTriggerWhenName> {
    if s == "turn_started"@ {
        Some(TokenBehaviorTriggerWhenName::TurnStarted)
    } else if s == "turn_ended"@ {
        Some(TokenBehaviorTriggerWhenName::TurnEnded)
    } else if s == "has_been_created"@ {
        Some(TokenBehaviorTriggerWhenName::HasBeenCreated)
    } else if s == "will_draw_token"@ {
        Some(TokenBehaviorTriggerWhenName::WillDrawToken)
    } else if s == "has_drawn_token"@ {
        Some(TokenBehaviorTriggerWhenName::HasDrawnToken)
    } else if s == "has_been_drawn"@ {
        Some(TokenBehaviorTriggerWhenName::HasBeenDrawn)
    } else if s == "will_destroy"@ {
        Some(TokenBehaviorTriggerWhenName::WillDestroy)
    } else if s == "will_be_destroyed"@ {
        Some(TokenBehaviorTriggerWhenName::WillBeDestroyed)
    } else if s == "has_destroyed"@ {
        Some(TokenBehaviorTriggerWhenName::HasDestroyed)
    } else if s == "has_been_destroyed"@ {
        Some(TokenBehaviorTriggerWhenName::HasBeenDestroyed)
    } else if s == "will_be_moved"@ {
        Some(TokenBehaviorTriggerWhenName::WillBeMoved)
    } else if s == "has_been_moved"@ {
        Some(TokenBehaviorTriggerWhenName::HasBeenMoved)
    } else if s == "will_be_summoned"@ {
        Some(TokenBehaviorTriggerWhenName::WillBeSummoned)
    } else if s == "has_been_summoned"@ {
        Some(TokenBehaviorTriggerWhenName::HasBeenSummoned)
    } else if s == "will_attack"@ {
        Some(TokenBehaviorTriggerWhenName::WillAttack)
    } else if s == "will_be_attacked"@ {
        Some(TokenBehaviorTriggerWhenName::WillBeAttacked)
    } else if s == "has_attacked"@ {
        Some(TokenBehaviorTriggerWhenName::HasAttacked)
    } else if s == "has_been_attacked"@ {
        Some(TokenBehaviorTriggerWhenName::HasBeenAttacked)
    } else if s == "took_damage"@ {
        Some(TokenBehaviorTriggerWhenName::TookDamage)
    } else if s == "will_be_effect_damaged"@ {
        Some(TokenBehaviorTriggerWhenName::WillBeEffectDamaged)
    } else if s == "has_been_effect_damaged"@ {
        Some(TokenBehaviorTriggerWhenName::HasBeenEffectDamaged)
    } else if s == "will_defeat"@ {
        Some(TokenBehaviorTriggerWhenName::WillDefeat)
    } else if s == "will_be_defeated"@ {
        Some(TokenBehaviorTriggerWhenName::WillBeDefeated)
    } else if s == "has_defeated"@ {
        Some(TokenBehaviorTriggerWhenName::HasDefeated)
    } else if s == "has_been_defeated"@ {
        Some(TokenBehaviorTriggerWhenName::HasBeenDefeated)
    } else if s == "will_leave_landscape"@ {
        Some(TokenBehaviorTriggerWhenName::WillLeaveLandscape)
    } else if s == "has_left_landscape"@ {
        Some(TokenBehaviorTriggerWhenName::HasLeftLandscape)
    } else if s == "will_enter_landscape"@ {
        Some(TokenBehaviorTriggerWhenName::WillEnterLandscape)
    } else if s == "has_entered_landscape"@ {
        Some(TokenBehaviorTriggerWhenName::HasEnteredLandscape)
    } else if s == "will_equip"@ {
        Some(TokenBehaviorTriggerWhenName::WillEquip)
    } else if s == "has_equipped"@ {
        Some(TokenBehaviorTriggerWhenName::HasEquipped)
    } else if s == "will_be_equipped"@ {
        Some(TokenBehaviorTriggerWhenName::WillBeEquipped)
    } else if s == "has_been_equipped"@ {
        Some(TokenBehaviorTriggerWhenName::HasBeenEquipped)
    } else if s == "will_cast"@ {
        Some(TokenBehaviorTriggerWhenName::WillCast)
    } else if s == "has_cast"@ {
        Some(TokenBehaviorTriggerWhenName::HasCast)
    } else if s == "check_cancel"@ {
        Some(TokenBehaviorTriggerWhenName::CheckCancel)
    } else {
        None
    }
}

/// Reads a trigger name from its snake-case spelling.
pub fn parse_trigger_name(s: &str) -> (r: Option<TokenBehaviorTriggerWhenName>)
    ensures
        r == spec_parse_trigger_name(s@),
{
    if str_eq(s, "turn_started") {
        Some(TokenBehaviorTriggerWhenName::TurnStarted)
    } else if str_eq(s, "turn_ended") {
        Some(TokenBehaviorTriggerWhenName::TurnEnded)
    } else if str_eq(s, "has_been_created") {
        Some(TokenBehaviorTriggerWhenName::HasBeenCreated)
    } else if str_eq(s, "will_draw_token") {
        Some(TokenBehaviorTriggerWhenName::WillDrawToken)
    } else if str_eq(s, "has_drawn_token") {
        Some(TokenBehaviorTriggerWhenName::HasDrawnToken)
    } else if str_eq(s, "has_been_drawn") {
        Some(TokenBehaviorTriggerWhenName::HasBeenDrawn)
    } else if str_eq(s, "will_destroy") {
        Some(TokenBehaviorTriggerWhenName::WillDestroy)
    } else if str_eq(s, "will_be_destroyed") {
        Some(TokenBehaviorTriggerWhenName::WillBeDestroyed)
    } else if str_eq(s, "has_destroyed") {
        Some(TokenBehaviorTriggerWhenName::HasDestroyed)
    } else if str_eq(s, "has_been_destroyed") {
        Some(TokenBehaviorTriggerWhenName::HasBeenDestroyed)
    } else if str_eq(s, "will_be_moved") {
        Some(TokenBehaviorTriggerWhenName::WillBeMoved)
    } else if str_eq(s, "has_been_moved") {
        Some(TokenBehaviorTriggerWhenName::HasBeenMoved)
    } else if str_eq(s, "will_be_summoned") {
        Some(TokenBehaviorTriggerWhenName::WillBeSummoned)
    } else if str_eq(s, "has_been_summoned") {
        Some(TokenBehaviorTriggerWhenName::HasBeenSummoned)
    } else if str_eq(s, "will_attack") {
        Some(TokenBehaviorTriggerWhenName::WillAttack)
    } else if str_eq(s, "will_be_attacked") {
        Some(TokenBehaviorTriggerWhenName::WillBeAttacked)
    } else if str_eq(s, "has_attacked") {
        Some(TokenBehaviorTriggerWhenName::HasAttacked)
    } else if str_eq(s, "has_been_attacked") {
        Some(TokenBehaviorTriggerWhenName::HasBeenAttacked)
    } else if str_eq(s, "took_damage") {
        Some(TokenBehaviorTriggerWhenName::TookDamage)
    } else if str_eq(s, "will_be_effect_damaged") {
        Some(TokenBehaviorTriggerWhenName::WillBeEffectDamaged)
    } else if str_eq(s, "has_been_effect_damaged") {
        Some(TokenBehaviorTriggerWhenName::HasBeenEffectDamaged)
    } else if str_eq(s, "will_defeat") {
        Some(TokenBehaviorTriggerWhenName::WillDefeat)
    } else if str_eq(s, "will_be_defeated") {
        Some(TokenBehaviorTriggerWhenName::WillBeDefeated)
    } else if str_eq(s, "has_defeated") {
        Some(TokenBehaviorTriggerWhenName::HasDefeated)
    } else if str_eq(s, "has_been_defeated") {
        Some(TokenBehaviorTriggerWhenName::HasBeenDefeated)
    } else if str_eq(s, "will_leave_landscape") {
        Some(TokenBehaviorTriggerWhenName::WillLeaveLandscape)
    } else if str_eq(s, "has_left_landscape") {
        Some(TokenBehaviorTriggerWhenName::HasLeftLandscape)
    } else if str_eq(s, "will_enter_landscape") {
        Some(TokenBehaviorTriggerWhenName::WillEnterLandscape)
    } else if str_eq(s, "has_entered_landscape") {
        Some(TokenBehaviorTriggerWhenName::HasEnteredLandscape)
    } else if str_eq(s, "will_equip") {
        Some(TokenBehaviorTriggerWhenName::WillEquip)
    } else if str_eq(s, "has_equipped") {
        Some(TokenBehaviorTriggerWhenName::HasEquipped)
    } else if str_eq(s, "will_be_equipped") {
        Some(TokenBehaviorTriggerWhenName::WillBeEquipped)
    } else if str_eq(s, "has_been_equipped") {
        Some(TokenBehaviorTriggerWhenName::HasBeenEquipped)
    } else if str_eq(s, "will_cast") {
        Some(TokenBehaviorTriggerWhenName::WillCast)
    } else if str_eq(s, "has_cast") {
        Some(TokenBehaviorTriggerWhenName::HasCast)
    } else if str_eq(s, "check_cancel") {
        Some(TokenBehaviorTriggerWhenName::CheckCancel)
    } else {
        None
    }
}

/// Why a `when` text is not `<activator>:<trigger>`.
#[derive(Clone, Copy, PartialEq, Eq, Structural, Debug)]
pub enum TriggerWhenError {
    /// The text does not split at `:` into exactly two parts.
    NotTwoParts,
    UnknownActivator,
    UnknownTriggerName,
}

/// `k` is the position of the only `:` in `s`.
pub open spec fn only_colon_at(s: Seq<char>, k: int) -> bool {
    &&& 0 <= k < s.len()
    &&& s[k] == ':'
    &&& forall|j: int| 0 <= j < s.len() && j != k ==> s[j] != ':'
}

/// What reading a `when` text gives: it must hold exactly one `:`; the activator before
/// it is read first, then the trigger name after it.
pub open spec fn spec_parse_trigger_when(s: Seq<char>) -> Result<
    TokenBehaviorTriggerWhen,
    TriggerWhenError,
> {
    if exists|k: int| only_colon_at(s, k) {
        let k = choose|k: int| only_colon_at(s, k);
        match spec_parse_activator(s.take(k)) {
            None => Err(TriggerWhenError::UnknownActivator),
            Some(activator) => match spec_parse_trigger_name(s.skip(k + 1)) {
                None => Err(TriggerWhenError::UnknownTriggerName),
                Some(name) => Ok(TokenBehaviorTriggerWhen { activator, name }),
            },
        }
    } else {
        Err(TriggerWhenError::NotTwoParts)
    }
}

/// Reads a `when` text of the form `<activator>:<trigger>`.
pub fn parse_trigger_when(s: &str) -> (r: Result<TokenBehaviorTriggerWhen, TriggerWhenError>)
    ensures
        r == spec_parse_trigger_when(s@),
{
    let n = s.unicode_len();
    let mut count: usize = 0;
    let mut first: usize = 0;
    let mut i: usize = 0;
    while i < n
        invariant
            n == s@.len(),
            i <= n,
            count <= i,
            count == 0 ==> forall|j: int| 0 <= j < i ==> s@[j] != ':',
            count >= 1 ==> first < i && s@[first as int] == ':',
            count == 1 ==> forall|j: int| 0 <= j < i && j != first ==> s@[j] != ':',
            count >= 2 ==> exists|j: int| 0 <= j < i && j != first && s@[j] == ':',
        decreases n - i,
    {
        if s.get_char(i) == ':' {
            if count == 0 {
                first = i;
            }
            count = count + 1;
        }
        i = i + 1;
    }
    if count != 1 {
        proof {
            if exists|k: int| only_colon_at(s@, k) {
                let k = choose|k: int| only_colon_at(s@, k);
                if count == 0 {
                    assert(s@[k] == ':');
                } else {
                    let j = choose|j: int| 0 <= j < n && j != first && s@[j] == ':';
                    assert(j == k);
                    assert(first == k);
                }
            }
        }
        return Err(TriggerWhenError::NotTwoParts);
    }
    assert(only_colon_at(s@, first as int));
    assert forall|k: int| only_colon_at(s@, k) implies k == first by {}
    let activator_text = s.substring_char(0, first);
    let name_text = s.substring_char(first + 1, n);
    assert(activator_text@ =~= s@.take(first as int));
    assert(name_text@ =~= s@.skip(first + 1));
    match parse_activator(activator_text) {
        None => Err(TriggerWhenError::UnknownActivator),
        Some(activator) => match parse_trigger_name(name_text) {
            None => Err(TriggerWhenError::UnknownTriggerName),
            Some(name) => Ok(TokenBehaviorTriggerWhen { activator, name }),
        },
    }
}

/// An extra condition a trigger checks before it fires.
pub enum TokenBehaviorTriggerAnd {
    TypeContains { target: TokenTarget, types: Vec<String> },
    Count { filter: TokenFilter, condition: CountCondition, count: i32 },
    AdjacentTo { source: UnitTarget, target: UnitTarget },
}

/// How a count compares with a number.
#[derive(Clone, Copy, PartialEq, Eq, Structural, Debug)]
pub enum CountCondition {
    Greater,
    GreaterEqual,
    Less,
    LessEqual,
    Equal,
    NotEqual,
}

pub open spec fn spec_count_holds(c: CountCondition, a: int, b: int) -> bool {
    match c {
        CountCondition::Greater => a > b,
        CountCondition::GreaterEqual => a >= b,
        CountCondition::Less => a < b,
        CountCondition::LessEqual => a <= b,
        CountCondition::Equal => a == b,
        CountCondition::NotEqual => a != b,
    }
}

impl CountCondition {
    /// Whether `a` stands in this relation to `b`.
    pub fn evaluate(&self, a: i32, b: i32) -> (r: bool)
        ensures
            r == spec_count_holds(*self, a as int, b as int),
    {
        match self {
            CountCondition::Greater => a > b,
            CountCondition::GreaterEqual => a >= b,
            CountCondition::Less => a < b,
            CountCondition::LessEqual => a <= b,
            CountCondition::Equal => a == b,
            CountCondition::NotEqual => a != b,
        }
    }
}

/// `Equal` and `NotEqual` say opposite things, as do `Less` and `GreaterEqual`, and
/// `Greater` and `LessEqual`.
pub proof fn lemma_count_conditions_complement(a: int, b: int)
    ensures
        spec_count_holds(CountCondition::Equal, a, b) != spec_count_holds(
            CountCondition::NotEqual,
            a,
            b,
        ),
        spec_count_holds(CountCondition::Less, a, b) != spec_count_holds(
            CountCondition::GreaterEqual,
            a,
            b,
        ),
        spec_count_holds(CountCondition::Greater, a, b) != spec_count_holds(
            CountCondition::LessEqual,
            a,
            b,
        ),
{
}

/// Which players an action or filter is about.
#[derive(Clone, Copy, PartialEq, Eq, Structural, Debug)]
pub enum PlayerTarget {
    Owner,
    Opponent,
    Either,
    Random,
}

impl Default for PlayerTarget {
    fn default() -> (r: Self)
        ensures
            r == PlayerTarget::Either,
    {
        PlayerTarget::Either
    }
}

/// The players a target names for a given owner; `Random` names one player, either one.
pub open spec fn spec_player_target_ok(t: PlayerTarget, owner: PlayerId, r: Seq<PlayerId>) -> bool {
    match t {
        PlayerTarget::Owner => r == seq![owner],
        PlayerTarget::Opponent => r == seq![crate::id_types::spec_opponent(owner)],
        PlayerTarget::Either => r == seq![PlayerId::Player1, PlayerId::Player2],
        PlayerTarget::Random => r == seq![PlayerId::Player1] || r == seq![PlayerId::Player2],
    }
}

/// The players a target names for a given owner, with the coin flips read from `cs`
/// starting at flip `k`, and where the next reading would start: `Random` takes one flip
/// and names the first player when it is up and the second otherwise.
pub open spec fn spec_player_target(t: PlayerTarget, owner: PlayerId, cs: spec_fn(int) -> bool, k: int) -> (Seq<PlayerId>, int) {
    match t {
        PlayerTarget::Owner => (seq![owner], k),
        PlayerTarget::Opponent => (seq![crate::id_types::spec_opponent(owner)], k),
        PlayerTarget::Either => (seq![PlayerId::Player1, PlayerId::Player2], k),
        PlayerTarget::Random => (if cs(k) {
            seq![PlayerId::Player1]
        } else {
            seq![PlayerId::Player2]
        }, k + 1),
    }
}

impl PlayerTarget {
    /// The players this target names, seen from `owner`, with `Random` taking a flip of
    /// `coins` (see `spec_player_target`).
    pub fn evaluate_with(&self, owner: PlayerId, coins: &mut Coins) -> (r: Vec<PlayerId>)
        ensures
            extends(final(coins)@, old(coins)@),
            forall|cs: spec_fn(int) -> bool|
                agrees(cs, final(coins)@) ==> #[trigger] spec_player_target(*self, owner, cs, old(coins)@.len() as int)
                    == (r@, final(coins)@.len() as int),
    {
        let mut v = Vec::new();
        match self {
            PlayerTarget::Owner => v.push(owner),
            PlayerTarget::Opponent => v.push(owner.opponent()),
            PlayerTarget::Either => {
                v.push(PlayerId::Player1);
                v.push(PlayerId::Player2);
            },
            PlayerTarget::Random => {
                if coins.flip() {
                    v.push(PlayerId::Player1);
                } else {
                    v.push(PlayerId::Player2);
                }
            },
        }
        assert forall|cs: spec_fn(int) -> bool|
            agrees(cs, coins@) implies #[trigger] spec_player_target(*self, owner, cs, old(coins)@.len() as int)
                == (v@, coins@.len() as int) by {
            if *self is Random {
                assert(cs(old(coins)@.len() as int) == coins@[old(coins)@.len() as int]);
            }
            assert(v@ =~= spec_player_target(*self, owner, cs, old(coins)@.len() as int).0);
        }
        v
    }

    /// The players this target names, seen from `owner`.
    pub fn evaluate(&self, owner: PlayerId) -> (r: Vec<PlayerId>)
        ensures
            spec_player_target_ok(*self, owner, r@),
    {
        let mut v = Vec::new();
        match self {
            PlayerTarget::Owner => v.push(owner),
            PlayerTarget::Opponent => v.push(owner.opponent()),
            PlayerTarget::Either => {
                v.push(PlayerId::Player1);
                v.push(PlayerId::Player2);
            },
            PlayerTarget::Random => {
                if random_bool() {
                    v.push(PlayerId::Player1);
                } else {
                    v.push(PlayerId::Player2);
                }
            },
        }
        assert(spec_player_target_ok(*self, owner, v@)) by {
            assert(v@ =~= seq![owner] || v@ =~= seq![crate::id_types::spec_opponent(owner)] || v@
                =~= seq![PlayerId::Player1, PlayerId::Player2] || v@ =~= seq![PlayerId::Player1]
                || v@ =~= seq![PlayerId::Player2]);
        }
        v
    }
}

/// Which units an action or condition is about.
pub enum UnitTarget {
    This,
    Find { filter: Box<TokenFilter> },
    EquippingUnit,
    All,
    Context { key: String },
}

impl Default for UnitTarget {
    fn default() -> (r: Self)
        ensures
            r is All,
    {
        UnitTarget::All
    }
}

/// Which tokens an action or condition is about.
pub enum TokenTarget {
    This,
    Find { filter: TokenFilter },
    EquippingUnit,
    Context { key: String },
}

#[derive(Clone, Copy, PartialEq, Eq, Structural, Debug)]
pub enum LocationTarget {
    OwnerHand,
    OwnerSet,
    OwnerGraveyard,
    OpponentHand,
    OpponentSet,
    OpponentGraveyard,
}

/// Conditions a token must meet; each one given narrows the choice.
pub struct TokenFilter {
    pub owned_by: Option<PlayerTarget>,
    pub adjacent_to: Option<UnitTarget>,
    pub contains_types: Option<Vec<String>>,
    pub id_is: Option<Vec<String>>,
}

/// What a behavior does once it fires.
pub enum TokenBehaviorAction {
    DrawToken { target: PlayerTarget },
    Replace { target: UnitTarget, replacement: String },
    AddTypes { target: UnitTarget, types: Vec<String> },
    ModifyAttack { target: UnitTarget, amount: i32 },
    ModifyHealth { target: UnitTarget, amount: i32 },
    ModifyDefense { target: UnitTarget, amount: i32 },
    ModifyCost { target: UnitTarget, amount: i32 },
    Destroy { target: TokenTarget },
    Summon { target: UnitTarget, token: String },
    RedirectTarget { new_target: UnitTarget },
    DamageUnit { target: UnitTarget, amount: u32 },
    DamageHero { target: PlayerTarget, amount: u32 },
    GiveAllTypes { target: TokenTarget },
    Cancel,
    SelectUnit { context_key: String, filter: TokenFilter },
    SaveContext { context_key: String, personal_key: String },
    SumAttack { target: UnitTarget, filter: TokenFilter },
    AddBehavior { target: TokenTarget, behavior: String },
    RemoveBehavior { target: TokenTarget, behavior: String },
    SetCounter { target: TokenTarget, counter: String, value: i32 },
    ModifyCounter { target: TokenTarget, counter: String, amount: i32 },
    CreateToken { location: LocationTarget, id: String },
}

} // verus!
