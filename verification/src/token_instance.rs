//! A token in play: which kind it is, whose it is, where it lies and how it stands.
use vstd::prelude::*;

use crate::id_types::{LocationId, PlayerId, TokenInstanceId};

verus! {

/// Health, defense and attack of a unit or hero.
#[derive(Clone, Copy, PartialEq, Eq, Structural, Debug)]
pub struct UnitStats {
    pub health: i32,
    pub defense: i32,
    pub attack: i32,
}

/// Damage first wears down defense; what is left over comes off health, which stops at 0.
/// Once defense is used up it stays at 0.
pub open spec fn spec_after_damage(s: UnitStats, amount: int) -> UnitStats {
    let defense = s.defense - amount;
    if defense <= 0 {
        let health = s.health + defense;
        UnitStats {
            health: if health <= 0 {
                0
            } else {
                health as i32
            },
            defense: 0,
            attack: s.attack,
        }
    } else {
        UnitStats { health: s.health, defense: defense as i32, attack: s.attack }
    }
}

/// The damage fits the integer types the stats are kept in.
pub open spec fn damage_fits(s: UnitStats, amount: int) -> bool {
    &&& i32::MIN <= s.defense - amount <= i32::MAX
    &&& (s.defense - amount <= 0 ==> i32::MIN <= s.health + s.defense - amount)
}

impl UnitStats {
    /// Takes `amount` of damage: defense absorbs it first, then health, which does not
    /// go below 0.
    pub fn process_damage(&mut self, amount: i32)
        requires
            damage_fits(*old(self), amount as int),
        ensures
            *final(self) == spec_after_damage(*old(self), amount as int),
    {
        self.defense = self.defense - amount;
        if self.defense <= 0 {
            self.health = self.health + self.defense;
            if self.health <= 0 {
                self.health = 0;
            }
            self.defense = 0;
        }
    }
}

/// After damage, defense is never negative; damage that is not negative never raises
/// health or defense; a unit with health left over from damage had more defense and
/// health together than the damage.
pub proof fn lemma_damage_laws(s: UnitStats, amount: int)
    requires
        damage_fits(s, amount),
    ensures
        spec_after_damage(s, amount).defense >= 0,
        spec_after_damage(s, amount).attack == s.attack,
        amount >= 0 && s.defense >= 0 ==> spec_after_damage(s, amount).defense <= s.defense,
        amount >= 0 && s.health >= 0 ==> spec_after_damage(s, amount).health <= s.health,
        s.health >= 0 ==> spec_after_damage(s, amount).health >= 0,
        spec_after_damage(s, amount).health > 0 && spec_after_damage(s, amount).defense == 0
            ==> s.health + s.defense > amount,
{
}

/// A token in play.
pub struct TokenInstance {
    /// Where the token's data stands in the registry.
    pub data_index: usize,
    pub owner: PlayerId,
    pub location: LocationId,
    pub instance_id: TokenInstanceId,
    pub cost: u32,
    pub base_stats: UnitStats,
    pub current_stats: UnitStats,
    /// The slots where items equipped to this token lie.
    pub equipment_slots: Vec<LocationId>,
    pub token_types: Vec<String>,
    pub hidden: bool,
}

/// What a token in play is, as a value.
pub struct TokenInstanceView {
    pub data_index: usize,
    pub owner: PlayerId,
    pub location: LocationId,
    pub instance_id: TokenInstanceId,
    pub cost: u32,
    pub base_stats: UnitStats,
    pub current_stats: UnitStats,
    pub equipment_slots: Seq<LocationId>,
    pub token_types: Seq<String>,
    pub hidden: bool,
}

impl View for TokenInstance {
    type V = TokenInstanceView;

    open spec fn view(&self) -> TokenInstanceView {
        TokenInstanceView {
            data_index: self.data_index,
            owner: self.owner,
            location: self.location,
            instance_id: self.instance_id,
            cost: self.cost,
            base_stats: self.base_stats,
            current_stats: self.current_stats,
            equipment_slots: self.equipment_slots@,
            token_types: self.token_types@,
            hidden: self.hidden,
        }
    }
}

/// A copy of a list of location ids.
pub fn copy_locations(v: &Vec<LocationId>) -> (r: Vec<LocationId>)
    ensures
        r@ == v@,
{
    let mut r: Vec<LocationId> = Vec::new();
    let mut i: usize = 0;
    while i < v.len()
        invariant
            i <= v.len(),
            r@ == v@.take(i as int),
        decreases v.len() - i,
    {
        r.push(v[i]);
        i = i + 1;
        assert(r@ =~= v@.take(i as int));
    }
    assert(v@.take(v.len() as int) =~= v@);
    r
}

/// A copy of a list of strings.
pub fn copy_strings(v: &Vec<String>) -> (r: Vec<String>)
    ensures
        r@ == v@,
{
    let mut r: Vec<String> = Vec::new();
    let mut i: usize = 0;
    while i < v.len()
        invariant
            i <= v.len(),
            r@ == v@.take(i as int),
        decreases v.len() - i,
    {
        r.push(v[i].clone());
        i = i + 1;
        assert(r@ =~= v@.take(i as int));
    }
    assert(v@.take(v.len() as int) =~= v@);
    r
}

impl TokenInstance {
    /// A copy of the token, equal to it in every field.
    pub fn duplicate(&self) -> (r: TokenInstance)
        ensures
            r@ == self@,
    {
        TokenInstance {
            data_index: self.data_index,
            owner: self.owner,
            location: self.location,
            instance_id: self.instance_id,
            cost: self.cost,
            base_stats: self.base_stats,
            current_stats: self.current_stats,
            equipment_slots: copy_locations(&self.equipment_slots),
            token_types: copy_strings(&self.token_types),
            hidden: self.hidden,
        }
    }
}

} // verus!
