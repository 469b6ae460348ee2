//! The named movements the client can play for a token.
use vstd::prelude::*;

verus! {

#[derive(Clone, Copy, PartialEq, Eq, Structural, Debug)]
pub enum AnimationPreset {
    SelectForAttack,
    Raise,
    EaseInOut,
    Attack,
    TakeDamage,
}

pub open spec fn spec_preset_name(p: AnimationPreset) -> Seq<char> {
    match p {
        AnimationPreset::SelectForAttack => "SelectForAttack"@,
        AnimationPreset::Raise => "Raise"@,
        AnimationPreset::EaseInOut => "EaseInOut"@,
        AnimationPreset::Attack => "Attack"@,
        AnimationPreset::TakeDamage => "TakeDamage"@,
    }
}

impl AnimationPreset {
    /// The preset's name, as the client knows it.
    pub fn to_string(&self) -> (s: String)
        ensures
            s@ == spec_preset_name(*self),
    {
        match self {
            AnimationPreset::SelectForAttack => String::from_str("SelectForAttack"),
            AnimationPreset::Raise => String::from_str("Raise"),
            AnimationPreset::EaseInOut => String::from_str("EaseInOut"),
            AnimationPreset::Attack => String::from_str("Attack"),
            AnimationPreset::TakeDamage => String::from_str("TakeDamage"),
        }
    }
}

} // verus!
