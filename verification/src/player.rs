//! The players that fight each other.

use vstd::prelude::*;

verus! {

/// A named player with the bonuses added to each of its rolls.
///
/// The name is for display only. The bonuses may be any integer.
#[derive(Debug)]
pub struct Player {
    pub name: String,
    pub atk_bonus: i32,
    pub def_bonus: i32,
}

/// What a [`Player`] means to the combat rules: its name and its two bonuses
/// as mathematical integers.
pub struct Combatant {
    pub name: Seq<char>,
    pub attack_bonus: int,
    pub defense_bonus: int,
}

impl View for Player {
    type V = Combatant;

    open spec fn view(&self) -> Combatant {
        Combatant {
            name: self.name@,
            attack_bonus: self.atk_bonus as int,
            defense_bonus: self.def_bonus as int,
        }
    }
}

} // verus!
