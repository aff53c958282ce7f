//! The state of one session: the two players, the die, the number of rounds
//! to play and the outcomes of the last run.

use vstd::prelude::*;

use crate::combat::{calculate, is_simulation};
use crate::player::Player;

verus! {

/// Why a run was not started.
#[derive(Clone, Copy, Debug, PartialEq, Eq, Structural)]
pub enum RunError {
    /// The die has fewer than one face.
    InvalidDie,
    /// The number of rounds is negative.
    NegativeLoops,
}

/// Everything a session holds between two runs.
pub struct App {
    pub player1: Player,
    pub player2: Player,
    /// The number of faces of the die.
    pub dice: i32,
    /// The number of rounds that the next run plays.
    pub loops: i32,
    /// The outcomes of the last run: `1` where the first player won an
    /// exchange, `-1` where the second player won it.
    pub results: Vec<i32>,
}

/// Why a run with a die of `dice` faces over `loops` rounds is refused, if it
/// is. The die is looked at first.
pub open spec fn refusal(dice: int, loops: int) -> Option<RunError> {
    if dice < 1 {
        Some(RunError::InvalidDie)
    } else if loops < 0 {
        Some(RunError::NegativeLoops)
    } else {
        None
    }
}

impl Default for App {
    /// Two players without bonuses, a twenty-sided die, five rounds and no
    /// outcomes yet.
    fn default() -> (app: App)
        ensures
            app.player1.name@ == "P1"@,
            app.player1.atk_bonus == 0,
            app.player1.def_bonus == 0,
            app.player2.name@ == "P2"@,
            app.player2.atk_bonus == 0,
            app.player2.def_bonus == 0,
            app.dice == 20,
            app.loops == 5,
            app.results@ == Seq::<i32>::empty(),
    {
        App {
            player1: Player { name: "P1".to_string(), atk_bonus: 0, def_bonus: 0 },
            player2: Player { name: "P2".to_string(), atk_bonus: 0, def_bonus: 0 },
            dice: 20,
            loops: 5,
            results: Vec::new(),
        }
    }
}

impl App {
    /// Plays the rounds asked for and replaces the outcomes of the last run
    /// with the new ones.
    ///
    /// A run is refused when the die has fewer than one face or the number of
    /// rounds is negative. A refused run rolls no die and changes nothing,
    /// the outcomes of the last run included.
    pub fn run(&mut self) -> (ran: Result<(), RunError>)
        ensures
            ran is Err <==> old(self).loops < 0 || old(self).dice < 1,
            ran matches Err(e) ==> refusal(old(self).dice as int, old(self).loops as int)
                == Some(e),
            ran is Err ==> final(self).results == old(self).results,
            final(self).player1 == old(self).player1,
            final(self).player2 == old(self).player2,
            final(self).dice == old(self).dice,
            final(self).loops == old(self).loops,
            ran is Ok ==> final(self).results@.len() == 2 * old(self).loops,
            ran is Ok ==> forall|k: int|
                0 <= k < final(self).results@.len() ==> final(self).results@[k] == 1
                    || final(self).results@[k] == -1,
            ran is Ok ==> is_simulation(
                final(self).results@,
                old(self).player1@,
                old(self).player2@,
                old(self).dice as int,
                old(self).loops as int,
            ),
    {
        if self.dice < 1 {
            return Err(RunError::InvalidDie);
        }
        if self.loops < 0 {
            return Err(RunError::NegativeLoops);
        }
        self.results = calculate(&self.player1, &self.player2, self.dice, self.loops);
        Ok(())
    }
}

} // verus!
