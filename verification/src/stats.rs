//! Reading a sequence of outcomes: who won each exchange, and how often.
//!
//! Outcomes come in rounds of two. The first slot of a round holds the
//! exchange in which the first player attacks, the second slot the one in
//! which the second player attacks.

use vstd::prelude::*;

use crate::combat::{first_exchange, outcomes, second_exchange};
use crate::player::Combatant;

verus! {

/// What one outcome says about an exchange.
#[derive(Clone, Copy, Debug, PartialEq, Eq, Structural)]
pub enum Verdict {
    /// The outcome is `1`: the first player won.
    FirstWins,
    /// The outcome is `-1`: the second player won.
    SecondWins,
    /// Any other value: nobody won.
    Tie,
}

/// The verdict that an outcome stands for.
pub open spec fn verdict_of(outcome: int) -> Verdict {
    if outcome == 1 {
        Verdict::FirstWins
    } else if outcome == -1 {
        Verdict::SecondWins
    } else {
        Verdict::Tie
    }
}

impl Verdict {
    /// Reads one outcome.
    pub fn of(outcome: i32) -> (verdict: Verdict)
        ensures
            verdict == verdict_of(outcome as int),
    {
        if outcome == 1 {
            Verdict::FirstWins
        } else if outcome == -1 {
            Verdict::SecondWins
        } else {
            Verdict::Tie
        }
    }
}

/// How many of the first `rounds` rounds of `results` hold `value` in `slot`,
/// where slot `0` is the first outcome of a round and slot `1` the second.
pub open spec fn count_in_slot(results: Seq<i32>, slot: int, value: int, rounds: nat) -> nat
    decreases rounds,
{
    if rounds == 0 {
        0
    } else {
        let earlier = count_in_slot(results, slot, value, (rounds - 1) as nat);
        if results[2 * (rounds - 1) + slot] == value {
            earlier + 1
        } else {
            earlier
        }
    }
}

/// Wins per player and slot over a sequence of outcomes.
///
/// The `atk` counts read the first slot of every round and the `def` counts
/// the second: `p1_atk_wins` and `p2_atk_wins` are the rounds whose first
/// slot went to the first and to the second player, `p1_def_wins` and
/// `p2_def_wins` the same for the second slot.
#[derive(Clone, Copy, Debug, PartialEq, Eq, Structural)]
pub struct Tally {
    pub p1_atk_wins: usize,
    pub p1_def_wins: usize,
    pub p2_atk_wins: usize,
    pub p2_def_wins: usize,
}

/// The tally of the first `rounds` rounds of `results`.
pub open spec fn tally_of(results: Seq<i32>, rounds: nat) -> (nat, nat, nat, nat) {
    (
        count_in_slot(results, 0, 1, rounds),
        count_in_slot(results, 1, 1, rounds),
        count_in_slot(results, 0, -1, rounds),
        count_in_slot(results, 1, -1, rounds),
    )
}

/// Counts the wins of each player in each slot.
///
/// Outcomes other than `1` and `-1` count for nobody. The outcomes must come
/// in whole rounds.
pub fn tally(results: &Vec<i32>) -> (t: Tally)
    requires
        results@.len() % 2 == 0,
    ensures
        (t.p1_atk_wins as nat, t.p1_def_wins as nat, t.p2_atk_wins as nat, t.p2_def_wins as nat)
            == tally_of(results@, (results@.len() / 2) as nat),
{
    let rounds: usize = results.len() / 2;
    let mut p1_atk_wins: usize = 0;
    let mut p1_def_wins: usize = 0;
    let mut p2_atk_wins: usize = 0;
    let mut p2_def_wins: usize = 0;
    let mut i: usize = 0;
    while i < rounds
        invariant
            i <= rounds,
            2 * rounds == results.len(),
            p1_atk_wins <= i,
            p1_def_wins <= i,
            p2_atk_wins <= i,
            p2_def_wins <= i,
            (p1_atk_wins as nat, p1_def_wins as nat, p2_atk_wins as nat, p2_def_wins as nat)
                == tally_of(results@, i as nat),
        decreases rounds - i,
    {
        let first: i32 = results[2 * i];
        let second: i32 = results[2 * i + 1];
        match Verdict::of(first) {
            Verdict::FirstWins => p1_atk_wins += 1,
            Verdict::SecondWins => p2_atk_wins += 1,
            Verdict::Tie => (),
        }
        match Verdict::of(second) {
            Verdict::FirstWins => p1_def_wins += 1,
            Verdict::SecondWins => p2_def_wins += 1,
            Verdict::Tie => (),
        }
        i += 1;
    }
    Tally { p1_atk_wins, p1_def_wins, p2_atk_wins, p2_def_wins }
}

/// Whatever the outcomes are, the wins of the two players in a slot never
/// add up to more than the number of rounds.
pub proof fn lemma_wins_at_most_rounds(results: Seq<i32>, slot: int, rounds: nat)
    ensures
        count_in_slot(results, slot, 1, rounds) + count_in_slot(results, slot, -1, rounds)
            <= rounds,
    decreases rounds,
{
    if rounds > 0 {
        lemma_wins_at_most_rounds(results, slot, (rounds - 1) as nat);
    }
}

/// Every exchange of a played round has a winner, so in each slot the wins of
/// the two players add up to the number of rounds.
pub proof fn lemma_wins_fill_rounds(
    a: Combatant,
    b: Combatant,
    rolls: Seq<(i32, i32)>,
    slot: int,
    rounds: nat,
)
    requires
        slot == 0 || slot == 1,
        rounds <= rolls.len(),
    ensures
        count_in_slot(outcomes(a, b, rolls), slot, 1, rounds) + count_in_slot(
            outcomes(a, b, rolls),
            slot,
            -1,
            rounds,
        ) == rounds,
    decreases rounds,
{
    if rounds > 0 {
        lemma_wins_fill_rounds(a, b, rolls, slot, (rounds - 1) as nat);
        let k = 2 * (rounds - 1) + slot;
        assert(outcomes(a, b, rolls)[k] == 1 || outcomes(a, b, rolls)[k] == -1);
    }
}

/// The combatant `a` with `extra` added to its attack bonus.
pub open spec fn with_more_attack(a: Combatant, extra: int) -> Combatant {
    Combatant { attack_bonus: a.attack_bonus + extra, ..a }
}

/// With the rolls held fixed, a larger attack bonus never costs the first
/// player an exchange: an attack that it won is still won, and the exchange
/// in which it defends is not touched.
pub proof fn lemma_attack_bonus_keeps_wins(
    a: Combatant,
    b: Combatant,
    roll_a: int,
    roll_b: int,
    extra: int,
)
    requires
        extra >= 0,
    ensures
        first_exchange(a, b, roll_a, roll_b) <= first_exchange(
            with_more_attack(a, extra),
            b,
            roll_a,
            roll_b,
        ),
        second_exchange(a, b, roll_a, roll_b) == second_exchange(
            with_more_attack(a, extra),
            b,
            roll_a,
            roll_b,
        ),
        first_exchange(with_more_attack(a, extra), b, roll_a, roll_b) == 1 <==> roll_a
            + a.attack_bonus + extra >= roll_b + b.defense_bonus,
{
}

/// With the rolls held fixed, a larger attack bonus never lowers the number
/// of attacks that the first player wins.
pub proof fn lemma_attack_bonus_never_hurts(
    a: Combatant,
    b: Combatant,
    rolls: Seq<(i32, i32)>,
    extra: int,
    rounds: nat,
)
    requires
        extra >= 0,
        rounds <= rolls.len(),
    ensures
        count_in_slot(outcomes(a, b, rolls), 0, 1, rounds) <= count_in_slot(
            outcomes(with_more_attack(a, extra), b, rolls),
            0,
            1,
            rounds,
        ),
    decreases rounds,
{
    if rounds > 0 {
        lemma_attack_bonus_never_hurts(a, b, rolls, extra, (rounds - 1) as nat);
        let k = 2 * (rounds - 1);
        assert(k / 2 == rounds - 1 && k % 2 == 0);
        lemma_attack_bonus_keeps_wins(
            a,
            b,
            rolls[k / 2].0 as int,
            rolls[k / 2].1 as int,
            extra,
        );
    }
}

/// With the rolls held fixed, a larger attack bonus strictly raises the
/// number of attacks that the first player wins as soon as it turns one
/// lost attack into a won one.
pub proof fn lemma_attack_bonus_helps(
    a: Combatant,
    b: Combatant,
    rolls: Seq<(i32, i32)>,
    extra: int,
    turned: int,
    rounds: nat,
)
    requires
        extra >= 0,
        0 <= turned < rounds <= rolls.len(),
        first_exchange(a, b, rolls[turned].0 as int, rolls[turned].1 as int) == -1,
        first_exchange(
            with_more_attack(a, extra),
            b,
            rolls[turned].0 as int,
            rolls[turned].1 as int,
        ) == 1,
    ensures
        count_in_slot(outcomes(a, b, rolls), 0, 1, rounds) < count_in_slot(
            outcomes(with_more_attack(a, extra), b, rolls),
            0,
            1,
            rounds,
        ),
    decreases rounds,
{
    let k = 2 * (rounds - 1);
    assert(k / 2 == rounds - 1 && k % 2 == 0);
    if turned == rounds - 1 {
        lemma_attack_bonus_never_hurts(a, b, rolls, extra, (rounds - 1) as nat);
    } else {
        lemma_attack_bonus_helps(a, b, rolls, extra, turned, (rounds - 1) as nat);
        lemma_attack_bonus_keeps_wins(
            a,
            b,
            rolls[k / 2].0 as int,
            rolls[k / 2].1 as int,
            extra,
        );
    }
}

} // verus!
