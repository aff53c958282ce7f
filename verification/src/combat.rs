//! The combat rules: how one round is decided, and how rounds are strung
//! together into a sequence of outcomes.
//!
//! An outcome is `1` when the first player wins an exchange and `-1` when the
//! second player wins it. A round contributes two outcomes: first the
//! exchange in which the first player attacks, then the one in which the
//! second player attacks.

use vstd::prelude::*;

use crate::die::{draw, is_face, DieError};
use crate::player::{Combatant, Player};

verus! {

/// The outcome of the exchange in which `a` attacks `b`.
///
/// `a` wins when its roll plus its attack bonus reaches `b`'s roll plus its
/// defense bonus; equal totals count as reached. The outcome is then `1`,
/// otherwise `-1`.
pub open spec fn first_exchange(a: Combatant, b: Combatant, roll_a: int, roll_b: int) -> i32 {
    if roll_a + a.attack_bonus < roll_b + b.defense_bonus {
        -1i32
    } else {
        1i32
    }
}

/// The outcome of the exchange in which `b` attacks `a`.
///
/// `b` wins when its roll plus its attack bonus reaches `a`'s roll plus its
/// defense bonus; equal totals count as reached. The outcome is then `-1`,
/// otherwise `1`. With equal totals in both exchanges a round is therefore
/// split: `1` for the first exchange and `-1` for the second.
pub open spec fn second_exchange(a: Combatant, b: Combatant, roll_a: int, roll_b: int) -> i32 {
    if roll_b + b.attack_bonus < roll_a + a.defense_bonus {
        1i32
    } else {
        -1i32
    }
}

/// The outcomes of playing one round per pair of `rolls`, in order.
///
/// Each pair holds the first player's roll and then the second player's.
/// Round `i` fills positions `2 * i` and `2 * i + 1`.
pub open spec fn outcomes(a: Combatant, b: Combatant, rolls: Seq<(i32, i32)>) -> Seq<i32> {
    Seq::new(
        2 * rolls.len(),
        |k: int|
            if k % 2 == 0 {
                first_exchange(a, b, rolls[k / 2].0 as int, rolls[k / 2].1 as int)
            } else {
                second_exchange(a, b, rolls[k / 2].0 as int, rolls[k / 2].1 as int)
            },
    )
}

/// Whether every roll in `rolls` is a face of a die with `dice` faces.
pub open spec fn all_faces(rolls: Seq<(i32, i32)>, dice: int) -> bool {
    forall|i: int|
        0 <= i < rolls.len() ==> is_face((#[trigger] rolls[i]).0 as int, dice) && is_face(
            rolls[i].1 as int,
            dice,
        )
}

/// The number of rounds played when `loops` rounds are asked for: a negative
/// request plays none.
pub open spec fn rounds_played(loops: int) -> nat {
    if loops < 0 {
        0
    } else {
        loops as nat
    }
}

/// Whether `results` is what `loops` rounds between `a` and `b` give for some
/// rolls of a die with `dice` faces.
pub open spec fn is_simulation(
    results: Seq<i32>,
    a: Combatant,
    b: Combatant,
    dice: int,
    loops: int,
) -> bool {
    exists|rolls: Seq<(i32, i32)>|
        rolls.len() == rounds_played(loops) && all_faces(rolls, dice) && results
            == #[trigger] outcomes(a, b, rolls)
}

/// Decides one round from the two rolls: the outcome of the first player's
/// attack, then the outcome of the second player's attack.
pub fn resolve_round(
    player1: &Player,
    player2: &Player,
    p1_roll: i32,
    p2_roll: i32,
) -> (round: (i32, i32))
    ensures
        round.0 == first_exchange(player1@, player2@, p1_roll as int, p2_roll as int),
        round.1 == second_exchange(player1@, player2@, p1_roll as int, p2_roll as int),
{
    let p1_atk: i64 = p1_roll as i64 + player1.atk_bonus as i64;
    let p2_atk: i64 = p2_roll as i64 + player2.atk_bonus as i64;
    let p1_def: i64 = p1_roll as i64 + player1.def_bonus as i64;
    let p2_def: i64 = p2_roll as i64 + player2.def_bonus as i64;

    // player 1 attacks
    let first: i32 = if p1_atk < p2_def {
        -1
    } else if p1_atk == p2_def {
        1
    } else {
        1
    };

    // player 2 attacks
    let second: i32 = if p2_atk < p1_def {
        1
    } else if p2_atk == p1_def {
        -1
    } else {
        -1
    };
    (first, second)
}

/// Plays one round per pair of `rolls` and returns every outcome in order.
///
/// The rolls fix the result completely: the same players and rolls always
/// give the same outcomes.
pub fn replay(player1: &Player, player2: &Player, rolls: &Vec<(i32, i32)>) -> (results: Vec<i32>)
    ensures
        results@ == outcomes(player1@, player2@, rolls@),
{
    let mut results: Vec<i32> = Vec::new();
    let mut i: usize = 0;
    while i < rolls.len()
        invariant
            i <= rolls.len(),
            results@ == outcomes(player1@, player2@, rolls@.take(i as int)),
        decreases rolls.len() - i,
    {
        let (p1_roll, p2_roll) = rolls[i];
        let (first, second) = resolve_round(player1, player2, p1_roll, p2_roll);
        results.push(first);
        results.push(second);
        proof {
            lemma_outcomes_push(player1@, player2@, rolls@.take(i as int), rolls@[i as int]);
            assert(rolls@.take(i as int).push(rolls@[i as int]) == rolls@.take(i + 1));
        }
        i += 1;
    }
    assert(rolls@.take(i as int) == rolls@);
    results
}

/// Plays `loops` rounds between the two players with a die of `dice` faces,
/// rolling once per player and round.
///
/// A die with fewer than one face cannot be rolled, so `dice` must be at
/// least one whenever a round is played. A negative `loops` plays no round.
pub fn calculate(player1: &Player, player2: &Player, dice: i32, loops: i32) -> (results: Vec<i32>)
    requires
        loops > 0 ==> dice >= 1,
    ensures
        results@.len() == 2 * rounds_played(loops as int),
        forall|k: int| 0 <= k < results@.len() ==> results@[k] == 1 || results@[k] == -1,
        is_simulation(results@, player1@, player2@, dice as int, loops as int),
{
    let mut results: Vec<i32> = Vec::new();
    let ghost mut rolls: Seq<(i32, i32)> = Seq::empty();
    let mut i: i32 = 0;
    while i < loops
        invariant
            0 <= i <= rounds_played(loops as int),
            loops > 0 ==> dice >= 1,
            rolls.len() == i,
            all_faces(rolls, dice as int),
            results@ == outcomes(player1@, player2@, rolls),
        decreases loops - i,
    {
        let p1_roll: i32 = draw(dice);
        let p2_roll: i32 = draw(dice);
        let (first, second) = resolve_round(player1, player2, p1_roll, p2_roll);
        results.push(first);
        results.push(second);
        proof {
            lemma_outcomes_push(player1@, player2@, rolls, (p1_roll, p2_roll));
            rolls = rolls.push((p1_roll, p2_roll));
        }
        i += 1;
    }
    proof {
        lemma_outcomes_never_tie(player1@, player2@, rolls);
    }
    results
}

/// Plays `iterations` rounds between `a` and `b` with a die of `die_size`
/// faces, or rejects the die.
///
/// The die is rejected exactly when a round would have to roll a die with
/// fewer than one face; nothing is rolled then.
pub fn simulate(
    a: &Player,
    b: &Player,
    die_size: i32,
    iterations: i32,
) -> (run: Result<Vec<i32>, DieError>)
    ensures
        run is Err <==> iterations > 0 && die_size < 1,
        run matches Err(e) ==> e == DieError::InvalidArgument,
        run matches Ok(results) ==> results@.len() == 2 * rounds_played(iterations as int),
        run matches Ok(results) ==> forall|k: int|
            0 <= k < results@.len() ==> results@[k] == 1 || results@[k] == -1,
        run matches Ok(results) ==> is_simulation(
            results@,
            a@,
            b@,
            die_size as int,
            iterations as int,
        ),
{
    if iterations > 0 && die_size < 1 {
        Err(DieError::InvalidArgument)
    } else {
        Ok(calculate(a, b, die_size, iterations))
    }
}

/// Playing one more round appends its two outcomes and leaves the earlier
/// ones as they were.
pub proof fn lemma_outcomes_push(
    a: Combatant,
    b: Combatant,
    rolls: Seq<(i32, i32)>,
    next: (i32, i32),
)
    ensures
        outcomes(a, b, rolls.push(next)) == outcomes(a, b, rolls).push(
            first_exchange(a, b, next.0 as int, next.1 as int),
        ).push(second_exchange(a, b, next.0 as int, next.1 as int)),
{
    let longer = outcomes(a, b, rolls.push(next));
    let pushed = outcomes(a, b, rolls).push(
        first_exchange(a, b, next.0 as int, next.1 as int),
    ).push(second_exchange(a, b, next.0 as int, next.1 as int));
    assert(longer.len() == pushed.len());
    assert forall|k: int| 0 <= k < longer.len() implies longer[k] == pushed[k] by {
        if k < 2 * rolls.len() {
            assert(rolls.push(next)[k / 2] == rolls[k / 2]);
        } else {
            assert(k / 2 == rolls.len());
            assert(rolls.push(next)[k / 2] == next);
        }
    }
    assert(longer =~= pushed);
}

/// Every round yields exactly two outcomes.
pub proof fn lemma_outcomes_len(a: Combatant, b: Combatant, rolls: Seq<(i32, i32)>)
    ensures
        outcomes(a, b, rolls).len() == 2 * rolls.len(),
        outcomes(a, b, rolls).len() % 2 == 0,
{
}

/// Every outcome names a winner: the value is `1` or `-1`, never `0`.
pub proof fn lemma_outcomes_never_tie(a: Combatant, b: Combatant, rolls: Seq<(i32, i32)>)
    ensures
        forall|k: int|
            0 <= k < outcomes(a, b, rolls).len() ==> #[trigger] outcomes(a, b, rolls)[k] == 1
                || outcomes(a, b, rolls)[k] == -1,
{
}

/// The names are for display only: players with the same bonuses get the
/// same outcomes from the same rolls.
pub proof fn lemma_names_do_not_matter(
    a: Combatant,
    b: Combatant,
    renamed_a: Combatant,
    renamed_b: Combatant,
    rolls: Seq<(i32, i32)>,
)
    requires
        renamed_a.attack_bonus == a.attack_bonus,
        renamed_a.defense_bonus == a.defense_bonus,
        renamed_b.attack_bonus == b.attack_bonus,
        renamed_b.defense_bonus == b.defense_bonus,
    ensures
        outcomes(renamed_a, renamed_b, rolls) == outcomes(a, b, rolls),
{
    assert(outcomes(renamed_a, renamed_b, rolls) =~= outcomes(a, b, rolls));
}

} // verus!
