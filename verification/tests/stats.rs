use jesterd20::{calculate, replay, tally, Player, Tally, Verdict};

fn player(name: &str, atk_bonus: i32, def_bonus: i32) -> Player {
    Player { name: name.to_string(), atk_bonus, def_bonus }
}

#[test]
fn verdict_reads_the_three_kinds_of_outcome() {
    assert_eq!(Verdict::of(1), Verdict::FirstWins);
    assert_eq!(Verdict::of(-1), Verdict::SecondWins);
    assert_eq!(Verdict::of(0), Verdict::Tie);
    assert_eq!(Verdict::of(2), Verdict::Tie);
    assert_eq!(Verdict::of(i32::MIN), Verdict::Tie);
}

#[test]
fn tally_of_nothing_is_zero() {
    let empty = Tally { p1_atk_wins: 0, p1_def_wins: 0, p2_atk_wins: 0, p2_def_wins: 0 };
    assert_eq!(tally(&Vec::new()), empty);
}

#[test]
fn tally_counts_each_slot_apart() {
    let results = vec![1, -1, 1, 1, -1, -1, 1, -1];
    let expected = Tally { p1_atk_wins: 3, p1_def_wins: 1, p2_atk_wins: 1, p2_def_wins: 3 };
    assert_eq!(tally(&results), expected);
}

#[test]
fn tally_skips_ties() {
    let results = vec![0, 1, -1, 0, 7, -7, 1, 1];
    let expected = Tally { p1_atk_wins: 1, p1_def_wins: 2, p2_atk_wins: 1, p2_def_wins: 0 };
    assert_eq!(tally(&results), expected);
}

#[test]
fn tally_of_replayed_rounds() {
    let a = player("A", 0, 0);
    let b = player("B", 0, 0);
    let results = replay(&a, &b, &vec![(10, 10), (3, 9), (9, 3)]);
    assert_eq!(results, vec![1, -1, -1, -1, 1, 1]);
    let expected = Tally { p1_atk_wins: 2, p1_def_wins: 1, p2_atk_wins: 1, p2_def_wins: 2 };
    assert_eq!(tally(&results), expected);
}

#[test]
fn wins_of_both_players_fill_the_rounds() {
    let a = player("A", 2, 0);
    let b = player("B", 0, 1);
    let rounds = 300;
    let counts = tally(&calculate(&a, &b, 20, rounds));
    assert_eq!(counts.p1_atk_wins + counts.p2_atk_wins, rounds as usize);
    assert_eq!(counts.p1_def_wins + counts.p2_def_wins, rounds as usize);
}
