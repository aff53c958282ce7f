use jesterd20::{roll, DieError};

#[test]
fn roll_stays_on_the_die() {
    for faces in 1..=40 {
        for _ in 0..500 {
            let face = roll(faces).unwrap();
            assert!(1 <= face && face <= faces);
        }
    }
}

#[test]
fn roll_of_a_large_die_stays_on_the_die() {
    for _ in 0..2000 {
        let face = roll(i32::MAX).unwrap();
        assert!(face >= 1);
    }
}

#[test]
fn roll_of_a_one_sided_die_is_one() {
    for _ in 0..100 {
        assert_eq!(roll(1), Ok(1));
    }
}

#[test]
fn roll_rejects_a_die_without_faces() {
    assert_eq!(roll(0), Err(DieError::InvalidArgument));
    assert_eq!(roll(-1), Err(DieError::InvalidArgument));
    assert_eq!(roll(i32::MIN), Err(DieError::InvalidArgument));
}

#[test]
fn roll_reaches_the_inner_faces() {
    let mut seen = [false; 21];
    for _ in 0..5000 {
        let face = roll(20).unwrap();
        seen[face as usize] = true;
    }
    assert!(!seen[0]);
    assert!(seen[1..].iter().all(|&hit| hit));
}
