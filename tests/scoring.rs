use yacht::category::ScoreType;
use yacht::dice::Roll;
use yacht::scoring::{count_face, evaluate_score, upper};

fn score(d: (u8, u8, u8, u8, u8), c: ScoreType) -> u8 {
    evaluate_score(&Roll::_new_fake(d), &c)
}

#[test]
fn four_of_kind_of_aces() {
    assert_eq!(score((1, 1, 1, 1, 2), ScoreType::FourOfKind), 4);
}

#[test]
fn four_of_kind_any_position() {
    assert_eq!(score((2, 1, 1, 1, 1), ScoreType::FourOfKind), 4);
    assert_eq!(score((6, 3, 6, 6, 6), ScoreType::FourOfKind), 24);
    assert_eq!(score((5, 5, 5, 5, 5), ScoreType::FourOfKind), 20);
    assert_eq!(score((1, 1, 1, 2, 2), ScoreType::FourOfKind), 0);
}

#[test]
fn full_house_scores_25() {
    assert_eq!(score((3, 3, 3, 2, 2), ScoreType::FullHouse), 25);
    assert_eq!(score((2, 3, 2, 3, 3), ScoreType::FullHouse), 25);
}

#[test]
fn full_house_needs_three_and_two() {
    assert_eq!(score((3, 3, 3, 3, 2), ScoreType::FullHouse), 0);
    assert_eq!(score((4, 4, 4, 4, 4), ScoreType::FullHouse), 0);
    assert_eq!(score((1, 2, 3, 4, 5), ScoreType::FullHouse), 0);
}

#[test]
fn little_straight_depends_on_order() {
    assert_eq!(score((1, 2, 3, 4, 5), ScoreType::LittleStraight), 30);
    assert_eq!(score((5, 4, 3, 2, 1), ScoreType::LittleStraight), 0);
}

#[test]
fn big_straight_depends_on_order() {
    assert_eq!(score((2, 3, 4, 5, 6), ScoreType::BigStraight), 30);
    assert_eq!(score((6, 5, 4, 3, 2), ScoreType::BigStraight), 0);
    assert_eq!(score((1, 2, 3, 4, 5), ScoreType::BigStraight), 0);
}

#[test]
fn yacht_and_chance_on_sixes() {
    assert_eq!(score((6, 6, 6, 6, 6), ScoreType::Yacht), 50);
    assert_eq!(score((6, 6, 6, 6, 6), ScoreType::Chance), 30);
}

#[test]
fn yacht_needs_all_same() {
    assert_eq!(score((6, 6, 6, 6, 5), ScoreType::Yacht), 0);
}

#[test]
fn chance_is_the_sum() {
    assert_eq!(score((1, 2, 3, 4, 6), ScoreType::Chance), 16);
    assert_eq!(score((1, 1, 1, 1, 1), ScoreType::Chance), 5);
}

#[test]
fn upper_categories() {
    let d = (3, 3, 5, 3, 6);
    assert_eq!(score(d, ScoreType::Aces), 0);
    assert_eq!(score(d, ScoreType::Twos), 0);
    assert_eq!(score(d, ScoreType::Threes), 9);
    assert_eq!(score(d, ScoreType::Fours), 0);
    assert_eq!(score(d, ScoreType::Fives), 5);
    assert_eq!(score(d, ScoreType::Sixes), 6);
    assert_eq!(score((4, 4, 4, 4, 4), ScoreType::Fours), 20);
}

#[test]
fn upper_and_count() {
    let r = Roll::_new_fake((2, 2, 1, 2, 6));
    assert_eq!(upper(&r, 2), 6);
    assert_eq!(count_face(&r.dice, 2), 3);
    assert_eq!(count_face(&r.dice, 5), 0);
}
