use yacht::category::ScoreType;
use yacht::dice::Roll;
use yacht::ledger::ScoreTable;

#[test]
fn record_once_then_refuse() {
    let mut t = ScoreTable::new();
    let r = Roll::_new_fake((6, 6, 6, 6, 6));
    assert!(!t.check_table(&ScoreType::Yacht));
    assert!(t.score_on_table(&ScoreType::Yacht, &r));
    assert!(t.check_table(&ScoreType::Yacht));
    assert_eq!(t.score(&ScoreType::Yacht), Some(50));
    let other = Roll::_new_fake((1, 2, 3, 4, 5));
    assert!(!t.score_on_table(&ScoreType::Yacht, &other));
    assert_eq!(t.score(&ScoreType::Yacht), Some(50));
    assert_eq!(t.recorded(), 1);
}

#[test]
fn total_sums_recorded_scores() {
    let mut t = ScoreTable::new();
    assert_eq!(t.table_total(), 0);
    let r = Roll::_new_fake((6, 6, 6, 6, 6));
    t.score_on_table(&ScoreType::Yacht, &r);
    t.score_on_table(&ScoreType::Chance, &r);
    t.score_on_table(&ScoreType::Aces, &r);
    assert_eq!(t.table_total(), 80);
    assert_eq!(t.recorded(), 3);
}

#[test]
fn full_ledger_refuses_everything() {
    let mut t = ScoreTable::new();
    let r = Roll::_new_fake((6, 6, 6, 6, 6));
    for i in 0..12u8 {
        assert!(!t.is_full());
        assert!(t.score_on_table(&ScoreType::from_u8(i), &r));
    }
    assert!(t.is_full());
    assert_eq!(t.recorded(), 12);
    // sixes 30, four of a kind 24, yacht 50, chance 30
    assert_eq!(t.table_total(), 134);
    for i in 0..12u8 {
        assert!(!t.score_on_table(&ScoreType::from_u8(i), &r));
    }
    assert_eq!(t.recorded(), 12);
    t.reset_scores();
    assert_eq!(t.recorded(), 0);
    assert_eq!(t.table_total(), 0);
}

#[test]
fn table_cells() {
    let mut t = ScoreTable::new();
    assert_eq!(t.get_table_value(&ScoreType::Chance), " X ");
    t.score_on_table(&ScoreType::Chance, &Roll::_new_fake((6, 6, 6, 6, 5)));
    assert_eq!(t.get_table_value(&ScoreType::Chance), " 29");
    t.score_on_table(&ScoreType::Aces, &Roll::_new_fake((1, 6, 6, 6, 5)));
    assert_eq!(t.get_table_value(&ScoreType::Aces), " 1");
}

#[test]
fn category_positions() {
    assert_eq!(ScoreType::from_u8(0), ScoreType::Aces);
    assert_eq!(ScoreType::from_u8(6), ScoreType::FourOfKind);
    assert_eq!(ScoreType::from_u8(11), ScoreType::Chance);
    for i in 0..12u8 {
        assert_eq!(ScoreType::from_u8(i).to_index(), i as usize);
    }
}

#[test]
fn best_possible_total_is_294() {
    let mut t = ScoreTable::new();
    let best = [
        (ScoreType::Aces, (1, 1, 1, 1, 1)),
        (ScoreType::Twos, (2, 2, 2, 2, 2)),
        (ScoreType::Threes, (3, 3, 3, 3, 3)),
        (ScoreType::Fours, (4, 4, 4, 4, 4)),
        (ScoreType::Fives, (5, 5, 5, 5, 5)),
        (ScoreType::Sixes, (6, 6, 6, 6, 6)),
        (ScoreType::FourOfKind, (6, 6, 6, 6, 5)),
        (ScoreType::FullHouse, (6, 6, 6, 5, 5)),
        (ScoreType::LittleStraight, (1, 2, 3, 4, 5)),
        (ScoreType::BigStraight, (2, 3, 4, 5, 6)),
        (ScoreType::Yacht, (6, 6, 6, 6, 6)),
        (ScoreType::Chance, (6, 6, 6, 6, 6)),
    ];
    for (c, d) in best {
        assert!(t.score_on_table(&c, &Roll::_new_fake(d)));
    }
    assert!(t.is_full());
    assert_eq!(t.table_total(), 294);
    assert_eq!(t.table_total(), yacht::ledger::MAX_TOTAL);
}
