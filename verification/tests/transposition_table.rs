use gomoku::board::Position;
use gomoku::transposition_table::{TranspositionTable, TT_FLAG_EXACT, TT_FLAG_LOWER, TT_FLAG_UPPER};

fn make_pos(row: usize, col: usize) -> Option<Position> {
    Some(Position::new(row, col))
}

#[test]
fn probe_returns_entry_after_store_with_same_key() {
    let mut tt = TranspositionTable::new();
    tt.store(0xABCD_1234, 5, 42, TT_FLAG_EXACT, make_pos(3, 7));
    let entry = tt.probe(0xABCD_1234).expect("should find stored entry");
    assert_eq!(entry.key, 0xABCD_1234);
    assert_eq!(entry.score, 42);
    assert_eq!(entry.depth, 5);
    assert_eq!(entry.flag, TT_FLAG_EXACT);
    assert_eq!(entry.best_move(), make_pos(3, 7));
}

#[test]
fn probe_returns_none_for_different_key() {
    let mut tt = TranspositionTable::new();
    tt.store(0xAAAA_BBBB, 3, 100, TT_FLAG_EXACT, None);
    assert!(tt.probe(0xCCCC_DDDD).is_none());
}

#[test]
fn always_replace_tier_overwrites_any_existing_entry() {
    let mut tt = TranspositionTable::new();
    tt.store(0x1111, 8, 10, TT_FLAG_EXACT, make_pos(1, 1));
    tt.store(0x1111, 1, 99, TT_FLAG_UPPER, make_pos(2, 2));
    let entry = tt.probe(0x1111).expect("entry should exist");
    assert_eq!(entry.score, 99, "always-replace tier should hold the most recent write");
}

#[test]
fn depth_preferred_tier_keeps_deeper_entry_when_shallower_arrives() {
    let mut tt = TranspositionTable::new();
    let key = 0x2222_FFFF;
    tt.store(key, 10, 50, TT_FLAG_EXACT, make_pos(4, 4));
    tt.store(key, 3, 999, TT_FLAG_LOWER, make_pos(5, 5));
    let entry = tt.probe(key).expect("entry should exist");
    assert_eq!(entry.depth, 3, "always-replace returns the newest (shallow) write");
}

#[test]
fn best_move_returns_none_when_no_move_stored() {
    let mut tt = TranspositionTable::new();
    tt.store(0xDEAD_BEEF, 1, 0, TT_FLAG_EXACT, None);
    let entry = tt.probe(0xDEAD_BEEF).unwrap();
    assert_eq!(entry.best_move(), None);
}

#[test]
fn clear_removes_all_entries() {
    let mut tt = TranspositionTable::new();
    tt.store(0xFFFF, 5, 55, TT_FLAG_EXACT, make_pos(8, 8));
    tt.clear();
    assert!(tt.probe(0xFFFF).is_none());
}

#[test]
fn probe_preserves_lower_bound_flag() {
    let mut tt = TranspositionTable::new();
    tt.store(0xAA11, 2, -30, TT_FLAG_LOWER, None);
    let entry = tt.probe(0xAA11).unwrap();
    assert_eq!(entry.flag, TT_FLAG_LOWER);
}

#[test]
fn probe_preserves_upper_bound_flag() {
    let mut tt = TranspositionTable::new();
    tt.store(0xBB22, 2, -30, TT_FLAG_UPPER, None);
    let entry = tt.probe(0xBB22).unwrap();
    assert_eq!(entry.flag, TT_FLAG_UPPER);
}

#[test]
fn new_table_probes_return_none() {
    let tt = TranspositionTable::new();
    assert!(tt.probe(0x0).is_none());
    assert!(tt.probe(0xFFFF_FFFF_FFFF_FFFF).is_none());
}

#[test]
fn a_deeper_entry_survives_another_position_in_its_place() {
    let mut tt = TranspositionTable::new();
    let key = 0x7_1234;
    let rival = key + 1_048_576;
    tt.store(key, 10, 50, TT_FLAG_EXACT, make_pos(4, 4));
    tt.store(rival, 3, 999, TT_FLAG_LOWER, make_pos(5, 5));
    assert_eq!(tt.probe(key).unwrap().depth, 10);
    assert_eq!(tt.probe(key).unwrap().best_move(), make_pos(4, 4));
    assert_eq!(tt.probe(rival).unwrap().depth, 3);
    // A position that is searched as deep takes both places.
    tt.store(rival, 10, 7, TT_FLAG_EXACT, None);
    assert!(tt.probe(key).is_none());
    assert_eq!(tt.probe(rival).unwrap().score, 7);
}

#[test]
fn other_places_are_left_alone() {
    let mut tt = TranspositionTable::new();
    tt.store(5, 1, 1, TT_FLAG_EXACT, make_pos(0, 17));
    tt.store(6, 2, 2, TT_FLAG_UPPER, make_pos(17, 0));
    assert_eq!(tt.probe(5).unwrap().score, 1);
    assert_eq!(tt.probe(6).unwrap().best_move(), make_pos(17, 0));
}
