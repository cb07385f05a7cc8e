use midi_router::OutOfRangeError;
use midi_router::StateManager;

#[test]
fn new_store_is_all_false_all_zero_bank_zero() {
    let sm = StateManager::new();
    assert_eq!(sm.get_current_bank(), 0);
    for bank in 0..9u8 {
        assert_eq!(sm.get_note_state_and_color(bank, 0), Ok((false, 0)));
        assert_eq!(sm.get_note_state_and_color(bank, 127), Ok((false, 0)));
    }
}

#[test]
fn toggle_flips_and_flips_back() {
    let mut sm = StateManager::new();
    assert_eq!(sm.toggle_note_state(0, 60), Ok(()));
    assert_eq!(sm.get_note_state_and_color(0, 60), Ok((true, 0)));
    assert_eq!(sm.toggle_note_state(0, 60), Ok(()));
    assert_eq!(sm.get_note_state_and_color(0, 60), Ok((false, 0)));
}

#[test]
fn set_state_and_color() {
    let mut sm = StateManager::new();
    assert_eq!(sm.set_note_state(3, 40, true), Ok(()));
    assert_eq!(sm.set_note_color(3, 40, 77), Ok(()));
    assert_eq!(sm.get_note_state_and_color(3, 40), Ok((true, 77)));
}

#[test]
fn banks_are_isolated() {
    let mut sm = StateManager::new();
    sm.set_note_state(0, 60, true).unwrap();
    sm.set_note_color(0, 60, 99).unwrap();
    // the same note on every other bank is untouched
    for bank in 1..9u8 {
        assert_eq!(sm.get_note_state_and_color(bank, 60), Ok((false, 0)));
    }
    // neighbours on the same bank are untouched
    assert_eq!(sm.get_note_state_and_color(0, 59), Ok((false, 0)));
    assert_eq!(sm.get_note_state_and_color(0, 61), Ok((false, 0)));
}

#[test]
fn out_of_range_is_reported_and_changes_nothing() {
    let mut sm = StateManager::new();
    assert_eq!(
        sm.toggle_note_state(9, 0),
        Err(OutOfRangeError { bank: 9, note: 0 })
    );
    assert_eq!(
        sm.set_note_state(15, 5, true),
        Err(OutOfRangeError { bank: 15, note: 5 })
    );
    assert_eq!(
        sm.set_note_color(0, 128, 1),
        Err(OutOfRangeError { bank: 0, note: 128 })
    );
    assert_eq!(
        sm.get_note_state_and_color(10, 3),
        Err(OutOfRangeError { bank: 10, note: 3 })
    );
    assert_eq!(sm.get_note_state_and_color(0, 0), Ok((false, 0)));
}

#[test]
fn current_bank_cell() {
    let mut sm = StateManager::new();
    sm.set_current_bank(5);
    assert_eq!(sm.get_current_bank(), 5);
    sm.set_current_bank(0);
    assert_eq!(sm.get_current_bank(), 0);
}
