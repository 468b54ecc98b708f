use key_chord::binding_key_mgr::{BindError, BindingInfo, BindingKey, BindingKeyMgr, MatchKeyResult};
use key_chord::virtual_key::{InputKey, KeyCode, KeyOpt};

fn step(key: KeyCode, mods: &[KeyCode]) -> BindingKey {
    BindingKey { key, modifer_keys: mods.to_vec() }
}

fn down(mgr: &mut BindingKeyMgr, key: KeyCode) -> Vec<u32> {
    mgr.on_input_key(InputKey { key, opt: KeyOpt::Down })
}

fn up(mgr: &mut BindingKeyMgr, key: KeyCode) -> Vec<u32> {
    mgr.on_input_key(InputKey { key, opt: KeyOpt::Up })
}

#[test]
fn single_key_chord_fires_once() {
    let mut mgr = BindingKeyMgr::new();
    let info = BindingInfo::new(vec![step(KeyCode::KeyA, &[])], 1);
    assert_eq!(mgr.bind(info), Ok(()));
    let fired = down(&mut mgr, KeyCode::KeyA);
    assert_eq!(fired, vec![1]);
}

#[test]
fn two_step_chord_with_modifiers_fires() {
    let mut mgr = BindingKeyMgr::new();
    let chord = vec![
        step(KeyCode::KeyK, &[KeyCode::ControlLeft]),
        step(KeyCode::KeyC, &[KeyCode::ControlLeft]),
    ];
    assert_eq!(mgr.bind(BindingInfo::new(chord, 7)), Ok(()));
    assert_eq!(down(&mut mgr, KeyCode::ControlLeft), vec![]);
    assert_eq!(down(&mut mgr, KeyCode::KeyK), vec![]);
    assert_eq!(up(&mut mgr, KeyCode::KeyK), vec![]);
    let fired = down(&mut mgr, KeyCode::KeyC);
    assert_eq!(fired, vec![7]);
}

#[test]
fn repeating_the_sequence_fires_again() {
    let mut mgr = BindingKeyMgr::new();
    let chord = vec![
        step(KeyCode::KeyK, &[KeyCode::ControlLeft]),
        step(KeyCode::KeyC, &[KeyCode::ControlLeft]),
    ];
    assert_eq!(mgr.bind(BindingInfo::new(chord, 7)), Ok(()));
    for _ in 0..3 {
        assert_eq!(down(&mut mgr, KeyCode::ControlLeft), vec![]);
        assert_eq!(down(&mut mgr, KeyCode::KeyK), vec![]);
        assert_eq!(up(&mut mgr, KeyCode::KeyK), vec![]);
        assert_eq!(down(&mut mgr, KeyCode::KeyC), vec![7]);
        assert_eq!(up(&mut mgr, KeyCode::KeyC), vec![]);
        assert_eq!(up(&mut mgr, KeyCode::ControlLeft), vec![]);
    }
}

#[test]
fn unmatched_key_clears_progress() {
    let mut mgr = BindingKeyMgr::new();
    let chord = vec![step(KeyCode::KeyK, &[]), step(KeyCode::KeyC, &[])];
    assert_eq!(mgr.bind(BindingInfo::new(chord, 3)), Ok(()));
    assert_eq!(down(&mut mgr, KeyCode::KeyK), vec![]);
    assert_eq!(up(&mut mgr, KeyCode::KeyK), vec![]);
    // an unrelated key breaks the forming sequence
    assert_eq!(down(&mut mgr, KeyCode::KeyQ), vec![]);
    assert_eq!(up(&mut mgr, KeyCode::KeyQ), vec![]);
    // the second step alone no longer completes anything
    assert_eq!(down(&mut mgr, KeyCode::KeyC), vec![]);
    assert_eq!(up(&mut mgr, KeyCode::KeyC), vec![]);
    // the full sequence must be resent from the first step
    assert_eq!(down(&mut mgr, KeyCode::KeyK), vec![]);
    assert_eq!(up(&mut mgr, KeyCode::KeyK), vec![]);
    assert_eq!(down(&mut mgr, KeyCode::KeyC), vec![3]);
}

#[test]
fn extra_held_key_blocks_the_match() {
    let mut mgr = BindingKeyMgr::new();
    let chord = vec![step(KeyCode::KeyA, &[KeyCode::ControlLeft])];
    assert_eq!(mgr.bind(BindingInfo::new(chord, 5)), Ok(()));
    assert_eq!(down(&mut mgr, KeyCode::ControlLeft), vec![]);
    assert_eq!(down(&mut mgr, KeyCode::ShiftLeft), vec![]);
    // holding = {Ctrl, Shift, A}: one key beyond the exact required set
    assert_eq!(down(&mut mgr, KeyCode::KeyA), vec![]);
    assert_eq!(up(&mut mgr, KeyCode::ShiftLeft), vec![]);
    assert_eq!(up(&mut mgr, KeyCode::KeyA), vec![]);
    // holding = {Ctrl, A}: exactly the required set
    assert_eq!(down(&mut mgr, KeyCode::KeyA), vec![5]);
}

#[test]
fn shared_prefix_tie_break() {
    let mut mgr = BindingKeyMgr::new();
    let chord1 = vec![
        step(KeyCode::KeyK, &[KeyCode::ControlLeft]),
        step(KeyCode::KeyC, &[KeyCode::ControlLeft]),
    ];
    let chord2 = vec![
        step(KeyCode::KeyK, &[KeyCode::ControlLeft]),
        step(KeyCode::KeyX, &[KeyCode::ControlLeft]),
    ];
    assert_eq!(mgr.bind(BindingInfo::new(chord1, 1)), Ok(()));
    assert_eq!(mgr.bind(BindingInfo::new(chord2, 2)), Ok(()));
    // both remain viable through the shared prefix
    assert_eq!(down(&mut mgr, KeyCode::ControlLeft), vec![]);
    assert_eq!(down(&mut mgr, KeyCode::KeyK), vec![]);
    assert_eq!(up(&mut mgr, KeyCode::KeyK), vec![]);
    // the diverging key fires only the matching chord
    assert_eq!(down(&mut mgr, KeyCode::KeyC), vec![1]);
    assert_eq!(up(&mut mgr, KeyCode::KeyC), vec![]);
    // the other chord's progress was cleared by the tie-break rule
    assert_eq!(down(&mut mgr, KeyCode::KeyX), vec![]);
    assert_eq!(up(&mut mgr, KeyCode::KeyX), vec![]);
    // resent in full, the second chord still works
    assert_eq!(down(&mut mgr, KeyCode::KeyK), vec![]);
    assert_eq!(up(&mut mgr, KeyCode::KeyK), vec![]);
    assert_eq!(down(&mut mgr, KeyCode::KeyX), vec![2]);
}

#[test]
fn up_events_never_touch_progress() {
    let mut mgr = BindingKeyMgr::new();
    let chord = vec![step(KeyCode::KeyK, &[]), step(KeyCode::KeyC, &[])];
    assert_eq!(mgr.bind(BindingInfo::new(chord, 9)), Ok(()));
    assert_eq!(down(&mut mgr, KeyCode::KeyK), vec![]);
    // releasing keys between steps leaves the chord's progress alone
    assert_eq!(up(&mut mgr, KeyCode::KeyK), vec![]);
    assert_eq!(down(&mut mgr, KeyCode::KeyC), vec![9]);
}

#[test]
fn unbind_then_resend_produces_nothing() {
    let mut mgr = BindingKeyMgr::new();
    let chord = vec![step(KeyCode::KeyA, &[])];
    assert_eq!(mgr.bind(BindingInfo::new(chord, 4)), Ok(()));
    mgr.unbind(4);
    assert_eq!(down(&mut mgr, KeyCode::KeyA), vec![]);
    assert_eq!(up(&mut mgr, KeyCode::KeyA), vec![]);
    assert_eq!(down(&mut mgr, KeyCode::KeyA), vec![]);
}

#[test]
fn unbind_unknown_id_is_a_no_op() {
    let mut mgr = BindingKeyMgr::new();
    mgr.unbind(12345);
    let chord = vec![step(KeyCode::KeyA, &[])];
    assert_eq!(mgr.bind(BindingInfo::new(chord, 1)), Ok(()));
    mgr.unbind(99);
    assert_eq!(down(&mut mgr, KeyCode::KeyA), vec![1]);
}

#[test]
fn empty_chord_is_rejected() {
    let mut mgr = BindingKeyMgr::new();
    let info = BindingInfo::new(vec![], 1);
    assert_eq!(mgr.bind(info), Err(BindError::InvalidChord));
}

#[test]
fn duplicate_id_is_rejected() {
    let mut mgr = BindingKeyMgr::new();
    assert_eq!(mgr.bind(BindingInfo::new(vec![step(KeyCode::KeyA, &[])], 1)), Ok(()));
    let second = BindingInfo::new(vec![step(KeyCode::KeyB, &[])], 1);
    assert_eq!(mgr.bind(second), Err(BindError::DuplicateId));
    // the earlier binding under that id is untouched
    assert_eq!(down(&mut mgr, KeyCode::KeyA), vec![1]);
}

#[test]
fn unclassified_events_are_ignored() {
    let mut mgr = BindingKeyMgr::new();
    assert_eq!(mgr.bind(BindingInfo::new(vec![step(KeyCode::KeyA, &[])], 1)), Ok(()));
    let fired = mgr.on_input_key(InputKey { key: KeyCode::MouseLeft, opt: KeyOpt::Move });
    assert_eq!(fired, vec![]);
    let fired = mgr.on_input_key(InputKey { key: KeyCode::MouseLeft, opt: KeyOpt::DoubleClick });
    assert_eq!(fired, vec![]);
    assert_eq!(down(&mut mgr, KeyCode::KeyA), vec![1]);
}

#[test]
fn fired_ids_come_in_registration_order() {
    let mut mgr = BindingKeyMgr::new();
    assert_eq!(mgr.bind(BindingInfo::new(vec![step(KeyCode::KeyA, &[])], 2)), Ok(()));
    assert_eq!(mgr.bind(BindingInfo::new(vec![step(KeyCode::KeyA, &[])], 1)), Ok(()));
    assert_eq!(down(&mut mgr, KeyCode::KeyA), vec![2, 1]);
}

#[test]
fn binding_info_accessors() {
    let info = BindingInfo::new(vec![step(KeyCode::KeyQ, &[KeyCode::AltLeft])], 11);
    assert_eq!(info.get_uid(), 11);
    assert_eq!(info.get_first_key(), Some(KeyCode::KeyQ));
    assert_eq!(info.get_progress(), 0);
    let empty = BindingInfo::new(vec![], 12);
    assert_eq!(empty.get_first_key(), None);
}

#[test]
fn try_match_walks_the_chord() {
    let mut info = BindingInfo::new(
        vec![step(KeyCode::KeyK, &[KeyCode::ControlLeft]), step(KeyCode::KeyC, &[])],
        8,
    );
    let holding = vec![KeyCode::ControlLeft, KeyCode::KeyK];
    assert_eq!(info.try_match(KeyCode::KeyK, &holding), MatchKeyResult::Matching(KeyCode::KeyC));
    assert_eq!(info.get_progress(), 1);
    let holding = vec![KeyCode::KeyC];
    assert_eq!(info.try_match(KeyCode::KeyC, &holding), MatchKeyResult::Success);
    assert_eq!(info.get_progress(), 0);
}

#[test]
fn try_match_failure_resets_progress() {
    let mut info = BindingInfo::new(
        vec![step(KeyCode::KeyK, &[]), step(KeyCode::KeyC, &[])],
        8,
    );
    let holding = vec![KeyCode::KeyK];
    assert_eq!(info.try_match(KeyCode::KeyK, &holding), MatchKeyResult::Matching(KeyCode::KeyC));
    assert_eq!(info.get_progress(), 1);
    // wrong key for the second step
    let holding = vec![KeyCode::KeyQ];
    assert_eq!(info.try_match(KeyCode::KeyQ, &holding), MatchKeyResult::Failed);
    assert_eq!(info.get_progress(), 0);
}

#[test]
fn if_key_matched_demands_exact_holding() {
    let info = BindingInfo::new(vec![step(KeyCode::KeyA, &[KeyCode::ControlLeft])], 2);
    assert!(info.if_key_matched(
        KeyCode::KeyA,
        &vec![KeyCode::ControlLeft, KeyCode::KeyA],
    ));
    // a missing modifier disqualifies
    assert!(!info.if_key_matched(KeyCode::KeyA, &vec![KeyCode::KeyA]));
    // an extra held key disqualifies
    assert!(!info.if_key_matched(
        KeyCode::KeyA,
        &vec![KeyCode::ControlLeft, KeyCode::ShiftLeft, KeyCode::KeyA],
    ));
    // the primary key itself must be held
    assert!(!info.if_key_matched(KeyCode::KeyA, &vec![KeyCode::ControlLeft]));
    // the wrong key never matches
    assert!(!info.if_key_matched(
        KeyCode::KeyB,
        &vec![KeyCode::ControlLeft, KeyCode::KeyB],
    ));
}

#[test]
fn later_modifier_press_breaks_a_pending_chord() {
    // a chord whose second step needs a modifier that was not held from the
    // start cannot survive: pressing the modifier itself is a Down event
    // that matches no candidate and clears the pending progress
    let mut mgr = BindingKeyMgr::new();
    let chord = vec![
        step(KeyCode::KeyK, &[]),
        step(KeyCode::KeyC, &[KeyCode::ShiftLeft]),
    ];
    assert_eq!(mgr.bind(BindingInfo::new(chord, 6)), Ok(()));
    assert_eq!(down(&mut mgr, KeyCode::KeyK), vec![]);
    assert_eq!(up(&mut mgr, KeyCode::KeyK), vec![]);
    assert_eq!(down(&mut mgr, KeyCode::ShiftLeft), vec![]);
    assert_eq!(down(&mut mgr, KeyCode::KeyC), vec![]);
}
