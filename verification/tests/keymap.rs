use teemlab::keymap::{binding, bindings, mouse, pressed, tooltip, Key, UiAction};

const ALL: &[UiAction] = &[
    UiAction::PlayPause,
    UiAction::StepOnce,
    UiAction::ResetWorld,
    UiAction::ResetView,
    UiAction::DeleteUnderCursor,
    UiAction::ToggleShortcuts,
    UiAction::ToggleLeftPanel,
    UiAction::ToggleRightPanel,
    UiAction::ToggleBottomPanel,
];

#[test]
fn bindings_cover_every_action_once() {
    let table = bindings();
    for &action in ALL {
        let n = table.iter().filter(|b| b.action == action).count();
        assert_eq!(n, 1, "{action:?} should appear exactly once, found {n}");
    }
    assert_eq!(table.len(), ALL.len(), "an action is missing from ALL");
}

#[test]
fn no_conflicting_keys() {
    let table = bindings();
    for (i, a) in table.iter().enumerate() {
        for b in &table[i + 1..] {
            for k in &a.keys {
                assert!(!b.keys.contains(k), "{:?} shares {k:?} with {:?}", a.action, b.action);
            }
        }
    }
}

#[test]
fn tooltip_appends_keys_text() {
    assert!(tooltip("Play / pause", UiAction::PlayPause).ends_with("Space"));
    assert_eq!(tooltip("Delete", UiAction::DeleteUnderCursor), "Delete  ·  Del / Backspace");
}

#[test]
fn pressed_fires_on_any_bound_key_only() {
    assert!(pressed(&vec![Key::Backspace], UiAction::DeleteUnderCursor));
    assert!(pressed(&vec![Key::Space, Key::Delete], UiAction::DeleteUnderCursor));
    assert!(!pressed(&vec![Key::Space], UiAction::DeleteUnderCursor));
    assert!(!pressed(&vec![], UiAction::PlayPause));
    assert!(pressed(&vec![Key::Space], UiAction::PlayPause));
}

#[test]
fn binding_looks_up_the_row_of_an_action() {
    let b = binding(UiAction::PlayPause).expect("every action is bound");
    assert_eq!(b.action, UiAction::PlayPause);
    assert_eq!(b.keys, vec![Key::Space]);
    assert_eq!(b.keys_text, "Space");
    assert_eq!(b.label, "Play / pause");
}

#[test]
fn mouse_rows_are_listed() {
    let m = mouse();
    assert_eq!(m.len(), 4);
    assert_eq!(m[0], ("Scroll", "Zoom toward the cursor"));
    assert_eq!(m[3], ("Drag from Archetypes", "Place an entity"));
}
