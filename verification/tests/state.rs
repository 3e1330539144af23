use keyboard_rs::action::KeyAction;
use keyboard_rs::action::KeyAction::MomentaryLayer;
use keyboard_rs::action::KeyAction::NoOp;
use keyboard_rs::action::KeyAction::Plain;
use keyboard_rs::action::KeyAction::SwitchLayer;
use keyboard_rs::action::KeyAction::Transparent;
use keyboard_rs::action::ReportKey;
use keyboard_rs::state::Layout;
use keyboard_rs::state::State;

/// Three layers of two rows by three columns; the last key of layer 0 holds
/// layer 1, the first key of layer 1 switches to layer 2.
fn keymap() -> Vec<Vec<Vec<KeyAction>>> {
    vec![
        vec![
            vec![Plain(0x04), Plain(0x05), Plain(0x06)],
            vec![Plain(0x07), SwitchLayer(2), MomentaryLayer(1)],
        ],
        vec![
            vec![SwitchLayer(2), Plain(0x0A), Transparent],
            vec![Plain(0x0C), Plain(0x0D), Plain(0x1E)],
        ],
        vec![
            vec![Plain(0x0E), Transparent, Transparent],
            vec![SwitchLayer(0), Plain(0x12), MomentaryLayer(1)],
        ],
    ]
}

fn state() -> State {
    let layers = keymap();
    assert!(Layout::is_valid(&layers));
    State::new(Layout::new(layers))
}

#[test]
fn layout_knows_its_shape() {
    let layout = Layout::new(keymap());
    assert_eq!(layout.layers(), 3);
    assert_eq!(layout.row_count(), 2);
    assert_eq!(layout.col_count(), 3);
    assert_eq!(layout.action(1, 1, 2), Plain(0x1E));
    assert_eq!(layout.action(2, 0, 1), Transparent);
}

#[test]
fn keymap_without_layers_is_not_valid() {
    assert!(!Layout::is_valid(&Vec::new()));
}

#[test]
fn keymap_with_uneven_layers_is_not_valid() {
    let layers = vec![vec![vec![Plain(4)], vec![Plain(5)]], vec![vec![Plain(6)]]];
    assert!(!Layout::is_valid(&layers));
}

#[test]
fn keymap_with_uneven_rows_is_not_valid() {
    let layers = vec![vec![vec![Plain(4), Plain(5)], vec![Plain(6)]]];
    assert!(!Layout::is_valid(&layers));
}

#[test]
fn keymap_with_transparent_in_layer_0_is_not_valid() {
    let layers = vec![vec![vec![Plain(4), Transparent]], vec![vec![Plain(5), Plain(6)]]];
    assert!(!Layout::is_valid(&layers));
}

#[test]
fn keymap_with_a_layer_key_that_points_nowhere_is_not_valid() {
    let layers = vec![vec![vec![Plain(4), MomentaryLayer(2)]], vec![vec![Plain(5), Plain(6)]]];
    assert!(!Layout::is_valid(&layers));
    let layers = vec![vec![vec![Plain(4), SwitchLayer(1)]]];
    assert!(!Layout::is_valid(&layers));
}

#[test]
fn keymap_with_no_rows_is_valid() {
    let layers: Vec<Vec<Vec<KeyAction>>> = vec![Vec::new()];
    assert!(Layout::is_valid(&layers));
    let layout = Layout::new(layers);
    assert_eq!(layout.row_count(), 0);
    assert_eq!(layout.col_count(), 0);
}

#[test]
fn state_starts_on_layer_0() {
    let state = state();
    assert_eq!(state.layer(), 0);
    assert_eq!(state.get_key(0, 0), Plain(0x04));
    assert_eq!(state.get_key(1, 2), MomentaryLayer(1));
}

#[test]
fn momentary_layer_is_restored_on_release() {
    let mut state = state();
    let held = state.get_key(1, 2);
    assert_eq!(held, MomentaryLayer(1));
    state.on_press(held, 1, 2);
    assert_eq!(state.layer(), 1);
    // Another key, pressed while layer 1 is active, has its action of layer 1.
    let other = state.get_key(1, 0);
    assert_eq!(other, Plain(0x0C));
    state.on_press(other, 1, 0);
    state.on_release(held, 1, 2);
    assert_eq!(state.layer(), 0);
    // The override is gone: the cell resolves under the active layer again.
    assert_eq!(state.get_key(1, 2), MomentaryLayer(1));
    assert_eq!(state.get_key(1, 0), Plain(0x07));
}

#[test]
fn locked_cell_keeps_the_action_of_its_own_layer() {
    let mut state = state();
    state.on_press(MomentaryLayer(1), 1, 2);
    assert_eq!(state.layer(), 1);
    // Layer 1 has another key at this cell, but the cell is locked.
    assert_eq!(state.get_key(1, 2), MomentaryLayer(1));
    assert_eq!(state.get_key(0, 1), Plain(0x0A));
}

#[test]
fn momentary_layer_restores_the_layer_of_its_own_press() {
    let mut state = state();
    state.on_press(MomentaryLayer(1), 1, 2);
    assert_eq!(state.layer(), 1);
    let switch = state.get_key(0, 0);
    assert_eq!(switch, SwitchLayer(2));
    state.on_press(switch, 0, 0);
    state.on_release(switch, 0, 0);
    assert_eq!(state.layer(), 2);
    state.on_release(MomentaryLayer(1), 1, 2);
    assert_eq!(state.layer(), 0);
}

#[test]
fn switch_layer_persists() {
    let mut state = state();
    let switch = state.get_key(1, 1);
    assert_eq!(switch, SwitchLayer(2));
    state.on_press(switch, 1, 1);
    assert_eq!(state.layer(), 2);
    state.on_release(switch, 1, 1);
    assert_eq!(state.layer(), 2);
    let key = state.get_key(0, 0);
    assert_eq!(key, Plain(0x0E));
    state.on_press(key, 0, 0);
    state.on_release(key, 0, 0);
    assert_eq!(state.layer(), 2);
    assert_eq!(state.get_key(1, 1), Plain(0x12));
}

#[test]
fn momentary_layer_pressed_after_a_switch_comes_back_to_the_switched_layer() {
    let mut state = state();
    state.on_press(SwitchLayer(2), 1, 1);
    state.on_release(SwitchLayer(2), 1, 1);
    let held = state.get_key(1, 2);
    assert_eq!(held, MomentaryLayer(1));
    state.on_press(held, 1, 2);
    assert_eq!(state.layer(), 1);
    state.on_release(held, 1, 2);
    assert_eq!(state.layer(), 2);
}

#[test]
fn pressing_a_locked_momentary_key_again_changes_nothing() {
    let mut state = state();
    state.on_press(MomentaryLayer(1), 1, 2);
    assert_eq!(state.layer(), 1);
    state.on_press(MomentaryLayer(1), 1, 2);
    assert_eq!(state.layer(), 1);
    state.on_press(MomentaryLayer(2), 1, 2);
    assert_eq!(state.layer(), 1);
    // One release brings back layer 0: nothing was recorded a second time.
    state.on_release(MomentaryLayer(1), 1, 2);
    assert_eq!(state.layer(), 0);
    state.on_release(MomentaryLayer(1), 1, 2);
    assert_eq!(state.layer(), 0);
}

#[test]
fn release_without_a_press_changes_nothing() {
    let mut state = state();
    state.on_press(SwitchLayer(2), 1, 1);
    state.on_release(MomentaryLayer(1), 1, 2);
    assert_eq!(state.layer(), 2);
    assert_eq!(state.get_key(1, 2), MomentaryLayer(1));
}

#[test]
fn other_keys_leave_the_layer_alone() {
    let mut state = state();
    state.on_press(SwitchLayer(1), 0, 0);
    for action in [Plain(4), KeyAction::Modifier(2), KeyAction::Chord(4, 5), KeyAction::Consumer(0xE9), NoOp, Transparent] {
        state.on_press(action, 0, 1);
        assert_eq!(state.layer(), 1);
        state.on_release(action, 0, 1);
        assert_eq!(state.layer(), 1);
    }
}

#[test]
fn transparent_falls_to_the_next_lower_layer() {
    let mut state = state();
    state.on_press(SwitchLayer(1), 0, 0);
    // Layer 1 is transparent at (0, 2): layer 0 answers.
    assert_eq!(state.get_key(0, 2), Plain(0x06));
    state.on_press(SwitchLayer(2), 0, 0);
    // Layer 2 is transparent at (0, 1): layer 1 answers, not layer 0.
    assert_eq!(state.get_key(0, 1), Plain(0x0A));
    // Layers 2 and 1 are transparent at (0, 2): layer 0 answers.
    assert_eq!(state.get_key(0, 2), Plain(0x06));
}

#[test]
fn tap_switches_but_does_not_hold() {
    let mut state = state();
    state.on_tap(MomentaryLayer(1));
    assert_eq!(state.layer(), 0);
    state.on_tap(Plain(4));
    assert_eq!(state.layer(), 0);
    state.on_tap(SwitchLayer(2));
    assert_eq!(state.layer(), 2);
}

#[test]
fn resolve_applies_the_press_and_names_the_report_entry() {
    let mut state = state();
    assert_eq!(state.resolve(0, 1), Some(ReportKey::Key(0x05)));
    assert_eq!(state.layer(), 0);
    assert_eq!(state.resolve(1, 2), None);
    assert_eq!(state.layer(), 1);
    assert_eq!(state.resolve(0, 1), Some(ReportKey::Key(0x0A)));
    // Pressed again while it is locked, the layer key does nothing.
    assert_eq!(state.resolve(1, 2), None);
    assert_eq!(state.layer(), 1);
    state.release(0, 1);
    assert_eq!(state.layer(), 1);
    state.release(1, 2);
    assert_eq!(state.layer(), 0);
    assert_eq!(state.layout().layers(), 3);
}
