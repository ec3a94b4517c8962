use bevy_ed2d::editor::{Click, EditorState, PickSelection, PointerButton};
use bevy_ed2d::selection::{Entity, SelectionMode};

fn ent(bits: u64) -> Entity {
    Entity::from_bits(bits)
}

fn primary(bits: u64) -> Click {
    Click { button: PointerButton::Primary, target: ent(bits), no_deselect: false }
}

fn flags(bits: &[u64]) -> Vec<PickSelection> {
    bits.iter().map(|b| PickSelection { entity: ent(*b), is_selected: false }).collect()
}

fn selected(flags: &[PickSelection]) -> Vec<u64> {
    flags.iter().filter(|f| f.is_selected).map(|f| f.entity.bits).collect()
}

#[test]
fn new_editor_is_active_and_empty() {
    let st = EditorState::new();
    assert!(st.is_ui_active());
    assert!(!st.viewport_hovered);
    assert!(st.selected_entities.is_empty());
}

#[test]
fn toggle_active_flips_on_key() {
    let mut st = EditorState::new();
    st.toggle_active(false);
    assert!(st.active);
    st.toggle_active(true);
    assert!(!st.active);
    st.toggle_active(true);
    assert!(st.active);
}

#[test]
fn primary_click_replaces_selection() {
    let mut st = EditorState::new();
    assert!(st.select_clicked(&vec![primary(1), primary(2)], false));
    assert_eq!(st.selected_entities.as_slice(), &[ent(2)]);
    assert_eq!(st.selected_entities.last_action(), Some((SelectionMode::Replace, ent(2))));
}

#[test]
fn modifier_click_toggles() {
    let mut st = EditorState::new();
    assert!(st.select_clicked(&vec![primary(1), primary(2), primary(1)], true));
    assert_eq!(st.selected_entities.as_slice(), &[ent(2)]);
    assert_eq!(st.selected_entities.last_action(), Some((SelectionMode::Add, ent(1))));
}

#[test]
fn ignored_clicks_change_nothing() {
    let mut st = EditorState::new();
    st.select_clicked(&vec![primary(4)], false);
    let clicks = vec![
        Click { button: PointerButton::Secondary, target: ent(1), no_deselect: false },
        Click { button: PointerButton::Middle, target: ent(2), no_deselect: false },
        Click { button: PointerButton::Primary, target: ent(3), no_deselect: true },
    ];
    assert!(!st.select_clicked(&clicks, false));
    assert_eq!(st.selected_entities.as_slice(), &[ent(4)]);
    assert_eq!(st.selected_entities.last_action(), Some((SelectionMode::Replace, ent(4))));
    assert!(!st.select_clicked(&Vec::new(), true));
}

#[test]
fn deselect_events_remove_targets() {
    let mut st = EditorState::new();
    st.select_clicked(&vec![primary(1), primary(2), primary(3)], true);
    st.handle_deselect_events(&vec![ent(1), ent(7), ent(3)]);
    assert_eq!(st.selected_entities.as_slice(), &[ent(2)]);
    assert_eq!(st.selected_entities.last_action(), Some((SelectionMode::Add, ent(3))));
}

#[test]
fn replace_sync_sets_only_target_flag() {
    let mut st = EditorState::new();
    let mut f = flags(&[1, 2, 3]);
    f[0].is_selected = true;
    f[2].is_selected = true;
    st.select_clicked(&vec![primary(2)], false);
    st.update_pick_selections(true, &mut f);
    assert_eq!(selected(&f), vec![2]);
}

#[test]
fn add_sync_touches_only_target_flag() {
    let mut st = EditorState::new();
    let mut f = flags(&[1, 2, 3]);
    f[2].is_selected = true;
    st.select_clicked(&vec![primary(1)], true);
    st.update_pick_selections(true, &mut f);
    assert_eq!(selected(&f), vec![1, 3]);
    st.select_clicked(&vec![primary(1)], true);
    st.update_pick_selections(true, &mut f);
    assert_eq!(selected(&f), vec![3]);
}

#[test]
fn sync_without_change_leaves_flags() {
    let mut st = EditorState::new();
    let mut f = flags(&[1, 2]);
    f[1].is_selected = true;
    st.select_clicked(&vec![primary(1)], false);
    st.update_pick_selections(false, &mut f);
    assert_eq!(selected(&f), vec![2]);
    let fresh = EditorState::new();
    fresh.update_pick_selections(true, &mut f);
    assert_eq!(selected(&f), vec![2]);
}

#[test]
fn replace_then_add_scenario() {
    let mut st = EditorState::new();
    let mut f = flags(&[10, 20, 30]);
    st.select_clicked(&vec![primary(10)], false);
    st.update_pick_selections(true, &mut f);
    assert_eq!(selected(&f), vec![10]);
    st.select_clicked(&vec![primary(20)], true);
    st.update_pick_selections(true, &mut f);
    assert_eq!(selected(&f), vec![10, 20]);
    assert_eq!(st.selected_entities.as_slice(), &[ent(10), ent(20)]);
    st.select_clicked(&vec![primary(20)], true);
    st.update_pick_selections(true, &mut f);
    assert_eq!(selected(&f), vec![10]);
}

#[test]
fn ui_claims_pointer_off_viewport() {
    let mut st = EditorState::new();
    assert!(st.ui_claims_pointer(true));
    assert!(!st.ui_claims_pointer(false));
    st.viewport_hovered = true;
    assert!(!st.ui_claims_pointer(true));
    assert!(!st.ui_claims_pointer(false));
}

#[test]
fn add_clicks_on_one_entity_alternate() {
    let mut st = EditorState::new();
    st.select_clicked(&vec![primary(8)], false);
    st.select_clicked(&vec![primary(3), primary(3), primary(3)], true);
    assert_eq!(st.selected_entities.as_slice(), &[ent(8), ent(3)]);
    st.select_clicked(&vec![primary(3), primary(3)], true);
    assert_eq!(st.selected_entities.as_slice(), &[ent(8), ent(3)]);
    st.select_clicked(&vec![primary(3)], true);
    assert_eq!(st.selected_entities.as_slice(), &[ent(8)]);
}
