use bevy_ed2d::editor::EditorState;
use bevy_ed2d::focus::{focus_step, FocusStep};
use bevy_ed2d::grid::grid_cell_count;
use bevy_ed2d::selection::{Entity, SelectionMode};
use bevy_ed2d::viewport::{PhysicalSize, ViewportRect};

fn rect(x: u32, y: u32, width: u32, height: u32) -> ViewportRect {
    ViewportRect { x, y, width, height }
}

#[test]
fn pancam_enabled_while_hovered() {
    let mut st = EditorState::new();
    st.viewport_hovered = true;
    let mut enabled = false;
    st.toggle_pancam(&mut enabled, false);
    assert!(enabled);
    st.toggle_pancam(&mut enabled, true);
    assert!(enabled);
}

#[test]
fn pancam_kept_during_drag() {
    let st = EditorState::new();
    let mut enabled = true;
    st.toggle_pancam(&mut enabled, true);
    assert!(enabled);
    st.toggle_pancam(&mut enabled, false);
    assert!(!enabled);
    st.toggle_pancam(&mut enabled, true);
    assert!(!enabled);
}

#[test]
fn pancam_disabled_when_inactive() {
    let mut st = EditorState::new();
    st.viewport_hovered = true;
    st.active = false;
    let mut enabled = true;
    st.toggle_pancam(&mut enabled, false);
    assert!(!enabled);
}

#[test]
fn viewport_set_when_it_fits() {
    let st = EditorState::new();
    let mut vp = None;
    let window = PhysicalSize { width: 800, height: 600 };
    st.set_camera_viewport(&mut vp, rect(10, 20, 790, 580), window);
    assert_eq!(vp, Some(rect(10, 20, 790, 580)));
}

#[test]
fn viewport_unchanged_when_too_large() {
    let st = EditorState::new();
    let prior = Some(rect(0, 0, 100, 100));
    let mut vp = prior;
    let window = PhysicalSize { width: 800, height: 600 };
    st.set_camera_viewport(&mut vp, rect(10, 0, 791, 600), window);
    assert_eq!(vp, prior);
    st.set_camera_viewport(&mut vp, rect(0, 1, 800, 600), window);
    assert_eq!(vp, prior);
    st.set_camera_viewport(&mut vp, rect(u32::MAX, 0, u32::MAX, 1), window);
    assert_eq!(vp, prior);
}

#[test]
fn viewport_cleared_when_inactive() {
    let mut st = EditorState::new();
    st.active = false;
    let mut vp = Some(rect(0, 0, 10, 10));
    st.set_camera_viewport(&mut vp, rect(0, 0, 10, 10), PhysicalSize { width: 20, height: 20 });
    assert_eq!(vp, None);
}

#[test]
fn focus_requires_one_selected_and_hover() {
    let mut st = EditorState::new();
    st.viewport_hovered = true;
    assert_eq!(st.focus_request(true), None);
    st.selected_entities.select(SelectionMode::Replace, Entity::from_bits(4));
    assert_eq!(st.focus_request(true), Some(Entity::from_bits(4)));
    assert_eq!(st.focus_request(false), None);
    st.selected_entities.select(SelectionMode::Add, Entity::from_bits(5));
    assert_eq!(st.focus_request(true), None);
    st.selected_entities.select(SelectionMode::Replace, Entity::from_bits(5));
    st.viewport_hovered = false;
    assert_eq!(st.focus_request(true), None);
}

#[test]
fn focus_moves_then_snaps_then_idles() {
    let mut target = Some((3.0f64, 4.0f64));
    assert_eq!(focus_step(&mut target, false), FocusStep::MoveToward((3.0, 4.0)));
    assert_eq!(target, Some((3.0, 4.0)));
    assert_eq!(focus_step(&mut target, true), FocusStep::SnapTo((3.0, 4.0)));
    assert_eq!(target, None);
    assert_eq!(focus_step(&mut target, true), FocusStep::Idle);
    assert_eq!(focus_step(&mut target, false), FocusStep::Idle);
    assert_eq!(target, None);
}

#[test]
fn grid_cell_count_is_even_cover() {
    assert_eq!(grid_cell_count(0), 2);
    assert_eq!(grid_cell_count(1), 4);
    assert_eq!(grid_cell_count(2), 4);
    assert_eq!(grid_cell_count(5), 8);
    assert_eq!(grid_cell_count(u32::MAX - 3), u32::MAX - 1);
}
