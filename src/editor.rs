use vstd::prelude::*;

use crate::selection::{
    lemma_add_toggles, select_result, without, Entity, SelectedEntities, SelectionMode,
};
use crate::viewport::{PhysicalSize, ViewportRect};

verus! {

/// The engine-side selection flag of one pickable entity.
#[derive(Clone, Copy, Debug, PartialEq, Eq, Structural)]
pub struct PickSelection {
    pub entity: Entity,
    pub is_selected: bool,
}

/// The pointer button of a click.
#[derive(Clone, Copy, Debug, PartialEq, Eq, Structural)]
pub enum PointerButton {
    Primary,
    Secondary,
    Middle,
}

/// A click that the picking backend reported on an entity.
#[derive(Clone, Copy, Debug, PartialEq, Eq, Structural)]
pub struct Click {
    pub button: PointerButton,
    pub target: Entity,
    /// The target is marked as one whose clicks never change the selection.
    pub no_deselect: bool,
}

/// Whether the click changes the selection.
pub open spec fn selects(c: Click) -> bool {
    c.button == PointerButton::Primary && !c.no_deselect
}

/// The mode of a click: `Add` while a modifier key is held, `Replace` otherwise.
pub open spec fn click_mode(modifier_held: bool) -> SelectionMode {
    if modifier_held {
        SelectionMode::Add
    } else {
        SelectionMode::Replace
    }
}

/// The selection `s` after the clicks, in order, with the mode `mode`.
pub open spec fn after_clicks(s: Seq<Entity>, clicks: Seq<Click>, mode: SelectionMode) -> Seq<
    Entity,
>
    decreases clicks.len(),
{
    if clicks.len() == 0 {
        s
    } else {
        let before = after_clicks(s, clicks.drop_last(), mode);
        if selects(clicks.last()) {
            select_result(before, mode, clicks.last().target)
        } else {
            before
        }
    }
}

/// The target of the last click that changes the selection, if any.
pub open spec fn last_selecting_click(clicks: Seq<Click>) -> Option<Entity>
    decreases clicks.len(),
{
    if clicks.len() == 0 {
        None
    } else if selects(clicks.last()) {
        Some(clicks.last().target)
    } else {
        last_selecting_click(clicks.drop_last())
    }
}

/// The selection `s` after each of `targets` was deselected, in order.
pub open spec fn without_all(s: Seq<Entity>, targets: Seq<Entity>) -> Seq<Entity>
    decreases targets.len(),
{
    if targets.len() == 0 {
        s
    } else {
        without(without_all(s, targets.drop_last()), targets.last())
    }
}

/// The flag `f` brought in line with the selection `members` after the change `action`:
/// after `Replace` every flag says whether its entity is the target; after `Add` the
/// target's flag says whether it is selected and no other flag changes.
pub open spec fn synced_flag(
    f: PickSelection,
    members: Seq<Entity>,
    action: Option<(SelectionMode, Entity)>,
) -> PickSelection {
    match action {
        Some((SelectionMode::Replace, target)) => PickSelection {
            entity: f.entity,
            is_selected: f.entity == target,
        },
        Some((SelectionMode::Add, target)) => if f.entity == target {
            PickSelection { entity: f.entity, is_selected: members.contains(target) }
        } else {
            f
        },
        _ => f,
    }
}

/// Each of `flags` brought in line with the selection by `synced_flag`.
pub open spec fn synced_flags(
    flags: Seq<PickSelection>,
    members: Seq<Entity>,
    action: Option<(SelectionMode, Entity)>,
) -> Seq<PickSelection> {
    Seq::new(flags.len(), |i: int| synced_flag(flags[i], members, action))
}

/// No entity has two flags.
pub open spec fn distinct_entities(flags: Seq<PickSelection>) -> bool {
    forall|i: int, j: int|
        0 <= i < flags.len() && 0 <= j < flags.len() && i != j ==> flags[i].entity
            != flags[j].entity
}

/// After any clicks in `Replace` mode the last of which that selects targets `e`, `e`
/// alone is selected; and among flags in which each entity appears once, `e` among them,
/// the sync sets exactly one flag: the flag of `e`.
pub proof fn lemma_replace_sets_one_flag(
    s: Seq<Entity>,
    clicks: Seq<Click>,
    e: Entity,
    flags: Seq<PickSelection>,
)
    requires
        last_selecting_click(clicks) == Some(e),
        distinct_entities(flags),
        exists|i: int| 0 <= i < flags.len() && flags[i].entity == e,
    ensures
        after_clicks(s, clicks, SelectionMode::Replace) == seq![e],
        forall|j: int|
            0 <= j < flags.len() ==> (#[trigger] synced_flags(
                flags,
                seq![e],
                Some((SelectionMode::Replace, e)),
            )[j]).is_selected == (flags[j].entity == e),
        exists|i: int|
            0 <= i < flags.len() && #[trigger] flags[i].entity == e && forall|j: int|
                0 <= j < flags.len() && (#[trigger] synced_flags(
                    flags,
                    seq![e],
                    Some((SelectionMode::Replace, e)),
                )[j]).is_selected ==> j == i,
    decreases clicks.len(),
{
    if !selects(clicks.last()) {
        lemma_replace_sets_one_flag(s, clicks.drop_last(), e, flags);
    }
    let i = choose|i: int| 0 <= i < flags.len() && flags[i].entity == e;
    let synced = synced_flags(flags, seq![e], Some((SelectionMode::Replace, e)));
    assert forall|j: int| 0 <= j < flags.len() && synced[j].is_selected implies j == i by {
        assert(flags[j].entity == e);
    }
}

/// Selecting with `Add` toggles the entity; the sync then sets the entity's flag to its
/// new membership and leaves every other flag as it was.
pub proof fn lemma_add_toggles_one_flag(s: Seq<Entity>, e: Entity, flags: Seq<PickSelection>)
    ensures
        select_result(s, SelectionMode::Add, e).contains(e) == !s.contains(e),
        forall|x: Entity|
            x != e ==> (#[trigger] select_result(s, SelectionMode::Add, e).contains(x)
                == s.contains(x)),
        forall|i: int|
            0 <= i < flags.len() ==> {
                let synced = #[trigger] synced_flags(
                    flags,
                    select_result(s, SelectionMode::Add, e),
                    Some((SelectionMode::Add, e)),
                )[i];
                &&& synced.entity == flags[i].entity
                &&& flags[i].entity != e ==> synced == flags[i]
                &&& flags[i].entity == e ==> synced.is_selected == !s.contains(e)
            },
{
    lemma_add_toggles(s, e);
}

/// The number of the clicks that change the selection.
pub open spec fn selecting_clicks(clicks: Seq<Click>) -> nat
    decreases clicks.len(),
{
    if clicks.len() == 0 {
        0
    } else if selects(clicks.last()) {
        selecting_clicks(clicks.drop_last()) + 1
    } else {
        selecting_clicks(clicks.drop_last())
    }
}

/// Over any clicks in `Add` mode on one entity, each click that selects toggles the
/// entity, and no other entity's membership changes.
pub proof fn lemma_add_clicks_toggle(s: Seq<Entity>, clicks: Seq<Click>, e: Entity)
    requires
        forall|i: int| 0 <= i < clicks.len() ==> (#[trigger] clicks[i]).target == e,
    ensures
        after_clicks(s, clicks, SelectionMode::Add).contains(e) == (s.contains(e) != (
        selecting_clicks(clicks) % 2 == 1)),
        forall|x: Entity|
            x != e ==> (#[trigger] after_clicks(s, clicks, SelectionMode::Add).contains(x)
                == s.contains(x)),
    decreases clicks.len(),
{
    if clicks.len() > 0 {
        let rest = clicks.drop_last();
        assert forall|i: int| 0 <= i < rest.len() implies (#[trigger] rest[i]).target == e by {
            assert(rest[i] == clicks[i]);
        }
        lemma_add_clicks_toggle(s, rest, e);
        assert(clicks.last() == clicks[clicks.len() - 1]);
        lemma_add_toggles(after_clicks(s, rest, SelectionMode::Add), e);
    }
}

/// Selecting an entity with `Replace` twice in a row leaves the same selection, the same
/// recorded change and, once synced, the same flags as doing it once.
pub proof fn lemma_replace_idempotent(s: Seq<Entity>, e: Entity, flags: Seq<PickSelection>)
    ensures
        select_result(select_result(s, SelectionMode::Replace, e), SelectionMode::Replace, e)
            == select_result(s, SelectionMode::Replace, e),
        synced_flags(
            synced_flags(flags, seq![e], Some((SelectionMode::Replace, e))),
            seq![e],
            Some((SelectionMode::Replace, e)),
        ) == synced_flags(flags, seq![e], Some((SelectionMode::Replace, e))),
{
    let once = synced_flags(flags, seq![e], Some((SelectionMode::Replace, e)));
    assert(synced_flags(once, seq![e], Some((SelectionMode::Replace, e))) =~= once);
}

/// The editor's own state: whether the overlay is shown, whether the pointer is over
/// the scene viewport, and the selected entities.
pub struct EditorState {
    pub active: bool,
    pub viewport_hovered: bool,
    pub selected_entities: SelectedEntities,
}

impl EditorState {
    pub open spec fn wf(&self) -> bool {
        self.selected_entities.wf()
    }

    /// The overlay shown, the pointer off the viewport, nothing selected.
    pub fn new() -> (r: EditorState)
        ensures
            r.wf(),
            r.active,
            !r.viewport_hovered,
            r.selected_entities@ == Seq::<Entity>::empty(),
            r.selected_entities.last_action_spec() == None::<(SelectionMode, Entity)>,
    {
        EditorState {
            active: true,
            viewport_hovered: false,
            selected_entities: SelectedEntities::new(),
        }
    }

    /// Shows or hides the overlay when the toggle key was just pressed.
    pub fn toggle_active(&mut self, toggle_key_just_pressed: bool)
        ensures
            final(self).active == (old(self).active != toggle_key_just_pressed),
            final(self).viewport_hovered == old(self).viewport_hovered,
            final(self).selected_entities == old(self).selected_entities,
    {
        if toggle_key_just_pressed {
            self.active = !self.active;
        }
    }

    pub fn is_ui_active(&self) -> (r: bool)
        ensures
            r == self.active,
    {
        self.active
    }

    /// Applies the clicks of this frame to the selection, in order: a primary click on
    /// an entity that is not marked `no_deselect` selects it, with `Add` while a
    /// modifier key is held and `Replace` otherwise. Returns whether any click did.
    pub fn select_clicked(&mut self, clicks: &Vec<Click>, modifier_held: bool) -> (r: bool)
        requires
            old(self).wf(),
        ensures
            final(self).wf(),
            final(self).active == old(self).active,
            final(self).viewport_hovered == old(self).viewport_hovered,
            final(self).selected_entities@ == after_clicks(
                old(self).selected_entities@,
                clicks@,
                click_mode(modifier_held),
            ),
            final(self).selected_entities.last_action_spec() == match last_selecting_click(
                clicks@,
            ) {
                Some(e) => Some((click_mode(modifier_held), e)),
                None => old(self).selected_entities.last_action_spec(),
            },
            r == (last_selecting_click(clicks@) is Some),
    {
        let mode = if modifier_held {
            SelectionMode::Add
        } else {
            SelectionMode::Replace
        };
        let ghost s = self.selected_entities@;
        let ghost last = self.selected_entities.last_action_spec();
        let mut any = false;
        let mut i: usize = 0;
        while i < clicks.len()
            invariant
                self.wf(),
                self.active == old(self).active,
                self.viewport_hovered == old(self).viewport_hovered,
                mode == click_mode(modifier_held),
                0 <= i <= clicks@.len(),
                self.selected_entities@ == after_clicks(s, clicks@.subrange(0, i as int), mode),
                self.selected_entities.last_action_spec() == match last_selecting_click(
                    clicks@.subrange(0, i as int),
                ) {
                    Some(e) => Some((mode, e)),
                    None => last,
                },
                any == (last_selecting_click(clicks@.subrange(0, i as int)) is Some),
            decreases clicks@.len() - i,
        {
            let click = clicks[i];
            proof {
                assert(clicks@.subrange(0, i + 1).drop_last() =~= clicks@.subrange(0, i as int));
            }
            if click.button == PointerButton::Primary && !click.no_deselect {
                self.selected_entities.select(mode, click.target);
                any = true;
            }
            i = i + 1;
        }
        proof {
            assert(clicks@.subrange(0, clicks@.len() as int) =~= clicks@);
        }
        any
    }

    /// Deselects each of `targets`, in order, as the picking backend reported them.
    /// The recorded change of the selection stays as it was.
    pub fn handle_deselect_events(&mut self, targets: &Vec<Entity>)
        requires
            old(self).wf(),
        ensures
            final(self).wf(),
            final(self).active == old(self).active,
            final(self).viewport_hovered == old(self).viewport_hovered,
            final(self).selected_entities@ == without_all(
                old(self).selected_entities@,
                targets@,
            ),
            final(self).selected_entities.last_action_spec()
                == old(self).selected_entities.last_action_spec(),
    {
        let ghost s = self.selected_entities@;
        let mut i: usize = 0;
        while i < targets.len()
            invariant
                self.wf(),
                self.active == old(self).active,
                self.viewport_hovered == old(self).viewport_hovered,
                self.selected_entities.last_action_spec()
                    == old(self).selected_entities.last_action_spec(),
                0 <= i <= targets@.len(),
                self.selected_entities@ == without_all(s, targets@.subrange(0, i as int)),
            decreases targets@.len() - i,
        {
            proof {
                assert(targets@.subrange(0, i + 1).drop_last() =~= targets@.subrange(
                    0,
                    i as int,
                ));
            }
            self.selected_entities.remove(targets[i]);
            i = i + 1;
        }
        proof {
            assert(targets@.subrange(0, targets@.len() as int) =~= targets@);
        }
    }

    /// When the selection changed in the editor, brings the engine-side flags in line
    /// with its last change; otherwise leaves them.
    pub fn update_pick_selections(&self, selection_changed: bool, flags: &mut Vec<PickSelection>)
        requires
            self.wf(),
        ensures
            final(flags)@ == if selection_changed {
                synced_flags(
                    old(flags)@,
                    self.selected_entities@,
                    self.selected_entities.last_action_spec(),
                )
            } else {
                old(flags)@
            },
    {
        if !selection_changed {
            return;
        }
        let ghost members = self.selected_entities@;
        let action = self.selected_entities.last_action();
        match action {
            None => {
                proof {
                    assert(synced_flags(old(flags)@, members, action) =~= old(flags)@);
                }
            },
            Some((mode, target)) => {
                let is_selected = if mode == SelectionMode::Replace {
                    false
                } else {
                    self.selected_entities.contains(target)
                };
                let n = flags.len();
                let mut i: usize = 0;
                while i < n
                    invariant
                        n == flags@.len(),
                        n == old(flags)@.len(),
                        mode != SelectionMode::Extend,
                        action == Some((mode, target)),
                        members == self.selected_entities@,
                        action == self.selected_entities.last_action_spec(),
                        mode == SelectionMode::Add ==> is_selected == members.contains(target),
                        0 <= i <= n,
                        forall|k: int|
                            0 <= k < i ==> flags@[k] == synced_flag(
                                old(flags)@[k],
                                members,
                                action,
                            ),
                        forall|k: int| i <= k < n ==> flags@[k] == old(flags)@[k],
                    decreases n - i,
                {
                    if mode == SelectionMode::Replace {
                        flags[i].is_selected = flags[i].entity == target;
                    } else if flags[i].entity == target {
                        flags[i].is_selected = is_selected;
                    }
                    i = i + 1;
                }
                proof {
                    assert(flags@ =~= synced_flags(old(flags)@, members, action));
                }
            },
        }
    }

    /// Whether the editor's chrome takes the pointer this frame, ahead of any scene hit:
    /// the UI wants pointer input and the pointer is not over the scene viewport.
    pub fn ui_claims_pointer(&self, ui_wants_pointer_input: bool) -> (r: bool)
        ensures
            r == (ui_wants_pointer_input && !self.viewport_hovered),
    {
        ui_wants_pointer_input && !self.viewport_hovered
    }

    /// Enables camera panning while the viewport is hovered and the overlay is shown.
    /// Panning is disabled once neither holds and no grab button is pressed, so that a
    /// drag is never cut off.
    pub fn toggle_pancam(&self, pancam_enabled: &mut bool, grab_button_pressed: bool)
        ensures
            *final(pancam_enabled) == if self.viewport_hovered && self.active {
                true
            } else if grab_button_pressed {
                *old(pancam_enabled)
            } else {
                false
            },
    {
        let hovered = self.viewport_hovered && self.active;
        if hovered && !*pancam_enabled {
            *pancam_enabled = true;
        }
        if !hovered && *pancam_enabled && !grab_button_pressed {
            *pancam_enabled = false;
        }
    }

    /// Sets the camera's viewport to `requested`, the part of the window that the scene
    /// view covers, while the overlay is shown; clears it while the overlay is hidden.
    /// A request that reaches past the window leaves the viewport as it was.
    pub fn set_camera_viewport(
        &self,
        viewport: &mut Option<ViewportRect>,
        requested: ViewportRect,
        window_size: PhysicalSize,
    )
        ensures
            *final(viewport) == if !self.active {
                None
            } else if requested.fits_within_spec(window_size) {
                Some(requested)
            } else {
                *old(viewport)
            },
    {
        if !self.active {
            *viewport = None;
            return;
        }
        if requested.fits_within(window_size) {
            *viewport = Some(requested);
        }
    }

    /// The entity that the camera is to focus on when the focus key was just pressed:
    /// the one selected entity, while the viewport is hovered.
    pub fn focus_request(&self, focus_key_just_pressed: bool) -> (r: Option<Entity>)
        ensures
            r == if focus_key_just_pressed && self.viewport_hovered
                && self.selected_entities@.len() == 1 {
                Some(self.selected_entities@[0])
            } else {
                None
            },
    {
        if focus_key_just_pressed && self.viewport_hovered && self.selected_entities.len() == 1 {
            Some(self.selected_entities.as_slice()[0])
        } else {
            None
        }
    }
}

} // verus!
