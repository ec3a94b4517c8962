use vstd::prelude::*;

verus! {

/// What the camera does in one frame while it follows a focus target.
#[derive(Debug, PartialEq, Eq)]
pub enum FocusStep<P> {
    /// There is no target: the camera stays.
    Idle,
    /// The camera is within the snap distance: it is put on the target, which is cleared.
    SnapTo(P),
    /// The camera moves part of the way toward the target, which stays.
    MoveToward(P),
}

/// Decides one frame of the camera's approach to `target`, given whether the camera is
/// already closer to it than the snap distance. Clears the target once it is reached.
pub fn focus_step<P: Copy>(target: &mut Option<P>, within_snap_distance: bool) -> (r: FocusStep<P>)
    ensures
        match *old(target) {
            None => r == FocusStep::<P>::Idle && *final(target) == None::<P>,
            Some(t) => if within_snap_distance {
                r == FocusStep::SnapTo(t) && *final(target) == None::<P>
            } else {
                r == FocusStep::MoveToward(t) && *final(target) == Some(t)
            },
        },
{
    match *target {
        None => FocusStep::Idle,
        Some(t) => {
            if within_snap_distance {
                *target = None;
                FocusStep::SnapTo(t)
            } else {
                FocusStep::MoveToward(t)
            }
        },
    }
}

} // verus!
