//! The stage schedule of a time step, for drivers that run each update
//! themselves (asynchronously, or with updates that may fail).
use crate::rational::Rational;
use crate::runge_kutta::RungeKuttaOrder;
use vstd::prelude::*;

verus! {

/// What a driver does once the update of a stage has come back.
#[derive(Clone, Copy, Debug, PartialEq, Eq)]
pub enum StageAction {
    /// Blend the update's output toward the step's initial state by `blend`,
    /// when there is one, then run the update of the next stage.
    Next { blend: Option<Rational> },
    /// Blend as for `Next`; the result is the advanced state.
    Finish { blend: Option<Rational> },
    /// The update failed: surface its error and run nothing more.
    Abort,
}

/// The number of update calls in one step of `order`.
pub open spec fn stage_count(order: RungeKuttaOrder) -> int {
    match order {
        RungeKuttaOrder::RK1 => 1,
        RungeKuttaOrder::RK2 => 2,
        RungeKuttaOrder::RK3 => 3,
    }
}

/// The weight by which the output of update `stage` is blended toward the
/// initial state, or `None` where it is taken as it is.
pub open spec fn stage_weight(order: RungeKuttaOrder, stage: int) -> Option<(int, int)> {
    if order == RungeKuttaOrder::RK2 && stage == 1 {
        Some((1, 2))
    } else if order == RungeKuttaOrder::RK3 && stage == 1 {
        Some((3, 4))
    } else if order == RungeKuttaOrder::RK3 && stage == 2 {
        Some((1, 3))
    } else {
        None
    }
}

/// The fraction of a weight, if there is one.
pub open spec fn weight_view(w: Option<Rational>) -> Option<(int, int)> {
    match w {
        Some(b) => Some(b@),
        None => None,
    }
}

impl RungeKuttaOrder {
    /// The number of update calls in one step.
    pub fn stages(self) -> (r: usize)
        ensures
            r == stage_count(self),
    {
        match self {
            RungeKuttaOrder::RK1 => 1,
            RungeKuttaOrder::RK2 => 2,
            RungeKuttaOrder::RK3 => 3,
        }
    }

    /// The blend weight that follows update `stage`.
    pub fn stage_weight(self, stage: usize) -> (r: Option<Rational>)
        ensures
            weight_view(r) == stage_weight(self, stage as int),
            r matches Some(b) ==> b.wf(),
    {
        match (self, stage) {
            (RungeKuttaOrder::RK2, 1) => Some(Rational::new_raw(1, 2)),
            (RungeKuttaOrder::RK3, 1) => Some(Rational::new_raw(3, 4)),
            (RungeKuttaOrder::RK3, 2) => Some(Rational::new_raw(1, 3)),
            _ => None,
        }
    }

    /// The next move of a driver whose update of `stage` has come back,
    /// successfully or not. A failed update ends the step at once: no later
    /// stage runs and no blend is made.
    pub fn after_update(self, stage: usize, succeeded: bool) -> (r: StageAction)
        requires
            stage < stage_count(self),
        ensures
            !succeeded <==> r is Abort,
            succeeded && stage + 1 < stage_count(self) ==> r is Next,
            succeeded && stage + 1 == stage_count(self) ==> r is Finish,
            r matches StageAction::Next { blend } ==> weight_view(blend) == stage_weight(
                self,
                stage as int,
            ),
            r matches StageAction::Finish { blend } ==> weight_view(blend) == stage_weight(
                self,
                stage as int,
            ),
            r matches StageAction::Next { blend: Some(b) } ==> b.wf(),
            r matches StageAction::Finish { blend: Some(b) } ==> b.wf(),
    {
        if !succeeded {
            return StageAction::Abort;
        }
        let blend = self.stage_weight(stage);
        if stage + 1 < self.stages() {
            StageAction::Next { blend }
        } else {
            StageAction::Finish { blend }
        }
    }
}

} // verus!
