//! The decisions of recursive radiance evaluation, written as a state machine.
//!
//! A path starts with a bounce budget. While the budget lasts, the caller
//! intersects the current ray with the scene and reports what happened; the
//! machine decides whether the path goes on or where its light comes from.
//! The colour arithmetic (multiplying attenuations, the sky gradient) is left
//! to the caller: the radiance of a finished path is the product of the
//! attenuations of its bounces times the light named by `Radiance`.
use vstd::prelude::*;

verus! {

/// What the scene and the hit material reported for the current ray.
#[derive(Clone, Copy, Debug, PartialEq, Eq, Structural)]
pub enum Outcome {
    /// The ray left the scene without hitting anything.
    Miss,
    /// The ray hit a surface whose material scattered it: the path goes on
    /// with the scattered ray, weighted by the material's attenuation.
    Scattered,
    /// The ray hit a surface whose material did not scatter it: the path ends
    /// with whatever that material emits (black for non-emissive ones).
    Absorbed,
}

/// Where the light of a finished path comes from.
#[derive(Clone, Copy, Debug, PartialEq, Eq, Structural)]
pub enum Radiance {
    /// The bounce budget ran out: no light.
    Black,
    /// The last ray escaped: the background (or sky) colour.
    Background,
    /// The last ray was absorbed: the hit material's emission.
    Emitted,
}

/// What the caller has to do next.
#[derive(Clone, Copy, Debug, PartialEq, Eq, Structural)]
pub enum Step {
    /// Intersect the current ray with the scene and report the outcome.
    Intersect,
    /// The path is finished; its light comes from the given source.
    Finish(Radiance),
}

/// The state of one light path.
#[derive(Clone, Copy, Debug, PartialEq, Eq, Structural)]
pub struct PathState {
    /// Bounces still allowed.
    pub depth: i32,
    /// Scatter events so far; the path's attenuation is the product of this
    /// many material attenuations.
    pub bounces: u32,
    /// `Some` once the path is finished.
    pub end: Option<Radiance>,
}

impl PathState {
    /// The state of a path traced with a bounce budget of `max_depth`.
    pub open spec fn initial(max_depth: int) -> PathState {
        PathState {
            depth: max_depth as i32,
            bounces: 0,
            end: if max_depth <= 0 { Some(Radiance::Black) } else { None },
        }
    }

    /// The state after reporting `o` for the current ray of an unfinished path.
    pub open spec fn step(self, o: Outcome) -> PathState {
        match o {
            Outcome::Miss => PathState { end: Some(Radiance::Background), ..self },
            Outcome::Absorbed => PathState { end: Some(Radiance::Emitted), ..self },
            Outcome::Scattered => PathState {
                depth: (self.depth - 1) as i32,
                bounces: (self.bounces + 1) as u32,
                end: if self.depth - 1 <= 0 { Some(Radiance::Black) } else { None },
            },
        }
    }

    /// The state after reporting a sequence of outcomes; once the path is
    /// finished, further outcomes change nothing.
    pub open spec fn run(self, events: Seq<Outcome>) -> PathState
        decreases events.len(),
    {
        if events.len() == 0 || self.end is Some {
            self
        } else {
            self.step(events[0]).run(events.drop_first())
        }
    }

    /// What the caller does next in state `self`.
    pub open spec fn next_step(self) -> Step {
        match self.end {
            Some(r) => Step::Finish(r),
            None => Step::Intersect,
        }
    }

    /// The bounce budget the path was started with.
    pub open spec fn budget(self) -> int {
        self.bounces + self.depth
    }

    /// A state reachable from the start of a path: the budget fits an `i32`,
    /// and an unfinished path has budget left.
    pub open spec fn wf(self) -> bool {
        &&& self.budget() <= i32::MAX
        &&& self.end is None ==> self.depth > 0
        &&& self.bounces > 0 ==> self.depth >= 0
    }

    /// Starts a path with a bounce budget of `max_depth`. A budget of zero or
    /// less finishes the path at once, black, before any intersection.
    pub fn new(max_depth: i32) -> (r: PathState)
        ensures
            r == PathState::initial(max_depth as int),
            r.wf(),
    {
        PathState {
            depth: max_depth,
            bounces: 0,
            end: if max_depth <= 0 { Some(Radiance::Black) } else { None },
        }
    }

    /// What the caller has to do next.
    pub fn next(&self) -> (r: Step)
        ensures
            r == self.next_step(),
    {
        match self.end {
            Some(r) => Step::Finish(r),
            None => Step::Intersect,
        }
    }

    /// Whether the path is finished.
    pub fn is_finished(&self) -> (r: bool)
        ensures
            r == (self.end is Some),
    {
        self.end.is_some()
    }

    /// Reports the outcome of intersecting the current ray.
    pub fn advance(&mut self, o: Outcome)
        requires
            old(self).end is None,
            old(self).wf(),
        ensures
            *final(self) == old(self).step(o),
            final(self).wf(),
            final(self).budget() == old(self).budget(),
    {
        match o {
            Outcome::Miss => {
                self.end = Some(Radiance::Background);
            },
            Outcome::Absorbed => {
                self.end = Some(Radiance::Emitted);
            },
            Outcome::Scattered => {
                self.depth = self.depth - 1;
                self.bounces = self.bounces + 1;
                if self.depth <= 0 {
                    self.end = Some(Radiance::Black);
                }
            },
        }
    }
}

/// A path whose budget is zero or less is black before any intersection, and
/// stays so whatever the scene would report.
pub proof fn lemma_exhausted_budget_is_black(max_depth: i32, events: Seq<Outcome>)
    requires
        max_depth <= 0,
    ensures
        PathState::initial(max_depth as int).next_step() == Step::Finish(Radiance::Black),
        PathState::initial(max_depth as int).run(events) == PathState::initial(max_depth as int),
        PathState::initial(max_depth as int).run(events).bounces == 0,
{
}

/// In a scene where every ray misses, a path with budget left ends at its
/// first intersection with the background, without a bounce.
pub proof fn lemma_empty_scene_shows_background(max_depth: i32, events: Seq<Outcome>)
    requires
        max_depth > 0,
        events.len() > 0,
        forall|i: int| 0 <= i < events.len() ==> events[i] == Outcome::Miss,
    ensures
        PathState::initial(max_depth as int).run(events).next_step() == Step::Finish(
            Radiance::Background,
        ),
        PathState::initial(max_depth as int).run(events).bounces == 0,
{
    let s = PathState::initial(max_depth as int);
    let t = s.step(events[0]);
    assert(t.end is Some);
    assert(s.run(events) == t.run(events.drop_first()));
    assert(t.run(events.drop_first()) == t);
}

/// Every path keeps its budget, never bounces more often than the budget
/// allows, and is finished once it has been told of as many outcomes as it
/// had budget left.
pub proof fn lemma_path_ends_within_budget(s: PathState, events: Seq<Outcome>)
    requires
        s.wf(),
    ensures
        s.run(events).wf(),
        s.run(events).budget() == s.budget(),
        s.run(events).bounces <= s.bounces + events.len(),
        events.len() >= s.depth ==> s.run(events).end is Some,
    decreases events.len(),
{
    if events.len() > 0 && s.end is None {
        let t = s.step(events[0]);
        lemma_path_ends_within_budget(t, events.drop_first());
    }
}

} // verus!
