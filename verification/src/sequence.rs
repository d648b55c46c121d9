//! The sequencer: a single pass over the steps of a plan, one step per call.

use vstd::prelude::*;
use crate::geometry::{Length, Side};
use crate::laws::lemma_step_bound;
use crate::model::{side_at, Step, WalkPlan};
use crate::plan::RigidWalk;

verus! {

/// One emitted step: move `distance` along `angle`.
#[derive(Clone, Copy, Debug)]
pub struct WalkAct {
    pub angle: i64,
    pub distance: Length,
}

impl WalkAct {
    /// The emitted step has the angle and the length of the step of the
    /// model.
    pub open spec fn shows(self, step: Step) -> bool {
        &&& self.angle == step.angle
        &&& self.distance.well_formed()
        &&& self.distance@ == step.distance
    }
}

/// Where a traversal stands. Each phase carries what it needs: the complete
/// pairs that are left, and the side of the step that comes next.
#[derive(Clone, Copy, Debug)]
enum WalkIterState {
    MainStart,
    MainMiddle { n_left: u128, side: Side },
    MainEnd { side: Side },
    LastEnd { side: Side },
    Stop,
}

/// A traversal of a plan. It owns a copy of the plan, emits each step once
/// and cannot be rewound.
#[derive(Debug)]
pub struct RigidWalkIterFull {
    walk: RigidWalk,
    start_primary: bool,
    state: WalkIterState,
}

/// A length twice as long, over the same denominator.
fn doubled(x: Length) -> (r: Length)
    requires
        x.num <= 0x400_0000_0000_0000_0000_0000_0000_0000,
        x.well_formed(),
    ensures
        r.well_formed(),
        r@ == 2real * x@,
{
    let r = Length { num: 2 * x.num, den: x.den };
    assert((2 * x.num) as real / x.den as real == 2real * (x.num as real / x.den as real))
        by (nonlinear_arith)
        requires
            x.den > 0,
    ;
    r
}

/// The sum of two lengths over one denominator.
fn joined(x: Length, y: Length) -> (r: Length)
    requires
        x.num <= 0x400_0000_0000_0000_0000_0000_0000_0000,
        y.num <= 0x400_0000_0000_0000_0000_0000_0000_0000,
        x.den == y.den,
        x.well_formed(),
    ensures
        r.well_formed(),
        r@ == x@ + y@,
{
    let r = Length { num: x.num + y.num, den: x.den };
    assert((x.num + y.num) as real / x.den as real == x.num as real / x.den as real
        + y.num as real / x.den as real) by (nonlinear_arith)
        requires
            x.den > 0,
    ;
    r
}

impl RigidWalkIterFull {
    /// The plan that is traversed.
    pub closed spec fn plan(&self) -> WalkPlan {
        self.walk@
    }

    /// Whether step 0 is along the primary direction.
    pub closed spec fn start_primary(&self) -> bool {
        self.start_primary
    }

    /// The number of steps emitted so far.
    pub closed spec fn position(&self) -> int {
        let n = self.walk@.repeat_count();
        match self.state {
            WalkIterState::MainStart => 0,
            WalkIterState::MainMiddle { n_left, side } => n - n_left + 1,
            WalkIterState::MainEnd { side } => n,
            WalkIterState::LastEnd { side } => n + 1,
            WalkIterState::Stop => self.walk@.step_count(),
        }
    }

    /// Every phase but the first and the last belongs to a non-degenerate
    /// plan, and carries the side of the step at its position.
    #[verifier::type_invariant]
    closed spec fn inv(&self) -> bool {
        let p = self.walk@;
        let n = p.repeat_count();
        match self.state {
            WalkIterState::MainStart => true,
            WalkIterState::MainMiddle { n_left, side } => {
                &&& !p.degenerate()
                &&& 1 <= n_left <= n
                &&& side == side_at(self.start_primary, n - n_left + 1)
            },
            WalkIterState::MainEnd { side } => {
                &&& !p.degenerate()
                &&& 1 <= n
                &&& side == side_at(self.start_primary, n)
            },
            WalkIterState::LastEnd { side } => {
                &&& !p.degenerate()
                &&& 0 <= n
                &&& side == side_at(self.start_primary, n + 1)
            },
            WalkIterState::Stop => true,
        }
    }

    /// A traversal of `walk` from its first step. `start_primary` says
    /// whether the first leg is along the primary direction.
    pub fn new(walk: &RigidWalk, start_primary: bool) -> (r: RigidWalkIterFull)
        ensures
            r.plan() == walk@,
            r.plan().valid(),
            r.start_primary() == start_primary,
            r.position() == 0,
            r.position() < r.plan().step_count(),
    {
        proof {
            use_type_invariant(walk);
            walk.lemma_valid();
            lemma_step_bound(walk@, start_primary);
        }
        RigidWalkIterFull { walk: *walk, start_primary, state: WalkIterState::MainStart }
    }

    /// Emits the next step, or `None` once all steps were emitted.
    pub fn next(&mut self) -> (r: Option<WalkAct>)
        ensures
            final(self).plan() == old(self).plan(),
            final(self).start_primary() == old(self).start_primary(),
            final(self).position() <= old(self).plan().step_count(),
            match r {
                Some(act) => {
                    &&& 0 <= old(self).position() < old(self).plan().step_count()
                    &&& act.shows(
                        old(self).plan().step_at(old(self).start_primary(), old(self).position()),
                    )
                    &&& final(self).position() == old(self).position() + 1
                },
                None => {
                    &&& old(self).position() == old(self).plan().step_count()
                    &&& final(self).position() == old(self).position()
                },
            },
    {
        proof {
            use_type_invariant(&*self);
        }
        let start: Side = if self.start_primary {
            Side::Primary
        } else {
            Side::Secondary
        };
        let n: u128 = self.walk.repeat_count();
        match self.state {
            WalkIterState::MainStart => {
                match self.walk.matched() {
                    Some(_) => {
                        self.state = WalkIterState::Stop;
                        Some(WalkAct { angle: self.walk.target(), distance: self.walk.whole() })
                    },
                    None => {
                        if n == 0 {
                            self.state = WalkIterState::LastEnd { side: start.flip() };
                            Some(
                                WalkAct {
                                    angle: self.walk.allowed(start),
                                    distance: self.walk.last(start),
                                },
                            )
                        } else {
                            self.state = WalkIterState::MainMiddle { n_left: n, side: start.flip() };
                            Some(
                                WalkAct {
                                    angle: self.walk.allowed(start),
                                    distance: self.walk.leg(start),
                                },
                            )
                        }
                    },
                }
            },
            WalkIterState::MainMiddle { n_left, side } => {
                let left: u128 = n_left - 1;
                if left == 0 {
                    self.state = WalkIterState::MainEnd { side };
                    Some(self.main_end(side))
                } else {
                    self.state = WalkIterState::MainMiddle { n_left: left, side: side.flip() };
                    Some(
                        WalkAct {
                            angle: self.walk.allowed(side),
                            distance: doubled(self.walk.leg(side)),
                        },
                    )
                }
            },
            WalkIterState::MainEnd { side } => Some(self.main_end(side)),
            WalkIterState::LastEnd { side } => {
                self.state = WalkIterState::Stop;
                Some(WalkAct { angle: self.walk.allowed(side), distance: self.walk.last(side) })
            },
            WalkIterState::Stop => None,
        }
    }

    /// Emits all steps that are left, in order. The traversal is exhausted
    /// afterwards.
    pub fn drain(&mut self) -> (acts: Vec<WalkAct>)
        ensures
            final(self).plan() == old(self).plan(),
            final(self).start_primary() == old(self).start_primary(),
            final(self).position() == old(self).plan().step_count(),
            acts.len() == old(self).plan().step_count() - old(self).position(),
            forall|i: int|
                0 <= i < acts.len() ==> (#[trigger] acts[i]).shows(
                    old(self).plan().step_at(old(self).start_primary(), old(self).position() + i),
                ),
    {
        proof {
            use_type_invariant(&*self);
            use_type_invariant(&self.walk);
            self.walk.lemma_valid();
            lemma_step_bound(self.walk@, self.start_primary);
        }
        let ghost first = self.position();
        let ghost plan = self.plan();
        let ghost start_primary = self.start_primary();
        let mut acts: Vec<WalkAct> = Vec::new();
        loop
            invariant
                self.plan() == plan,
                self.start_primary() == start_primary,
                first <= self.position() <= plan.step_count(),
                acts.len() == self.position() - first,
                forall|i: int|
                    0 <= i < acts.len() ==> (#[trigger] acts[i]).shows(
                        plan.step_at(start_primary, first + i),
                    ),
            ensures
                self.position() == plan.step_count(),
            decreases plan.step_count() - self.position(),
        {
            match self.next() {
                Some(act) => {
                    acts.push(act);
                },
                None => {
                    break ;
                },
            }
        }
        acts
    }

    /// The step that ends the complete pairs: the last leg of `side`, joined
    /// with the final leg of the same side. The final leg of the other side
    /// is left to emit.
    fn main_end(&mut self, side: Side) -> (act: WalkAct)
        requires
            old(self).state == (WalkIterState::MainEnd { side }),
        ensures
            final(self).plan() == old(self).plan(),
            final(self).start_primary() == old(self).start_primary(),
            final(self).position() == old(self).position() + 1,
            final(self).position() == old(self).plan().step_count() - 1,
            act.shows(old(self).plan().step_at(old(self).start_primary(), old(self).position())),
    {
        proof {
            use_type_invariant(&*self);
        }
        self.state = WalkIterState::LastEnd { side: side.flip() };
        WalkAct {
            angle: self.walk.allowed(side),
            distance: joined(self.walk.leg(side), self.walk.last(side)),
        }
    }
}

} // verus!
