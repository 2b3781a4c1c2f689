//! The Metropolis sweep's unit of work: a group of flip attempts with a
//! bounded number of tries.
//!
//! Each try draws a candidate cell and the energy change that flipping it
//! would cause; the caller decides, by the Metropolis criterion, whether the
//! flip is accepted, and hands the verdict back. The group ends at the first
//! accepted flip, or, with no flip, once every try has been rejected.

use crate::lattice::{flip_at, Lattice};
use rand::rngs::SmallRng;
use vstd::arithmetic::div_mod::lemma_fundamental_div_mod_converse;
use vstd::prelude::*;

verus! {

/// Where a group of flip attempts stands.
#[derive(Clone, Copy, Debug, PartialEq, Eq, Structural)]
pub enum GroupState {
    /// Tries are left and none has been accepted.
    Attempting,
    /// A flip was accepted and applied; the group is over.
    Accepted,
    /// Every try was rejected; the group is over with no flip applied.
    Exhausted,
}

/// A group of at most `attempts_per_flip` flip attempts.
pub struct FlipGroup {
    attempts_per_flip: usize,
    tries: usize,
    state: GroupState,
}

impl FlipGroup {
    /// The number of tries the group may make.
    pub closed spec fn spec_attempts_per_flip(&self) -> usize {
        self.attempts_per_flip
    }

    /// The number of tries made so far.
    pub closed spec fn spec_tries(&self) -> usize {
        self.tries
    }

    /// Where the group stands.
    pub closed spec fn spec_state(&self) -> GroupState {
        self.state
    }

    /// The group's invariant: it attempts while tries are left, is exhausted
    /// exactly when all were used without success, and has accepted only
    /// after a try.
    pub closed spec fn wf(&self) -> bool {
        &&& self.tries <= self.attempts_per_flip
        &&& self.state == GroupState::Attempting ==> self.tries < self.attempts_per_flip
        &&& self.state == GroupState::Exhausted ==> self.tries == self.attempts_per_flip
        &&& self.state == GroupState::Accepted ==> 0 < self.tries
    }

    /// A group that has made no try yet; with no tries allowed it is
    /// exhausted from the start.
    pub fn new(attempts_per_flip: usize) -> (r: FlipGroup)
        ensures
            r.wf(),
            r.spec_attempts_per_flip() == attempts_per_flip,
            r.spec_tries() == 0,
            r.spec_state() == (if attempts_per_flip == 0 {
                GroupState::Exhausted
            } else {
                GroupState::Attempting
            }),
    {
        let state = if attempts_per_flip == 0 {
            GroupState::Exhausted
        } else {
            GroupState::Attempting
        };
        FlipGroup { attempts_per_flip, tries: 0, state }
    }

    /// Where the group stands.
    #[verifier::when_used_as_spec(spec_state)]
    pub fn state(&self) -> (r: GroupState)
        ensures
            r == self.spec_state(),
    {
        self.state
    }

    /// The number of tries made so far.
    #[verifier::when_used_as_spec(spec_tries)]
    pub fn tries(&self) -> (r: usize)
        ensures
            r == self.spec_tries(),
    {
        self.tries
    }

    /// The number of tries the group may make.
    #[verifier::when_used_as_spec(spec_attempts_per_flip)]
    pub fn attempts_per_flip(&self) -> (r: usize)
        ensures
            r == self.spec_attempts_per_flip(),
    {
        self.attempts_per_flip
    }

    /// Draws a candidate cell with `rng` and returns it with the energy
    /// change that flipping it would cause. The lattice is not changed.
    pub fn propose(&self, lattice: &mut Lattice, rng: &mut SmallRng) -> (r: ([usize; 2], i32))
        requires
            self.spec_state() == GroupState::Attempting,
            old(lattice).wf(),
        ensures
            *final(lattice) == *old(lattice),
            old(lattice).in_bounds(r.0),
            r.1 == 2 * old(lattice).local_term(r.0[0] as int, r.0[1] as int),
    {
        let ix = lattice.gen_random_index(rng);
        let e = 2 * lattice.local_term_at(ix[0], ix[1]);
        (ix, e)
    }

    /// Records the verdict on the candidate `ix`: an accepted candidate is
    /// flipped and ends the group; a rejected one leaves the lattice alone and
    /// ends the group only if it was the last try.
    pub fn settle(&mut self, lattice: &mut Lattice, ix: [usize; 2], accepted: bool)
        requires
            old(self).wf(),
            old(self).spec_state() == GroupState::Attempting,
            old(lattice).wf(),
            old(lattice).in_bounds(ix),
        ensures
            final(self).wf(),
            final(self).spec_attempts_per_flip() == old(self).spec_attempts_per_flip(),
            final(self).spec_tries() == old(self).spec_tries() + 1,
            final(lattice).wf(),
            accepted ==> {
                &&& final(self).spec_state() == GroupState::Accepted
                &&& final(lattice).width() == old(lattice).width()
                &&& final(lattice).height() == old(lattice).height()
                &&& final(lattice).spins() == flip_at(
                    old(lattice).spins(),
                    old(lattice).cell(ix[0] as int, ix[1] as int),
                )
            },
            !accepted ==> {
                &&& *final(lattice) == *old(lattice)
                &&& final(self).spec_state() == if old(self).spec_tries() + 1
                    == old(self).spec_attempts_per_flip() {
                    GroupState::Exhausted
                } else {
                    GroupState::Attempting
                }
            },
    {
        self.tries = self.tries + 1;
        if accepted {
            let _ = lattice.flip_spin(ix);
            self.state = GroupState::Accepted;
        } else if self.tries == self.attempts_per_flip {
            self.state = GroupState::Exhausted;
        }
    }
}

/// A group of flip attempts never makes more tries than it was given: while
/// it attempts, a try is left; once exhausted, all were used.
pub proof fn lemma_attempts_bounded(g: &FlipGroup)
    requires
        g.wf(),
    ensures
        g.spec_tries() <= g.spec_attempts_per_flip(),
        g.spec_state() == GroupState::Attempting ==> g.spec_tries() < g.spec_attempts_per_flip(),
        g.spec_state() == GroupState::Exhausted ==> g.spec_tries() == g.spec_attempts_per_flip(),
{
}

/// One step of a sweep over temperatures, which are named by their index.
#[derive(Clone, Copy, Debug, PartialEq, Eq, Structural)]
pub enum SweepStep {
    /// Run one flip group at the first temperature, with no measurement.
    Equilibrate,
    /// Run one flip group at temperature `t`.
    Flip { t: usize },
    /// Take one sample of energy and magnetization at temperature `t`.
    Sample { t: usize },
    /// Every sample at temperature `t` is taken: aggregate them.
    Finish { t: usize },
    /// The sweep is over.
    Done,
}

/// The step at position `pos` of a sweep that runs `skip` equilibration
/// groups and then, for each of `temps` temperatures, `samples` cycles of
/// `flips` flip groups and one sample, followed by a finish.
pub open spec fn sweep_step(skip: int, temps: int, samples: int, flips: int, pos: int) -> SweepStep {
    let cycle = flips + 1;
    let block = samples * cycle + 1;
    if pos < skip {
        SweepStep::Equilibrate
    } else if pos - skip >= temps * block {
        SweepStep::Done
    } else {
        let t = (pos - skip) / block;
        let r = (pos - skip) % block;
        if r == samples * cycle {
            SweepStep::Finish { t: t as usize }
        } else if r % cycle < flips {
            SweepStep::Flip { t: t as usize }
        } else {
            SweepStep::Sample { t: t as usize }
        }
    }
}

/// The order in which a sweep runs its flip groups and samples.
pub struct SweepSchedule {
    flips_to_skip: usize,
    n_temperatures: usize,
    measurements_per_T: usize,
    flips_per_measurement: usize,
    skipped: usize,
    temperature: usize,
    measurement: usize,
    flip: usize,
}

impl SweepSchedule {
    /// How many steps of the sweep have been handed out (not counting
    /// repeated `Done` steps).
    pub closed spec fn position(&self) -> int {
        if self.skipped < self.flips_to_skip {
            self.skipped as int
        } else {
            self.flips_to_skip + self.temperature * (self.measurements_per_T * (
            self.flips_per_measurement + 1) + 1) + self.measurement * (self.flips_per_measurement
                + 1) + self.flip
        }
    }

    /// The step that comes next.
    pub open spec fn upcoming(&self) -> SweepStep {
        sweep_step(
            self.spec_flips_to_skip() as int,
            self.spec_n_temperatures() as int,
            self.spec_measurements_per_T() as int,
            self.spec_flips_per_measurement() as int,
            self.position(),
        )
    }

    /// Equilibration groups to run.
    pub closed spec fn spec_flips_to_skip(&self) -> usize {
        self.flips_to_skip
    }

    /// Temperatures to measure at.
    pub closed spec fn spec_n_temperatures(&self) -> usize {
        self.n_temperatures
    }

    /// Samples per temperature.
    pub closed spec fn spec_measurements_per_T(&self) -> usize {
        self.measurements_per_T
    }

    /// Flip groups before each sample.
    pub closed spec fn spec_flips_per_measurement(&self) -> usize {
        self.flips_per_measurement
    }

    /// The counters stay within the schedule.
    pub closed spec fn wf(&self) -> bool {
        &&& self.skipped <= self.flips_to_skip
        &&& self.skipped < self.flips_to_skip ==> self.temperature == 0 && self.measurement == 0
            && self.flip == 0
        &&& self.temperature <= self.n_temperatures
        &&& self.measurement <= self.measurements_per_T
        &&& self.flip <= self.flips_per_measurement
        &&& self.temperature == self.n_temperatures ==> self.measurement == 0 && self.flip == 0
        &&& self.measurement == self.measurements_per_T ==> self.flip == 0
    }

    /// A schedule at its first step.
    pub fn new(
        flips_to_skip: usize,
        n_temperatures: usize,
        measurements_per_T: usize,
        flips_per_measurement: usize,
    ) -> (r: SweepSchedule)
        ensures
            r.wf(),
            r.position() == 0,
            r.spec_flips_to_skip() == flips_to_skip,
            r.spec_n_temperatures() == n_temperatures,
            r.spec_measurements_per_T() == measurements_per_T,
            r.spec_flips_per_measurement() == flips_per_measurement,
    {
        SweepSchedule {
            flips_to_skip,
            n_temperatures,
            measurements_per_T,
            flips_per_measurement,
            skipped: 0,
            temperature: 0,
            measurement: 0,
            flip: 0,
        }
    }

    /// Hands out the next step and moves past it; once the sweep is over it
    /// keeps answering `Done`.
    pub fn next_step(&mut self) -> (r: SweepStep)
        requires
            old(self).wf(),
        ensures
            final(self).wf(),
            r == old(self).upcoming(),
            final(self).spec_flips_to_skip() == old(self).spec_flips_to_skip(),
            final(self).spec_n_temperatures() == old(self).spec_n_temperatures(),
            final(self).spec_measurements_per_T() == old(self).spec_measurements_per_T(),
            final(self).spec_flips_per_measurement() == old(self).spec_flips_per_measurement(),
            final(self).position() == if r == SweepStep::Done {
                old(self).position()
            } else {
                old(self).position() + 1
            },
    {
        proof {
            self.lemma_upcoming();
        }
        if self.skipped < self.flips_to_skip {
            self.skipped = self.skipped + 1;
            SweepStep::Equilibrate
        } else if self.temperature == self.n_temperatures {
            SweepStep::Done
        } else if self.measurement == self.measurements_per_T {
            let t = self.temperature;
            self.measurement = 0;
            self.temperature = self.temperature + 1;
            proof {
                let c = self.flips_per_measurement + 1;
                let m = self.measurements_per_T as int;
                assert(t * (m * c + 1) + m * c + 1 == (t + 1) * (m * c + 1)) by (nonlinear_arith);
            }
            SweepStep::Finish { t }
        } else if self.flip < self.flips_per_measurement {
            self.flip = self.flip + 1;
            SweepStep::Flip { t: self.temperature }
        } else {
            self.flip = 0;
            self.measurement = self.measurement + 1;
            proof {
                let c = self.flips_per_measurement + 1;
                let mm = self.measurement as int;
                assert((mm - 1) * c + (c - 1) + 1 == mm * c) by (nonlinear_arith);
            }
            SweepStep::Sample { t: self.temperature }
        }
    }

    /// The counters name the step that `sweep_step` gives at `position()`.
    proof fn lemma_upcoming(&self)
        requires
            self.wf(),
        ensures
            self.skipped < self.flips_to_skip ==> self.upcoming() == SweepStep::Equilibrate,
            self.skipped == self.flips_to_skip && self.temperature == self.n_temperatures
                ==> self.upcoming() == SweepStep::Done,
            self.skipped == self.flips_to_skip && self.temperature < self.n_temperatures
                && self.measurement == self.measurements_per_T ==> self.upcoming()
                == (SweepStep::Finish { t: self.temperature }),
            self.skipped == self.flips_to_skip && self.temperature < self.n_temperatures
                && self.measurement < self.measurements_per_T && self.flip
                < self.flips_per_measurement ==> self.upcoming() == (SweepStep::Flip {
                t: self.temperature,
            }),
            self.skipped == self.flips_to_skip && self.temperature < self.n_temperatures
                && self.measurement < self.measurements_per_T && self.flip
                == self.flips_per_measurement ==> self.upcoming() == (SweepStep::Sample {
                t: self.temperature,
            }),
    {
        if self.skipped == self.flips_to_skip {
            let t = self.temperature as int;
            let nt = self.n_temperatures as int;
            let m = self.measurement as int;
            let mm = self.measurements_per_T as int;
            let f = self.flip as int;
            let c = self.flips_per_measurement + 1;
            let b = mm * c + 1;
            let r = m * c + f;
            let q = t * b + r;
            if m < mm {
                assert(r < mm * c) by (nonlinear_arith)
                    requires
                        0 <= m < mm,
                        0 <= f < c,
                        r == m * c + f,
                ;
            }
            assert(0 <= r <= mm * c < b) by (nonlinear_arith)
                requires
                    0 <= m <= mm,
                    0 <= f < c,
                    r == m * c + f,
                    m < mm ==> r < mm * c,
                    m == mm ==> f == 0,
                    b == mm * c + 1,
            ;
            if t < nt {
                assert(q < nt * b) by (nonlinear_arith)
                    requires
                        0 <= t < nt,
                        0 <= r < b,
                        q == t * b + r,
                ;
                lemma_fundamental_div_mod_converse(q, b, t, r);
                if m < mm {
                    lemma_fundamental_div_mod_converse(r, c, m, f);
                }
            } else {
                assert(r == 0) by (nonlinear_arith)
                    requires
                        m == 0,
                        f == 0,
                        r == m * c + f,
                ;
            }
        }
    }
}

} // verus!
