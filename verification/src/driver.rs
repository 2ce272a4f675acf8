//! The driver of a clustering run: which configurations are admissible, and
//! which step comes next.
//!
//! A run initialises its centres, refines them a fixed number of times, and
//! stops. It never looks at how far the centres moved. The driver holds no
//! numbers of the run itself: the caller performs each step it is told and
//! reports back with `advance`.
//!
//! The fuzzifier is a real number above one. It is handed over as the bit
//! pattern of a double, and compared as such: for positive doubles the order
//! of the patterns is the order of the values (see `ieee`).

use vstd::prelude::*;
use vstd::arithmetic::power2::pow2;
use crate::ieee::{lemma_magnitude_keeps_order, lemma_magnitude_of_constants, magnitude, INFINITY, ONE};

verus! {

/// A fuzzifier is admissible when it is finite and strictly greater than one.
pub open spec fn fuzzifier_ok(q: u64) -> bool {
    ONE < q < INFINITY
}

/// An admissible fuzzifier is a finite positive double greater than one:
/// its magnitude, counted in units of `2^-1074`, exceeds `2^1074`.
pub proof fn lemma_fuzzifier_above_one(q: u64)
    ensures
        fuzzifier_ok(q) <==> q < INFINITY && magnitude(q) > pow2(1074),
{
    lemma_magnitude_of_constants();
    if q < INFINITY {
        lemma_magnitude_keeps_order(ONE, q);
    }
}

/// Why a configuration was refused.
#[derive(Clone, Copy, Debug, PartialEq, Eq)]
pub enum ConfigError {
    /// The number of clusters is zero.
    NoClusters,
    /// The fuzzifier is not a finite number greater than one.
    BadFuzzifier,
}

/// Where a run stands.
#[derive(Clone, Copy, Debug, PartialEq, Eq)]
pub enum Phase {
    /// The centres have not been drawn yet.
    Initializing,
    /// This many refinements are done and at least one more is due.
    Iterating(usize),
    /// The centres are final.
    Done,
}

/// What the caller has to do next.
#[derive(Clone, Copy, Debug, PartialEq, Eq)]
pub enum Step {
    /// Allocate `clusters` centres of `dims` coordinates and draw each
    /// coordinate uniformly from `[0, 1)`.
    Initialize { clusters: usize, dims: usize },
    /// Compute the memberships for the current centres, each row as
    /// `membership` plans it, then replace every centre that can move by
    /// the weighted centroid of the points. `iteration` counts from zero.
    Refine { iteration: usize, fuzzifier: u64 },
    /// Nothing: the current centres are the result.
    Finish,
}

/// The error, if any, of a configuration. A cluster count of zero is
/// reported before a bad fuzzifier.
pub open spec fn config_error(clusters: usize, fuzzifier: u64) -> Option<ConfigError> {
    if clusters == 0 {
        Some(ConfigError::NoClusters)
    } else if !fuzzifier_ok(fuzzifier) {
        Some(ConfigError::BadFuzzifier)
    } else {
        None
    }
}

/// The phase that follows `p` in a run of `n` refinements.
pub open spec fn next_phase(p: Phase, n: usize) -> Phase {
    match p {
        Phase::Initializing => if n == 0 {
            Phase::Done
        } else {
            Phase::Iterating(0)
        },
        Phase::Iterating(t) => if t + 1 < n {
            Phase::Iterating((t + 1) as usize)
        } else {
            Phase::Done
        },
        Phase::Done => Phase::Done,
    }
}

/// The phase of a run of `n` refinements after `steps` steps were performed.
pub open spec fn phase_after(n: usize, steps: nat) -> Phase
    decreases steps,
{
    if steps == 0 {
        Phase::Initializing
    } else {
        next_phase(phase_after(n, (steps - 1) as nat), n)
    }
}

/// The whole schedule of a run of `n` refinements: first the initialisation,
/// then refinement `0` to `n - 1` in order, then nothing more.
pub proof fn lemma_schedule(n: usize, steps: nat)
    ensures
        steps == 0 ==> phase_after(n, steps) == Phase::Initializing,
        0 < steps <= n ==> phase_after(n, steps) == Phase::Iterating((steps - 1) as usize),
        steps > n ==> phase_after(n, steps) == Phase::Done,
    decreases steps,
{
    if steps > 0 {
        lemma_schedule(n, (steps - 1) as nat);
    }
}

/// A run of zero refinements never refines: after the initialisation it is
/// done, so its centres are the ones that were drawn.
pub proof fn lemma_zero_iterations_keep_centres(steps: nat)
    ensures
        !(phase_after(0, steps) is Iterating),
        steps >= 1 ==> phase_after(0, steps) == Phase::Done,
{
    lemma_schedule(0, steps);
}

/// The state of one clustering run.
pub struct Driver {
    clusters: usize,
    dims: usize,
    iterations: usize,
    fuzzifier: u64,
    phase: Phase,
}

impl Driver {
    #[verifier::type_invariant]
    spec fn inv(self) -> bool {
        &&& self.clusters > 0
        &&& fuzzifier_ok(self.fuzzifier)
        &&& (self.phase matches Phase::Iterating(t) ==> t < self.iterations)
    }

    /// The number of clusters.
    pub closed spec fn clusters(&self) -> usize {
        self.clusters
    }

    /// The number of coordinates of a point.
    pub closed spec fn dims(&self) -> usize {
        self.dims
    }

    /// The number of refinements of the run.
    pub closed spec fn iterations(&self) -> usize {
        self.iterations
    }

    /// The fuzzifier, as the bit pattern of a double.
    pub closed spec fn fuzzifier(&self) -> u64 {
        self.fuzzifier
    }

    /// Where the run stands.
    pub closed spec fn phase(&self) -> Phase {
        self.phase
    }

    /// The step that is due in the current phase.
    pub open spec fn step(&self) -> Step {
        match self.phase() {
            Phase::Initializing => Step::Initialize { clusters: self.clusters(), dims: self.dims() },
            Phase::Iterating(t) => Step::Refine { iteration: t, fuzzifier: self.fuzzifier() },
            Phase::Done => Step::Finish,
        }
    }

    /// Starts a run of `iterations` refinements of `clusters` centres in
    /// `dims` dimensions.
    ///
    /// Refuses zero clusters with `NoClusters`, and otherwise a fuzzifier
    /// that is not finite and above one with `BadFuzzifier`. Zero iterations
    /// are accepted.
    pub fn new(clusters: usize, dims: usize, iterations: usize, fuzzifier: u64) -> (r: Result<
        Driver,
        ConfigError,
    >)
        ensures
            match config_error(clusters, fuzzifier) {
                Some(e) => r matches Err(x) && x == e,
                None => r matches Ok(d) && d.clusters() == clusters && d.dims() == dims
                    && d.iterations() == iterations && d.fuzzifier() == fuzzifier && d.phase()
                    == Phase::Initializing,
            },
    {
        if clusters == 0 {
            return Err(ConfigError::NoClusters);
        }
        if fuzzifier <= ONE || fuzzifier >= INFINITY {
            return Err(ConfigError::BadFuzzifier);
        }
        Ok(Driver { clusters, dims, iterations, fuzzifier, phase: Phase::Initializing })
    }

    /// The phase the run is in.
    pub fn current_phase(&self) -> (p: Phase)
        ensures
            p == self.phase(),
    {
        self.phase
    }

    /// The step the caller has to perform now. A step of initialisation
    /// asks for at least one centre, and a refinement is never numbered
    /// beyond the last one of the run.
    pub fn pending(&self) -> (s: Step)
        ensures
            s == self.step(),
            s matches Step::Initialize { clusters, .. } ==> clusters > 0,
            s matches Step::Refine { iteration, fuzzifier } ==> iteration < self.iterations()
                && fuzzifier_ok(fuzzifier),
    {
        proof {
            use_type_invariant(self);
        }
        match self.phase {
            Phase::Initializing => Step::Initialize { clusters: self.clusters, dims: self.dims },
            Phase::Iterating(t) => Step::Refine { iteration: t, fuzzifier: self.fuzzifier },
            Phase::Done => Step::Finish,
        }
    }

    /// Whether the run is over.
    pub fn is_done(&self) -> (b: bool)
        ensures
            b <==> self.phase() == Phase::Done,
    {
        match self.phase {
            Phase::Done => true,
            _ => false,
        }
    }

    /// Records that the pending step was performed and moves to the phase
    /// that follows. A finished run stays finished.
    pub fn advance(&mut self)
        ensures
            final(self).phase() == next_phase(old(self).phase(), old(self).iterations()),
            final(self).clusters() == old(self).clusters(),
            final(self).dims() == old(self).dims(),
            final(self).iterations() == old(self).iterations(),
            final(self).fuzzifier() == old(self).fuzzifier(),
    {
        proof {
            use_type_invariant(&*self);
        }
        let next = match self.phase {
            Phase::Initializing => if self.iterations == 0 {
                Phase::Done
            } else {
                Phase::Iterating(0)
            },
            Phase::Iterating(t) => if t + 1 < self.iterations {
                Phase::Iterating(t + 1)
            } else {
                Phase::Done
            },
            Phase::Done => Phase::Done,
        };
        self.phase = next;
    }
}

} // verus!
