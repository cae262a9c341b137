//! The per-iteration decision machine of the search, and a model of whole
//! runs as a function of the probe sequence.

use vstd::prelude::*;

verus! {

/// What the driver measured about the current bracket and its midpoint on
/// one pass of the loop. The driver computes these three facts with its own
/// (floating-point) arithmetic; the search decides from them alone.
#[derive(Clone, Copy, Debug, PartialEq, Eq, Structural)]
pub struct Probe {
    /// The bracket has collapsed: `|end - start| < tolerance`.
    pub width_small: bool,
    /// The midpoint value is close enough to zero to count as a root:
    /// `|f(mid)| < tolerance`, or `f(mid)` is exactly zero.
    pub near_zero: bool,
    /// The midpoint value is negative: `f(mid) < 0`.
    pub negative: bool,
}

/// Which endpoint of the bracket a narrowing step replaces with the midpoint.
#[derive(Clone, Copy, Debug, PartialEq, Eq, Structural)]
pub enum Narrowing {
    /// `start` becomes the midpoint; the lower half is discarded.
    RaiseStart,
    /// `end` becomes the midpoint; the upper half is discarded.
    LowerEnd,
}

/// What one iteration of the search does.
#[derive(Clone, Copy, Debug, PartialEq, Eq, Structural)]
pub enum Verdict {
    /// The bracket collapsed below the tolerance before a root was found:
    /// stop, reporting no root.
    Exhausted,
    /// The midpoint value is near zero: stop, reporting the midpoint as the
    /// root.
    Converged,
    /// Keep searching on the named half of the bracket.
    Narrow(Narrowing),
}

/// The verdict of one iteration, given the direction flag fixed at the start
/// of the search and what the driver measured on this pass.
///
/// A collapsed bracket is checked first, then closeness to zero; only a pass
/// that stops on neither narrows the bracket. A negative midpoint value sends
/// the search up (toward `end`) when the polynomial rises across the original
/// bracket, and down otherwise; a non-negative value does the opposite.
pub open spec fn spec_decide(increasing: bool, p: Probe) -> Verdict {
    if p.width_small {
        Verdict::Exhausted
    } else if p.near_zero {
        Verdict::Converged
    } else if p.negative == increasing {
        Verdict::Narrow(Narrowing::RaiseStart)
    } else {
        Verdict::Narrow(Narrowing::LowerEnd)
    }
}

/// A probe on which the search neither stops nor finds a root, so the
/// bracket is narrowed and the loop goes on.
pub open spec fn keeps_searching(p: Probe) -> bool {
    !p.width_small && !p.near_zero
}

/// Decide one iteration of the search.
pub fn decide(increasing: bool, p: Probe) -> (v: Verdict)
    ensures
        v == spec_decide(increasing, p),
{
    if p.width_small {
        Verdict::Exhausted
    } else if p.near_zero {
        Verdict::Converged
    } else if p.negative == increasing {
        Verdict::Narrow(Narrowing::RaiseStart)
    } else {
        Verdict::Narrow(Narrowing::LowerEnd)
    }
}

/// The state one search call carries across iterations: the direction flag,
/// fixed before the loop and never recomputed, and the count of iterations
/// consumed so far. The shrinking bracket itself stays with the driver.
pub struct SearchState {
    /// `f(end) > f(start)` on the original bracket, as the driver measured
    /// it once before the first iteration.
    pub increasing: bool,
    /// Iterations consumed so far, counting every pass of the loop —
    /// including the pass that stops the search.
    pub iterations: i32,
}

impl SearchState {
    /// Open a search: no iterations consumed yet.
    pub fn new(increasing: bool) -> (s: SearchState)
        ensures
            s.increasing == increasing,
            s.iterations == 0,
    {
        SearchState { increasing, iterations: 0 }
    }

    /// Run one iteration: consume it and decide from the probe. The
    /// direction flag is left as it was fixed at the start, whatever this
    /// pass measured.
    pub fn step(&mut self, p: Probe) -> (v: Verdict)
        requires
            old(self).iterations < i32::MAX,
        ensures
            final(self).increasing == old(self).increasing,
            final(self).iterations == old(self).iterations + 1,
            v == spec_decide(old(self).increasing, p),
    {
        self.iterations = self.iterations + 1;
        decide(self.increasing, p)
    }
}

/// The outcome of a whole search run, over a mathematical iteration count.
pub enum RunOutcome {
    /// The bracket collapsed on the pass named by `iterations`.
    NoRoot { iterations: int },
    /// The pass named by `iterations` found the midpoint value near zero.
    Found { iterations: int },
    /// Every probe narrowed the bracket; the run has not stopped yet.
    Unfinished,
}

/// Where a run that has already consumed `done` iterations ends, if the
/// driver goes on to measure the given probes in order: iterations are
/// counted up, each probe is decided in turn, and the first stopping verdict
/// ends the run.
pub open spec fn spec_run_from(increasing: bool, probes: Seq<Probe>, done: int) -> RunOutcome
    decreases probes.len(),
{
    if probes.len() == 0 {
        RunOutcome::Unfinished
    } else {
        match spec_decide(increasing, probes[0]) {
            Verdict::Exhausted => RunOutcome::NoRoot { iterations: done + 1 },
            Verdict::Converged => RunOutcome::Found { iterations: done + 1 },
            Verdict::Narrow(_) => spec_run_from(increasing, probes.skip(1), done + 1),
        }
    }
}

/// Where a fresh search ends on the given probe sequence.
pub open spec fn spec_run(increasing: bool, probes: Seq<Probe>) -> RunOutcome {
    spec_run_from(increasing, probes, 0)
}

/// The outcome of a search run to completion, as a caller receives it.
#[derive(Clone, Copy, Debug, PartialEq, Eq, Structural)]
pub enum Outcome {
    /// The bracket collapsed on the pass named by `iterations`.
    NoRoot { iterations: i32 },
    /// The pass named by `iterations` found the midpoint value near zero.
    Found { iterations: i32 },
    /// Every probe narrowed the bracket; the search would go on.
    Unfinished,
}

impl Outcome {
    /// The outcome as the run model states it.
    pub open spec fn as_model(self) -> RunOutcome {
        match self {
            Outcome::NoRoot { iterations } => RunOutcome::NoRoot {
                iterations: iterations as int,
            },
            Outcome::Found { iterations } => RunOutcome::Found { iterations: iterations as int },
            Outcome::Unfinished => RunOutcome::Unfinished,
        }
    }
}

/// The whole search loop, run over probes already measured in order: each
/// pass consumes one iteration and decides one probe, and the first stopping
/// verdict ends the loop. A live search is driven probe by probe through
/// `SearchState::step`; this is the same loop run to completion, and it ends
/// exactly where the run model says.
pub fn run(increasing: bool, probes: &Vec<Probe>) -> (r: Outcome)
    requires
        probes@.len() <= i32::MAX,
    ensures
        r.as_model() == spec_run(increasing, probes@),
{
    let mut state = SearchState::new(increasing);
    let n = probes.len();
    let mut i: usize = 0;
    proof {
        assert(probes@.skip(0) =~= probes@);
    }
    while i < n
        invariant
            n == probes@.len(),
            n <= i32::MAX,
            0 <= i <= n,
            state.iterations as int == i as int,
            state.increasing == increasing,
            spec_run(increasing, probes@) == spec_run_from(
                increasing,
                probes@.skip(i as int),
                i as int,
            ),
        decreases n - i,
    {
        let p = probes[i];
        proof {
            assert(probes@.skip(i as int)[0] == probes@[i as int]);
            assert(probes@.skip(i as int).skip(1) =~= probes@.skip(i as int + 1));
        }
        match state.step(p) {
            Verdict::Exhausted => {
                return Outcome::NoRoot { iterations: state.iterations };
            },
            Verdict::Converged => {
                return Outcome::Found { iterations: state.iterations };
            },
            Verdict::Narrow(_) => {},
        }
        i = i + 1;
    }
    Outcome::Unfinished
}

proof fn lemma_run_from_no_root(increasing: bool, probes: Seq<Probe>, done: int, n: int)
    ensures
        spec_run_from(increasing, probes, done) == (RunOutcome::NoRoot { iterations: n }) <==> (
        done + 1 <= n <= done + probes.len() && probes[n - done - 1].width_small && (forall|
            j: int,
        |
            0 <= j < n - done - 1 ==> keeps_searching(probes[j]))),
    decreases probes.len(),
{
    if probes.len() == 0 {
    } else if keeps_searching(probes[0]) {
        let tail = probes.skip(1);
        lemma_run_from_no_root(increasing, tail, done + 1, n);
        if spec_run_from(increasing, probes, done) == (RunOutcome::NoRoot { iterations: n }) {
            assert(tail[n - done - 2] == probes[n - done - 1]);
            assert forall|j: int| 0 <= j < n - done - 1 implies keeps_searching(probes[j]) by {
                if j >= 1 {
                    assert(probes[j] == tail[j - 1]);
                }
            }
        } else {
            if done + 1 <= n <= done + probes.len() && probes[n - done - 1].width_small && (forall|
                j: int,
            |
                0 <= j < n - done - 1 ==> keeps_searching(probes[j])) {
                assert(tail[n - done - 2] == probes[n - done - 1]);
                assert forall|j: int| 0 <= j < n - done - 2 implies keeps_searching(tail[j]) by {
                    assert(tail[j] == probes[j + 1]);
                }
                assert(spec_run_from(increasing, tail, done + 1) == (RunOutcome::NoRoot {
                    iterations: n,
                }));
            }
        }
    } else {
        if n > done + 1 {
            assert(!keeps_searching(probes[0]));
        }
    }
}

proof fn lemma_run_from_found(increasing: bool, probes: Seq<Probe>, done: int, n: int)
    ensures
        spec_run_from(increasing, probes, done) == (RunOutcome::Found { iterations: n }) <==> (done
            + 1 <= n <= done + probes.len() && !probes[n - done - 1].width_small && probes[n - done
            - 1].near_zero && (forall|j: int|
            0 <= j < n - done - 1 ==> keeps_searching(probes[j]))),
    decreases probes.len(),
{
    if probes.len() == 0 {
    } else if keeps_searching(probes[0]) {
        let tail = probes.skip(1);
        lemma_run_from_found(increasing, tail, done + 1, n);
        if spec_run_from(increasing, probes, done) == (RunOutcome::Found { iterations: n }) {
            assert(tail[n - done - 2] == probes[n - done - 1]);
            assert forall|j: int| 0 <= j < n - done - 1 implies keeps_searching(probes[j]) by {
                if j >= 1 {
                    assert(probes[j] == tail[j - 1]);
                }
            }
        } else {
            if done + 1 <= n <= done + probes.len() && !probes[n - done - 1].width_small
                && probes[n - done - 1].near_zero && (forall|j: int|
                0 <= j < n - done - 1 ==> keeps_searching(probes[j])) {
                assert(tail[n - done - 2] == probes[n - done - 1]);
                assert forall|j: int| 0 <= j < n - done - 2 implies keeps_searching(tail[j]) by {
                    assert(tail[j] == probes[j + 1]);
                }
                assert(spec_run_from(increasing, tail, done + 1) == (RunOutcome::Found {
                    iterations: n,
                }));
            }
        }
    } else {
        if n > done + 1 {
            assert(!keeps_searching(probes[0]));
        }
    }
}

/// Law: a run reports no root with iteration count `n` exactly when the
/// `n`-th probe is the first that stops the loop and it reports a collapsed
/// bracket — every earlier probe narrowed, and no probe before the collapse
/// came near zero. In particular a bracket that starts collapsed (a
/// zero-width interval, or `start == end`) is reported on the first pass,
/// with `n == 1`.
pub proof fn lemma_no_root_iff(increasing: bool, probes: Seq<Probe>, n: int)
    ensures
        spec_run(increasing, probes) == (RunOutcome::NoRoot { iterations: n }) <==> (1 <= n
            <= probes.len() && probes[n - 1].width_small && (forall|j: int|
            0 <= j < n - 1 ==> keeps_searching(probes[j]))),
{
    lemma_run_from_no_root(increasing, probes, 0, n);
}

/// Law: a run finds a root with iteration count `n` exactly when the `n`-th
/// probe is the first that stops the loop and it reports a value near zero
/// in a bracket that has not collapsed — every earlier probe narrowed. In
/// particular a found root always consumes at least one iteration, the one
/// that found it.
pub proof fn lemma_found_iff(increasing: bool, probes: Seq<Probe>, n: int)
    ensures
        spec_run(increasing, probes) == (RunOutcome::Found { iterations: n }) <==> (1 <= n
            <= probes.len() && !probes[n - 1].width_small && probes[n - 1].near_zero && (forall|
            j: int,
        |
            0 <= j < n - 1 ==> keeps_searching(probes[j]))),
{
    lemma_run_from_found(increasing, probes, 0, n);
}

/// Law: the search is a pure function of its inputs. Its outcome — verdicts,
/// iteration counts, everything — depends on the direction flag and the
/// probe sequence alone, so two runs on identical inputs end identically.
pub proof fn lemma_run_deterministic(
    inc1: bool,
    probes1: Seq<Probe>,
    inc2: bool,
    probes2: Seq<Probe>,
)
    requires
        inc1 == inc2,
        probes1 == probes2,
    ensures
        spec_run(inc1, probes1) == spec_run(inc2, probes2),
{
}

} // verus!
