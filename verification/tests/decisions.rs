//! The decision machine on concrete probes: each verdict, both narrowing
//! sides under both direction flags, and the iteration count.

use cubic::search::{decide, Narrowing, Probe, SearchState, Verdict};

fn narrowing_probe(negative: bool) -> Probe {
    Probe { width_small: false, near_zero: false, negative }
}

#[test]
fn collapsed_width_exhausts_before_anything_else() {
    // A collapsed bracket stops the search even when the midpoint value is
    // also near zero: the width check comes first.
    let p = Probe { width_small: true, near_zero: true, negative: true };
    assert_eq!(decide(true, p), Verdict::Exhausted);
    assert_eq!(decide(false, p), Verdict::Exhausted);
    let q = Probe { width_small: true, near_zero: false, negative: false };
    assert_eq!(decide(true, q), Verdict::Exhausted);
}

#[test]
fn near_zero_converges_when_width_remains() {
    let p = Probe { width_small: false, near_zero: true, negative: true };
    assert_eq!(decide(true, p), Verdict::Converged);
    assert_eq!(decide(false, p), Verdict::Converged);
}

#[test]
fn negative_value_on_a_rising_bracket_raises_start() {
    assert_eq!(
        decide(true, narrowing_probe(true)),
        Verdict::Narrow(Narrowing::RaiseStart)
    );
}

#[test]
fn negative_value_on_a_falling_bracket_lowers_end() {
    assert_eq!(
        decide(false, narrowing_probe(true)),
        Verdict::Narrow(Narrowing::LowerEnd)
    );
}

#[test]
fn non_negative_value_on_a_rising_bracket_lowers_end() {
    assert_eq!(
        decide(true, narrowing_probe(false)),
        Verdict::Narrow(Narrowing::LowerEnd)
    );
}

#[test]
fn non_negative_value_on_a_falling_bracket_raises_start() {
    assert_eq!(
        decide(false, narrowing_probe(false)),
        Verdict::Narrow(Narrowing::RaiseStart)
    );
}

#[test]
fn every_pass_counts_one_iteration() {
    let mut state = SearchState::new(true);
    assert_eq!(state.iterations, 0);
    assert_eq!(
        state.step(narrowing_probe(true)),
        Verdict::Narrow(Narrowing::RaiseStart)
    );
    assert_eq!(state.iterations, 1);
    assert_eq!(
        state.step(narrowing_probe(false)),
        Verdict::Narrow(Narrowing::LowerEnd)
    );
    assert_eq!(state.iterations, 2);
    let hit = Probe { width_small: false, near_zero: true, negative: false };
    assert_eq!(state.step(hit), Verdict::Converged);
    assert_eq!(state.iterations, 3);
}

#[test]
fn direction_flag_is_never_recomputed() {
    // Whatever the probes report, the flag fixed at the start keeps deciding
    // which endpoint a narrowing step replaces.
    let mut state = SearchState::new(false);
    assert_eq!(
        state.step(narrowing_probe(true)),
        Verdict::Narrow(Narrowing::LowerEnd)
    );
    assert_eq!(
        state.step(narrowing_probe(true)),
        Verdict::Narrow(Narrowing::LowerEnd)
    );
    assert!(!state.increasing);
    assert_eq!(state.iterations, 2);
}

#[test]
fn stepping_twice_on_equal_probes_decides_equally() {
    let mut one = SearchState::new(true);
    let mut two = SearchState::new(true);
    let p = narrowing_probe(true);
    assert_eq!(one.step(p), two.step(p));
    assert_eq!(one.iterations, two.iterations);
    assert_eq!(one.step(p), two.step(p));
}
