//! What a narrowing step does to the bracket, stated over exact (integer)
//! arithmetic. The driver narrows with floating-point values; this module is
//! the idealized model of that step: the same asymmetric midpoint formula and
//! the same replacement of one endpoint, with rounding error set aside.

use vstd::prelude::*;

use crate::search::Narrowing;

verus! {

/// The width of the bracket `[start, end]`: `|end - start|`.
pub open spec fn width(start: int, end: int) -> int {
    vstd::math::abs(end - start) as int
}

/// The midpoint the search probes: `start + |end - start| / 2`. The formula
/// is deliberately asymmetric — it always moves from `start` toward larger
/// values, not toward `end` — so on a bracket given in descending order
/// (`start > end`) it steps outside the bracket.
pub open spec fn spec_midpoint(start: int, end: int) -> int {
    start + width(start, end) / 2
}

/// The bracket after one narrowing step: the midpoint replaces the endpoint
/// the step names.
pub open spec fn spec_narrow(start: int, end: int, way: Narrowing) -> (int, int) {
    match way {
        Narrowing::RaiseStart => (spec_midpoint(start, end), end),
        Narrowing::LowerEnd => (start, spec_midpoint(start, end)),
    }
}

/// Law (for ascending brackets): narrowing halves the bracket, up to
/// rounding. The midpoint lies inside the bracket, the bracket stays
/// ascending, its width never grows, it strictly shrinks whenever it had
/// room to (width at least two — the model's analogue of a width still above
/// the arithmetic's resolution), and the new width is half the old, give or
/// take the rounding unit.
///
/// Descending brackets are left out: there the asymmetric midpoint lands
/// outside the bracket, and the step that keeps it (`start = mid` on
/// `start == 3, end == 1`) widens the bracket instead.
pub proof fn lemma_narrow_width(start: int, end: int, way: Narrowing)
    requires
        start <= end,
    ensures
        start <= spec_midpoint(start, end) <= end,
        spec_narrow(start, end, way).0 <= spec_narrow(start, end, way).1,
        width(spec_narrow(start, end, way).0, spec_narrow(start, end, way).1) <= width(start, end),
        width(start, end) >= 2 ==> width(spec_narrow(start, end, way).0, spec_narrow(start, end, way).1)
            < width(start, end),
        2 * width(spec_narrow(start, end, way).0, spec_narrow(start, end, way).1) <= width(start, end) + 1,
        width(start, end) <= 2 * width(spec_narrow(start, end, way).0, spec_narrow(start, end, way).1) + 1,
{
    let w = width(start, end);
    assert(w == end - start);
    assert(0 <= w / 2 <= w - w / 2 <= (w + 1) / 2);
    assert(w / 2 + (w - w / 2) == w);
}

} // verus!
