//! Decision core of a bracketed bisection search for a real root of a cubic
//! polynomial.
//!
//! The search narrows an interval `[start, end]` toward a root of
//! `f(x) = a*x^3 + b*x^2 + c*x + d`. A direction flag
//! `increasing = f(end) > f(start)` is fixed once, before the loop, and is
//! never recomputed. Each iteration then looks at three facts about the
//! current bracket and its midpoint — has the bracket collapsed below the
//! tolerance, is the midpoint value near zero, is it negative — and either
//! stops (with or without a root) or discards one half of the bracket.
//!
//! The numeric work (evaluating the polynomial, measuring the bracket) is
//! floating point and lives with the caller, which drives the loop. This
//! crate holds everything the search decides: which verdict each iteration
//! reaches, which endpoint a narrowing step replaces, and how iterations are
//! counted. The `search` module is that decision machine together with a
//! model of whole runs; the `interval` module states what a narrowing step
//! does to the bracket in exact arithmetic.

pub mod interval;
pub mod search;
