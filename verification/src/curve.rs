//! The kind of path segment that joins one point of a channel to the next.
use vstd::prelude::*;

verus! {

/// One segment of a channel's path, ending at the point it leads to.
#[derive(Debug, PartialEq, Eq)]
pub enum CurveSegment<P> {
    /// A straight line to the end point.
    LineTo(P),
    /// A quadratic curve with one control point, then the end point.
    QuadraticTo(P, P),
    /// A cubic Bezier curve with two control points, then the end point.
    BezierTo(P, P, P),
}

impl<P> CurveSegment<P> {
    /// The point at which the segment ends.
    pub open spec fn end(self) -> P {
        match self {
            CurveSegment::LineTo(e) => e,
            CurveSegment::QuadraticTo(_, e) => e,
            CurveSegment::BezierTo(_, _, e) => e,
        }
    }
}

/// Chooses the segment that reaches `end` given the two optional control
/// points: a line when neither is present, a quadratic curve through the one
/// that is present, and a cubic Bezier curve when both are.
pub fn plan_curve<P>(cp1: Option<P>, cp2: Option<P>, end: P) -> (seg: CurveSegment<P>)
    ensures
        seg.end() == end,
        match (cp1, cp2) {
            (None, None) => seg == CurveSegment::LineTo(end),
            (Some(c), None) => seg == CurveSegment::QuadraticTo(c, end),
            (None, Some(c)) => seg == CurveSegment::QuadraticTo(c, end),
            (Some(a), Some(b)) => seg == CurveSegment::BezierTo(a, b, end),
        },
{
    match cp1 {
        None => match cp2 {
            None => CurveSegment::LineTo(end),
            Some(c) => CurveSegment::QuadraticTo(c, end),
        },
        Some(a) => match cp2 {
            None => CurveSegment::QuadraticTo(a, end),
            Some(b) => CurveSegment::BezierTo(a, b, end),
        },
    }
}

} // verus!
