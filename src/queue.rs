//! The buffers that markers and lines wait in until the next spawn phase.
use crate::color::Color;
use crate::geometry::Vec3i;
use crate::gizmo::{Gizmo, Line, LineView};
use vstd::prelude::*;

verus! {

/// The positions of the markers, in order.
pub open spec fn positions_of(gizmos: Seq<Gizmo>) -> Seq<Vec3i> {
    Seq::new(gizmos.len(), |i: int| gizmos[i].translation)
}

/// The views of the lines, in order.
pub open spec fn line_views(lines: Seq<Line>) -> Seq<LineView> {
    Seq::new(lines.len(), |i: int| lines[i]@)
}

/// The lines after a request to draw `points` in `color`: a line needs at
/// least two points, and fewer add nothing.
pub open spec fn with_line(lines: Seq<LineView>, points: Seq<Vec3i>, color: Color) -> Seq<LineView> {
    if points.len() >= 2 {
        lines.push(LineView { points, color })
    } else {
        lines
    }
}

/// The points of a closed line: the first point repeated at the end. An
/// empty list stays empty.
pub open spec fn closed_points(points: Seq<Vec3i>) -> Seq<Vec3i> {
    if points.len() == 0 {
        points
    } else {
        points.push(points[0])
    }
}

/// The pending markers and lines of one tick.
pub struct SubmissionQueue {
    gizmos: Vec<Gizmo>,
    lines: Vec<Line>,
}

impl SubmissionQueue {
    pub closed spec fn markers(&self) -> Seq<Gizmo> {
        self.gizmos@
    }

    pub closed spec fn pending_lines(&self) -> Seq<LineView> {
        line_views(self.lines@)
    }

    pub fn new() -> (q: SubmissionQueue)
        ensures
            q.markers() == Seq::<Gizmo>::empty(),
            q.pending_lines() == Seq::<LineView>::empty(),
    {
        let q = SubmissionQueue { gizmos: Vec::new(), lines: Vec::new() };
        assert(q.pending_lines() =~= Seq::<LineView>::empty());
        q
    }

    pub fn marker_count(&self) -> (n: usize)
        ensures
            n == self.markers().len(),
    {
        self.gizmos.len()
    }

    pub fn line_count(&self) -> (n: usize)
        ensures
            n == self.pending_lines().len(),
    {
        self.lines.len()
    }

    /// Queues one marker for the next spawn phase.
    pub fn submit_marker(&mut self, gizmo: Gizmo)
        ensures
            final(self).markers() == old(self).markers().push(gizmo),
            final(self).pending_lines() == old(self).pending_lines(),
    {
        self.gizmos.push(gizmo);
    }

    /// Queues the markers in order; with `connect_with_line`, also a line
    /// through their positions in the first marker's color.
    pub fn submit_markers(&mut self, gizmos: Vec<Gizmo>, connect_with_line: bool)
        ensures
            final(self).markers() == old(self).markers() + gizmos@,
            final(self).pending_lines() == if connect_with_line && gizmos@.len() > 0 {
                with_line(old(self).pending_lines(), positions_of(gizmos@), gizmos@[0].color)
            } else {
                old(self).pending_lines()
            },
    {
        if connect_with_line && gizmos.len() > 0 {
            let mut points: Vec<Vec3i> = Vec::new();
            let mut i: usize = 0;
            while i < gizmos.len()
                invariant
                    i <= gizmos@.len(),
                    points@ == positions_of(gizmos@).subrange(0, i as int),
                decreases gizmos@.len() - i,
            {
                points.push(gizmos[i].translation);
                i += 1;
                assert(points@ =~= positions_of(gizmos@).subrange(0, i as int));
            }
            assert(points@ =~= positions_of(gizmos@));
            let color = gizmos[0].color;
            self.submit_line(points, color);
        }
        let ghost before = self.gizmos@;
        let ghost lines_before = self.lines@;
        let mut i: usize = 0;
        while i < gizmos.len()
            invariant
                i <= gizmos@.len(),
                self.gizmos@ == before + gizmos@.subrange(0, i as int),
                self.lines@ == lines_before,
            decreases gizmos@.len() - i,
        {
            self.gizmos.push(gizmos[i]);
            i += 1;
            assert(self.gizmos@ =~= before + gizmos@.subrange(0, i as int));
        }
        assert(gizmos@.subrange(0, gizmos@.len() as int) =~= gizmos@);
    }

    /// Queues an open line; fewer than two points add nothing.
    pub fn submit_line(&mut self, points: Vec<Vec3i>, color: Color)
        ensures
            final(self).markers() == old(self).markers(),
            final(self).pending_lines() == with_line(old(self).pending_lines(), points@, color),
    {
        if points.len() >= 2 {
            let ghost old_lines = self.lines@;
            let line = Line::new(points, color);
            self.lines.push(line);
            assert(line_views(self.lines@) =~= line_views(old_lines).push(line@));
        }
    }

    /// Queues a closed line: the points with the first one appended. An empty
    /// list adds nothing.
    pub fn submit_closed_line(&mut self, points: Vec<Vec3i>, color: Color)
        ensures
            final(self).markers() == old(self).markers(),
            final(self).pending_lines() == with_line(
                old(self).pending_lines(),
                closed_points(points@),
                color,
            ),
    {
        if points.len() == 0 {
            return;
        }
        let mut points = points;
        let first = points[0];
        points.push(first);
        self.submit_line(points, color);
    }

    /// Takes everything pending and leaves the queue empty.
    pub fn drain(&mut self) -> (r: (Vec<Gizmo>, Vec<Line>))
        ensures
            r.0@ == old(self).markers(),
            line_views(r.1@) == old(self).pending_lines(),
            final(self).markers() == Seq::<Gizmo>::empty(),
            final(self).pending_lines() == Seq::<LineView>::empty(),
    {
        let mut gizmos: Vec<Gizmo> = Vec::new();
        let mut lines: Vec<Line> = Vec::new();
        std::mem::swap(&mut gizmos, &mut self.gizmos);
        std::mem::swap(&mut lines, &mut self.lines);
        assert(line_views(self.lines@) =~= Seq::<LineView>::empty());
        (gizmos, lines)
    }
}

} // verus!
