//! Row-aligned series storage and the index arithmetic of the render window.
//!
//! The store is generic in the number type `N` of the coordinates; it only
//! moves values around, it never computes with them.
use vstd::prelude::*;

verus! {

/// Interaction mode of the plot area.
#[derive(Debug, Clone, Copy, PartialEq, Eq, Structural)]
pub enum PlotMode {
    /// No zoom tool selected: dragging pans the view.
    Pan,
    /// Box zoom: drag to select the area to zoom into.
    ZoomIn,
    /// Click to zoom out around the cursor.
    ZoomOut,
}

/// One plotted series: its name and its `(x, y)` points, `y` being `None`
/// where the cell was empty.
pub struct SeriesData<N> {
    pub name: String,
    pub points: Vec<(N, Option<N>)>,
}

impl<N> SeriesData<N> {
    /// An empty series with the given name.
    pub fn new(name: String) -> (s: Self)
        ensures
            s.name == name,
            s.points@.len() == 0,
    {
        SeriesData { name, points: Vec::new() }
    }
}

/// All plotted series.  Every row appends one point to every series, so the
/// series stay row-aligned: point `k` of each series comes from row `k`.
pub struct PlotData<N> {
    pub series: Vec<SeriesData<N>>,
    /// The X value of the first row, the origin of the X axis.
    pub epoch_origin: Option<N>,
    /// Plot X values as read, without subtracting the origin.
    pub absolute_x: bool,
}

/// The Y value of series `i` in a row: missing entries read as `None`.
pub open spec fn row_y<N>(y_values: Seq<Option<N>>, i: int) -> Option<N> {
    if 0 <= i < y_values.len() {
        y_values[i]
    } else {
        None
    }
}

impl<N: Copy> PlotData<N> {
    /// Every series has the same number of points.
    pub open spec fn aligned(&self) -> bool {
        forall|i: int, j: int|
            0 <= i < self.series@.len() && 0 <= j < self.series@.len() ==> (
            #[trigger] self.series@[i]).points@.len() == (#[trigger] self.series@[j]).points@.len()
    }

    /// The number of rows stored.
    pub open spec fn rows(&self) -> nat {
        if self.series@.len() > 0 {
            self.series@[0].points@.len()
        } else {
            0
        }
    }

    /// One empty series per name, in order, with no origin yet.
    pub fn new(names: &[String], absolute_x: bool) -> (d: Self)
        ensures
            d.series@.len() == names@.len(),
            forall|i: int|
                0 <= i < names@.len() ==> (#[trigger] d.series@[i]).name == names@[i]
                    && d.series@[i].points@.len() == 0,
            d.epoch_origin is None,
            d.absolute_x == absolute_x,
            d.aligned(),
    {
        let mut series: Vec<SeriesData<N>> = Vec::new();
        let mut i: usize = 0;
        while i < names.len()
            invariant
                i <= names@.len(),
                series@.len() == i,
                forall|k: int|
                    0 <= k < i ==> (#[trigger] series@[k]).name == names@[k]
                        && series@[k].points@.len() == 0,
            decreases names@.len() - i,
        {
            series.push(SeriesData::new(names[i].clone()));
            i = i + 1;
        }
        PlotData { series, epoch_origin: None, absolute_x }
    }

    /// The origin to subtract from `x_value`: `None` in absolute mode;
    /// otherwise the X of the first row, which `x_value` becomes when no row
    /// has been seen yet.
    pub fn x_origin(&mut self, x_value: N) -> (o: Option<N>)
        ensures
            final(self).series == old(self).series,
            final(self).absolute_x == old(self).absolute_x,
            old(self).absolute_x ==> o is None && final(self).epoch_origin
                == old(self).epoch_origin,
            !old(self).absolute_x ==> final(self).epoch_origin == Some(
                match old(self).epoch_origin {
                    Some(e) => e,
                    None => x_value,
                },
            ) && o == final(self).epoch_origin,
    {
        if self.absolute_x {
            None
        } else {
            if self.epoch_origin.is_none() {
                self.epoch_origin = Some(x_value);
            }
            self.epoch_origin
        }
    }

    /// Appends one row at plot X `x` (the origin already subtracted, see
    /// [`PlotData::x_origin`]): series `i` gets `(x, y_values[i])`, or
    /// `(x, None)` when `y_values` is shorter.
    pub fn push_row(&mut self, x: N, y_values: &[Option<N>])
        ensures
            final(self).epoch_origin == old(self).epoch_origin,
            final(self).absolute_x == old(self).absolute_x,
            final(self).series@.len() == old(self).series@.len(),
            forall|i: int|
                0 <= i < old(self).series@.len() ==> (#[trigger] final(self).series@[i]).name
                    == old(self).series@[i].name && final(self).series@[i].points@ == old(self).series@[i].points@.push((x, row_y(y_values@, i))),
            old(self).aligned() ==> final(self).aligned(),
            old(self).aligned() ==> final(self).rows() == old(self).rows() + 1 || final(self).series@.len() == 0,
    {
        let n = self.series.len();
        let mut i: usize = 0;
        while i < n
            invariant
                n == old(self).series@.len(),
                self.series@.len() == n,
                i <= n,
                self.epoch_origin == old(self).epoch_origin,
                self.absolute_x == old(self).absolute_x,
                forall|k: int|
                    0 <= k < i ==> (#[trigger] self.series@[k]).name == old(self).series@[k].name
                        && self.series@[k].points@ == old(self).series@[k].points@.push(
                        (x, row_y(y_values@, k)),
                    ),
                forall|k: int| i <= k < n ==> #[trigger] self.series@[k] == old(self).series@[k],
            decreases n - i,
        {
            let y = if i < y_values.len() {
                y_values[i]
            } else {
                None
            };
            let mut s = self.series.remove(i);
            s.points.push((x, y));
            self.series.insert(i, s);
            i = i + 1;
        }
        proof {
            if old(self).aligned() {
                assert forall|a: int, b: int|
                    0 <= a < self.series@.len() && 0 <= b < self.series@.len() implies (
                    #[trigger] self.series@[a]).points@.len() == (
                    #[trigger] self.series@[b]).points@.len() by {
                    assert(old(self).series@[a].points@.len() == old(self).series@[b].points@.len());
                }
            }
        }
    }

    /// The X of the last row, if any.
    pub fn last_x(&self) -> (x: Option<N>)
        ensures
            self.rows() == 0 ==> x is None,
            self.rows() > 0 ==> x == Some(self.series@[0].points@.last().0),
    {
        if self.series.len() == 0 {
            return None;
        }
        let pts = &self.series[0].points;
        if pts.len() == 0 {
            None
        } else {
            Some(pts[pts.len() - 1].0)
        }
    }

    /// The rows to render, `(start, end)`, or `None` when there is no row.
    /// `time_start_idx` is the first row inside the time window; the point
    /// limit gives the other candidate start, and the later of the two
    /// (the one that renders fewer points) is used.
    pub fn get_render_range(&self, max_points: usize, time_start_idx: usize) -> (r: Option<
        (usize, usize),
    >)
        requires
            time_start_idx <= self.rows(),
        ensures
            self.rows() == 0 ==> r is None,
            self.rows() > 0 ==> r == Some(
                (
                    if time_start_idx as int >= self.rows() - max_points {
                        time_start_idx
                    } else {
                        (self.rows() - max_points) as usize
                    },
                    self.rows() as usize,
                ),
            ),
    {
        if self.series.len() == 0 {
            return None;
        }
        let total = self.series[0].points.len();
        if total == 0 {
            return None;
        }
        let points_start_idx = if total > max_points {
            total - max_points
        } else {
            0
        };
        let start_idx = if time_start_idx >= points_start_idx {
            time_start_idx
        } else {
            points_start_idx
        };
        Some((start_idx, total))
    }
}

/// The render window never starts after its end, never holds more than
/// `max_points` rows unless the time window already starts later, and
/// always ends at the last row.
pub proof fn law_render_range_bounds(total: int, max_points: int, time_start_idx: int)
    requires
        0 < total,
        0 <= max_points,
        0 <= time_start_idx <= total,
    ensures
        ({
            let start = if time_start_idx >= total - max_points {
                time_start_idx
            } else {
                total - max_points
            };
            &&& 0 <= start <= total
            &&& total - start <= max_points || start == 0
            &&& start >= time_start_idx
        }),
{
}

/// The slice `[start, end)` of a series of `len` points that a render
/// range selects: the range clipped to the series, or nothing when it
/// starts past the end.  Without a range the whole series is selected.
pub open spec fn slice_bounds(len: int, render_range: Option<(usize, usize)>) -> (int, int) {
    let (si, ei) = match render_range {
        Some(r) => (r.0 as int, r.1 as int),
        None => (0, len),
    };
    if si < len {
        (si, if ei < len {
            ei
        } else {
            len
        })
    } else {
        (0, 0)
    }
}

/// The range can be sliced: it does not end before it starts.
pub open spec fn slice_ok(len: int, render_range: Option<(usize, usize)>) -> bool {
    match render_range {
        Some(r) => r.0 < len ==> r.0 <= r.1,
        None => true,
    }
}

/// The bounds of the selected slice of a series of `len` points.
pub fn visible_bounds(len: usize, render_range: Option<(usize, usize)>) -> (b: (usize, usize))
    requires
        slice_ok(len as int, render_range),
    ensures
        (b.0 as int, b.1 as int) == slice_bounds(len as int, render_range),
        b.0 <= b.1 <= len,
{
    let (si, ei) = match render_range {
        Some(r) => r,
        None => (0, len),
    };
    if si < len {
        (si, if ei < len {
            ei
        } else {
            len
        })
    } else {
        (0, 0)
    }
}

/// The Y of the last point in `points[lo..hi]` that has one.
pub open spec fn last_present<N>(points: Seq<(N, Option<N>)>, lo: int, hi: int) -> Option<N>
    decreases hi - lo,
{
    if hi <= lo {
        None
    } else if points[hi - 1].1 is Some {
        points[hi - 1].1
    } else {
        last_present(points, lo, hi - 1)
    }
}

/// The latest Y value among the rendered points of a series (what the
/// legend shows next to the series name).
pub fn latest_value<N: Copy>(points: &[(N, Option<N>)], render_range: Option<(usize, usize)>) -> (r:
    Option<N>)
    requires
        slice_ok(points@.len() as int, render_range),
    ensures
        r == last_present(
            points@,
            slice_bounds(points@.len() as int, render_range).0,
            slice_bounds(points@.len() as int, render_range).1,
        ),
{
    let (lo, hi) = visible_bounds(points.len(), render_range);
    let mut j = hi;
    while j > lo
        invariant
            lo <= j <= hi <= points@.len(),
            (lo as int, hi as int) == slice_bounds(points@.len() as int, render_range),
            last_present(points@, lo as int, hi as int) == last_present(
                points@,
                lo as int,
                j as int,
            ),
        decreases j,
    {
        let v = points[j - 1].1;
        if v.is_some() {
            assert(last_present(points@, lo as int, j as int) == v);
            return v;
        }
        j = j - 1;
    }
    None
}

/// Whether series `i` is shown: entries past the end of the flags count as shown.
pub open spec fn is_visible(flags: Seq<bool>, i: int) -> bool {
    if 0 <= i < flags.len() {
        flags[i]
    } else {
        true
    }
}

/// Executable form of [`is_visible`].
pub fn series_is_visible(flags: &[bool], i: usize) -> (b: bool)
    ensures
        b == is_visible(flags@, i as int),
{
    if i < flags.len() {
        flags[i]
    } else {
        true
    }
}

/// Grows the visibility flags to cover `n` series; new series are shown.
pub fn ensure_visibility(flags: &mut Vec<bool>, n: usize)
    ensures
        final(flags)@.len() == if old(flags)@.len() >= n {
            old(flags)@.len()
        } else {
            n as nat
        },
        forall|i: int| 0 <= i < old(flags)@.len() ==> #[trigger] final(flags)@[i] == old(flags)@[i],
        forall|i: int| old(flags)@.len() <= i < final(flags)@.len() ==> #[trigger] final(flags)@[i],
{
    while flags.len() < n
        invariant
            old(flags)@.len() <= flags@.len(),
            flags@.len() <= n || flags@.len() == old(flags)@.len(),
            forall|i: int| 0 <= i < old(flags)@.len() ==> #[trigger] flags@[i] == old(flags)@[i],
            forall|i: int| old(flags)@.len() <= i < flags@.len() ==> #[trigger] flags@[i],
        decreases n - flags@.len(),
    {
        flags.push(true);
    }
}

/// Flips the visibility of series `i` (a click on its legend entry); flags
/// outside the vector are left alone.
pub fn toggle_visibility(flags: &mut Vec<bool>, i: usize)
    ensures
        i < old(flags)@.len() ==> final(flags)@ == old(flags)@.update(i as int, !old(flags)@[i as int]),
        i >= old(flags)@.len() ==> final(flags)@ == old(flags)@,
{
    if i < flags.len() {
        let v = flags[i];
        flags.set(i, !v);
    }
}

/// How one point of a series is drawn.
#[derive(Debug, Clone, Copy, PartialEq, Eq, Structural)]
pub enum PointKind {
    /// The cell was empty: the line breaks here.
    Missing,
    /// The point has a value that cannot be drawn (a non-positive value on
    /// a log scale): it is skipped without breaking the line.
    Hidden,
    /// The point is drawn.
    Shown,
}

/// No point strictly between `a` and `b` is drawn.
pub open spec fn none_shown_between(kinds: Seq<PointKind>, a: int, b: int) -> bool {
    forall|m: int| a < m < b ==> #[trigger] kinds[m] != PointKind::Shown
}

/// No point strictly between `a` and `b` is missing.
pub open spec fn none_missing_between(kinds: Seq<PointKind>, a: int, b: int) -> bool {
    forall|m: int| a < m < b ==> #[trigger] kinds[m] != PointKind::Missing
}

/// Some point strictly between `a` and `b` is missing.
pub open spec fn missing_between(kinds: Seq<PointKind>, a: int, b: int) -> bool {
    exists|m: int| a < m < b && #[trigger] kinds[m] == PointKind::Missing
}

/// `segs` are the line segments of a series with point kinds `kinds`: each
/// drawn point lies in exactly one segment, in order; consecutive points of
/// a segment have no missing point between them, and consecutive segments
/// have one.
pub open spec fn are_segments(kinds: Seq<PointKind>, segs: Seq<Seq<usize>>) -> bool {
    &&& forall|p: int| 0 <= p < segs.len() ==> #[trigger] segs[p].len() > 0
    &&& forall|p: int, q: int|
        0 <= p < segs.len() && 0 <= q < segs[p].len() ==> #[trigger] segs[p][q] < kinds.len()
            && kinds[segs[p][q] as int] == PointKind::Shown
    &&& forall|p: int, q: int|
        0 <= p < segs.len() && 0 <= q < segs[p].len() - 1 ==> #[trigger] segs[p][q] < segs[p][q
            + 1] && none_shown_between(kinds, segs[p][q] as int, segs[p][q + 1] as int)
            && none_missing_between(kinds, segs[p][q] as int, segs[p][q + 1] as int)
    &&& forall|p: int|
        0 <= p < segs.len() - 1 ==> #[trigger] segs[p].last() < segs[p + 1][0]
            && none_shown_between(kinds, segs[p].last() as int, segs[p + 1][0] as int)
            && missing_between(kinds, segs[p].last() as int, segs[p + 1][0] as int)
    &&& segs.len() == 0 ==> none_shown_between(kinds, -1, kinds.len() as int)
    &&& segs.len() > 0 ==> none_shown_between(kinds, -1, segs[0][0] as int)
        && none_shown_between(kinds, segs.last().last() as int, kinds.len() as int)
}

/// The line segments of a series: runs of drawn points, cut at missing
/// points; hidden points are skipped without cutting the line.
pub fn line_segments(kinds: &[PointKind]) -> (segs: Vec<Vec<usize>>)
    ensures
        are_segments(kinds@, segs@.map_values(|v: Vec<usize>| v@)),
{
    let ghost k = kinds@;
    let mut segs: Vec<Vec<usize>> = Vec::new();
    let mut cur: Vec<usize> = Vec::new();
    let mut i: usize = 0;
    while i < kinds.len()
        invariant
            k == kinds@,
            i <= k.len(),
            forall|p: int| 0 <= p < segs@.len() ==> #[trigger] segs@[p]@.len() > 0,
            forall|p: int, q: int|
                0 <= p < segs@.len() && 0 <= q < segs@[p]@.len() ==> #[trigger] segs@[p]@[q] < i
                    && k[segs@[p]@[q] as int] == PointKind::Shown,
            forall|p: int, q: int|
                0 <= p < segs@.len() && 0 <= q < segs@[p]@.len() - 1 ==> #[trigger] segs@[p]@[q]
                    < segs@[p]@[q + 1] && none_shown_between(
                    k,
                    segs@[p]@[q] as int,
                    segs@[p]@[q + 1] as int,
                ) && none_missing_between(k, segs@[p]@[q] as int, segs@[p]@[q + 1] as int),
            forall|p: int|
                0 <= p < segs@.len() - 1 ==> #[trigger] segs@[p]@.last() < segs@[p + 1]@[0]
                    && none_shown_between(k, segs@[p]@.last() as int, segs@[p + 1]@[0] as int)
                    && missing_between(k, segs@[p]@.last() as int, segs@[p + 1]@[0] as int),
            forall|q: int|
                0 <= q < cur@.len() ==> #[trigger] cur@[q] < i && k[cur@[q] as int]
                    == PointKind::Shown,
            forall|q: int|
                0 <= q < cur@.len() - 1 ==> #[trigger] cur@[q] < cur@[q + 1] && none_shown_between(
                    k,
                    cur@[q] as int,
                    cur@[q + 1] as int,
                ) && none_missing_between(k, cur@[q] as int, cur@[q + 1] as int),
            cur@.len() > 0 ==> none_shown_between(k, cur@.last() as int, i as int)
                && none_missing_between(k, cur@.last() as int, i as int),
            segs@.len() > 0 && cur@.len() > 0 ==> segs@.last()@.last() < cur@[0]
                && none_shown_between(k, segs@.last()@.last() as int, cur@[0] as int)
                && missing_between(k, segs@.last()@.last() as int, cur@[0] as int),
            segs@.len() > 0 && cur@.len() == 0 ==> none_shown_between(
                k,
                segs@.last()@.last() as int,
                i as int,
            ) && missing_between(k, segs@.last()@.last() as int, i as int),
            segs@.len() == 0 && cur@.len() > 0 ==> none_shown_between(k, -1, cur@[0] as int),
            segs@.len() == 0 && cur@.len() == 0 ==> none_shown_between(k, -1, i as int),
            segs@.len() > 0 ==> none_shown_between(k, -1, segs@[0]@[0] as int),
        decreases k.len() - i,
    {
        match kinds[i] {
            PointKind::Shown => {
                cur.push(i);
            },
            PointKind::Hidden => {},
            PointKind::Missing => {
                if cur.len() > 0 {
                    let mut c: Vec<usize> = Vec::new();
                    std::mem::swap(&mut c, &mut cur);
                    segs.push(c);
                    assert(missing_between(k, segs@.last()@.last() as int, i + 1)) by {
                        assert(k[i as int] == PointKind::Missing);
                    }
                }
            },
        }
        i = i + 1;
    }
    if cur.len() > 0 {
        segs.push(cur);
    }
    let ghost sv = segs@.map_values(|v: Vec<usize>| v@);
    assert forall|p: int| 0 <= p < sv.len() implies #[trigger] sv[p] == segs@[p]@ by {}
    segs
}

} // verus!
