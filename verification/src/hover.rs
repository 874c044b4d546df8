//! Row selection for the hover tooltip.
//!
//! The series are row-aligned, so the tooltip picks one row and shows every
//! visible series' value on it.  Locating the cursor among the X values
//! and measuring screen distances is done by the caller; this module does
//! the index arithmetic around it and collects the values of the row.
use vstd::prelude::*;
use crate::plot_state::{series_is_visible, SeriesData};

verus! {

/// The rows the tooltip may pick from: the render range clipped to the
/// `total` rows, or every row without a range; `None` when that leaves
/// no row.
pub open spec fn hover_rows(total: int, render_range: Option<(usize, usize)>) -> Option<
    (int, int),
> {
    let (s, e) = match render_range {
        Some(r) => (r.0 as int, r.1 as int),
        None => (0, total),
    };
    let s = if s < total {
        s
    } else {
        total
    };
    let e = if e < total {
        e
    } else {
        total
    };
    if s >= e {
        None
    } else {
        Some((s, e))
    }
}

/// Every row of a render range that lies inside the rows can be hovered,
/// the last one included; a range reaching past the rows is cut at the
/// last row, and the window always lies inside both.
pub proof fn law_hover_rows_cover_range(total: int, s: usize, e: usize)
    requires
        0 <= total,
    ensures
        s < e <= total ==> hover_rows(total, Some((s, e))) == Some((s as int, e as int)),
        s < total < e ==> hover_rows(total, Some((s, e))) == Some((s as int, total)),
        0 < total ==> hover_rows(total, None) == Some((0int, total)),
        hover_rows(total, Some((s, e))) matches Some(w) ==> s <= w.0 < w.1 <= total && w.1 <= e,
{
}

/// Executable form of [`hover_rows`].
pub fn hover_window(total: usize, render_range: Option<(usize, usize)>) -> (w: Option<
    (usize, usize),
>)
    ensures
        w matches Some(p) ==> hover_rows(total as int, render_range) == Some(
            (p.0 as int, p.1 as int),
        ),
        w is None ==> hover_rows(total as int, render_range) is None,
{
    let (s, e) = match render_range {
        Some(r) => r,
        None => (0, total),
    };
    let s = if s < total {
        s
    } else {
        total
    };
    let e = if e < total {
        e
    } else {
        total
    };
    if s >= e {
        None
    } else {
        Some((s, e))
    }
}

/// The row nearest to the cursor when no point is close enough to snap
/// to: the last row when the cursor is right of every row, the first when
/// it is left of them, otherwise the closer of the two rows around it
/// (`lower_is_closer` says whether the cursor is no farther from row
/// `hv_idx - 1` than from row `hv_idx`).
pub fn nearest_row(hv_idx: usize, start: usize, end: usize, lower_is_closer: bool) -> (row: usize)
    requires
        start < end,
        start <= hv_idx <= end,
    ensures
        start <= row < end,
        hv_idx >= end ==> row == end - 1,
        hv_idx <= start ==> row == start,
        start < hv_idx < end ==> row == if lower_is_closer {
            hv_idx - 1
        } else {
            hv_idx as int
        },
{
    if hv_idx >= end {
        end - 1
    } else if hv_idx <= start {
        start
    } else if lower_is_closer {
        hv_idx - 1
    } else {
        hv_idx
    }
}

/// One series' value at the hovered row.
pub struct SeriesValue<N> {
    pub name: String,
    pub color: [u8; 3],
    pub y: N,
}

/// Whether series `i` shows a value at row `row`: it is visible and has a
/// Y there.
pub open spec fn shows_value<N>(series: Seq<SeriesData<N>>, visible: Seq<bool>, row: int, i: int) -> bool {
    &&& crate::plot_state::is_visible(visible, i)
    &&& 0 <= row < series[i].points@.len()
    &&& series[i].points@[row].1 is Some
}

/// The values of series `0..k` at the row, in legend order, as
/// `(name, color, y)`; colours cycle through the palette.
pub open spec fn row_values_prefix<N>(
    series: Seq<SeriesData<N>>,
    visible: Seq<bool>,
    colors: Seq<[u8; 3]>,
    row: int,
    k: int,
) -> Seq<(Seq<char>, Seq<u8>, N)>
    decreases k,
{
    if k <= 0 {
        seq![]
    } else if shows_value(series, visible, row, k - 1) {
        row_values_prefix(series, visible, colors, row, k - 1).push(
            (
                series[k - 1].name@,
                colors[(k - 1) % (colors.len() as int)]@,
                series[k - 1].points@[row].1->0,
            ),
        )
    } else {
        row_values_prefix(series, visible, colors, row, k - 1)
    }
}

/// The view of a series value.
pub open spec fn value_view<N>(v: SeriesValue<N>) -> (Seq<char>, Seq<u8>, N) {
    (v.name@, v.color@, v.y)
}

/// The values of all visible series at the row, in legend order.
pub fn row_values<N: Copy>(
    series: &[SeriesData<N>],
    visible: &[bool],
    colors: &[[u8; 3]],
    row: usize,
) -> (vals: Vec<SeriesValue<N>>)
    requires
        colors@.len() > 0 || forall|i: int|
            0 <= i < series@.len() ==> !#[trigger] shows_value(series@, visible@, row as int, i),
    ensures
        vals@.map_values(|v: SeriesValue<N>| value_view(v)) == row_values_prefix(
            series@,
            visible@,
            colors@,
            row as int,
            series@.len() as int,
        ),
{
    let mut out: Vec<SeriesValue<N>> = Vec::new();
    let mut i: usize = 0;
    while i < series.len()
        invariant
            i <= series@.len(),
            colors@.len() > 0 || forall|k: int|
                0 <= k < series@.len() ==> !#[trigger] shows_value(
                    series@,
                    visible@,
                    row as int,
                    k,
                ),
            out@.map_values(|v: SeriesValue<N>| value_view(v)) == row_values_prefix(
                series@,
                visible@,
                colors@,
                row as int,
                i as int,
            ),
        decreases series@.len() - i,
    {
        let vis = series_is_visible(visible, i);
        let s = &series[i];
        if vis && row < s.points.len() {
            match s.points[row].1 {
                Some(y) => {
                    assert(shows_value(series@, visible@, row as int, i as int));
                    let color = colors[i % colors.len()];
                    let ghost before = out@.map_values(|v: SeriesValue<N>| value_view(v));
                    let v = SeriesValue { name: s.name.clone(), color, y };
                    out.push(v);
                    assert(out@.map_values(|v: SeriesValue<N>| value_view(v)) =~= before.push(
                        value_view(v),
                    ));
                },
                None => {},
            }
        }
        i = i + 1;
    }
    out
}

/// The colour of series `i`: the palette is used round and round.
pub fn series_color(colors: &[[u8; 3]], i: usize) -> (c: [u8; 3])
    requires
        colors@.len() > 0,
    ensures
        c == colors@[(i as int) % (colors@.len() as int)],
{
    colors[i % colors.len()]
}

} // verus!
