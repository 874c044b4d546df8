use tail_f_plot::plot_state::{
    ensure_visibility, latest_value, line_segments, series_is_visible, toggle_visibility,
    visible_bounds, PlotData, PointKind, SeriesData,
};

fn names(v: &[&str]) -> Vec<String> {
    v.iter().map(|s| s.to_string()).collect()
}

#[test]
fn series_new_is_empty() {
    let s: SeriesData<f64> = SeriesData::new("T".to_string());
    assert_eq!(s.name, "T");
    assert!(s.points.is_empty());
}

#[test]
fn push_row_appends_to_every_series() {
    let mut d: PlotData<f64> = PlotData::new(&names(&["a", "b", "c"]), false);
    d.push_row(1.0, &[Some(2.0), None]);
    d.push_row(2.0, &[Some(3.0), Some(4.0), Some(5.0), Some(6.0)]);
    assert_eq!(d.series[0].points, vec![(1.0, Some(2.0)), (2.0, Some(3.0))]);
    assert_eq!(d.series[1].points, vec![(1.0, None), (2.0, Some(4.0))]);
    assert_eq!(d.series[2].points, vec![(1.0, None), (2.0, Some(5.0))]);
}

#[test]
fn origin_is_first_row() {
    let mut d: PlotData<f64> = PlotData::new(&names(&["a"]), false);
    assert_eq!(d.x_origin(100.0), Some(100.0));
    assert_eq!(d.x_origin(160.0), Some(100.0));
    assert_eq!(d.epoch_origin, Some(100.0));
    let mut a: PlotData<f64> = PlotData::new(&names(&["a"]), true);
    assert_eq!(a.x_origin(100.0), None);
    assert_eq!(a.epoch_origin, None);
}

#[test]
fn render_range_takes_stricter_limit() {
    let mut d: PlotData<i64> = PlotData::new(&names(&["a"]), true);
    assert_eq!(d.get_render_range(10, 0), None);
    for i in 0..100 {
        d.push_row(i, &[Some(i)]);
    }
    assert_eq!(d.last_x(), Some(99));
    // point limit stricter
    assert_eq!(d.get_render_range(10, 50), Some((90, 100)));
    // time limit stricter
    assert_eq!(d.get_render_range(60, 95), Some((95, 100)));
    // neither applies
    assert_eq!(d.get_render_range(1000, 0), Some((0, 100)));
}

#[test]
fn render_range_without_series() {
    let d: PlotData<f64> = PlotData::new(&[], false);
    assert_eq!(d.get_render_range(5, 0), None);
    assert_eq!(d.last_x(), None);
}

#[test]
fn slice_bounds_clip_and_empty() {
    assert_eq!(visible_bounds(10, Some((2, 20))), (2, 10));
    assert_eq!(visible_bounds(10, Some((12, 20))), (0, 0));
    assert_eq!(visible_bounds(10, None), (0, 10));
}

#[test]
fn latest_value_is_last_present() {
    let pts = vec![(0, Some(1)), (1, Some(2)), (2, None), (3, None)];
    assert_eq!(latest_value(&pts, None), Some(2));
    assert_eq!(latest_value(&pts, Some((2, 4))), None);
    assert_eq!(latest_value(&pts, Some((0, 1))), Some(1));
    assert_eq!(latest_value(&pts, Some((9, 12))), None);
}

#[test]
fn visibility_grows_and_toggles() {
    let mut v = vec![false];
    ensure_visibility(&mut v, 3);
    assert_eq!(v, vec![false, true, true]);
    ensure_visibility(&mut v, 1);
    assert_eq!(v.len(), 3);
    toggle_visibility(&mut v, 1);
    assert_eq!(v, vec![false, false, true]);
    toggle_visibility(&mut v, 7);
    assert_eq!(v, vec![false, false, true]);
    assert!(!series_is_visible(&v, 0));
    assert!(series_is_visible(&v, 5));
}

#[test]
fn segments_break_at_missing_only() {
    let kinds = [PointKind::Shown, PointKind::Shown, PointKind::Hidden, PointKind::Shown, PointKind::Missing, PointKind::Missing, PointKind::Shown, PointKind::Hidden, PointKind::Missing, PointKind::Hidden];
    assert_eq!(line_segments(&kinds), vec![vec![0, 1, 3], vec![6]]);
    assert_eq!(line_segments(&[PointKind::Hidden, PointKind::Missing]), Vec::<Vec<usize>>::new());
    assert_eq!(line_segments(&[]), Vec::<Vec<usize>>::new());
}
