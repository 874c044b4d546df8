use tail_f_plot::hover::{hover_window, nearest_row, row_values, series_color};
use tail_f_plot::plot_state::SeriesData;

#[test]
fn hover_window_clips() {
    assert_eq!(hover_window(10, None), Some((0, 10)));
    assert_eq!(hover_window(10, Some((4, 20))), Some((4, 10)));
    assert_eq!(hover_window(10, Some((12, 20))), None);
    assert_eq!(hover_window(0, None), None);
}

#[test]
fn nearest_row_cases() {
    assert_eq!(nearest_row(10, 0, 10, true), 9);
    assert_eq!(nearest_row(0, 0, 10, false), 0);
    assert_eq!(nearest_row(5, 0, 10, true), 4);
    assert_eq!(nearest_row(5, 0, 10, false), 5);
}

#[test]
fn values_of_visible_series_at_row() {
    let a = SeriesData { name: "a".to_string(), points: vec![(0.0, Some(1.0)), (1.0, Some(2.0))] };
    let b = SeriesData { name: "b".to_string(), points: vec![(0.0, None), (1.0, Some(5.0))] };
    let c = SeriesData { name: "c".to_string(), points: vec![(0.0, Some(9.0)), (1.0, Some(7.0))] };
    let series = vec![a, b, c];
    let colors = [[1, 1, 1], [2, 2, 2]];
    let v = row_values(&series, &[true, true, false], &colors, 1);
    assert_eq!(v.len(), 2);
    assert_eq!((v[0].name.as_str(), v[0].color, v[0].y), ("a", [1, 1, 1], 2.0));
    assert_eq!((v[1].name.as_str(), v[1].color, v[1].y), ("b", [2, 2, 2], 5.0));
    let w = row_values(&series, &[], &colors, 0);
    assert_eq!(w.len(), 2);
    assert_eq!((w[1].name.as_str(), w[1].color, w[1].y), ("c", [1, 1, 1], 9.0));
    assert!(row_values(&series, &[], &colors, 5).is_empty());
}

#[test]
fn colors_cycle() {
    let colors = [[1, 0, 0], [0, 1, 0], [0, 0, 1]];
    assert_eq!(series_color(&colors, 4), [0, 1, 0]);
    assert_eq!(series_color(&colors, 2), [0, 0, 1]);
}
