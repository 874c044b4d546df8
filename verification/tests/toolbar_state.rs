use tail_f_plot::plot_state::PlotMode;
use tail_f_plot::toolbar::{LegendCorner, ToolbarState};

#[test]
fn default_state() {
    let t = ToolbarState::default();
    assert_eq!(t.mode, PlotMode::Pan);
    assert!(t.auto_x && t.auto_y);
    assert!(!t.need_home && !t.need_reset && !t.log_scale && !t.show_about);
    assert_eq!(t.legend_pos, LegendCorner::LeftBottom);
}

#[test]
fn zoom_buttons_toggle() {
    let mut t = ToolbarState::default();
    t.click_zoom_in();
    assert_eq!(t.mode, PlotMode::ZoomIn);
    assert_eq!(t.zoom_in_label(), "[ Zoom-In ]");
    assert_eq!(t.zoom_out_label(), "Zoom-Out");
    t.click_zoom_out();
    assert_eq!(t.mode, PlotMode::ZoomOut);
    assert_eq!(t.zoom_out_label(), "[ Zoom-Out ]");
    t.click_zoom_out();
    assert_eq!(t.mode, PlotMode::Pan);
    t.click_zoom_in();
    t.click_zoom_in();
    assert_eq!(t.mode, PlotMode::Pan);
}

#[test]
fn home_resets_mode_and_requests_home() {
    let mut t = ToolbarState::default();
    t.click_zoom_in();
    t.click_home();
    assert_eq!(t.mode, PlotMode::Pan);
    assert!(t.need_home);
}

#[test]
fn legend_cycles_through_corners() {
    let mut t = ToolbarState::default();
    assert_eq!(t.legend_label(), "L\u{2199}");
    t.click_legend();
    assert_eq!(t.legend_pos, LegendCorner::LeftTop);
    assert_eq!(t.legend_label(), "L\u{2196}");
    t.click_legend();
    assert_eq!(t.legend_pos, LegendCorner::RightTop);
    t.click_legend();
    assert_eq!(t.legend_pos, LegendCorner::RightBottom);
    t.click_legend();
    assert_eq!(t.legend_pos, LegendCorner::LeftBottom);
}

#[test]
fn about_opens() {
    let mut t = ToolbarState::default();
    t.click_about();
    assert!(t.show_about);
}

#[test]
fn log_scale_change_requests_home_once() {
    let mut t = ToolbarState::default();
    t.log_scale = true;
    t.finish_frame();
    assert!(t.need_home);
    t.need_home = false;
    t.finish_frame();
    assert!(!t.need_home);
}

#[test]
fn initial_log_scale_is_not_a_change() {
    let mut t = ToolbarState::default();
    t.set_log_scale(true);
    t.finish_frame();
    assert!(!t.need_home);
    assert!(t.log_scale);
}

#[test]
fn auto_turned_on_requests_reset() {
    let mut t = ToolbarState::default();
    t.auto_x = false;
    t.finish_frame();
    assert!(!t.need_reset);
    t.auto_x = true;
    t.finish_frame();
    assert!(t.need_reset);
}

#[test]
fn begin_plot_handles_home() {
    let mut t = ToolbarState::default();
    t.auto_x = false;
    t.auto_y = false;
    t.click_home();
    t.need_reset = true;
    let mut pending = Some((1.0, 2.0));
    assert!(t.begin_plot(&mut pending));
    assert!(t.auto_x && t.auto_y && !t.need_home && !t.need_reset);
    assert_eq!(pending, None);
    assert!(!t.begin_plot(&mut pending));
}

#[test]
fn interaction_freezes_current_view() {
    let mut t = ToolbarState::default();
    let mut pending: Option<(f64, f64)> = None;
    t.note_interaction(false, &mut pending, Some((0.0, 1.0)));
    assert!(t.auto_x && pending.is_none());
    t.note_interaction(true, &mut pending, Some((0.0, 1.0)));
    assert!(!t.auto_x && !t.auto_y);
    assert_eq!(pending, Some((0.0, 1.0)));
    let mut t2 = ToolbarState::default();
    let mut pending2 = Some((5.0, 6.0));
    t2.note_interaction(true, &mut pending2, Some((0.0, 1.0)));
    assert_eq!(pending2, Some((5.0, 6.0)));
    let mut p3: Option<(f64, f64)> = None;
    t2.note_interaction(true, &mut p3, Some((0.0, 1.0)));
    assert_eq!(p3, None);
}
