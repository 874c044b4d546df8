//! Toolbar and view state of the plot window.
//!
//! The window draws the buttons; each click is handed to one of the
//! `click_*` methods, and [`ToolbarState::finish_frame`] runs once per frame
//! after the buttons to detect changes of the log scale and auto-bounds.
use vstd::prelude::*;
use crate::plot_state::PlotMode;

verus! {

/// Corner of the plot area that holds the legend.
#[derive(Debug, Clone, Copy, PartialEq, Eq, Structural)]
pub enum LegendCorner {
    LeftTop,
    RightTop,
    LeftBottom,
    RightBottom,
}

/// The legend corner after one click of the legend button:
/// bottom-left, top-left, top-right, bottom-right, and round again.
pub open spec fn next_corner(c: LegendCorner) -> LegendCorner {
    match c {
        LegendCorner::LeftBottom => LegendCorner::LeftTop,
        LegendCorner::LeftTop => LegendCorner::RightTop,
        LegendCorner::RightTop => LegendCorner::RightBottom,
        LegendCorner::RightBottom => LegendCorner::LeftBottom,
    }
}

/// The mode after clicking the button of mode `target`: the button turns
/// its mode on, or off again when it is already on.
pub open spec fn toggled(mode: PlotMode, target: PlotMode) -> PlotMode {
    if mode == target {
        PlotMode::Pan
    } else {
        target
    }
}

/// Toolbar state: the selected tool, auto-bounds per axis, log scale,
/// legend corner and the pending requests to the plot.
pub struct ToolbarState {
    pub mode: PlotMode,
    /// Automatic bounds for the X axis.
    pub auto_x: bool,
    /// Automatic bounds for the Y axis.
    pub auto_y: bool,
    /// The view must return to the full automatic view.
    pub need_home: bool,
    /// An axis went back to automatic bounds.
    pub need_reset: bool,
    pub log_scale: bool,
    pub legend_pos: LegendCorner,
    /// The About dialog is open.
    pub show_about: bool,
    /// The log scale seen at the end of the last frame.
    pub prev_log_scale: bool,
    /// The X auto-bounds flag seen at the end of the last frame.
    pub prev_auto_x: bool,
    /// The Y auto-bounds flag seen at the end of the last frame.
    pub prev_auto_y: bool,
}

impl ToolbarState {
    /// The state after [`ToolbarState::finish_frame`].
    pub open spec fn after_frame(&self) -> Self {
        ToolbarState {
            need_home: self.need_home || self.log_scale != self.prev_log_scale,
            need_reset: self.need_reset || (self.auto_x && !self.prev_auto_x) || (self.auto_y
                && !self.prev_auto_y),
            prev_log_scale: self.log_scale,
            prev_auto_x: self.auto_x,
            prev_auto_y: self.auto_y,
            ..*self
        }
    }

    /// Everything but the mode and the requests is unchanged between two states.
    pub open spec fn same_settings(&self, other: &Self) -> bool {
        &&& self.auto_x == other.auto_x
        &&& self.auto_y == other.auto_y
        &&& self.log_scale == other.log_scale
        &&& self.legend_pos == other.legend_pos
        &&& self.show_about == other.show_about
        &&& self.prev_log_scale == other.prev_log_scale
        &&& self.prev_auto_x == other.prev_auto_x
        &&& self.prev_auto_y == other.prev_auto_y
    }

    /// Starts the log scale on or off without it counting as a change.
    pub fn set_log_scale(&mut self, enabled: bool)
        ensures
            final(self).log_scale == enabled,
            final(self).prev_log_scale == enabled,
            final(self).mode == old(self).mode,
            final(self).auto_x == old(self).auto_x,
            final(self).auto_y == old(self).auto_y,
            final(self).need_home == old(self).need_home,
            final(self).need_reset == old(self).need_reset,
            final(self).legend_pos == old(self).legend_pos,
            final(self).show_about == old(self).show_about,
            final(self).prev_auto_x == old(self).prev_auto_x,
            final(self).prev_auto_y == old(self).prev_auto_y,
    {
        self.log_scale = enabled;
        self.prev_log_scale = enabled;
    }

    /// "Home": back to the full automatic view, no zoom tool.
    pub fn click_home(&mut self)
        ensures
            final(self).need_home,
            final(self).mode == PlotMode::Pan,
            final(self).need_reset == old(self).need_reset,
            final(self).same_settings(old(self)),
    {
        self.need_home = true;
        self.mode = PlotMode::Pan;
    }

    /// "Zoom-In" toggles box zoom.
    pub fn click_zoom_in(&mut self)
        ensures
            final(self).mode == toggled(old(self).mode, PlotMode::ZoomIn),
            final(self).need_home == old(self).need_home,
            final(self).need_reset == old(self).need_reset,
            final(self).same_settings(old(self)),
    {
        self.mode = if self.mode == PlotMode::ZoomIn {
            PlotMode::Pan
        } else {
            PlotMode::ZoomIn
        };
    }

    /// "Zoom-Out" toggles click-to-zoom-out.
    pub fn click_zoom_out(&mut self)
        ensures
            final(self).mode == toggled(old(self).mode, PlotMode::ZoomOut),
            final(self).need_home == old(self).need_home,
            final(self).need_reset == old(self).need_reset,
            final(self).same_settings(old(self)),
    {
        self.mode = if self.mode == PlotMode::ZoomOut {
            PlotMode::Pan
        } else {
            PlotMode::ZoomOut
        };
    }

    /// The legend button moves the legend to the next corner.
    pub fn click_legend(&mut self)
        ensures
            final(self).legend_pos == next_corner(old(self).legend_pos),
            final(self).mode == old(self).mode,
            final(self).need_home == old(self).need_home,
            final(self).need_reset == old(self).need_reset,
            final(self).auto_x == old(self).auto_x,
            final(self).auto_y == old(self).auto_y,
            final(self).log_scale == old(self).log_scale,
            final(self).show_about == old(self).show_about,
            final(self).prev_log_scale == old(self).prev_log_scale,
            final(self).prev_auto_x == old(self).prev_auto_x,
            final(self).prev_auto_y == old(self).prev_auto_y,
    {
        self.legend_pos = match self.legend_pos {
            LegendCorner::LeftBottom => LegendCorner::LeftTop,
            LegendCorner::LeftTop => LegendCorner::RightTop,
            LegendCorner::RightTop => LegendCorner::RightBottom,
            LegendCorner::RightBottom => LegendCorner::LeftBottom,
        };
    }

    /// "About" opens the About dialog.
    pub fn click_about(&mut self)
        ensures
            final(self).show_about,
            final(self).mode == old(self).mode,
            final(self).need_home == old(self).need_home,
            final(self).need_reset == old(self).need_reset,
            final(self).auto_x == old(self).auto_x,
            final(self).auto_y == old(self).auto_y,
            final(self).log_scale == old(self).log_scale,
            final(self).legend_pos == old(self).legend_pos,
            final(self).prev_log_scale == old(self).prev_log_scale,
            final(self).prev_auto_x == old(self).prev_auto_x,
            final(self).prev_auto_y == old(self).prev_auto_y,
    {
        self.show_about = true;
    }

    /// End of the toolbar's frame: a changed log scale asks for the home
    /// view; an axis switched back to automatic bounds asks for a reset
    /// (switching one off keeps the current bounds).
    pub fn finish_frame(&mut self)
        ensures
            *final(self) == old(self).after_frame(),
            final(self).need_home == (old(self).need_home || old(self).log_scale
                != old(self).prev_log_scale),
            final(self).need_reset == (old(self).need_reset || (old(self).auto_x
                && !old(self).prev_auto_x) || (old(self).auto_y && !old(self).prev_auto_y)),
            final(self).prev_log_scale == old(self).log_scale,
            final(self).prev_auto_x == old(self).auto_x,
            final(self).prev_auto_y == old(self).auto_y,
            final(self).mode == old(self).mode,
            final(self).auto_x == old(self).auto_x,
            final(self).auto_y == old(self).auto_y,
            final(self).log_scale == old(self).log_scale,
            final(self).legend_pos == old(self).legend_pos,
            final(self).show_about == old(self).show_about,
    {
        if self.log_scale != self.prev_log_scale {
            self.need_home = true;
            self.prev_log_scale = self.log_scale;
        }
        let auto_x_turned_on = self.auto_x && !self.prev_auto_x;
        let auto_y_turned_on = self.auto_y && !self.prev_auto_y;
        if auto_x_turned_on || auto_y_turned_on {
            self.need_reset = true;
        }
        self.prev_auto_x = self.auto_x;
        self.prev_auto_y = self.auto_y;
    }

    /// Start of the plot's frame.  A pending home request turns both axes
    /// back to automatic bounds and drops any pending bounds; a pending
    /// reset request is cleared.  Returns whether the plot view must reset.
    pub fn begin_plot<B>(&mut self, pending_bounds: &mut Option<B>) -> (reset: bool)
        ensures
            reset == old(self).need_home,
            !final(self).need_home,
            !final(self).need_reset,
            old(self).need_home ==> final(self).auto_x && final(self).auto_y
                && *final(pending_bounds) is None,
            !old(self).need_home ==> final(self).auto_x == old(self).auto_x && final(self).auto_y
                == old(self).auto_y && *final(pending_bounds) == *old(pending_bounds),
            final(self).mode == old(self).mode,
            final(self).log_scale == old(self).log_scale,
            final(self).legend_pos == old(self).legend_pos,
            final(self).show_about == old(self).show_about,
            final(self).prev_log_scale == old(self).prev_log_scale,
            final(self).prev_auto_x == old(self).prev_auto_x,
            final(self).prev_auto_y == old(self).prev_auto_y,
    {
        let mut reset = false;
        if self.need_home {
            self.auto_x = true;
            self.auto_y = true;
            *pending_bounds = None;
            self.need_home = false;
            reset = true;
        }
        if self.need_reset {
            self.need_reset = false;
        }
        reset
    }

    /// After the plot was shown: a user interaction (drag, double click,
    /// wheel zoom, finished box zoom, zoom-out click) turns automatic
    /// bounds off on both axes and, unless bounds are already pending,
    /// keeps the bounds shown so far so that the view does not jump.
    pub fn note_interaction<B: Copy>(
        &mut self,
        interacted: bool,
        pending_bounds: &mut Option<B>,
        current_bounds: Option<B>,
    )
        ensures
            interacted && (old(self).auto_x || old(self).auto_y) ==> !final(self).auto_x
                && !final(self).auto_y && *final(pending_bounds) == match *old(pending_bounds) {
                Some(b) => Some(b),
                None => current_bounds,
            },
            !(interacted && (old(self).auto_x || old(self).auto_y)) ==> final(self).auto_x
                == old(self).auto_x && final(self).auto_y == old(self).auto_y && *final(
                pending_bounds) == *old(pending_bounds),
            final(self).mode == old(self).mode,
            final(self).need_home == old(self).need_home,
            final(self).need_reset == old(self).need_reset,
            final(self).log_scale == old(self).log_scale,
            final(self).legend_pos == old(self).legend_pos,
            final(self).show_about == old(self).show_about,
            final(self).prev_log_scale == old(self).prev_log_scale,
            final(self).prev_auto_x == old(self).prev_auto_x,
            final(self).prev_auto_y == old(self).prev_auto_y,
    {
        if interacted && (self.auto_x || self.auto_y) {
            self.auto_x = false;
            self.auto_y = false;
            if pending_bounds.is_none() {
                *pending_bounds = current_bounds;
            }
        }
    }

    /// Label of the Zoom-In button; bracketed while box zoom is on.
    pub fn zoom_in_label(&self) -> (s: &'static str)
        ensures
            s@ == if self.mode == PlotMode::ZoomIn {
                "[ Zoom-In ]"@
            } else {
                "Zoom-In"@
            },
    {
        if self.mode == PlotMode::ZoomIn {
            "[ Zoom-In ]"
        } else {
            "Zoom-In"
        }
    }

    /// Label of the Zoom-Out button; bracketed while click-to-zoom-out is on.
    pub fn zoom_out_label(&self) -> (s: &'static str)
        ensures
            s@ == if self.mode == PlotMode::ZoomOut {
                "[ Zoom-Out ]"@
            } else {
                "Zoom-Out"@
            },
    {
        if self.mode == PlotMode::ZoomOut {
            "[ Zoom-Out ]"
        } else {
            "Zoom-Out"
        }
    }

    /// Label of the legend button: the side and an arrow into the corner.
    pub fn legend_label(&self) -> (s: &'static str)
        ensures
            s@ == match self.legend_pos {
                LegendCorner::LeftBottom => "L\u{2199}"@,
                LegendCorner::LeftTop => "L\u{2196}"@,
                LegendCorner::RightTop => "R\u{2197}"@,
                LegendCorner::RightBottom => "R\u{2198}"@,
            },
    {
        match self.legend_pos {
            LegendCorner::LeftBottom => "L\u{2199}",
            LegendCorner::LeftTop => "L\u{2196}",
            LegendCorner::RightTop => "R\u{2197}",
            LegendCorner::RightBottom => "R\u{2198}",
        }
    }
}

impl Default for ToolbarState {
    /// Pan mode, automatic bounds on both axes, linear scale, legend at
    /// the bottom left, nothing pending.
    fn default() -> (t: Self)
        ensures
            t.mode == PlotMode::Pan,
            t.auto_x,
            t.auto_y,
            !t.need_home,
            !t.need_reset,
            !t.log_scale,
            t.legend_pos == LegendCorner::LeftBottom,
            !t.show_about,
            !t.prev_log_scale,
            t.prev_auto_x,
            t.prev_auto_y,
    {
        ToolbarState {
            mode: PlotMode::Pan,
            auto_x: true,
            auto_y: true,
            need_home: false,
            need_reset: false,
            log_scale: false,
            legend_pos: LegendCorner::LeftBottom,
            show_about: false,
            prev_log_scale: false,
            prev_auto_x: true,
            prev_auto_y: true,
        }
    }
}

/// Four clicks of the legend button bring the legend back to where it was,
/// and every click moves it.
pub proof fn law_legend_cycle(c: LegendCorner)
    ensures
        next_corner(next_corner(next_corner(next_corner(c)))) == c,
        next_corner(c) != c,
{
}

/// Clicking a mode button twice restores the mode when that mode was on
/// or no tool was selected.
pub proof fn law_mode_toggle_twice(mode: PlotMode, target: PlotMode)
    requires
        target != PlotMode::Pan,
        mode == target || mode == PlotMode::Pan,
    ensures
        toggled(toggled(mode, target), target) == mode,
{
}

/// A frame in which the log scale is what the last frame saw raises no
/// Home request: in particular after [`ToolbarState::set_log_scale`], which
/// records the scale as seen, and after any clicks (none of them touches
/// the scale or what was seen), a frame without a change of the Log Scale
/// box leaves `need_home` as it was.
pub proof fn law_unchanged_scale_no_home(t: ToolbarState)
    requires
        t.log_scale == t.prev_log_scale,
    ensures
        t.after_frame().need_home == t.need_home,
{
}

/// Turning an automatic axis off never raises a reset request: a frame
/// raises one only for an axis that is automatic now and was not before.
pub proof fn law_reset_only_when_auto_turned_on(t: ToolbarState)
    ensures
        t.after_frame().need_reset ==> t.need_reset || (t.auto_x && !t.prev_auto_x) || (t.auto_y
            && !t.prev_auto_y),
        !t.need_reset && !t.auto_x && !t.auto_y ==> !t.after_frame().need_reset,
{
}

/// Finishing a frame twice in a row is the same as finishing it once: the
/// second time nothing has changed, so no further request is raised.
pub proof fn law_finish_frame_idempotent(t: ToolbarState)
    ensures
        t.after_frame().after_frame() == t.after_frame(),
{
}

} // verus!
