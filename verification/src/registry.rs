//! The mark-capability registry: the single source of truth for what each mark supports.
//!
//! Both the backend (how to draw a mark) and the panel (which controls to show) read
//! `caps(mark)`, so the format is bounded by what is drawable by construction rather than by
//! parallel hand-wiring. Adding a future mark is a single new arm here plus one backend draw
//! routine; the UI adapts automatically.

use crate::dsl::Mark;
use vstd::prelude::*;

verus! {

/// Which encoding channels a mark accepts. A `true` field means binding that channel is
/// meaningful for the mark; the resolver warns when a bound channel is `false` here.
#[derive(Clone, Copy, Debug, PartialEq, Eq, Structural)]
pub struct ChannelSet {
    pub x: bool,
    pub y: bool,
    pub color: bool,
    pub size: bool,
    pub theta: bool,
}

/// Which presentation/transform options apply to a mark. The panel shows only the option
/// widgets whose flag is `true`; the backend reads the same flags when drawing.
#[derive(Clone, Copy, Debug, PartialEq, Eq, Structural)]
pub struct OptionSet {
    pub stack: bool,
    pub interpolate: bool,
    pub orientation: bool,
    pub bins: bool,
    pub inner_radius: bool,
    pub point_size: bool,
    pub line_width: bool,
    pub fill_opacity: bool,
    /// Axis scales (log/sqrt/domain/zero) apply — cartesian marks only.
    pub scales: bool,
}

/// A mark's full capability profile: whether it is cartesian (vs radial), the channels it
/// accepts, and the options it honors.
#[derive(Clone, Copy, Debug, PartialEq, Eq, Structural)]
pub struct MarkCaps {
    /// `true` for x/y plotted marks; `false` for radial marks (Arc) drawn without axes.
    pub cartesian: bool,
    pub channels: ChannelSet,
    pub options: OptionSet,
}

/// Whether a mark plots a bound y against a bound x.
pub open spec fn plots_xy(mark: Mark) -> bool {
    mark is Bar || mark is Line || mark is Point || mark is Area
}

/// Whether a mark is drawn on cartesian axes.
pub open spec fn is_cartesian(mark: Mark) -> bool {
    plots_xy(mark) || mark is Histogram
}

/// The channels a mark accepts.
pub open spec fn mark_channels(mark: Mark) -> ChannelSet {
    ChannelSet {
        x: is_cartesian(mark),
        y: plots_xy(mark),
        color: !(mark is Table),
        size: mark is Point,
        theta: mark is Arc,
    }
}

/// The options a mark honors.
pub open spec fn mark_options(mark: Mark) -> OptionSet {
    OptionSet {
        stack: mark is Bar || mark is Area,
        interpolate: mark is Line,
        orientation: mark is Bar,
        bins: mark is Histogram,
        inner_radius: mark is Arc,
        point_size: mark is Point,
        line_width: mark is Line || mark is Area,
        fill_opacity: mark is Bar || mark is Area || mark is Histogram || mark is Arc,
        scales: is_cartesian(mark),
    }
}

/// The capability profile of a mark.
pub open spec fn mark_caps(mark: Mark) -> MarkCaps {
    MarkCaps {
        cartesian: is_cartesian(mark),
        channels: mark_channels(mark),
        options: mark_options(mark),
    }
}

/// No channel on: a base to flip the supported ones on from.
fn no_channels() -> (r: ChannelSet)
    ensures
        r == (ChannelSet { x: false, y: false, color: false, size: false, theta: false }),
{
    ChannelSet { x: false, y: false, color: false, size: false, theta: false }
}

/// No option on: a base for each mark to enable only what it supports.
fn no_options() -> (r: OptionSet)
    ensures
        r == (OptionSet {
            stack: false,
            interpolate: false,
            orientation: false,
            bins: false,
            inner_radius: false,
            point_size: false,
            line_width: false,
            fill_opacity: false,
            scales: false,
        }),
{
    OptionSet {
        stack: false,
        interpolate: false,
        orientation: false,
        bins: false,
        inner_radius: false,
        point_size: false,
        line_width: false,
        fill_opacity: false,
        scales: false,
    }
}

/// The capability profile for `mark` — the single source of truth read by the backend and
/// the panel. An exhaustive match, one arm per mark, so adding a `Mark` variant forces a
/// decision here.
pub fn caps(mark: Mark) -> (r: MarkCaps)
    ensures
        r == mark_caps(mark),
{
    match mark {
        Mark::Bar => MarkCaps {
            cartesian: true,
            channels: ChannelSet { x: true, y: true, color: true, ..no_channels() },
            options: OptionSet {
                stack: true,
                orientation: true,
                fill_opacity: true,
                scales: true,
                ..no_options()
            },
        },
        Mark::Line => MarkCaps {
            cartesian: true,
            channels: ChannelSet { x: true, y: true, color: true, ..no_channels() },
            options: OptionSet {
                interpolate: true,
                line_width: true,
                scales: true,
                ..no_options()
            },
        },
        Mark::Point => MarkCaps {
            cartesian: true,
            channels: ChannelSet { x: true, y: true, color: true, size: true, ..no_channels() },
            options: OptionSet { point_size: true, scales: true, ..no_options() },
        },
        Mark::Area => MarkCaps {
            cartesian: true,
            channels: ChannelSet { x: true, y: true, color: true, ..no_channels() },
            options: OptionSet {
                stack: true,
                line_width: true,
                fill_opacity: true,
                scales: true,
                ..no_options()
            },
        },
        Mark::Histogram => MarkCaps {
            cartesian: true,
            channels: ChannelSet { x: true, color: true, ..no_channels() },
            options: OptionSet { bins: true, fill_opacity: true, scales: true, ..no_options() },
        },
        Mark::Arc => MarkCaps {
            cartesian: false,
            channels: ChannelSet { color: true, theta: true, ..no_channels() },
            options: OptionSet { inner_radius: true, fill_opacity: true, ..no_options() },
        },
        // The table mark uses no encoding channels and no plotted options: which columns it
        // shows (and the transpose toggle) are mark-specific controls the panel handles
        // directly, not channels/options gated through the registry.
        Mark::Table => MarkCaps {
            cartesian: false,
            channels: no_channels(),
            options: no_options(),
        },
    }
}

/// Only a mark drawn on axes has axis scales.
pub proof fn law_scales_are_cartesian(mark: Mark)
    ensures
        mark_caps(mark).options.scales ==> mark_caps(mark).cartesian,
{
}

/// A mark accepts the channels it draws with. Those on two axes take an x; of them, all but the
/// histogram, which counts, take a y. Only points take a size and only arcs an angle, and all but
/// the table can be colored.
pub proof fn law_marks_accept_what_they_draw_with(mark: Mark)
    ensures
        ({
            let ch = mark_caps(mark).channels;
            &&& ch.x == mark_caps(mark).cartesian
            &&& !ch.x <==> mark == Mark::Arc || mark == Mark::Table
            &&& !ch.y <==> mark == Mark::Arc || mark == Mark::Table || mark == Mark::Histogram
            &&& !ch.color <==> mark == Mark::Table
            &&& ch.size <==> mark == Mark::Point
            &&& ch.theta <==> mark == Mark::Arc
        }),
{
}

/// A mark honors the options that show on it: only bars and areas stack, only lines interpolate,
/// only bars have an orientation, only histograms have buckets, only arcs a hole, only points a
/// size; lines and areas have a stroke, bars, areas, histograms and arcs a fill, and what stands
/// on two axes has scales.
pub proof fn law_marks_honor_what_shows_on_them(mark: Mark)
    ensures
        ({
            let o = mark_caps(mark).options;
            &&& o.stack <==> mark == Mark::Bar || mark == Mark::Area
            &&& o.interpolate <==> mark == Mark::Line
            &&& o.orientation <==> mark == Mark::Bar
            &&& o.bins <==> mark == Mark::Histogram
            &&& o.inner_radius <==> mark == Mark::Arc
            &&& o.point_size <==> mark == Mark::Point
            &&& o.line_width <==> mark == Mark::Line || mark == Mark::Area
            &&& !o.fill_opacity <==> mark == Mark::Line || mark == Mark::Point || mark
                == Mark::Table
            &&& o.scales == mark_caps(mark).cartesian
        }),
{
}

} // verus!
