//! What the interactive preview decides: when the chart's texture is uploaded again, when the
//! camera is framed to the chart, and what a frame's gestures do.
//!
//! The texture is cached across frames and only re-uploaded when the chart's SVG actually
//! changes (keyed on a hash of the SVG string), as the builder's one-slot render cache is.

use std::collections::hash_map::DefaultHasher;
use std::hash::Hasher;
use vstd::prelude::*;
use vstd::std_specs::hash::DefaultHasherAdditionalSpecFns;
use vstd::utf8;

verus! {

/// Which pane the right side of the builder shows: the interactive chart preview, or the
/// read-only parsed-data grid. Held across frames so the tab choice persists.
#[derive(Clone, Copy, Debug, PartialEq, Eq, Structural)]
pub enum PaneMode {
    /// The rendered chart, pan/zoomable (the default).
    Chart,
    /// The source table with inferred types and coerced/formatted values.
    Data,
}

impl Default for PaneMode {
    fn default() -> (r: Self)
        ensures
            r == PaneMode::Chart,
    {
        PaneMode::Chart
    }
}

/// Cross-frame state for the preview beside the uploaded texture itself: the hash of the
/// SVG that produced it, so the texture re-uploads only when the chart changes.
#[derive(Clone, Copy, Debug, PartialEq, Eq, Structural)]
pub struct PreviewState {
    /// Hash of the SVG string currently uploaded; re-upload on change.
    pub key: Option<u64>,
    /// Whether the camera has been framed to the chart once. The first frame with
    /// a real viewport + content auto-fits so the whole chart is visible; after
    /// that the user's pan/zoom is left alone (re-fit on demand with the `0` key).
    pub fitted: bool,
    /// Which pane (chart vs data) the right side currently shows.
    pub mode: PaneMode,
}

/// The key of an SVG text: the hash of its bytes.
pub open spec fn key_of(svg: Seq<char>) -> u64 {
    DefaultHasher::spec_finish(seq![utf8::encode_utf8(svg)])
}

/// Hash an SVG string into a cache key for the texture slot.
pub fn svg_key(svg: &str) -> (r: u64)
    ensures
        r == key_of(svg@),
{
    let mut hasher = DefaultHasher::new();
    hasher.write(svg.as_bytes());
    assert(hasher@ =~= seq![utf8::encode_utf8(svg@)]);
    hasher.finish()
}

/// Two SVG texts that are hashed as the same bytes are the same: only the hash function itself can
/// give two texts one key.
pub proof fn law_svg_bytes_differ(a: Seq<char>, b: Seq<char>)
    requires
        utf8::encode_utf8(a) == utf8::encode_utf8(b),
    ensures
        a == b,
{
    utf8::encode_utf8_decode_utf8(a);
    utf8::encode_utf8_decode_utf8(b);
}

/// Two different SVG texts are hashed as different bytes, so that only the hash function itself can
/// give them one key.
pub proof fn law_different_svgs_are_hashed_apart(a: Seq<char>, b: Seq<char>)
    requires
        a != b,
    ensures
        exists|x: Seq<Seq<u8>>, y: Seq<Seq<u8>>|
            x != y && key_of(a) == #[trigger] DefaultHasher::spec_finish(x) && key_of(b)
                == #[trigger] DefaultHasher::spec_finish(y),
{
    let x = seq![utf8::encode_utf8(a)];
    let y = seq![utf8::encode_utf8(b)];
    if x == y {
        assert(x[0] == y[0]);
        law_svg_bytes_differ(a, b);
    }
    assert(key_of(a) == DefaultHasher::spec_finish(x));
    assert(key_of(b) == DefaultHasher::spec_finish(y));
}

impl Default for PreviewState {
    /// See [`PreviewState::new`].
    fn default() -> (r: Self)
        ensures
            r == (PreviewState { key: None, fitted: false, mode: PaneMode::Chart }),
    {
        PreviewState::new()
    }
}

impl PreviewState {
    /// A fresh view with no texture uploaded yet, showing the chart pane.
    #[must_use]
    pub fn new() -> (r: PreviewState)
        ensures
            r == (PreviewState { key: None, fitted: false, mode: PaneMode::Chart }),
    {
        PreviewState { key: None, fitted: false, mode: PaneMode::Chart }
    }

    /// Whether an SVG has to be uploaded: it is not the one that is.
    pub fn needs_upload(&self, svg: &str) -> (r: bool)
        ensures
            r == (self.key != Some(key_of(svg@))),
    {
        match self.key {
            Some(key) => key != svg_key(svg),
            None => true,
        }
    }

    /// Record that an SVG was uploaded.
    pub fn uploaded(&mut self, svg: &str)
        ensures
            *final(self) == (PreviewState { key: Some(key_of(svg@)), ..*old(self) }),
    {
        self.key = Some(svg_key(svg));
    }

    /// Whether to frame the chart in this frame: the first time there is a real viewport, so it
    /// isn't painted zoomed-in past the edges. Records that it was framed.
    pub fn take_fit(&mut self, real_viewport: bool) -> (r: bool)
        ensures
            r == (!old(self).fitted && real_viewport),
            *final(self) == (PreviewState { fitted: old(self).fitted || r, ..*old(self) }),
    {
        if !self.fitted && real_viewport {
            self.fitted = true;
            true
        } else {
            false
        }
    }
}

/// What the keyboard does to the camera.
#[derive(Clone, Copy, Debug, PartialEq, Eq, Structural)]
pub enum KeyAction {
    Fit,
    ZoomIn,
    ZoomOut,
    Nothing,
}

/// What the pointer does to the camera.
#[derive(Clone, Copy, Debug, PartialEq, Eq, Structural)]
pub enum PointerAction {
    Zoom,
    Pan,
    Nothing,
}

/// What a frame's key presses do: `0` fits the chart, `+` zooms in, `-` zooms out; the first of
/// these that is pressed counts.
pub fn key_action(fit: bool, zoom_in: bool, zoom_out: bool) -> (r: KeyAction)
    ensures
        r == (if fit {
            KeyAction::Fit
        } else if zoom_in {
            KeyAction::ZoomIn
        } else if zoom_out {
            KeyAction::ZoomOut
        } else {
            KeyAction::Nothing
        }),
{
    if fit {
        KeyAction::Fit
    } else if zoom_in {
        KeyAction::ZoomIn
    } else if zoom_out {
        KeyAction::ZoomOut
    } else {
        KeyAction::Nothing
    }
}

/// What a frame's pointer gestures do: a pinch or Ctrl-scroll zooms, any other scroll pans. They
/// only apply when the cursor is over the viewport.
pub fn pointer_action(over_viewport: bool, zooming: bool, scrolling: bool) -> (r: PointerAction)
    ensures
        r == (if !over_viewport {
            PointerAction::Nothing
        } else if zooming {
            PointerAction::Zoom
        } else if scrolling {
            PointerAction::Pan
        } else {
            PointerAction::Nothing
        }),
{
    if !over_viewport {
        PointerAction::Nothing
    } else if zooming {
        PointerAction::Zoom
    } else if scrolling {
        PointerAction::Pan
    } else {
        PointerAction::Nothing
    }
}

} // verus!
