//! Host-injected colors: background, foreground, gridlines, and a series palette.
//!
//! Colors come from the host so a chart matches the app's light/dark appearance. A spec may
//! override the series palette via its config, but absent that the backend uses
//! `Theme::series` indexed by series position.
//!
//! One injected `Theme` drives every chart color. The host picks a light/dark preset
//! (`Theme::light`/`Theme::dark`, or `Theme::from_dark_mode`) and may globally swap the
//! categorical scale to a named `Palette` via `Theme::with_palette` without rebuilding the
//! rest of the theme.

use vstd::prelude::*;

verus! {

/// An 8-bit RGBA color. Small and `Copy`, so it is passed by value throughout.
#[derive(Clone, Copy, Debug, PartialEq, Eq, Hash, Structural)]
pub struct Color {
    pub r: u8,
    pub g: u8,
    pub b: u8,
    pub a: u8,
}

/// An opaque color.
pub open spec fn opaque_rgb(r: u8, g: u8, b: u8) -> Color {
    Color { r, g, b, a: 255 }
}

impl Color {
    /// Construct an opaque color (alpha 255) from red/green/blue components.
    pub fn rgb(r: u8, g: u8, b: u8) -> (c: Color)
        ensures
            c == opaque_rgb(r, g, b),
    {
        Color { r, g, b, a: 255 }
    }
}

/// A full theme: structural colors plus a categorical palette indexed per series
/// (`theme.series[i % len]`).
#[derive(Debug, PartialEq, Eq)]
pub struct Theme {
    pub background: Color,
    pub foreground: Color,
    pub gridline: Color,
    pub series: Vec<Color>,
}

/// The colors of a [`Theme`].
#[verifier::ext_equal]
pub struct ThemeModel {
    pub background: Color,
    pub foreground: Color,
    pub gridline: Color,
    pub series: Seq<Color>,
}

impl View for Theme {
    type V = ThemeModel;

    open spec fn view(&self) -> ThemeModel {
        ThemeModel {
            background: self.background,
            foreground: self.foreground,
            gridline: self.gridline,
            series: self.series@,
        }
    }
}

impl Clone for Theme {
    fn clone(&self) -> (r: Self)
        ensures
            r@ == self@,
    {
        let mut series: Vec<Color> = Vec::new();
        let mut i: usize = 0;
        while i < self.series.len()
            invariant
                i <= self.series.len(),
                series@ == self.series@.take(i as int),
            decreases self.series.len() - i,
        {
            proof {
                crate::views::lemma_take_push(self.series@, i as int);
            }
            series.push(self.series[i]);
            i = i + 1;
        }
        proof {
            crate::views::lemma_take_all(self.series@);
        }
        Theme {
            background: self.background,
            foreground: self.foreground,
            gridline: self.gridline,
            series,
        }
    }
}

impl Default for Theme {
    /// The neutral light preset; see [`Theme::light`].
    fn default() -> (r: Self)
        ensures
            r@ == light_theme(),
    {
        Theme::light()
    }
}

/// A named categorical color scale the host can select globally. Each palette is a tasteful,
/// well-separated set of colors applied to series by position; swap it onto a theme with
/// [`Theme::with_palette`].
#[derive(Clone, Copy, Debug, PartialEq, Eq, Hash, Structural)]
pub enum Palette {
    /// The classic "category10"-style scale; strong general default.
    Category10,
    /// Soft, low-saturation tints for gentle multi-series fills.
    Pastel,
    /// A warm reds-through-yellows ramp of categorical hues.
    Warm,
    /// A cool blues-through-greens ramp of categorical hues.
    Cool,
    /// A single-hue (blue) monochrome progression for ordered series.
    Mono,
}

/// The colors of a palette, in series order.
pub open spec fn palette_colors(palette: Palette) -> Seq<Color> {
    match palette {
        Palette::Category10 => seq![
            opaque_rgb(31, 119, 180),
            opaque_rgb(255, 127, 14),
            opaque_rgb(44, 160, 44),
            opaque_rgb(214, 39, 40),
            opaque_rgb(148, 103, 189),
            opaque_rgb(140, 86, 75),
            opaque_rgb(227, 119, 194),
            opaque_rgb(127, 127, 127),
        ],
        Palette::Pastel => seq![
            opaque_rgb(166, 206, 227),
            opaque_rgb(178, 223, 138),
            opaque_rgb(251, 154, 153),
            opaque_rgb(253, 191, 111),
            opaque_rgb(202, 178, 214),
            opaque_rgb(255, 255, 153),
        ],
        Palette::Warm => seq![
            opaque_rgb(127, 0, 0),
            opaque_rgb(179, 24, 24),
            opaque_rgb(214, 69, 39),
            opaque_rgb(241, 108, 32),
            opaque_rgb(253, 160, 33),
            opaque_rgb(254, 205, 92),
            opaque_rgb(255, 237, 160),
        ],
        Palette::Cool => seq![
            opaque_rgb(8, 64, 129),
            opaque_rgb(8, 104, 172),
            opaque_rgb(43, 140, 190),
            opaque_rgb(78, 179, 211),
            opaque_rgb(123, 204, 196),
            opaque_rgb(168, 221, 181),
            opaque_rgb(204, 235, 197),
        ],
        Palette::Mono => seq![
            opaque_rgb(8, 48, 107),
            opaque_rgb(33, 113, 181),
            opaque_rgb(66, 146, 198),
            opaque_rgb(107, 174, 214),
            opaque_rgb(158, 202, 225),
            opaque_rgb(198, 219, 239),
        ],
    }
}

impl Palette {
    /// The colors of this palette, in series order (6-8 entries, all distinct).
    pub fn colors(self) -> (r: Vec<Color>)
        ensures
            r@ == palette_colors(self),
    {
        match self {
            Palette::Category10 => vec![
                Color::rgb(31, 119, 180),
                Color::rgb(255, 127, 14),
                Color::rgb(44, 160, 44),
                Color::rgb(214, 39, 40),
                Color::rgb(148, 103, 189),
                Color::rgb(140, 86, 75),
                Color::rgb(227, 119, 194),
                Color::rgb(127, 127, 127),
            ],
            Palette::Pastel => vec![
                Color::rgb(166, 206, 227),
                Color::rgb(178, 223, 138),
                Color::rgb(251, 154, 153),
                Color::rgb(253, 191, 111),
                Color::rgb(202, 178, 214),
                Color::rgb(255, 255, 153),
            ],
            Palette::Warm => vec![
                Color::rgb(127, 0, 0),
                Color::rgb(179, 24, 24),
                Color::rgb(214, 69, 39),
                Color::rgb(241, 108, 32),
                Color::rgb(253, 160, 33),
                Color::rgb(254, 205, 92),
                Color::rgb(255, 237, 160),
            ],
            Palette::Cool => vec![
                Color::rgb(8, 64, 129),
                Color::rgb(8, 104, 172),
                Color::rgb(43, 140, 190),
                Color::rgb(78, 179, 211),
                Color::rgb(123, 204, 196),
                Color::rgb(168, 221, 181),
                Color::rgb(204, 235, 197),
            ],
            Palette::Mono => vec![
                Color::rgb(8, 48, 107),
                Color::rgb(33, 113, 181),
                Color::rgb(66, 146, 198),
                Color::rgb(107, 174, 214),
                Color::rgb(158, 202, 225),
                Color::rgb(198, 219, 239),
            ],
        }
    }
}

/// A palette has six to eight colors, and no color twice.
pub proof fn law_palette_colors_are_distinct(palette: Palette)
    ensures
        6 <= palette_colors(palette).len() <= 8,
        palette_colors(palette).no_duplicates(),
{
}

/// No two palettes are the same.
pub proof fn law_palettes_differ(p: Palette, q: Palette)
    requires
        p != q,
    ensures
        palette_colors(p) != palette_colors(q),
{
    let a = palette_colors(p);
    let b = palette_colors(q);
    assert(a[0] != b[0]);
}

/// The colors of the light preset.
pub open spec fn light_theme() -> ThemeModel {
    ThemeModel {
        background: opaque_rgb(255, 255, 255),
        foreground: opaque_rgb(33, 33, 33),
        gridline: opaque_rgb(221, 221, 221),
        series: palette_colors(Palette::Category10),
    }
}

/// The colors of the dark preset.
pub open spec fn dark_theme() -> ThemeModel {
    ThemeModel {
        background: opaque_rgb(24, 26, 27),
        foreground: opaque_rgb(225, 225, 225),
        gridline: opaque_rgb(64, 66, 68),
        series: palette_colors(Palette::Category10),
    }
}

/// The light or the dark preset.
pub open spec fn preset(dark: bool) -> ThemeModel {
    if dark {
        dark_theme()
    } else {
        light_theme()
    }
}

impl Theme {
    /// A light preset: white background, near-black foreground/axes, light-grey
    /// gridlines, and the strong `Category10` categorical scale.
    pub fn light() -> (r: Theme)
        ensures
            r@ == light_theme(),
    {
        Theme {
            background: Color::rgb(255, 255, 255),
            foreground: Color::rgb(33, 33, 33),
            gridline: Color::rgb(221, 221, 221),
            series: Palette::Category10.colors(),
        }
    }

    /// A dark preset: near-black background, light foreground/axes, dark-grey
    /// gridlines, and the `Category10` categorical scale.
    pub fn dark() -> (r: Theme)
        ensures
            r@ == dark_theme(),
    {
        Theme {
            background: Color::rgb(24, 26, 27),
            foreground: Color::rgb(225, 225, 225),
            gridline: Color::rgb(64, 66, 68),
            series: Palette::Category10.colors(),
        }
    }

    /// Pick the dark preset when `dark`, else the light preset — the host's
    /// one-call light/dark switch.
    pub fn from_dark_mode(dark: bool) -> (r: Theme)
        ensures
            r@ == preset(dark),
    {
        if dark {
            Theme::dark()
        } else {
            Theme::light()
        }
    }

    /// Return this theme with its categorical scale replaced by `palette`,
    /// leaving the structural colors untouched. Lets a host globally swap the
    /// series palette without rebuilding the theme.
    #[must_use]
    pub fn with_palette(self, palette: Palette) -> (r: Theme)
        ensures
            r@ == (ThemeModel { series: palette_colors(palette), ..self@ }),
    {
        Theme {
            background: self.background,
            foreground: self.foreground,
            gridline: self.gridline,
            series: palette.colors(),
        }
    }
}

/// The light and the dark preset differ in every structural color.
pub proof fn law_presets_differ()
    ensures
        light_theme().background != dark_theme().background,
        light_theme().foreground != dark_theme().foreground,
        light_theme().gridline != dark_theme().gridline,
{
}

// --- Hex colors -------------------------------------------------------------------

/// The value of a hexadecimal digit in either case.
pub open spec fn hex_value(c: char) -> Option<int> {
    if '0' <= c <= '9' {
        Some(c as int - '0' as int)
    } else if 'a' <= c <= 'f' {
        Some(c as int - 'a' as int + 10)
    } else if 'A' <= c <= 'F' {
        Some(c as int - 'A' as int + 10)
    } else {
        None
    }
}

/// The lower-case hexadecimal digit of a value below sixteen.
pub open spec fn hex_char(n: int) -> char {
    if n < 10 {
        ('0' as int + n) as char
    } else {
        ('a' as int + n - 10) as char
    }
}

/// A text without its leading `#`, if it has one.
pub open spec fn hex_digits(s: Seq<char>) -> Seq<char> {
    if s.len() > 0 && s[0] == '#' {
        s.skip(1)
    } else {
        s
    }
}

/// The byte two hexadecimal digits denote.
pub open spec fn hex_byte(high: char, low: char) -> Option<u8> {
    match (hex_value(high), hex_value(low)) {
        (Some(h), Some(l)) => Some((16 * h + l) as u8),
        _ => None,
    }
}

/// The color a text denotes: `#rrggbb`, or `#rgb` with each digit doubled. The `#` may be left
/// out.
pub open spec fn hex_color(s: Seq<char>) -> Option<Color> {
    let h = hex_digits(s);
    let (r, g, b) = if h.len() == 3 {
        (hex_byte(h[0], h[0]), hex_byte(h[1], h[1]), hex_byte(h[2], h[2]))
    } else if h.len() == 6 {
        (hex_byte(h[0], h[1]), hex_byte(h[2], h[3]), hex_byte(h[4], h[5]))
    } else {
        (None, None, None)
    };
    match (r, g, b) {
        (Some(r), Some(g), Some(b)) => Some(opaque_rgb(r, g, b)),
        _ => None,
    }
}

/// A color as `#rrggbb`.
pub open spec fn hex_text(c: Color) -> Seq<char> {
    seq![
        '#',
        hex_char(c.r as int / 16),
        hex_char(c.r as int % 16),
        hex_char(c.g as int / 16),
        hex_char(c.g as int % 16),
        hex_char(c.b as int / 16),
        hex_char(c.b as int % 16),
    ]
}

fn digit_of(c: char) -> (r: Option<u8>)
    ensures
        match r {
            Some(n) => hex_value(c) == Some(n as int) && n < 16,
            None => hex_value(c) is None,
        },
{
    if '0' <= c && c <= '9' {
        Some((c as u32 - 48) as u8)
    } else if 'a' <= c && c <= 'f' {
        Some((c as u32 - 87) as u8)
    } else if 'A' <= c && c <= 'F' {
        Some((c as u32 - 55) as u8)
    } else {
        None
    }
}

fn byte_of(high: char, low: char) -> (r: Option<u8>)
    ensures
        r == hex_byte(high, low),
{
    match (digit_of(high), digit_of(low)) {
        (Some(h), Some(l)) => Some(16 * h + l),
        _ => None,
    }
}

/// Parse a `#rgb` or `#rrggbb` hex string into an opaque color. Returns `None` on any
/// malformed input so the caller can fall back to the theme palette.
pub fn parse_hex(s: &str) -> (r: Option<Color>)
    ensures
        r == hex_color(s@),
{
    let chars = crate::text::chars_of(s);
    let at: usize = if chars.len() > 0 && chars[0] == '#' {
        1
    } else {
        0
    };
    let ghost h = hex_digits(s@);
    assert(h =~= chars@.skip(at as int));
    let n = chars.len() - at;
    let (r, g, b) = if n == 3 {
        assert(h[0] == chars@[at as int] && h[1] == chars@[at + 1] && h[2] == chars@[at + 2]);
        (
            byte_of(chars[at], chars[at]),
            byte_of(chars[at + 1], chars[at + 1]),
            byte_of(chars[at + 2], chars[at + 2]),
        )
    } else if n == 6 {
        assert(h[0] == chars@[at as int] && h[1] == chars@[at + 1] && h[2] == chars@[at + 2]);
        assert(h[3] == chars@[at + 3] && h[4] == chars@[at + 4] && h[5] == chars@[at + 5]);
        (
            byte_of(chars[at], chars[at + 1]),
            byte_of(chars[at + 2], chars[at + 3]),
            byte_of(chars[at + 4], chars[at + 5]),
        )
    } else {
        return None;
    };
    match (r, g, b) {
        (Some(r), Some(g), Some(b)) => Some(Color::rgb(r, g, b)),
        _ => None,
    }
}

fn char_of(n: u8) -> (r: char)
    requires
        n < 16,
    ensures
        r == hex_char(n as int),
{
    if n < 10 {
        (48 + n) as char
    } else {
        (87 + n) as char
    }
}

/// Format a color as a `#rrggbb` hex string for `config.palette`. The alpha is left out.
pub fn hex(c: Color) -> (r: String)
    ensures
        r@ == hex_text(c),
{
    let mut out = String::new();
    out.push('#');
    out.push(char_of(c.r / 16));
    out.push(char_of(c.r % 16));
    out.push(char_of(c.g / 16));
    out.push(char_of(c.g % 16));
    out.push(char_of(c.b / 16));
    out.push(char_of(c.b % 16));
    assert(out@ =~= hex_text(c));
    out
}

/// A formatted color parses back to the color, made opaque.
pub proof fn law_hex_round_trip(c: Color)
    ensures
        hex_color(hex_text(c)) == Some(opaque_rgb(c.r, c.g, c.b)),
{
    let s = hex_text(c);
    let h = hex_digits(s);
    assert(h =~= s.skip(1));
    assert(h.len() == 6);
    assert(h[0] == s[1] && h[1] == s[2] && h[2] == s[3] && h[3] == s[4] && h[4] == s[5] && h[5]
        == s[6]);
    lemma_hex_char(c.r as int / 16);
    lemma_hex_char(c.r as int % 16);
    lemma_hex_char(c.g as int / 16);
    lemma_hex_char(c.g as int % 16);
    lemma_hex_char(c.b as int / 16);
    lemma_hex_char(c.b as int % 16);
}

proof fn lemma_hex_char(n: int)
    requires
        0 <= n < 16,
    ensures
        hex_value(hex_char(n)) == Some(n),
{
}

// --- Series colors ----------------------------------------------------------------

/// The color of series `i`: the palette override's at its place where there is one that denotes a
/// color, else the theme's, by position around; the foreground where the theme has none.
pub open spec fn color_of(palette: Option<Seq<Seq<char>>>, theme: ThemeModel, i: int) -> Color {
    let fallback = if theme.series.len() == 0 {
        theme.foreground
    } else {
        theme.series[i % theme.series.len() as int]
    };
    match palette {
        Some(p) => if i < p.len() {
            match hex_color(p[i]) {
                Some(c) => c,
                None => fallback,
            }
        } else {
            fallback
        },
        None => fallback,
    }
}

/// Colors default to the injected theme: without an override, past the end of the override, and
/// where it does not denote a color, a series has the theme's color for its place.
pub proof fn law_theme_colors_are_the_default(
    palette: Option<Seq<Seq<char>>>,
    theme: ThemeModel,
    i: int,
)
    requires
        theme.series.len() > 0,
        palette matches Some(p) ==> i < p.len() ==> hex_color(p[i]) is None,
    ensures
        color_of(palette, theme, i) == theme.series[i % theme.series.len() as int],
{
}

/// The color for series `i`: the spec's hex palette override if present and parseable,
/// else the theme's categorical palette indexed `i % len`.
pub fn series_color(palette: &Option<Vec<String>>, theme: &Theme, i: usize) -> (r: Color)
    ensures
        r == color_of(crate::views::opt_views(*palette), theme@, i as int),
{
    if let Some(p) = palette {
        if i < p.len() {
            assert(crate::views::views(p@)[i as int] == p@[i as int]@);
            if let Some(c) = parse_hex(p[i].as_str()) {
                return c;
            }
        }
    }
    if theme.series.len() == 0 {
        theme.foreground
    } else {
        theme.series[i % theme.series.len()]
    }
}

// --- Laws -------------------------------------------------------------------------

/// A hex color reads the same with and without its `#`, and `#rgb` reads as `#rrggbb`, each digit
/// doubled.
pub proof fn law_short_and_bare_hex_colors(s: Seq<char>, r: char, g: char, b: char)
    requires
        s.len() == 0 || s[0] != '#',
        r != '#',
    ensures
        hex_color(seq!['#'] + s) == hex_color(s),
        hex_color(seq![r, g, b]) == hex_color(seq![r, r, g, g, b, b]),
{
    assert((seq!['#'] + s).skip(1) =~= s);
}

/// The letters of a hex color count in either case.
pub proof fn law_hex_letters_count_in_either_case(n: int)
    requires
        10 <= n < 16,
    ensures
        hex_value(('a' as int + n - 10) as char) == Some(n),
        hex_value(('A' as int + n - 10) as char) == Some(n),
{
}

/// A hex color gives its first two digits to red, the next two to green and the last two to blue,
/// and is opaque; sixteen counts for the first digit of each.
pub proof fn law_hex_digits_are_red_green_blue(s: Seq<char>)
    requires
        s.len() == 6,
        forall|i: int| 0 <= i < 6 ==> hex_value(#[trigger] s[i]) is Some,
    ensures
        hex_color(s) matches Some(c) && {
            &&& c.r == 16 * hex_value(s[0])->0 + hex_value(s[1])->0
            &&& c.g == 16 * hex_value(s[2])->0 + hex_value(s[3])->0
            &&& c.b == 16 * hex_value(s[4])->0 + hex_value(s[5])->0
            &&& c.a == 255
        },
{
    assert(hex_value(s[0]) is Some && hex_value(s[1]) is Some && hex_value(s[2]) is Some);
    assert(hex_value(s[3]) is Some && hex_value(s[4]) is Some && hex_value(s[5]) is Some);
    assert(s[0] != '#');
    assert(hex_digits(s) == s);
}

/// No text denotes a color that is not three or six hex digits behind an optional `#`.
pub proof fn law_only_hex_digits_denote_colors(s: Seq<char>)
    ensures
        hex_color(s) is Some ==> {
            let h = if s.len() > 0 && s[0] == '#' {
                s.skip(1)
            } else {
                s
            };
            (h.len() == 3 || h.len() == 6) && forall|i: int|
                0 <= i < h.len() ==> hex_value(#[trigger] h[i]) is Some
        },
{
    let h = hex_digits(s);
    if hex_color(s) is Some {
        assert forall|i: int| 0 <= i < h.len() implies hex_value(#[trigger] h[i]) is Some by {
            if h.len() == 3 {
                assert(i == 0 || i == 1 || i == 2);
            } else {
                assert(i == 0 || i == 1 || i == 2 || i == 3 || i == 4 || i == 5);
            }
        }
    }
}

/// A palette override colors its series: the one at its place, and no other.
pub proof fn law_overrides_color_their_series(
    palette: Seq<Seq<char>>,
    theme: ThemeModel,
    i: int,
    color: Color,
)
    requires
        0 <= i < palette.len(),
        hex_color(palette[i]) == Some(color),
    ensures
        color_of(Some(palette), theme, i) == color,
{
}

/// Theme colors repeat: without an override, series as many places apart as the theme has colors
/// have one color.
pub proof fn law_theme_colors_repeat(theme: ThemeModel, i: int)
    requires
        theme.series.len() > 0,
        0 <= i < theme.series.len(),
    ensures
        color_of(None, theme, i) == theme.series[i],
        color_of(None, theme, i + theme.series.len()) == theme.series[i],
{
    let n = theme.series.len() as int;
    vstd::arithmetic::div_mod::lemma_small_mod(i as nat, n as nat);
    vstd::arithmetic::div_mod::lemma_mod_add_multiples_vanish(i, n);
    assert((i + n) % n == (n + i) % n);
}

/// The brightness of a color: its components added up.
pub open spec fn brightness(c: Color) -> int {
    c.r + c.g + c.b
}

/// The light preset is dark on light and the dark preset light on dark, with gridlines in between,
/// all opaque; both start from the same series colors.
pub proof fn law_presets_contrast()
    ensures
        ({
            let (l, d) = (light_theme(), dark_theme());
            &&& brightness(l.foreground) < brightness(l.gridline) < brightness(l.background)
            &&& brightness(d.background) < brightness(d.gridline) < brightness(d.foreground)
            &&& l.background.a == 255 && l.foreground.a == 255 && l.gridline.a == 255
            &&& d.background.a == 255 && d.foreground.a == 255 && d.gridline.a == 255
            &&& l.series == d.series
            &&& l.series == palette_colors(Palette::Category10)
            &&& preset(true) == d && preset(false) == l
        }),
{
}

/// The ramps go from dark to light: each color of the warm, the cool and the monochrome palette is
/// brighter than the one before it. The warm colors are redder than they are blue, the cool and the
/// monochrome ones at least as blue or green as they are red; all palette colors are opaque.
pub proof fn law_ramps_grow_lighter(palette: Palette, i: int)
    requires
        0 <= i < palette_colors(palette).len(),
    ensures
        palette_colors(palette)[i].a == 255,
        (palette is Warm || palette is Cool || palette is Mono) && i > 0 ==> brightness(
            palette_colors(palette)[i - 1],
        ) < brightness(palette_colors(palette)[i]),
        palette is Warm ==> palette_colors(palette)[i].r > palette_colors(palette)[i].b,
        palette is Cool ==> palette_colors(palette)[i].g >= palette_colors(palette)[i].r,
        palette is Mono ==> palette_colors(palette)[i].b > palette_colors(palette)[i].g
            && palette_colors(palette)[i].g > palette_colors(palette)[i].r,
{
}

} // verus!
