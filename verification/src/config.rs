//! The configuration model.
//!
//! A settings object supplies, per information category, a display
//! order (zero hides the category), a color, and optional text styles;
//! plus an icons toggle. Color names and hex values parse to a color of
//! the library's own; style names parse to style kinds. How the values
//! got here (a file, defaults) is a collaborator's concern.

use vstd::prelude::*;

use crate::text::{eq_ci, eq_ignore_ascii, trim_char_start, trim_char_start_spec};

verus! {

/// A resolved color: one of the sixteen named terminal colors, or an
/// exact RGB triple.
#[derive(Clone, Copy, Debug, PartialEq, Eq, Structural)]
pub enum ColorSpec {
    Black,
    Red,
    Green,
    Yellow,
    Blue,
    Magenta,
    Cyan,
    White,
    BrightBlack,
    BrightRed,
    BrightGreen,
    BrightYellow,
    BrightBlue,
    BrightMagenta,
    BrightCyan,
    BrightWhite,
    TrueColor(u8, u8, u8),
}

/// A resolved text style.
#[derive(Clone, Copy, Debug, PartialEq, Eq, Structural)]
pub enum StyleKind {
    Bold,
    Italic,
    Underline,
    Dimmed,
    Blink,
    Reverse,
}

/// The value of one hexadecimal digit, or a negative marker for
/// anything else.
pub open spec fn hex_val(c: char) -> int {
    let u = c as u32;
    if 48 <= u && u <= 57 {
        u - 48
    } else if 97 <= u && u <= 102 {
        u - 87
    } else if 65 <= u && u <= 70 {
        u - 55
    } else {
        -1
    }
}

/// What a hex color string parses to: after leading hash marks are
/// dropped, three digits expand by repetition, six digits pair up;
/// anything else is no color.
pub open spec fn parse_hex_spec(s: Seq<char>) -> Option<(u8, u8, u8)> {
    let h = trim_char_start_spec(s, '#');
    if h.len() == 3 {
        if hex_val(h[0]) >= 0 && hex_val(h[1]) >= 0 && hex_val(h[2]) >= 0 {
            Some(((hex_val(h[0]) * 17) as u8, (hex_val(h[1]) * 17) as u8, (hex_val(h[2]) * 17) as u8))
        } else {
            None
        }
    } else if h.len() == 6 {
        if hex_val(h[0]) >= 0 && hex_val(h[1]) >= 0 && hex_val(h[2]) >= 0 && hex_val(h[3]) >= 0
            && hex_val(h[4]) >= 0 && hex_val(h[5]) >= 0 {
            Some(
                (
                    (hex_val(h[0]) * 16 + hex_val(h[1])) as u8,
                    (hex_val(h[2]) * 16 + hex_val(h[3])) as u8,
                    (hex_val(h[4]) * 16 + hex_val(h[5])) as u8,
                ),
            )
        } else {
            None
        }
    } else {
        None
    }
}

/// The value of one hexadecimal digit.
fn hex_digit(c: char) -> (r: i32)
    ensures
        r as int == hex_val(c),
{
    let u = c as u32;
    if 48 <= u && u <= 57 {
        (u - 48) as i32
    } else if 97 <= u && u <= 102 {
        (u - 87) as i32
    } else if 65 <= u && u <= 70 {
        (u - 55) as i32
    } else {
        -1
    }
}

/// Parses a hex color, as `parse_hex_spec` says.
pub fn parse_hex(hex: &str) -> (r: Option<(u8, u8, u8)>)
    ensures
        r == parse_hex_spec(hex@),
{
    let h = trim_char_start(hex, '#');
    let n = h.unicode_len();
    if n == 3 {
        let a = hex_digit(h.get_char(0));
        let b = hex_digit(h.get_char(1));
        let c = hex_digit(h.get_char(2));
        if a >= 0 && b >= 0 && c >= 0 {
            Some(((a * 17) as u8, (b * 17) as u8, (c * 17) as u8))
        } else {
            None
        }
    } else if n == 6 {
        let a = hex_digit(h.get_char(0));
        let b = hex_digit(h.get_char(1));
        let c = hex_digit(h.get_char(2));
        let d = hex_digit(h.get_char(3));
        let e = hex_digit(h.get_char(4));
        let f = hex_digit(h.get_char(5));
        if a >= 0 && b >= 0 && c >= 0 && d >= 0 && e >= 0 && f >= 0 {
            Some(((a * 16 + b) as u8, (c * 16 + d) as u8, (e * 16 + f) as u8))
        } else {
            None
        }
    } else {
        None
    }
}

/// The named color a string selects, case-insensitively; anything
/// unrecognized falls back to white.
pub open spec fn named_color_spec(s: Seq<char>) -> ColorSpec {
    if eq_ci(s, "black"@) {
        ColorSpec::Black
    } else if eq_ci(s, "red"@) {
        ColorSpec::Red
    } else if eq_ci(s, "green"@) {
        ColorSpec::Green
    } else if eq_ci(s, "yellow"@) {
        ColorSpec::Yellow
    } else if eq_ci(s, "blue"@) {
        ColorSpec::Blue
    } else if eq_ci(s, "magenta"@) {
        ColorSpec::Magenta
    } else if eq_ci(s, "cyan"@) {
        ColorSpec::Cyan
    } else if eq_ci(s, "white"@) {
        ColorSpec::White
    } else if eq_ci(s, "bright_black"@) {
        ColorSpec::BrightBlack
    } else if eq_ci(s, "bright_red"@) {
        ColorSpec::BrightRed
    } else if eq_ci(s, "bright_green"@) {
        ColorSpec::BrightGreen
    } else if eq_ci(s, "bright_yellow"@) {
        ColorSpec::BrightYellow
    } else if eq_ci(s, "bright_blue"@) {
        ColorSpec::BrightBlue
    } else if eq_ci(s, "bright_magenta"@) {
        ColorSpec::BrightMagenta
    } else if eq_ci(s, "bright_cyan"@) {
        ColorSpec::BrightCyan
    } else if eq_ci(s, "bright_white"@) {
        ColorSpec::BrightWhite
    } else {
        ColorSpec::White
    }
}

/// What a color setting resolves to: an exact hex triple when one
/// parses, else a named color.
pub open spec fn color_spec_of(s: Seq<char>) -> ColorSpec {
    match parse_hex_spec(s) {
        Some(rgb) => ColorSpec::TrueColor(rgb.0, rgb.1, rgb.2),
        None => named_color_spec(s),
    }
}

/// Resolves one color setting, as `color_spec_of` says.
pub fn parse_color(color_str: &str) -> (r: ColorSpec)
    ensures
        r == color_spec_of(color_str@),
{
    if let Some((a, b, c)) = parse_hex(color_str) {
        return ColorSpec::TrueColor(a, b, c);
    }
    if eq_ignore_ascii(color_str, "black") {
        ColorSpec::Black
    } else if eq_ignore_ascii(color_str, "red") {
        ColorSpec::Red
    } else if eq_ignore_ascii(color_str, "green") {
        ColorSpec::Green
    } else if eq_ignore_ascii(color_str, "yellow") {
        ColorSpec::Yellow
    } else if eq_ignore_ascii(color_str, "blue") {
        ColorSpec::Blue
    } else if eq_ignore_ascii(color_str, "magenta") {
        ColorSpec::Magenta
    } else if eq_ignore_ascii(color_str, "cyan") {
        ColorSpec::Cyan
    } else if eq_ignore_ascii(color_str, "white") {
        ColorSpec::White
    } else if eq_ignore_ascii(color_str, "bright_black") {
        ColorSpec::BrightBlack
    } else if eq_ignore_ascii(color_str, "bright_red") {
        ColorSpec::BrightRed
    } else if eq_ignore_ascii(color_str, "bright_green") {
        ColorSpec::BrightGreen
    } else if eq_ignore_ascii(color_str, "bright_yellow") {
        ColorSpec::BrightYellow
    } else if eq_ignore_ascii(color_str, "bright_blue") {
        ColorSpec::BrightBlue
    } else if eq_ignore_ascii(color_str, "bright_magenta") {
        ColorSpec::BrightMagenta
    } else if eq_ignore_ascii(color_str, "bright_cyan") {
        ColorSpec::BrightCyan
    } else if eq_ignore_ascii(color_str, "bright_white") {
        ColorSpec::BrightWhite
    } else {
        ColorSpec::White
    }
}

/// The style a name selects, case-insensitively; anything unrecognized
/// selects nothing.
pub open spec fn style_spec_of(s: Seq<char>) -> Option<StyleKind> {
    if eq_ci(s, "bold"@) {
        Some(StyleKind::Bold)
    } else if eq_ci(s, "italic"@) {
        Some(StyleKind::Italic)
    } else if eq_ci(s, "underline"@) {
        Some(StyleKind::Underline)
    } else if eq_ci(s, "dimmed"@) {
        Some(StyleKind::Dimmed)
    } else if eq_ci(s, "blink"@) {
        Some(StyleKind::Blink)
    } else if eq_ci(s, "reverse"@) {
        Some(StyleKind::Reverse)
    } else {
        None
    }
}

/// Resolves one style name, as `style_spec_of` says.
pub fn parse_style(s: &str) -> (r: Option<StyleKind>)
    ensures
        r == style_spec_of(s@),
{
    if eq_ignore_ascii(s, "bold") {
        Some(StyleKind::Bold)
    } else if eq_ignore_ascii(s, "italic") {
        Some(StyleKind::Italic)
    } else if eq_ignore_ascii(s, "underline") {
        Some(StyleKind::Underline)
    } else if eq_ignore_ascii(s, "dimmed") {
        Some(StyleKind::Dimmed)
    } else if eq_ignore_ascii(s, "blink") {
        Some(StyleKind::Blink)
    } else if eq_ignore_ascii(s, "reverse") {
        Some(StyleKind::Reverse)
    } else {
        None
    }
}

/// The styles a list of names selects, in order, unknown names
/// skipped.
pub open spec fn styles_spec(v: Seq<Seq<char>>) -> Seq<StyleKind>
    decreases v.len(),
{
    if v.len() == 0 {
        Seq::<StyleKind>::empty()
    } else {
        match style_spec_of(v[0]) {
            Some(k) => seq![k] + styles_spec(v.drop_first()),
            None => styles_spec(v.drop_first()),
        }
    }
}

/// Resolves a list of style names in order, skipping unknown names.
pub fn parse_styles(styles: &Vec<String>) -> (r: Vec<StyleKind>)
    ensures
        r@ == styles_spec(crate::text::views_of(styles@)),
{
    let ghost sv = crate::text::views_of(styles@);
    let n = styles.len();
    let mut out: Vec<StyleKind> = Vec::new();
    let mut i: usize = 0;
    proof {
        assert(sv.skip(0) =~= sv);
        assert(out@ + styles_spec(sv.skip(0)) =~= styles_spec(sv));
    }
    while i < n
        invariant
            n == styles@.len(),
            sv == crate::text::views_of(styles@),
            i <= n,
            styles_spec(sv) == out@ + styles_spec(sv.skip(i as int)),
        decreases n - i,
    {
        let ghost out0 = out@;
        proof {
            assert(sv.skip(i as int)[0] == sv[i as int]);
            assert(sv.skip(i as int).drop_first() =~= sv.skip(i as int + 1));
            assert(sv[i as int] == styles@[i as int]@);
        }
        match parse_style(styles[i].as_str()) {
            Some(k) => {
                out.push(k);
                proof {
                    assert(out@ + styles_spec(sv.skip(i as int + 1)) =~= out0 + (seq![k]
                        + styles_spec(sv.skip(i as int + 1))));
                }
            },
            None => {},
        }
        i = i + 1;
    }
    proof {
        assert(sv.skip(i as int) =~= Seq::<Seq<char>>::empty());
        assert(out@ + styles_spec(sv.skip(i as int)) =~= out@);
    }
    out
}

/// How the user@host banner is drawn.
pub struct HostStyle {
    /// The banner color setting.
    pub color: String,
    /// The banner style names.
    pub styles: Vec<String>,
}

/// The display order of each information category; zero hides one.
pub struct Position {
    /// Order of the OS identity line.
    pub os_order: u8,
    /// Order of the device line.
    pub host_order: u8,
    /// Order of the terminal line.
    pub terminal_order: u8,
    /// Order of the shell line.
    pub shell_order: u8,
    /// Order of the kernel line.
    pub kernel_order: u8,
    /// Order of the uptime line.
    pub uptime_order: u8,
    /// Order of the load-average line.
    pub load_average_order: u8,
    /// Order of the memory line.
    pub ram_order: u8,
    /// Order of the swap line.
    pub swap_order: u8,
    /// Order of the locale line.
    pub locale_order: u8,
}

/// How the information lines are drawn.
pub struct InfoStyle {
    /// Color of the category names.
    pub main_color: String,
    /// Styles of the category names.
    pub main_styles: Vec<String>,
    /// Color of the values.
    pub secondary_color: String,
    /// Styles of the values.
    pub secondary_styles: Vec<String>,
    /// Color of the frame border.
    pub border_color: String,
}

/// Whether and how icons are drawn.
pub struct IconStyle {
    /// Whether icons are drawn at all.
    pub enabled: bool,
    /// Color of the icons.
    pub color: String,
}

/// The whole settings object.
pub struct Config {
    /// The banner settings.
    pub host: HostStyle,
    /// The category order settings.
    pub position: Position,
    /// The line style settings.
    pub info: InfoStyle,
    /// The icon settings.
    pub icons: IconStyle,
}

impl Config {
    /// The resolved color of the category names.
    pub fn get_main_color(&self) -> (r: ColorSpec)
        ensures
            r == color_spec_of(self.info.main_color@),
    {
        parse_color(self.info.main_color.as_str())
    }

    /// The style names of the category names.
    pub fn get_main_styles(&self) -> (r: &Vec<String>)
        ensures
            r@ == self.info.main_styles@,
    {
        &self.info.main_styles
    }

    /// The resolved color of the values.
    pub fn get_secondary_color(&self) -> (r: ColorSpec)
        ensures
            r == color_spec_of(self.info.secondary_color@),
    {
        parse_color(self.info.secondary_color.as_str())
    }

    /// The style names of the values.
    pub fn get_secondary_styles(&self) -> (r: &Vec<String>)
        ensures
            r@ == self.info.secondary_styles@,
    {
        &self.info.secondary_styles
    }

    /// The resolved color of the banner.
    pub fn get_host_color(&self) -> (r: ColorSpec)
        ensures
            r == color_spec_of(self.host.color@),
    {
        parse_color(self.host.color.as_str())
    }

    /// The style names of the banner.
    pub fn get_host_styles(&self) -> (r: &Vec<String>)
        ensures
            r@ == self.host.styles@,
    {
        &self.host.styles
    }

    /// The resolved color of the icons.
    pub fn get_icon_color(&self) -> (r: ColorSpec)
        ensures
            r == color_spec_of(self.icons.color@),
    {
        parse_color(self.icons.color.as_str())
    }

    /// Whether icons are drawn.
    pub fn icons_enabled(&self) -> (r: bool)
        ensures
            r == self.icons.enabled,
    {
        self.icons.enabled
    }

    /// The resolved color of the frame border.
    pub fn border_color(&self) -> (r: ColorSpec)
        ensures
            r == color_spec_of(self.info.border_color@),
    {
        parse_color(self.info.border_color.as_str())
    }
}

impl Default for Config {
    /// The documented default settings: a bold magenta banner, italic
    /// white names over bold blue values in a blue frame, green icons,
    /// and every category shown in its natural order.
    fn default() -> (r: Self)
        ensures
            r.host.color@ == "magenta"@,
            r.host.styles@.len() == 1 && r.host.styles@[0]@ == "bold"@,
            r.position.os_order == 1,
            r.position.host_order == 2,
            r.position.terminal_order == 3,
            r.position.shell_order == 4,
            r.position.kernel_order == 5,
            r.position.uptime_order == 6,
            r.position.load_average_order == 7,
            r.position.ram_order == 8,
            r.position.swap_order == 9,
            r.position.locale_order == 10,
            r.info.main_color@ == "white"@,
            r.info.main_styles@.len() == 1 && r.info.main_styles@[0]@ == "italic"@,
            r.info.secondary_color@ == "blue"@,
            r.info.secondary_styles@.len() == 1 && r.info.secondary_styles@[0]@ == "bold"@,
            r.info.border_color@ == "blue"@,
            r.icons.enabled,
            r.icons.color@ == "green"@,
    {
        let mut host_styles: Vec<String> = Vec::new();
        host_styles.push(crate::text::to_owned_string("bold"));
        let mut main_styles: Vec<String> = Vec::new();
        main_styles.push(crate::text::to_owned_string("italic"));
        let mut secondary_styles: Vec<String> = Vec::new();
        secondary_styles.push(crate::text::to_owned_string("bold"));
        Config {
            host: HostStyle { color: crate::text::to_owned_string("magenta"), styles: host_styles },
            position: Position {
                os_order: 1,
                host_order: 2,
                terminal_order: 3,
                shell_order: 4,
                kernel_order: 5,
                uptime_order: 6,
                load_average_order: 7,
                ram_order: 8,
                swap_order: 9,
                locale_order: 10,
            },
            info: InfoStyle {
                main_color: crate::text::to_owned_string("white"),
                main_styles,
                secondary_color: crate::text::to_owned_string("blue"),
                secondary_styles,
                border_color: crate::text::to_owned_string("blue"),
            },
            icons: IconStyle { enabled: true, color: crate::text::to_owned_string("green") },
        }
    }
}

} // verus!
