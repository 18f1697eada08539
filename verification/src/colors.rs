//! The colours of the screens, for terminals of sixteen and of 256 colours.

use crate::text::{contains_text, str_contains};
use vstd::prelude::*;

verus! {

/// A terminal colour: one of the sixteen named ones, or one of the 256
/// indexed ones.
#[derive(Debug, Clone, Copy, PartialEq, Eq, Structural)]
pub enum Color {
    Black,
    Red,
    Green,
    Cyan,
    Magenta,
    White,
    DarkGray,
    LightRed,
    LightGreen,
    LightYellow,
    LightBlue,
    LightMagenta,
    LightCyan,
    Indexed(u8),
}

/// How many colours a terminal shows.
#[derive(Debug, Clone, Copy, PartialEq, Eq, Structural)]
pub enum ColorDepth {
    Colors16,
    Colors256,
}

/// The colour of everything that the screens show.
#[derive(Debug, Clone, Copy, PartialEq, Eq, Structural)]
pub struct ColorScheme {
    pub title: Color,
    pub help_text: Color,
    pub search_highlight: Color,
    pub header: Color,
    pub audit_id: Color,
    pub timestamp: Color,
    pub domain: Color,
    pub client_ip: Color,
    pub rule_id: Color,
    pub status_2xx: Color,
    pub status_3xx: Color,
    pub status_4xx: Color,
    pub status_5xx: Color,
    pub status_unknown: Color,
    pub selected_bg: Color,
    pub selected_fg: Color,
    pub label: Color,
    pub http_method: Color,
    pub http_status: Color,
    pub host_header: Color,
    pub user_agent: Color,
    pub modsec_message: Color,
    pub rule_id_detail: Color,
    pub boundary: Color,
    pub header_name: Color,
}

/// The colour depth that the environment asks for: 256 colours where
/// `COLORTERM` names true colour or `TERM` names 256 colours, else sixteen.
pub open spec fn depth_for(colorterm: Option<Seq<char>>, term: Option<Seq<char>>) -> ColorDepth {
    if colorterm matches Some(c) && (contains_text(c, "truecolor"@) || contains_text(c, "24bit"@)) {
        ColorDepth::Colors256
    } else if term matches Some(t) && contains_text(t, "256color"@) {
        ColorDepth::Colors256
    } else {
        ColorDepth::Colors16
    }
}

/// The scheme for terminals of sixteen colours, in their bright variants.
pub open spec fn scheme_16() -> ColorScheme {
    ColorScheme {
        title: Color::LightCyan,
        help_text: Color::DarkGray,
        search_highlight: Color::LightYellow,
        header: Color::LightYellow,
        audit_id: Color::LightGreen,
        timestamp: Color::LightBlue,
        domain: Color::LightMagenta,
        client_ip: Color::LightRed,
        rule_id: Color::LightYellow,
        status_2xx: Color::Green,
        status_3xx: Color::Cyan,
        status_4xx: Color::Red,
        status_5xx: Color::Magenta,
        status_unknown: Color::DarkGray,
        selected_bg: Color::White,
        selected_fg: Color::Black,
        label: Color::LightYellow,
        http_method: Color::LightGreen,
        http_status: Color::LightBlue,
        host_header: Color::LightCyan,
        user_agent: Color::Green,
        modsec_message: Color::LightRed,
        rule_id_detail: Color::LightMagenta,
        boundary: Color::DarkGray,
        header_name: Color::LightYellow,
    }
}

/// The scheme for terminals of 256 colours.
pub open spec fn scheme_256() -> ColorScheme {
    ColorScheme {
        title: Color::Indexed(117),
        help_text: Color::Indexed(240),
        search_highlight: Color::Indexed(226),
        header: Color::Indexed(214),
        audit_id: Color::Indexed(78),
        timestamp: Color::Indexed(111),
        domain: Color::Indexed(177),
        client_ip: Color::Indexed(203),
        rule_id: Color::Indexed(222),
        status_2xx: Color::Indexed(46),
        status_3xx: Color::Indexed(81),
        status_4xx: Color::Indexed(196),
        status_5xx: Color::Indexed(170),
        status_unknown: Color::Indexed(240),
        selected_bg: Color::Indexed(237),
        selected_fg: Color::Indexed(231),
        label: Color::Indexed(214),
        http_method: Color::Indexed(120),
        http_status: Color::Indexed(75),
        host_header: Color::Indexed(117),
        user_agent: Color::Indexed(34),
        modsec_message: Color::Indexed(203),
        rule_id_detail: Color::Indexed(213),
        boundary: Color::Indexed(237),
        header_name: Color::Indexed(180),
    }
}

/// Tells the colour depth that the values of `COLORTERM` and `TERM` ask for.
pub fn detect_depth(colorterm: Option<&str>, term: Option<&str>) -> (depth: ColorDepth)
    ensures
        depth == depth_for(
            match colorterm {
                Some(c) => Some(c@),
                None => None,
            },
            match term {
                Some(t) => Some(t@),
                None => None,
            },
        ),
{
    match colorterm {
        Some(c) => {
            if str_contains(c, "truecolor") || str_contains(c, "24bit") {
                return ColorDepth::Colors256;
            }
        },
        None => {},
    }
    match term {
        Some(t) => {
            if str_contains(t, "256color") {
                return ColorDepth::Colors256;
            }
        },
        None => {},
    }
    ColorDepth::Colors16
}

impl ColorScheme {
    /// The colour of an HTTP status: by its hundreds from 2xx to 5xx, and the
    /// colour of the unknown for any other or none.
    pub fn status_color(&self, status: Option<u16>) -> (color: Color)
        ensures
            color == match status {
                Some(code) => if 200 <= code < 300 {
                    self.status_2xx
                } else if 300 <= code < 400 {
                    self.status_3xx
                } else if 400 <= code < 500 {
                    self.status_4xx
                } else if 500 <= code < 600 {
                    self.status_5xx
                } else {
                    self.status_unknown
                },
                None => self.status_unknown,
            },
    {
        match status {
            Some(code) => {
                if code >= 200 && code < 300 {
                    self.status_2xx
                } else if code >= 300 && code < 400 {
                    self.status_3xx
                } else if code >= 400 && code < 500 {
                    self.status_4xx
                } else if code >= 500 && code < 600 {
                    self.status_5xx
                } else {
                    self.status_unknown
                }
            },
            None => self.status_unknown,
        }
    }

    /// The scheme for the colour depth that the values of `COLORTERM` and
    /// `TERM` ask for.
    pub fn detect(colorterm: Option<&str>, term: Option<&str>) -> (scheme: ColorScheme)
        ensures
            scheme == match depth_for(
                match colorterm {
                    Some(c) => Some(c@),
                    None => None,
                },
                match term {
                    Some(t) => Some(t@),
                    None => None,
                },
            ) {
                ColorDepth::Colors16 => scheme_16(),
                ColorDepth::Colors256 => scheme_256(),
            },
    {
        match detect_depth(colorterm, term) {
            ColorDepth::Colors16 => Self::colors_16(),
            ColorDepth::Colors256 => Self::colors_256(),
        }
    }

    /// The scheme for terminals of sixteen colours.
    pub fn colors_16() -> (scheme: ColorScheme)
        ensures
            scheme == scheme_16(),
    {
        ColorScheme {
            title: Color::LightCyan,
            help_text: Color::DarkGray,
            search_highlight: Color::LightYellow,
            header: Color::LightYellow,
            audit_id: Color::LightGreen,
            timestamp: Color::LightBlue,
            domain: Color::LightMagenta,
            client_ip: Color::LightRed,
            rule_id: Color::LightYellow,
            status_2xx: Color::Green,
            status_3xx: Color::Cyan,
            status_4xx: Color::Red,
            status_5xx: Color::Magenta,
            status_unknown: Color::DarkGray,
            selected_bg: Color::White,
            selected_fg: Color::Black,
            label: Color::LightYellow,
            http_method: Color::LightGreen,
            http_status: Color::LightBlue,
            host_header: Color::LightCyan,
            user_agent: Color::Green,
            modsec_message: Color::LightRed,
            rule_id_detail: Color::LightMagenta,
            boundary: Color::DarkGray,
            header_name: Color::LightYellow,
        }
    }

    /// The scheme for terminals of 256 colours.
    pub fn colors_256() -> (scheme: ColorScheme)
        ensures
            scheme == scheme_256(),
    {
        ColorScheme {
            title: Color::Indexed(117),
            help_text: Color::Indexed(240),
            search_highlight: Color::Indexed(226),
            header: Color::Indexed(214),
            audit_id: Color::Indexed(78),
            timestamp: Color::Indexed(111),
            domain: Color::Indexed(177),
            client_ip: Color::Indexed(203),
            rule_id: Color::Indexed(222),
            status_2xx: Color::Indexed(46),
            status_3xx: Color::Indexed(81),
            status_4xx: Color::Indexed(196),
            status_5xx: Color::Indexed(170),
            status_unknown: Color::Indexed(240),
            selected_bg: Color::Indexed(237),
            selected_fg: Color::Indexed(231),
            label: Color::Indexed(214),
            http_method: Color::Indexed(120),
            http_status: Color::Indexed(75),
            host_header: Color::Indexed(117),
            user_agent: Color::Indexed(34),
            modsec_message: Color::Indexed(203),
            rule_id_detail: Color::Indexed(213),
            boundary: Color::Indexed(237),
            header_name: Color::Indexed(180),
        }
    }
}

} // verus!
