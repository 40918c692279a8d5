//! The colours the launcher picks from its state: log lines by their tag
//! and content, status badges by kind, and the run badge.
use vstd::prelude::*;
use crate::text::{contains_seq, has_prefix, has_substring, starts_with};

verus! {

/// An opaque RGB colour.
#[derive(Clone, Copy, Debug, PartialEq, Eq, Structural)]
pub struct Rgb {
    pub r: u8,
    pub g: u8,
    pub b: u8,
}

/// The colour with the given channels.
pub open spec fn rgb(r: u8, g: u8, b: u8) -> Rgb {
    Rgb { r, g, b }
}

/// The plain text colour.
pub open spec fn plain_text() -> Rgb {
    rgb(86, 78, 92)
}

/// An output line that reports a connection or proxy established.
pub open spec fn reports_success(line: Seq<char>) -> bool {
    contains_seq(line, "login to server success"@) || contains_seq(line, "start proxy success"@)
        || contains_seq(line, "proxy added"@)
}

/// The colour of a log line: errors red, exits brown, launcher notes blue;
/// frpc output green when it reports success, amber while it tries to
/// connect, plain otherwise.
pub open spec fn log_line_rgb(line: Seq<char>) -> Rgb {
    if starts_with(line, "[[Error]]"@) || starts_with(line, "[ERR]"@) {
        rgb(205, 78, 96)
    } else if starts_with(line, "[[Exited]]"@) {
        rgb(160, 107, 70)
    } else if starts_with(line, "[[Info]]"@) {
        rgb(92, 130, 192)
    } else if starts_with(line, "[OUT]"@) {
        if reports_success(line) {
            rgb(76, 153, 108)
        } else if contains_seq(line, "try to connect to server"@) {
            rgb(198, 140, 62)
        } else {
            plain_text()
        }
    } else {
        plain_text()
    }
}

/// Picks the colour of a log line.
pub fn log_line_color(line: &str) -> (c: Rgb)
    ensures
        c == log_line_rgb(line@),
{
    if has_prefix(line, "[[Error]]") || has_prefix(line, "[ERR]") {
        Rgb { r: 205, g: 78, b: 96 }
    } else if has_prefix(line, "[[Exited]]") {
        Rgb { r: 160, g: 107, b: 70 }
    } else if has_prefix(line, "[[Info]]") {
        Rgb { r: 92, g: 130, b: 192 }
    } else if has_prefix(line, "[OUT]") {
        if has_substring(line, "login to server success") || has_substring(
            line,
            "start proxy success",
        ) || has_substring(line, "proxy added") {
            Rgb { r: 76, g: 153, b: 108 }
        } else if has_substring(line, "try to connect to server") {
            Rgb { r: 198, g: 140, b: 62 }
        } else {
            Rgb { r: 86, g: 78, b: 92 }
        }
    } else {
        Rgb { r: 86, g: 78, b: 92 }
    }
}

/// The kinds of status badge the advanced editor shows.
#[derive(Clone, Copy, Debug, PartialEq, Eq, Structural)]
pub enum StatusKind {
    SyntaxOk,
    Saved,
    Dirty,
    Error,
}

/// Fill, border and text colour of a status badge: green for a correct or
/// saved file, amber for unsaved edits, red for a syntax error.
pub open spec fn badge_colors(kind: StatusKind) -> (Rgb, Rgb, Rgb) {
    match kind {
        StatusKind::SyntaxOk | StatusKind::Saved => (rgb(233, 248, 241), rgb(176, 226, 198), rgb(46, 110, 78)),
        StatusKind::Dirty => (rgb(255, 246, 230), rgb(238, 214, 165), rgb(138, 92, 20)),
        StatusKind::Error => (rgb(255, 235, 238), rgb(242, 190, 198), rgb(156, 62, 78)),
    }
}

/// Picks the colours of a status badge.
pub fn status_badge_colors(kind: StatusKind) -> (r: (Rgb, Rgb, Rgb))
    ensures
        r == badge_colors(kind),
{
    match kind {
        StatusKind::SyntaxOk | StatusKind::Saved => (
            Rgb { r: 233, g: 248, b: 241 },
            Rgb { r: 176, g: 226, b: 198 },
            Rgb { r: 46, g: 110, b: 78 },
        ),
        StatusKind::Dirty => (
            Rgb { r: 255, g: 246, b: 230 },
            Rgb { r: 238, g: 214, b: 165 },
            Rgb { r: 138, g: 92, b: 20 },
        ),
        StatusKind::Error => (
            Rgb { r: 255, g: 235, b: 238 },
            Rgb { r: 242, g: 190, b: 198 },
            Rgb { r: 156, g: 62, b: 78 },
        ),
    }
}

/// The status badge of the editor: syntax first, then whether edits are unsaved.
pub fn editor_badges(parse_ok: bool, dirty: bool) -> (r: (StatusKind, StatusKind))
    ensures
        r.0 == (if parse_ok { StatusKind::SyntaxOk } else { StatusKind::Error }),
        r.1 == (if dirty { StatusKind::Dirty } else { StatusKind::Saved }),
{
    (
        if parse_ok { StatusKind::SyntaxOk } else { StatusKind::Error },
        if dirty { StatusKind::Dirty } else { StatusKind::Saved },
    )
}

/// The run badge: `运行中` on green while frpc runs, `已停止` on red otherwise.
pub fn run_badge(running: bool) -> (r: (String, Rgb))
    ensures
        running ==> r.0@ == "运行中"@ && r.1 == rgb(91, 201, 137),
        !running ==> r.0@ == "已停止"@ && r.1 == rgb(232, 92, 105),
{
    if running {
        (String::from_str("运行中"), Rgb { r: 91, g: 201, b: 137 })
    } else {
        (String::from_str("已停止"), Rgb { r: 232, g: 92, b: 105 })
    }
}

/// Fill and text colour of a tab button: pink when selected, grey otherwise.
pub fn tab_button_colors(selected: bool) -> (r: (Rgb, Rgb))
    ensures
        selected ==> r == (rgb(255, 201, 226), rgb(112, 62, 93)),
        !selected ==> r == (rgb(247, 239, 246), rgb(108, 96, 112)),
{
    if selected {
        (Rgb { r: 255, g: 201, b: 226 }, Rgb { r: 112, g: 62, b: 93 })
    } else {
        (Rgb { r: 247, g: 239, b: 246 }, Rgb { r: 108, g: 96, b: 112 })
    }
}

/// Fill, border and text colour of a tinted button: its own colours when
/// enabled, greyed ones when disabled.
pub fn tinted_button_colors(enabled: bool, fill: Rgb, stroke: Rgb, text: Rgb) -> (r: (
    Rgb,
    Rgb,
    Rgb,
))
    ensures
        enabled ==> r == (fill, stroke, text),
        !enabled ==> r == (rgb(246, 241, 246), rgb(236, 227, 236), rgb(150, 138, 156)),
{
    if enabled {
        (fill, stroke, text)
    } else {
        (Rgb { r: 246, g: 241, b: 246 }, Rgb { r: 236, g: 227, b: 236 }, Rgb { r: 150, g: 138, b: 156 })
    }
}

} // verus!
