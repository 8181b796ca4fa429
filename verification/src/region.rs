//! Region resolver: turn the line output of the window-system introspection
//! tools into a capture-region descriptor, a resolution string and an offset
//! string consumed verbatim by the transcoder's input-grabbing syntax.
//!
//! Both paths fail hard: a missing line or token yields `None`, never a
//! partial geometry.

use vstd::prelude::*;

use crate::text::{find_line, get_line, get_nth_from_line, nth_from_line};

verus! {

/// The screen identifier composed from the display identifier.
pub open spec fn screen_spec(display: Seq<char>) -> Seq<char> {
    display + ".0"@
}

/// The full-screen region descriptor: the second token of the dimensions
/// line that follows the primary-screen line, and a zero/zero offset on the
/// active display.
pub open spec fn fullscreen_region_spec(lines: Seq<Seq<char>>, display: Seq<char>) -> Option<
    (Seq<char>, Seq<char>),
> {
    match find_line(lines, 0, "screen #0"@) {
        None => None,
        Some(i) => match nth_from_line(lines, i + 1, "dimensions:"@, 1) {
            None => None,
            Some(p) => Some((p.1, screen_spec(display) + "+0,0"@)),
        },
    }
}

/// The identifier of the active window: the fifth token of the line naming
/// the active-window property.
pub open spec fn window_id_spec(lines: Seq<Seq<char>>) -> Option<Seq<char>> {
    match nth_from_line(lines, 0, "_NET_ACTIVE_WINDOW"@, 4) {
        None => None,
        Some(p) => Some(p.1),
    }
}

/// The current-window region descriptor, scraped in order from the window
/// geometry listing: X offset, Y offset, width and height, each from its
/// labeled line.
pub open spec fn window_region_spec(lines: Seq<Seq<char>>, display: Seq<char>) -> Option<
    (Seq<char>, Seq<char>),
> {
    match nth_from_line(lines, 0, "Absolute upper-left X:"@, 3) {
        None => None,
        Some(px) => match nth_from_line(lines, px.0, "Absolute upper-left Y:"@, 3) {
            None => None,
            Some(py) => match nth_from_line(lines, py.0, "Width:"@, 1) {
                None => None,
                Some(pw) => match nth_from_line(lines, pw.0, "Height:"@, 1) {
                    None => None,
                    Some(ph) => Some(
                        (
                            pw.1 + "x"@ + ph.1,
                            screen_spec(display) + "+"@ + px.1 + ","@ + py.1,
                        ),
                    ),
                },
            },
        },
    }
}

/// The screen identifier for the active display.
pub fn x11_screen(display: &str) -> (r: String)
    ensures
        r@ == screen_spec(display@),
{
    display.to_owned().concat(".0")
}

/// Resolve the full-screen capture region from the display-information
/// tool's output and the display identifier.
pub fn x11_fullscreen(lines: &Vec<String>, display: &str) -> (r: Option<(String, String)>)
    ensures
        (match r {
            Some(p) => fullscreen_region_spec(lines.deep_view(), display@) == Some((p.0@, p.1@)),
            None => fullscreen_region_spec(lines.deep_view(), display@) is None,
        }),
{
    match get_line(lines, 0, "screen #0") {
        None => None,
        Some(i) => match get_nth_from_line(lines, i + 1, "dimensions:", 1) {
            None => None,
            Some(p) => {
                let offset = x11_screen(display).concat("+0,0");
                Some((p.1, offset))
            },
        },
    }
}

/// Extract the active window identifier from the root-window property
/// tool's output.
pub fn x11_window(lines: &Vec<String>) -> (r: Option<String>)
    ensures
        (match r {
            Some(id) => window_id_spec(lines.deep_view()) == Some(id@),
            None => window_id_spec(lines.deep_view()) is None,
        }),
{
    match get_nth_from_line(lines, 0, "_NET_ACTIVE_WINDOW", 4) {
        None => None,
        Some(p) => Some(p.1),
    }
}

/// Resolve the current-window capture region from the window-information
/// tool's output and the display identifier.
pub fn x11_current_window(lines: &Vec<String>, display: &str) -> (r: Option<(String, String)>)
    ensures
        (match r {
            Some(p) => window_region_spec(lines.deep_view(), display@) == Some((p.0@, p.1@)),
            None => window_region_spec(lines.deep_view(), display@) is None,
        }),
{
    let px = match get_nth_from_line(lines, 0, "Absolute upper-left X:", 3) {
        None => {
            return None;
        },
        Some(p) => p,
    };
    let py = match get_nth_from_line(lines, px.0, "Absolute upper-left Y:", 3) {
        None => {
            return None;
        },
        Some(p) => p,
    };
    let pw = match get_nth_from_line(lines, py.0, "Width:", 1) {
        None => {
            return None;
        },
        Some(p) => p,
    };
    let ph = match get_nth_from_line(lines, pw.0, "Height:", 1) {
        None => {
            return None;
        },
        Some(p) => p,
    };
    let resolution = pw.1.concat("x").concat(ph.1.as_str());
    let offset = x11_screen(display).concat("+").concat(px.1.as_str()).concat(",").concat(
        py.1.as_str(),
    );
    Some((resolution, offset))
}

} // verus!
