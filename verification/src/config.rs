//! Capture configuration from the command line's plain values: the capture
//! mode, the screen region, and the one cross-field rule (a region cannot
//! be selected interactively for video capture).

use vstd::prelude::*;

use crate::text::str_eq;

verus! {

/// Possible regions of the screen.
#[derive(Clone, Copy, Debug, PartialEq, Eq, Structural)]
pub enum ScreenRegion {
    Screen,
    Window,
    Select,
}

impl Default for ScreenRegion {
    fn default() -> (r: Self)
        ensures
            r == ScreenRegion::Screen,
    {
        ScreenRegion::Screen
    }
}

/// The region a command-line name denotes, if recognized.
pub open spec fn region_from_str_spec(s: Seq<char>) -> Result<ScreenRegion, ()> {
    if s == "screen"@ {
        Ok(ScreenRegion::Screen)
    } else if s == "window"@ {
        Ok(ScreenRegion::Window)
    } else if s == "select"@ {
        Ok(ScreenRegion::Select)
    } else {
        Err(())
    }
}

impl ScreenRegion {
    /// Parse a region name.
    pub fn from_str(s: &str) -> (r: Result<ScreenRegion, ()>)
        ensures
            r == region_from_str_spec(s@),
    {
        if str_eq(s, "screen") {
            Ok(ScreenRegion::Screen)
        } else if str_eq(s, "window") {
            Ok(ScreenRegion::Window)
        } else if str_eq(s, "select") {
            Ok(ScreenRegion::Select)
        } else {
            Err(())
        }
    }
}

/// Possible capture modes.
#[derive(Clone, Copy, Debug, PartialEq, Eq, Structural)]
pub enum CaptureMode {
    /// Capture an image.
    Image,
    /// Capture a video at a given framerate.
    Video(u64),
}

impl Default for CaptureMode {
    fn default() -> (r: Self)
        ensures
            r == CaptureMode::Image,
    {
        CaptureMode::Image
    }
}

/// The capture mode a command-line name denotes, if recognized.
pub open spec fn mode_spec(s: Seq<char>, rate: u64) -> Option<CaptureMode> {
    if s == "image"@ {
        Some(CaptureMode::Image)
    } else if s == "video"@ {
        Some(CaptureMode::Video(rate))
    } else {
        None
    }
}

/// The validated configuration for the command line's plain values, absent
/// when a name is unrecognized or the combination is rejected.
pub open spec fn config_spec(mode: Seq<char>, rate: u64, region: Seq<char>) -> Option<
    (CaptureMode, ScreenRegion),
> {
    match (mode_spec(mode, rate), region_from_str_spec(region)) {
        (Some(m), Ok(reg)) => if m is Video && reg == ScreenRegion::Select {
            None
        } else {
            Some((m, reg))
        },
        _ => None,
    }
}

/// Configuration from command line.
#[derive(Debug)]
pub struct Config {
    region: ScreenRegion,
    mode: CaptureMode,
}

impl Config {
    pub closed spec fn spec_mode(self) -> CaptureMode {
        self.mode
    }

    pub closed spec fn spec_region(self) -> ScreenRegion {
        self.region
    }

    /// Build and validate the configuration from the command line's plain
    /// values: the mode name, the framerate, and the region name.
    pub fn from_args(mode: &str, rate: u64, region: &str) -> (r: Option<Config>)
        ensures
            (match r {
                Some(c) => config_spec(mode@, rate, region@) == Some(
                    (c.spec_mode(), c.spec_region()),
                ),
                None => config_spec(mode@, rate, region@) is None,
            }),
    {
        let m: CaptureMode;
        if str_eq(mode, "image") {
            m = CaptureMode::Image;
        } else if str_eq(mode, "video") {
            m = CaptureMode::Video(rate);
        } else {
            return None;
        }
        let reg = match ScreenRegion::from_str(region) {
            Ok(x) => x,
            Err(_) => {
                return None;
            },
        };
        let is_video = match m {
            CaptureMode::Video(_) => true,
            CaptureMode::Image => false,
        };
        let is_select = match reg {
            ScreenRegion::Select => true,
            _ => false,
        };
        if is_video && is_select {
            return None;
        }
        Some(Config { mode: m, region: reg })
    }

    pub fn mode(&self) -> (r: CaptureMode)
        ensures
            r == self.spec_mode(),
    {
        self.mode
    }

    pub fn region(&self) -> (r: ScreenRegion)
        ensures
            r == self.spec_region(),
    {
        self.region
    }
}

impl Default for Config {
    fn default() -> (r: Self)
        ensures
            r.spec_mode() == CaptureMode::Image,
            r.spec_region() == ScreenRegion::Screen,
    {
        Config { mode: CaptureMode::Image, region: ScreenRegion::Screen }
    }
}

/// The extra flag the screenshot tool needs for a region, if any.
pub fn region_flag(region: ScreenRegion) -> (r: Option<&'static str>)
    ensures
        region == ScreenRegion::Window ==> (r matches Some(f) && f@ == "-w"@),
        region == ScreenRegion::Select ==> (r matches Some(f) && f@ == "-a"@),
        region == ScreenRegion::Screen ==> r is None,
{
    match region {
        ScreenRegion::Window => Some("-w"),
        ScreenRegion::Select => Some("-a"),
        ScreenRegion::Screen => None,
    }
}

} // verus!
