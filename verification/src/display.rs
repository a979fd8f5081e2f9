//! Display topology: the monitors that were enumerated, the largest single
//! monitor, the combined desktop geometry, and the session-specific command
//! that queries it.
use vstd::prelude::*;

use crate::resolution::{parse_spec, Resolution};
use crate::text::{match_at, replace_seq, replace_str, trim_seq, trim_str};
use crate::Error;

verus! {

/// Pixel area denoted by a resolution string, or `-1` when it is malformed.
pub open spec fn area_of(s: Seq<char>) -> int {
    match parse_spec(s) {
        Some(r) => r.width * r.height,
        None => -1,
    }
}

/// The display configuration of the running session.
#[derive(Debug)]
pub struct DisplayInfo {
    /// How many monitors were enumerated.
    pub count: i8,
    /// One resolution string per monitor, in enumeration order.
    pub resolutions: Vec<String>,
    /// The combined desktop geometry reported by the backend.
    pub total_resolution: String,
    /// The monitor with the greatest pixel area; ties keep the first.
    pub max_single_resolution: String,
}

impl DisplayInfo {
    /// `max_single_resolution` is the first monitor of greatest area.
    pub open spec fn max_single_is_first_max(self) -> bool {
        exists|k: int|
            {
                &&& 0 <= k < self.resolutions.deep_view().len()
                &&& self.max_single_resolution@ == self.resolutions.deep_view()[k]
                &&& (forall|j: int|
                    0 <= j < self.resolutions.deep_view().len() ==> area_of(
                        #[trigger] self.resolutions.deep_view()[j],
                    ) <= area_of(self.resolutions.deep_view()[k]))
                &&& (forall|j: int|
                    0 <= j < k ==> area_of(#[trigger] self.resolutions.deep_view()[j]) < area_of(
                        self.resolutions.deep_view()[k],
                    ))
            }
    }

    /// At least one monitor, each with a well-formed resolution string, and
    /// the largest single monitor correctly singled out.
    pub open spec fn wf(self) -> bool {
        &&& self.resolutions.deep_view().len() >= 1
        &&& (forall|j: int|
            0 <= j < self.resolutions.deep_view().len() ==> parse_spec(
                #[trigger] self.resolutions.deep_view()[j],
            ) is Some)
        &&& self.max_single_is_first_max()
    }
}

/// Builds the display information from the enumerated monitor resolutions
/// and the backend-reported combined geometry. Zero monitors are fatal, and
/// so is a malformed resolution string.
pub fn get_info(resolutions: Vec<String>, total_resolution: String) -> (r: Result<
    DisplayInfo,
    Error,
>)
    ensures
        match r {
            Ok(info) => {
                &&& info.wf()
                &&& info.resolutions.deep_view() == resolutions.deep_view()
                &&& info.total_resolution == total_resolution
                &&& resolutions.deep_view().len() <= 127 ==> info.count == resolutions.deep_view().len() as i8
            },
            Err(e) => {
                &&& (e == Error::NoDisplay || e == Error::Format)
                &&& (e == Error::NoDisplay <==> resolutions.deep_view().len() == 0)
                &&& (e == Error::Format ==> exists|j: int|
                    0 <= j < resolutions.deep_view().len() && parse_spec(
                        #[trigger] resolutions.deep_view()[j],
                    ) is None)
            },
        },
{
    let n = resolutions.len();
    if n == 0 {
        return Err(Error::NoDisplay);
    }
    let mut max_area: u64 = 0;
    let mut max_idx: usize = 0;
    let mut seen_max: bool = false;
    let mut i: usize = 0;
    while i < n
        invariant
            n == resolutions.deep_view().len(),
            n >= 1,
            i <= n,
            forall|j: int|
                0 <= j < i ==> parse_spec(#[trigger] resolutions.deep_view()[j]) is Some,
            i > 0 ==> seen_max,
            seen_max ==> {
                &&& max_idx < i
                &&& max_area == area_of(resolutions.deep_view()[max_idx as int])
                &&& (forall|j: int|
                    0 <= j < i ==> area_of(#[trigger] resolutions.deep_view()[j]) <= max_area)
                &&& (forall|j: int|
                    0 <= j < max_idx ==> area_of(#[trigger] resolutions.deep_view()[j]) < max_area)
            },
        decreases n - i,
    {
        proof {
            assert(resolutions.deep_view()[i as int] == resolutions@[i as int]@);
        }
        let area = match Resolution::parse(resolutions[i].as_str()) {
            Ok(res) => res.area(),
            Err(_) => {
                return Err(Error::Format);
            },
        };
        if !seen_max || area > max_area {
            max_area = area;
            max_idx = i;
            seen_max = true;
        }
        i += 1;
    }
    proof {
        assert(resolutions.deep_view()[max_idx as int] == resolutions@[max_idx as int]@);
    }
    let max_single_resolution = resolutions[max_idx].clone();
    let count: i8 = if n <= 127 {
        n as i8
    } else {
        127
    };
    let info = DisplayInfo { count, resolutions, total_resolution, max_single_resolution };
    proof {
        let dv = info.resolutions.deep_view();
        assert(info.max_single_resolution@ == dv[max_idx as int]);
        assert(forall|j: int| 0 <= j < dv.len() ==> area_of(#[trigger] dv[j]) <= area_of(
            dv[max_idx as int],
        ));
        assert(forall|j: int| 0 <= j < max_idx ==> area_of(#[trigger] dv[j]) < area_of(
            dv[max_idx as int],
        ));
        assert(info.max_single_is_first_max());
    }
    Ok(info)
}

/// Canonical combined-geometry string from the raw output of the desktop
/// geometry query: comma-separated dimension pairs are joined with `x` and
/// surrounding whitespace is dropped.
pub fn get_total_resolution(raw: &str) -> (r: String)
    ensures
        r@ == trim_seq(replace_seq(raw@, ", "@, "x"@)),
{
    proof {
        reveal_strlit(", ");
    }
    let joined = replace_str(raw, ", ", "x");
    trim_str(joined.as_str())
}

/// The kind of graphical session, read once per run.
#[derive(Clone, Copy, PartialEq, Eq, Structural, Debug)]
pub enum SessionKind {
    X11,
    Wayland,
}

/// True when the two strings hold the same characters.
pub fn str_eq(a: &str, b: &str) -> (r: bool)
    ensures
        r == (a@ == b@),
{
    let a_len = a.unicode_len();
    let b_len = b.unicode_len();
    if a_len != b_len {
        return false;
    }
    let r = crate::text::starts_with_str(a, b);
    proof {
        if match_at(a@, b@, 0) {
            assert(a@.subrange(0, b@.len() as int) =~= a@);
        } else if a@ == b@ {
            assert(a@.subrange(0, b@.len() as int) =~= b@);
        }
    }
    r
}

/// Classifies the session type value: `"x11"` and `"wayland"` are the only
/// recognized values; anything else, or its absence, cannot be configured
/// around and is fatal.
pub fn classify_session(value: Option<&str>) -> (r: Result<SessionKind, Error>)
    ensures
        match r {
            Ok(kind) => {
                &&& value is Some
                &&& (kind == SessionKind::X11 <==> value->Some_0@ == "x11"@)
                &&& (kind == SessionKind::Wayland <==> value->Some_0@ == "wayland"@)
            },
            Err(e) => {
                &&& e == Error::Configuration
                &&& (value is Some ==> value->Some_0@ != "x11"@ && value->Some_0@ != "wayland"@)
            },
        },
{
    proof {
        reveal_strlit("x11");
        reveal_strlit("wayland");
        assert("x11"@.len() == 3);
        assert("wayland"@.len() == 7);
    }
    match value {
        None => Err(Error::Configuration),
        Some(v) => {
            if str_eq(v, "x11") {
                Ok(SessionKind::X11)
            } else if str_eq(v, "wayland") {
                Ok(SessionKind::Wayland)
            } else {
                Err(Error::Configuration)
            }
        },
    }
}

/// The command that queries the display, prefixed with a session-specific
/// override when no display variable is set in the environment.
pub fn build_display_command(cmd: &str, session: SessionKind, display_var_set: bool) -> (r: String)
    ensures
        display_var_set ==> r@ == cmd@,
        !display_var_set && session == SessionKind::Wayland ==> r@ == "WAYLAND_DISPLAY=:wayland-0 "@
            + cmd@,
        !display_var_set && session == SessionKind::X11 ==> r@ == "DISPLAY=:0  "@ + cmd@,
{
    if display_var_set {
        let mut r = String::new();
        r.append(cmd);
        proof {
            assert(r@ =~= cmd@);
        }
        r
    } else if matches!(session, SessionKind::Wayland) {
        let mut r = String::new();
        r.append("WAYLAND_DISPLAY=:wayland-0 ");
        r.append(cmd);
        proof {
            assert(r@ =~= "WAYLAND_DISPLAY=:wayland-0 "@ + cmd@);
        }
        r
    } else {
        let mut r = String::new();
        r.append("DISPLAY=:0  ");
        r.append(cmd);
        proof {
            assert(r@ =~= "DISPLAY=:0  "@ + cmd@);
        }
        r
    }
}

/// The query that reports the combined desktop geometry.
pub fn total_resolution_query() -> (r: &'static str)
    ensures
        r@ == "xprop -notype -len 16 -root _NET_DESKTOP_GEOMETRY | cut -c 25-"@,
{
    "xprop -notype -len 16 -root _NET_DESKTOP_GEOMETRY | cut -c 25-"
}

} // verus!
