//! The aspect-fill crop: the centered rectangle that maps a source image
//! onto a target aspect ratio without letterboxing and without scaling.
//! Ratios are compared exactly over the integers: the source is relatively
//! taller than a `tw:th` target exactly when `w * th <= h * tw`.
use vstd::prelude::*;

use crate::display::DisplayInfo;
use crate::resolution::{parse_spec, Resolution};
use crate::Error;

verus! {

/// A crop rectangle, fully contained in the source image.
#[derive(Clone, Copy, PartialEq, Eq, Structural, Debug)]
pub struct CropRect {
    pub x: u32,
    pub y: u32,
    pub width: u32,
    pub height: u32,
}

impl CropRect {
    /// The rectangle lies inside a `w` by `h` source and keeps at least one
    /// full source dimension.
    pub open spec fn contained_in(self, w: int, h: int) -> bool {
        &&& self.x + self.width <= w
        &&& self.y + self.height <= h
        &&& (self.width == w || self.height == h)
    }
}

/// The crop rectangle as a value: full width and centered vertical cut when
/// the source is relatively taller than the target, else full height and
/// centered horizontal cut.
pub open spec fn crop_spec(w: int, h: int, tw: int, th: int) -> CropRect {
    if w * th <= h * tw {
        let nh = w * th / tw;
        CropRect { x: 0, y: (((h - nh) / 2) as u32), width: w as u32, height: nh as u32 }
    } else {
        let nw = h * tw / th;
        CropRect { x: (((w - nw) / 2) as u32), y: 0, width: nw as u32, height: h as u32 }
    }
}

/// The centered rectangle that fills a `target.width : target.height` aspect
/// ratio inside a `src_w` by `src_h` source. When the source is relatively
/// taller than the target the full width is kept and the height is cut down
/// to `floor(src_w * th / tw)`, centered; otherwise the full height is kept
/// and the width is cut down to `floor(src_h * tw / th)`, centered.
pub fn crop_rect(src_w: u32, src_h: u32, target: Resolution) -> (r: CropRect)
    requires
        target.wf(),
    ensures
        r == crop_spec(src_w as int, src_h as int, target.width as int, target.height as int),
        r.contained_in(src_w as int, src_h as int),
        src_w * target.height <= src_h * target.width ==> {
            &&& r.x == 0
            &&& r.width == src_w
            &&& r.height == src_w * target.height / (target.width as int)
            &&& r.y == (src_h - r.height) / 2
        },
        src_w * target.height > src_h * target.width ==> {
            &&& r.y == 0
            &&& r.height == src_h
            &&& r.width == src_h * target.width / (target.height as int)
            &&& r.x == (src_w - r.width) / 2
        },
{
    let w = src_w as u64;
    let h = src_h as u64;
    let tw = target.width as u64;
    let th = target.height as u64;
    proof {
        assert(w * th <= u64::MAX && h * tw <= u64::MAX) by (nonlinear_arith)
            requires
                w <= u32::MAX && h <= u32::MAX && tw <= u32::MAX && th <= u32::MAX,
        ;
    }
    if w * th <= h * tw {
        let nh = (w * th) / tw;
        proof {
            assert(nh <= h) by (nonlinear_arith)
                requires
                    tw > 0,
                    w * th <= h * tw,
                    nh as int == (w as int * th as int) / (tw as int),
            ;
        }
        let y = (h - nh) / 2;
        CropRect { x: 0, y: y as u32, width: src_w, height: nh as u32 }
    } else {
        let nw = (h * tw) / th;
        proof {
            assert(nw <= w) by (nonlinear_arith)
                requires
                    th > 0,
                    h * tw <= w * th,
                    nw as int == (h as int * tw as int) / (th as int),
            ;
        }
        let x = (w - nw) / 2;
        CropRect { x: x as u32, y: 0, width: nw as u32, height: src_h }
    }
}

/// The resolution the crop must fill: the combined desktop geometry when
/// spanning, else the largest single monitor. A malformed resolution string
/// is a format error.
pub fn target_resolution(span: bool, info: &DisplayInfo) -> (r: Result<Resolution, Error>)
    ensures
        match r {
            Ok(res) => {
                &&& res.wf()
                &&& (span ==> parse_spec(info.total_resolution@) == Some(res))
                &&& (!span ==> parse_spec(info.max_single_resolution@) == Some(res))
            },
            Err(e) => {
                &&& e == Error::Format
                &&& (span ==> parse_spec(info.total_resolution@) is None)
                &&& (!span ==> parse_spec(info.max_single_resolution@) is None)
            },
        },
{
    if span {
        Resolution::parse(info.total_resolution.as_str())
    } else {
        Resolution::parse(info.max_single_resolution.as_str())
    }
}

} // verus!
