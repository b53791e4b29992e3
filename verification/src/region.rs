//! The screen region a drag selects: plain data and the arithmetic that
//! turns two drag points into a region, when the selection is large enough.
use vstd::prelude::*;

verus! {

/// A rectangular screen region, in pixels.
#[derive(Clone, Debug)]
pub struct CaptureRegion {
    pub x: i32,
    pub y: i32,
    pub width: u32,
    pub height: u32,
}

/// The smallest selectable width and height, in pixels.
pub const MIN_SELECTION: u32 = 10;

/// The region spanned by a drag from one point to another: its top-left
/// corner is the componentwise minimum and its sides are the absolute
/// differences. Nothing is selected when either side is at or below the
/// minimum.
pub fn region_from_points(x0: i32, y0: i32, x1: i32, y1: i32) -> (r: Option<CaptureRegion>)
    ensures
        ({
            let wide = if x1 >= x0 {
                x1 - x0
            } else {
                x0 - x1
            };
            let tall = if y1 >= y0 {
                y1 - y0
            } else {
                y0 - y1
            };
            match r {
                Some(region) => wide > MIN_SELECTION && tall > MIN_SELECTION && region.x == (
                if x0 <= x1 {
                    x0
                } else {
                    x1
                }) && region.y == (if y0 <= y1 {
                    y0
                } else {
                    y1
                }) && region.width == wide && region.height == tall,
                None => !(wide > MIN_SELECTION && tall > MIN_SELECTION),
            }
        }),
{
    let dx = x1 as i64 - x0 as i64;
    let dy = y1 as i64 - y0 as i64;
    let wide64: i64 = if dx < 0 {
        -dx
    } else {
        dx
    };
    let tall64: i64 = if dy < 0 {
        -dy
    } else {
        dy
    };
    let wide = wide64 as u32;
    let tall = tall64 as u32;
    if wide > MIN_SELECTION && tall > MIN_SELECTION {
        Some(
            CaptureRegion {
                x: if x0 <= x1 {
                    x0
                } else {
                    x1
                },
                y: if y0 <= y1 {
                    y0
                } else {
                    y1
                },
                width: wide,
                height: tall,
            },
        )
    } else {
        None
    }
}

} // verus!
