use vstd::prelude::*;

verus! {

/// Width and height, in pixels, of an offscreen surface.
#[derive(Clone, Copy, Debug, PartialEq, Eq, Structural)]
pub struct RenderTargetSize {
    pub width: u32,
    pub height: u32,
}

/// Where the offscreen surface lands on the output: the top-left corner and
/// the scaled size, in output pixels.
#[derive(Clone, Copy, Debug, PartialEq, Eq, Structural)]
pub struct Viewport {
    pub x: u32,
    pub y: u32,
    pub width: u32,
    pub height: u32,
}

/// True when the width is the constrained axis: scaling the surface to the
/// output's width leaves its height within the output's height.
pub open spec fn width_bound(size: RenderTargetSize, screen_w: u32, screen_h: u32) -> bool {
    screen_w as int * size.height as int <= screen_h as int * size.width as int
}

/// The largest aspect-preserving copy of the surface that fits the output,
/// centred, with equal padding on both sides of the unconstrained axis.
pub open spec fn letterbox_spec(size: RenderTargetSize, screen_w: u32, screen_h: u32) -> Viewport {
    if size.width == 0 || size.height == 0 {
        Viewport { x: (screen_w / 2) as u32, y: (screen_h / 2) as u32, width: 0, height: 0 }
    } else if width_bound(size, screen_w, screen_h) {
        let h = (size.height as int * screen_w as int / size.width as int) as u32;
        Viewport { x: 0, y: ((screen_h - h) / 2) as u32, width: screen_w, height: h }
    } else {
        let w = (size.width as int * screen_h as int / size.height as int) as u32;
        Viewport { x: ((screen_w - w) / 2) as u32, y: 0, width: w, height: screen_h }
    }
}

/// Places a surface of `size` on an output of `screen_w` by `screen_h`
/// pixels: scaled to fit while keeping its aspect ratio, and centred.
pub fn letterbox(size: RenderTargetSize, screen_w: u32, screen_h: u32) -> (r: Viewport)
    ensures
        r == letterbox_spec(size, screen_w, screen_h),
        r.width <= screen_w,
        r.height <= screen_h,
{
    if size.width == 0 || size.height == 0 {
        return Viewport { x: screen_w / 2, y: screen_h / 2, width: 0, height: 0 };
    }
    let sw = screen_w as u64;
    let sh = screen_h as u64;
    let w = size.width as u64;
    let h = size.height as u64;
    proof {
        assert(sw * h <= u32::MAX as int * u32::MAX as int) by (nonlinear_arith)
            requires sw <= u32::MAX, h <= u32::MAX;
        assert(sh * w <= u32::MAX as int * u32::MAX as int) by (nonlinear_arith)
            requires sh <= u32::MAX, w <= u32::MAX;
    }
    if sw * h <= sh * w {
        let scaled = h * sw / w;
        proof {
            assert((h * sw) as int / w as int <= sh as int) by (nonlinear_arith)
                requires sw * h <= sh * w, w > 0;
        }
        let scaled_h = scaled as u32;
        Viewport { x: 0, y: (screen_h - scaled_h) / 2, width: screen_w, height: scaled_h }
    } else {
        let scaled = w * sh / h;
        proof {
            assert((w * sh) as int / h as int <= sw as int) by (nonlinear_arith)
                requires sw * h > sh * w, h > 0;
        }
        let scaled_w = scaled as u32;
        Viewport { x: (screen_w - scaled_w) / 2, y: 0, width: scaled_w, height: screen_h }
    }
}

} // verus!
