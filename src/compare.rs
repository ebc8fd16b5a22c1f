//! Pixel-wise difference of two surfaces of the same size.

use vstd::prelude::*;
use crate::surface::{Pixel, SharedImageSurface, SurfaceView};

verus! {

/// How much a nonzero channel difference is scaled up in the visualization.
pub const EMPHASIS_FACTOR: u8 = 4;

/// What is added to a nonzero scaled difference so that it stays visible.
pub const EMPHASIS_OFFSET: u8 = 128;

/// The difference of two surfaces of the same size.
pub struct Diff {
    /// How many positions hold different pixels.
    pub num_pixels_changed: usize,
    /// The largest difference of one channel at one position.
    pub max_diff: u8,
    /// A picture of where and how much the surfaces differ.
    pub surface: SharedImageSurface,
}

/// The result of comparing two surfaces.
pub enum BufferDiff {
    /// The surfaces have different widths or heights.
    DifferentSizes,
    Diff(Diff),
}

pub open spec fn channel_diff(x: u8, y: u8) -> u8 {
    if x >= y {
        (x - y) as u8
    } else {
        (y - x) as u8
    }
}

/// The channel-wise absolute difference of two pixels.
pub open spec fn pixel_diff(p: Pixel, q: Pixel) -> Pixel {
    Pixel {
        r: channel_diff(p.r, q.r),
        g: channel_diff(p.g, q.g),
        b: channel_diff(p.b, q.b),
        a: channel_diff(p.a, q.a),
    }
}

pub open spec fn max_u8(x: u8, y: u8) -> u8 {
    if x >= y {
        x
    } else {
        y
    }
}

/// The largest channel of a pixel.
pub open spec fn max_channel(p: Pixel) -> u8 {
    max_u8(max_u8(p.r, p.g), max_u8(p.b, p.a))
}

/// The largest channel difference among the first `n` positions.
pub open spec fn max_diff_upto(a: Seq<Pixel>, b: Seq<Pixel>, n: int) -> u8
    decreases n,
{
    if n <= 0 {
        0
    } else {
        max_u8(max_diff_upto(a, b, n - 1), max_channel(pixel_diff(a[n - 1], b[n - 1])))
    }
}

/// How many of the first `n` positions hold different pixels.
pub open spec fn changed_upto(a: Seq<Pixel>, b: Seq<Pixel>, n: int) -> nat
    decreases n,
{
    if n <= 0 {
        0
    } else {
        changed_upto(a, b, n - 1) + if a[n - 1] != b[n - 1] {
            1nat
        } else {
            0nat
        }
    }
}

/// A channel difference made visible: scaled up, lifted off zero, capped at 255.
pub open spec fn emphasize_channel(c: u8) -> u8 {
    if c == 0 {
        0
    } else {
        let e = c as int * EMPHASIS_FACTOR as int + EMPHASIS_OFFSET as int;
        if e > 255 {
            255
        } else {
            e as u8
        }
    }
}

/// The opaque pixel that shows how `p` and `q` differ: black where they are
/// equal; otherwise the emphasized color difference, or gray where only alpha
/// differs.
pub open spec fn visualize(p: Pixel, q: Pixel) -> Pixel {
    if p == q {
        Pixel { r: 0, g: 0, b: 0, a: 255 }
    } else {
        let d = pixel_diff(p, q);
        let r = emphasize_channel(d.r);
        let g = emphasize_channel(d.g);
        let b = emphasize_channel(d.b);
        let a = emphasize_channel(d.a);
        if r == 0 && g == 0 && b == 0 {
            Pixel { r: a, g: a, b: a, a: 255 }
        } else {
            Pixel { r, g, b, a: 255 }
        }
    }
}

/// What comparing two surfaces of the same size gives.
pub open spec fn diff_of(a: SurfaceView, b: SurfaceView, d: Diff) -> bool {
    let n = a.pixels.len() as int;
    &&& d.num_pixels_changed == changed_upto(a.pixels, b.pixels, n)
    &&& d.max_diff == max_diff_upto(a.pixels, b.pixels, n)
    &&& d.surface@.width == a.width
    &&& d.surface@.height == a.height
    &&& d.surface@.surface_type == a.surface_type
    &&& d.surface@.pixels.len() == n
    &&& forall|i: int|
        0 <= i < n ==> #[trigger] d.surface@.pixels[i] == visualize(a.pixels[i], b.pixels[i])
}

proof fn lemma_changed_upto_bound(a: Seq<Pixel>, b: Seq<Pixel>, n: int)
    requires
        n >= 0,
    ensures
        changed_upto(a, b, n) <= n,
    decreases n,
{
    if n > 0 {
        lemma_changed_upto_bound(a, b, n - 1);
    }
}

fn abs_diff(x: u8, y: u8) -> (r: u8)
    ensures
        r == channel_diff(x, y),
{
    if x >= y {
        x - y
    } else {
        y - x
    }
}

fn max_of(x: u8, y: u8) -> (r: u8)
    ensures
        r == max_u8(x, y),
{
    if x >= y {
        x
    } else {
        y
    }
}

fn emphasize(c: u8) -> (r: u8)
    ensures
        r == emphasize_channel(c),
{
    if c == 0 {
        0
    } else {
        assert(c as u32 * EMPHASIS_FACTOR as u32 <= 255 * 4) by (nonlinear_arith)
            requires
                c <= 255,
                EMPHASIS_FACTOR == 4,
        ;
        let e: u32 = c as u32 * EMPHASIS_FACTOR as u32 + EMPHASIS_OFFSET as u32;
        if e > 255 {
            255
        } else {
            e as u8
        }
    }
}

/// The channel-wise absolute difference of two pixels.
pub fn difference(p: Pixel, q: Pixel) -> (r: Pixel)
    ensures
        r == pixel_diff(p, q),
{
    Pixel {
        r: abs_diff(p.r, q.r),
        g: abs_diff(p.g, q.g),
        b: abs_diff(p.b, q.b),
        a: abs_diff(p.a, q.a),
    }
}

/// The opaque pixel that shows how `p` and `q` differ.
pub fn visualize_pixel(p: Pixel, q: Pixel) -> (r: Pixel)
    ensures
        r == visualize(p, q),
{
    if p == q {
        Pixel { r: 0, g: 0, b: 0, a: 255 }
    } else {
        let d = difference(p, q);
        let r = emphasize(d.r);
        let g = emphasize(d.g);
        let b = emphasize(d.b);
        let a = emphasize(d.a);
        if r == 0 && g == 0 && b == 0 {
            Pixel { r: a, g: a, b: a, a: 255 }
        } else {
            Pixel { r, g, b, a: 255 }
        }
    }
}

/// Compares two surfaces pixel by pixel. Surfaces of different sizes are not
/// compared; otherwise the result counts the changed positions, gives the
/// largest channel difference, and pictures the differences.
pub fn compare_surfaces(surf_a: &SharedImageSurface, surf_b: &SharedImageSurface) -> (r: BufferDiff)
    ensures
        !surf_a@.same_size(surf_b@) <==> r is DifferentSizes,
        r matches BufferDiff::Diff(d) ==> diff_of(surf_a@, surf_b@, d),
{
    if surf_a.width() != surf_b.width() || surf_a.height() != surf_b.height() {
        return BufferDiff::DifferentSizes;
    }
    let n = surf_a.len();
    let n_b = surf_b.len();
    assert(n_b == n);
    let ghost pa = surf_a@.pixels;
    let ghost pb = surf_b@.pixels;
    let mut num_pixels_changed: usize = 0;
    let mut max_diff: u8 = 0;
    let mut pixels: Vec<Pixel> = Vec::new();
    let mut i: usize = 0;
    while i < n
        invariant
            n == pa.len(),
            n == pb.len(),
            pa == surf_a@.pixels,
            pb == surf_b@.pixels,
            i <= n,
            num_pixels_changed == changed_upto(pa, pb, i as int),
            max_diff == max_diff_upto(pa, pb, i as int),
            pixels@.len() == i,
            forall|j: int| 0 <= j < i ==> #[trigger] pixels@[j] == visualize(pa[j], pb[j]),
        decreases n - i,
    {
        let p = surf_a.pixel(i);
        let q = surf_b.pixel(i);
        if p != q {
            proof {
                lemma_changed_upto_bound(pa, pb, i as int);
            }
            num_pixels_changed = num_pixels_changed + 1;
        }
        let d = difference(p, q);
        max_diff = max_of(max_diff, max_of(max_of(d.r, d.g), max_of(d.b, d.a)));
        pixels.push(visualize_pixel(p, q));
        i = i + 1;
    }
    let surface = SharedImageSurface::new(
        surf_a.width(),
        surf_a.height(),
        pixels,
        surf_a.surface_type(),
    );
    match surface {
        Some(surface) => BufferDiff::Diff(Diff { num_pixels_changed, max_diff, surface }),
        None => BufferDiff::DifferentSizes,
    }
}

} // verus!
