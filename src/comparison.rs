//! Deciding whether a rendered surface is close enough to its reference, and
//! which diagnostic images to keep when it is not identical to the eye.

use vstd::prelude::*;
use vstd::string::*;
use crate::compare::{
    changed_upto, compare_surfaces, diff_of, max_channel, max_diff_upto, pixel_diff, BufferDiff,
    Diff,
};
use crate::surface::{DecodedImage, Pixel, SharedImageSurface, SurfaceType, SurfaceView};
use crate::tolerance::DEFAULT_TOLERANCE;

verus! {

/// The largest channel difference that is taken for rendering noise
/// (anti-aliasing, rounding) and not shown. It is kept apart from the
/// tolerance, which decides failure.
pub const NOISE_FLOOR: u8 = 2;

/// How a comparison of two surfaces of the same size turns out.
#[derive(Clone, Copy, PartialEq, Eq, Structural, Debug)]
pub enum Verdict {
    /// Differences stay within the noise floor: nothing to show.
    Indistinguishable,
    /// Differences can be seen but stay within the tolerance: the comparison
    /// passes, and the diagnostic images are written.
    Distinguishable,
    /// Differences exceed the tolerance: the diagnostic images are written and
    /// the comparison fails.
    Inacceptable,
}

pub open spec fn verdict_of(max_diff: u8, tolerance: u8) -> Verdict {
    if max_diff <= NOISE_FLOOR {
        Verdict::Indistinguishable
    } else if max_diff <= tolerance {
        Verdict::Distinguishable
    } else {
        Verdict::Inacceptable
    }
}

/// The file name of a diagnostic image: `{base}-{suffix}.png`.
pub open spec fn artifact_name(base: Seq<char>, suffix: Seq<char>) -> Seq<char> {
    base + seq!['-'] + suffix + seq!['.', 'p', 'n', 'g']
}

/// The suffix of the image that holds the rendered surface.
pub open spec fn out_suffix() -> Seq<char> {
    seq!['o', 'u', 't']
}

/// The suffix of the image that pictures the differences.
pub open spec fn diff_suffix() -> Seq<char> {
    seq!['d', 'i', 'f', 'f']
}

/// The outcome of comparing a rendered surface to a reference surface.
pub struct Comparison {
    pub verdict: Verdict,
    pub diff: Diff,
    /// The files to write, in order: the rendered surface, then the picture
    /// of the differences. Empty when there is nothing to show.
    pub artifact_names: Vec<String>,
}

/// What comparing `output` to `reference` of the same size gives.
pub open spec fn comparison_of(
    output: SurfaceView,
    reference: SurfaceView,
    base: Seq<char>,
    tolerance: u8,
    c: Comparison,
) -> bool {
    &&& diff_of(output, reference, c.diff)
    &&& c.verdict == verdict_of(c.diff.max_diff, tolerance)
    &&& c.verdict is Indistinguishable ==> c.artifact_names@.len() == 0
    &&& !(c.verdict is Indistinguishable) ==> {
        &&& c.artifact_names@.len() == 2
        &&& c.artifact_names@[0]@ == artifact_name(base, out_suffix())
        &&& c.artifact_names@[1]@ == artifact_name(base, diff_suffix())
    }
}

/// Whether a largest channel difference can be seen.
pub fn distinguishable(max_diff: u8) -> (r: bool)
    ensures
        r == (max_diff > NOISE_FLOOR),
{
    max_diff > NOISE_FLOOR
}

/// Whether a largest channel difference exceeds the tolerance.
pub fn inacceptable(max_diff: u8, tolerance: u8) -> (r: bool)
    ensures
        r == (max_diff > tolerance),
{
    max_diff > tolerance
}

/// Classifies the difference of two surfaces of the same size.
pub fn evaluate_diff(diff: &BufferDiff, tolerance: u8) -> (r: Verdict)
    requires
        diff is Diff,
    ensures
        r == verdict_of(diff->Diff_0.max_diff, tolerance),
{
    match diff {
        BufferDiff::Diff(d) => {
            if !distinguishable(d.max_diff) {
                Verdict::Indistinguishable
            } else if inacceptable(d.max_diff, tolerance) {
                Verdict::Inacceptable
            } else {
                Verdict::Distinguishable
            }
        },
        BufferDiff::DifferentSizes => unreached(),
    }
}

/// The file name `{output_base_name}-{suffix}.png` of a diagnostic image.
pub fn artifact_file_name(output_base_name: &str, suffix: &str) -> (r: String)
    ensures
        r@ == artifact_name(output_base_name@, suffix@),
{
    proof {
        reveal_strlit("-");
        reveal_strlit(".png");
    }
    let mut name = <String as StringExecFns>::from_str(output_base_name);
    name.append("-");
    name.append(suffix);
    name.append(".png");
    assert(name@ =~= artifact_name(output_base_name@, suffix@));
    name
}

/// Compares `output_surf` to `reference_surf`, which must have the same size.
/// When the differences can be seen, names the two diagnostic images to write
/// from `output_base_name`; the verdict says whether the comparison fails
/// under `tolerance`.
pub fn compare_to_surface(
    output_surf: &SharedImageSurface,
    reference_surf: &SharedImageSurface,
    output_base_name: &str,
    tolerance: u8,
) -> (r: Comparison)
    requires
        output_surf@.same_size(reference_surf@),
    ensures
        comparison_of(output_surf@, reference_surf@, output_base_name@, tolerance, r),
{
    let buffer_diff = compare_surfaces(output_surf, reference_surf);
    let verdict = evaluate_diff(&buffer_diff, tolerance);
    let mut artifact_names: Vec<String> = Vec::new();
    if verdict != Verdict::Indistinguishable {
        proof {
            reveal_strlit("out");
            reveal_strlit("diff");
        }
        artifact_names.push(artifact_file_name(output_base_name, "out"));
        artifact_names.push(artifact_file_name(output_base_name, "diff"));
        assert("out"@ =~= out_suffix());
        assert("diff"@ =~= diff_suffix());
    }
    match buffer_diff {
        BufferDiff::Diff(diff) => Comparison { verdict, diff, artifact_names },
        BufferDiff::DifferentSizes => unreached(),
    }
}

/// Compares `output_surf` to a decoded reference image, taken as sRGB and
/// converted to premultiplied ARGB. The image must have the size of the
/// surface. See `compare_to_surface`.
pub fn compare_to_file(
    output_surf: &SharedImageSurface,
    output_base_name: &str,
    reference: &DecodedImage,
    tolerance: u8,
) -> (r: Comparison)
    requires
        reference.wf(),
        output_surf@.width == reference.width,
        output_surf@.height == reference.height,
    ensures
        comparison_of(
            output_surf@,
            reference.surface_view(SurfaceType::SRgb),
            output_base_name@,
            tolerance,
            r,
        ),
{
    let reference_surf = SharedImageSurface::from_words(
        reference.width,
        reference.height,
        reference.format,
        &reference.data,
        SurfaceType::SRgb,
    );
    match reference_surf {
        Some(reference_surf) => compare_to_surface(
            output_surf,
            &reference_surf,
            output_base_name,
            tolerance,
        ),
        None => unreached(),
    }
}

proof fn lemma_identical_upto(a: Seq<Pixel>, n: int)
    requires
        0 <= n <= a.len(),
    ensures
        changed_upto(a, a, n) == 0,
        max_diff_upto(a, a, n) == 0,
    decreases n,
{
    if n > 0 {
        lemma_identical_upto(a, n - 1);
    }
}

/// Two surfaces differ only by `k` in every channel of every pixel.
pub open spec fn uniform_offset(a: SurfaceView, b: SurfaceView, k: u8) -> bool {
    &&& a.same_size(b)
    &&& a.pixels.len() == b.pixels.len()
    &&& forall|i: int|
        0 <= i < a.pixels.len() ==> #[trigger] pixel_diff(a.pixels[i], b.pixels[i]) == (Pixel {
            r: k,
            g: k,
            b: k,
            a: k,
        })
}

proof fn lemma_uniform_offset_upto(a: SurfaceView, b: SurfaceView, k: u8, n: int)
    requires
        uniform_offset(a, b, k),
        0 < n <= a.pixels.len(),
    ensures
        max_diff_upto(a.pixels, b.pixels, n) == k,
    decreases n,
{
    assert(pixel_diff(a.pixels[n - 1], b.pixels[n - 1]) == (Pixel { r: k, g: k, b: k, a: k }));
    assert(max_channel(pixel_diff(a.pixels[n - 1], b.pixels[n - 1])) == k);
    if n > 1 {
        lemma_uniform_offset_upto(a, b, k, n - 1);
    }
}

/// Comparing a surface to itself finds no changed pixel and no difference,
/// passes under every tolerance, and writes nothing.
pub proof fn lemma_identical_surfaces_pass(
    s: SurfaceView,
    base: Seq<char>,
    tolerance: u8,
    c: Comparison,
)
    requires
        comparison_of(s, s, base, tolerance, c),
    ensures
        c.diff.num_pixels_changed == 0,
        c.diff.max_diff == 0,
        c.verdict == Verdict::Indistinguishable,
        c.artifact_names@.len() == 0,
{
    lemma_identical_upto(s.pixels, s.pixels.len() as int);
}

/// The largest difference of two non-empty surfaces that differ by `k` in
/// every channel is `k`.
pub proof fn lemma_uniform_offset_max_diff(a: SurfaceView, b: SurfaceView, k: u8, d: Diff)
    requires
        uniform_offset(a, b, k),
        a.pixels.len() > 0,
        diff_of(a, b, d),
    ensures
        d.max_diff == k,
{
    lemma_uniform_offset_upto(a, b, k, a.pixels.len() as int);
}

/// Non-empty surfaces that differ by 3 in every channel fail under the default
/// tolerance, and both diagnostic images are named for writing.
pub proof fn lemma_offset_three_fails_by_default(
    a: SurfaceView,
    b: SurfaceView,
    base: Seq<char>,
    c: Comparison,
)
    requires
        uniform_offset(a, b, 3),
        a.pixels.len() > 0,
        comparison_of(a, b, base, DEFAULT_TOLERANCE, c),
    ensures
        c.verdict == Verdict::Inacceptable,
        c.artifact_names@.len() == 2,
        c.artifact_names@[0]@ == artifact_name(base, out_suffix()),
        c.artifact_names@[1]@ == artifact_name(base, diff_suffix()),
{
    lemma_uniform_offset_max_diff(a, b, 3, c.diff);
}

/// Surfaces that differ by 2 in every channel pass under the default
/// tolerance, and nothing is written.
pub proof fn lemma_offset_two_passes_by_default(
    a: SurfaceView,
    b: SurfaceView,
    base: Seq<char>,
    c: Comparison,
)
    requires
        uniform_offset(a, b, 2),
        comparison_of(a, b, base, DEFAULT_TOLERANCE, c),
    ensures
        c.verdict == Verdict::Indistinguishable,
        c.artifact_names@.len() == 0,
{
    if a.pixels.len() > 0 {
        lemma_uniform_offset_max_diff(a, b, 2, c.diff);
    }
}

/// Non-empty surfaces that differ by 3 in every channel pass under a
/// tolerance of 5, and both diagnostic images are named for writing.
pub proof fn lemma_offset_three_passes_under_five(
    a: SurfaceView,
    b: SurfaceView,
    base: Seq<char>,
    c: Comparison,
)
    requires
        uniform_offset(a, b, 3),
        a.pixels.len() > 0,
        comparison_of(a, b, base, 5, c),
    ensures
        c.verdict == Verdict::Distinguishable,
        c.artifact_names@.len() == 2,
        c.artifact_names@[0]@ == artifact_name(base, out_suffix()),
        c.artifact_names@[1]@ == artifact_name(base, diff_suffix()),
{
    lemma_uniform_offset_max_diff(a, b, 3, c.diff);
}

} // verus!
