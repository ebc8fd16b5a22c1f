use rsvg_test_utils::compare::{compare_surfaces, BufferDiff};
use rsvg_test_utils::comparison::{
    artifact_file_name, compare_to_file, compare_to_surface, distinguishable, evaluate_diff,
    inacceptable, Verdict,
};
use rsvg_test_utils::surface::{DecodedImage, Pixel, PixelFormat, SharedImageSurface, SurfaceType};
use rsvg_test_utils::tolerance::DEFAULT_TOLERANCE;

fn px(r: u8, g: u8, b: u8, a: u8) -> Pixel {
    Pixel { r, g, b, a }
}

fn filled(width: usize, height: usize, p: Pixel) -> SharedImageSurface {
    SharedImageSurface::new(width, height, vec![p; width * height], SurfaceType::SRgb).unwrap()
}

#[test]
fn identical_surfaces_have_no_difference() {
    let a = filled(4, 3, px(10, 20, 30, 255));
    let b = filled(4, 3, px(10, 20, 30, 255));
    match compare_surfaces(&a, &b) {
        BufferDiff::Diff(d) => {
            assert_eq!(d.num_pixels_changed, 0);
            assert_eq!(d.max_diff, 0);
            assert_eq!(d.surface.width(), 4);
            assert_eq!(d.surface.height(), 3);
            for i in 0..d.surface.len() {
                assert_eq!(d.surface.pixel(i), px(0, 0, 0, 255));
            }
        }
        BufferDiff::DifferentSizes => panic!("sizes are equal"),
    }
    let c = compare_to_surface(&a, &b, "same", DEFAULT_TOLERANCE);
    assert_eq!(c.verdict, Verdict::Indistinguishable);
    assert!(c.artifact_names.is_empty());
}

#[test]
fn offset_of_three_fails_with_default_tolerance() {
    let a = filled(5, 5, px(100, 100, 100, 200));
    let b = filled(5, 5, px(103, 103, 103, 203));
    let c = compare_to_surface(&a, &b, "offset3", DEFAULT_TOLERANCE);
    assert_eq!(c.diff.max_diff, 3);
    assert_eq!(c.diff.num_pixels_changed, 25);
    assert_eq!(c.verdict, Verdict::Inacceptable);
    assert_eq!(c.artifact_names, vec!["offset3-out.png".to_string(), "offset3-diff.png".to_string()]);
}

#[test]
fn offset_of_two_passes_with_default_tolerance() {
    let a = filled(5, 5, px(100, 100, 100, 200));
    let b = filled(5, 5, px(98, 98, 98, 198));
    let c = compare_to_surface(&a, &b, "offset2", DEFAULT_TOLERANCE);
    assert_eq!(c.diff.max_diff, 2);
    assert_eq!(c.diff.num_pixels_changed, 25);
    assert_eq!(c.verdict, Verdict::Indistinguishable);
    assert!(c.artifact_names.is_empty());
}

#[test]
fn offset_of_three_passes_with_tolerance_five() {
    let a = filled(5, 5, px(100, 100, 100, 200));
    let b = filled(5, 5, px(103, 103, 103, 203));
    let c = compare_to_surface(&a, &b, "loose", 5);
    assert_eq!(c.verdict, Verdict::Distinguishable);
    assert_eq!(c.artifact_names, vec!["loose-out.png".to_string(), "loose-diff.png".to_string()]);
}

#[test]
fn different_sizes_are_not_compared() {
    let a = filled(10, 10, px(0, 0, 0, 255));
    let b = filled(10, 11, px(0, 0, 0, 255));
    assert!(matches!(compare_surfaces(&a, &b), BufferDiff::DifferentSizes));
}

#[test]
fn diff_counts_only_changed_pixels() {
    let mut pa = vec![px(0, 0, 0, 255); 4];
    let pb = pa.clone();
    pa[1] = px(0, 0, 10, 255);
    pa[3] = px(7, 0, 0, 255);
    let a = SharedImageSurface::new(2, 2, pa, SurfaceType::LinearRgb).unwrap();
    let b = SharedImageSurface::new(2, 2, pb, SurfaceType::SRgb).unwrap();
    match compare_surfaces(&a, &b) {
        BufferDiff::Diff(d) => {
            assert_eq!(d.num_pixels_changed, 2);
            assert_eq!(d.max_diff, 10);
            assert_eq!(d.surface.surface_type(), SurfaceType::LinearRgb);
            assert_eq!(d.surface.pixel(0), px(0, 0, 0, 255));
            assert_eq!(d.surface.pixel(1), px(0, 0, 168, 255));
            assert_eq!(d.surface.pixel(3), px(156, 0, 0, 255));
        }
        BufferDiff::DifferentSizes => panic!("sizes are equal"),
    }
}

#[test]
fn diff_picture_shows_alpha_only_change_as_gray() {
    let a = filled(1, 1, px(0, 0, 0, 100));
    let b = filled(1, 1, px(0, 0, 0, 90));
    match compare_surfaces(&a, &b) {
        BufferDiff::Diff(d) => {
            assert_eq!(d.max_diff, 10);
            assert_eq!(d.surface.pixel(0), px(168, 168, 168, 255));
        }
        BufferDiff::DifferentSizes => panic!("sizes are equal"),
    }
}

#[test]
fn diff_picture_saturates_large_differences() {
    let a = filled(1, 1, px(255, 0, 0, 255));
    let b = filled(1, 1, px(0, 0, 0, 255));
    match compare_surfaces(&a, &b) {
        BufferDiff::Diff(d) => {
            assert_eq!(d.max_diff, 255);
            assert_eq!(d.surface.pixel(0), px(255, 0, 0, 255));
        }
        BufferDiff::DifferentSizes => panic!("sizes are equal"),
    }
}

#[test]
fn evaluation_thresholds() {
    assert!(!distinguishable(2));
    assert!(distinguishable(3));
    assert!(!inacceptable(2, 2));
    assert!(inacceptable(3, 2));
    let a = filled(1, 1, px(0, 0, 0, 255));
    let b = filled(1, 1, px(0, 4, 0, 255));
    let d = compare_surfaces(&a, &b);
    assert_eq!(evaluate_diff(&d, 2), Verdict::Inacceptable);
    assert_eq!(evaluate_diff(&d, 4), Verdict::Distinguishable);
    assert_eq!(evaluate_diff(&d, 255), Verdict::Distinguishable);
}

#[test]
fn artifact_names_follow_the_base_name() {
    assert_eq!(artifact_file_name("foo", "out"), "foo-out.png");
    assert_eq!(artifact_file_name("bar/baz", "diff"), "bar/baz-diff.png");
    assert_eq!(artifact_file_name("", "out"), "-out.png");
}

#[test]
fn compare_to_file_reads_rgb24_as_opaque() {
    let output = filled(2, 1, px(1, 2, 3, 255));
    let reference = DecodedImage {
        width: 2,
        height: 1,
        format: PixelFormat::Rgb24,
        data: vec![0x0001_0203, 0xff01_0203],
    };
    let c = compare_to_file(&output, "file", &reference, DEFAULT_TOLERANCE);
    assert_eq!(c.diff.num_pixels_changed, 0);
    assert_eq!(c.verdict, Verdict::Indistinguishable);
}

#[test]
fn compare_to_file_finds_differences() {
    let output = filled(1, 2, px(50, 50, 50, 255));
    let reference = DecodedImage {
        width: 1,
        height: 2,
        format: PixelFormat::ARgb32,
        data: vec![0xff32_3232, 0xff32_3240],
    };
    let c = compare_to_file(&output, "ref", &reference, DEFAULT_TOLERANCE);
    assert_eq!(c.diff.num_pixels_changed, 1);
    assert_eq!(c.diff.max_diff, 14);
    assert_eq!(c.verdict, Verdict::Inacceptable);
    assert_eq!(c.artifact_names, vec!["ref-out.png".to_string(), "ref-diff.png".to_string()]);
}
