use luthien::color::{Hsl, Region};
use luthien::mod_arith::{Range, Space};
use palette::IntoColor;

#[test]
fn modulo_operation() {
    let space = Space::new(10);

    assert_eq!(space.modulo(2), 2);
    assert_eq!(space.modulo(12), 2);
    assert_eq!(space.modulo(-2), 8);
    assert_eq!(space.modulo(0), 0);
}

#[test]
fn modular_distance() {
    let space = Space::new(10);

    assert_eq!(space.dist_pos(2, 1), 9);
    assert_eq!(space.dist_pos(1, 2), 1);

    assert_eq!(space.dist_pos(9, 1), 2);
    assert_eq!(space.dist_pos(1, 9), 8);

    assert_eq!(space.dist_pos(1, 1), 0);
    assert_eq!(space.dist_pos(10, 0), 0);
    assert_eq!(space.dist_pos(20, 0), 0);
    assert_eq!(space.dist_pos(1, -9), 0);

    assert_eq!(space.dist_pos(22, 1), 9);
}

#[test]
fn modular_range() {
    let range = Range::new(Space::new(360), 90, 270);

    assert!(range.contains(180));
    assert!(range.contains(90));
    assert!(range.contains(480));
    assert!(range.contains(-480));
    assert!(range.contains(-90));

    assert!(!range.contains(0));
    assert!(!range.contains(45));
    assert!(!range.contains(-45));
    assert!(!range.contains(405));
    assert!(!range.contains(-405));

    let range = Range::new(Space::new(360), 270, 90);
    assert!(!range.contains(180));
    assert!(range.contains(0));

    let range = Range::new(Space::new(360), 0, 360);
    assert!(range.contains(0));
    assert!(range.contains(180));
    assert!(range.contains(360));
}

#[test]
fn region_contains() {
    let region = Region::new((0, 180_000), (0, 500), (0, 500));

    assert!(region.contains(&Hsl::new(0, 0, 0)));
    assert!(region.contains(&Hsl::new(180_000, 500, 500)));

    assert!(!region.contains(&Hsl::new(270_000, 0, 0)));
    assert!(!region.contains(&Hsl::new(0, 1000, 0)));
    assert!(!region.contains(&Hsl::new(0, 0, 1000)));

    // The same point carried through the real color library's representation
    // change: convert to linear RGB and back to HSL, then test the region.
    let rgb = palette::Hsl::<palette::encoding::Srgb, f32>::new(180.0, 0.5, 0.5)
        .into_rgb::<palette::encoding::Srgb>();
    let hsl = rgb.into_hsl::<palette::encoding::Srgb>();
    let fixed = Hsl::new(
        (hsl.hue.to_positive_degrees() * 1000.0).round() as i64,
        (hsl.saturation * 1000.0).round() as i64,
        (hsl.lightness * 1000.0).round() as i64,
    );
    assert!(region.contains(&fixed));
}

#[test]
fn wrap_around_containment() {
    // A hue range from 345 to 15 degrees wraps through zero.
    let region = Region::new((345_000, 15_000), (0, 1000), (0, 1000));

    assert!(region.contains(&Hsl::new(350_000, 500, 500)));
    assert!(region.contains(&Hsl::new(0, 500, 500)));
    assert!(region.contains(&Hsl::new(10_000, 500, 500)));
    assert!(!region.contains(&Hsl::new(180_000, 500, 500)));
}

#[test]
fn full_circle_region() {
    // A hue range of length zero matches every hue.
    let region = Region::new((0, 360_000), (0, 1000), (0, 1000));

    for hue in [0i64, 90_000, 180_000, 270_000, 359_999, -90_000, 720_000] {
        assert!(region.contains(&Hsl::new(hue, 500, 500)));
    }
}
