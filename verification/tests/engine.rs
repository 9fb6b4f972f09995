use luthien::average::{lab_centroid, AverageMethod};
use luthien::color::{Hsl, Lab, Region, Sample, Srgb};
use luthien::generate::{
    accents_ranked, Accent, Generator, ModePreference, RegionConfig,
};
use luthien::theme::Palette;

fn default_regions() -> Palette<Region> {
    let d: Palette<RegionConfig> = Default::default();
    Palette {
        black: d.black.to_region(),
        red: d.red.to_region(),
        green: d.green.to_region(),
        yellow: d.yellow.to_region(),
        blue: d.blue.to_region(),
        purple: d.purple.to_region(),
        cyan: d.cyan.to_region(),
        white: d.white.to_region(),
    }
}

fn sample(hue: i64, sat: i64, light: i64) -> Sample {
    Sample {
        hsl: Hsl::new(hue, sat, light),
        lab: Lab::new(light * 100, hue % 1000, sat),
    }
}

fn corners() -> Palette<(Lab, Lab)> {
    Palette {
        black: (Lab::new(0, 0, 0), Lab::new(10_000, 0, 0)),
        red: (Lab::new(30_000, 60_000, 40_000), Lab::new(50_000, 70_000, 50_000)),
        green: (Lab::new(40_000, -60_000, 40_000), Lab::new(60_000, -70_000, 50_000)),
        yellow: (Lab::new(70_000, 0, 60_000), Lab::new(90_000, 10_000, 70_000)),
        blue: (Lab::new(30_000, 10_000, -60_000), Lab::new(50_000, 0, -70_000)),
        purple: (Lab::new(10_000, 20_000, -30_000), Lab::new(30_000, 40_000, -50_000)),
        cyan: (Lab::new(60_000, -30_000, -10_000), Lab::new(80_000, -40_000, -20_000)),
        white: (Lab::new(90_000, 0, 0), Lab::new(100_000, 0, 0)),
    }
}

#[test]
fn color_gen_color_split() {
    let regs = default_regions();
    let black = sample(0, 0, 0);
    let split = regs.split(&vec![black]);
    assert_eq!(split.black, vec![black]);
    assert_eq!(split.red, vec![]);
    assert_eq!(split.green, vec![]);
    assert_eq!(split.yellow, vec![]);
    assert_eq!(split.blue, vec![]);
    assert_eq!(split.purple, vec![]);
    assert_eq!(split.cyan, vec![]);
    assert_eq!(split.white, vec![]);

    let red = sample(0, 1000, 500);
    let split = regs.split(&vec![red]);
    assert_eq!(split.red, vec![red]);
    assert_eq!(split.black, vec![]);
    assert_eq!(split.white, vec![]);
}

#[test]
fn extraction_color_split() {
    let regs = default_regions();
    let black = sample(0, 0, 0);
    let red = sample(0, 1000, 500);
    let split = regs.split(&vec![black, red]);
    assert_eq!(split.black, vec![black]);
    assert_eq!(split.red, vec![red]);
}

#[test]
fn img_color_split() {
    let regs = default_regions();
    // Bucket order follows source order.
    let red1 = sample(10_000, 800, 400);
    let red2 = sample(350_000, 900, 600);
    let split = regs.split(&vec![red1, red2]);
    assert_eq!(split.red, vec![red1, red2]);
}

#[test]
fn palette_gen_color_split() {
    let regs = default_regions();
    // A color outside every region lands in no bucket.
    let nowhere = sample(30_000, 1000, 500);
    let split = regs.split(&vec![nowhere]);
    assert_eq!(split.black, vec![]);
    assert_eq!(split.red, vec![]);
    assert_eq!(split.green, vec![]);
    assert_eq!(split.yellow, vec![]);
    assert_eq!(split.blue, vec![]);
    assert_eq!(split.purple, vec![]);
    assert_eq!(split.cyan, vec![]);
    assert_eq!(split.white, vec![]);
}

#[test]
fn lab_centroid_cases() {
    assert_eq!(
        lab_centroid(&vec![Lab::new(1000, 2000, 3000), Lab::new(1000, 2000, 3000)]),
        Some(Lab::new(1000, 2000, 3000))
    );
    assert_eq!(
        lab_centroid(&vec![Lab::new(1000, 2000, 3000), Lab::new(2000, 3000, 4000)]),
        Some(Lab::new(1500, 2500, 3500))
    );
    assert_eq!(lab_centroid(&vec![]), None);
    assert_eq!(
        AverageMethod::LabCentroid.average(&vec![Lab::new(-1000, 500, 0), Lab::new(-3000, 500, 0)]),
        Some(Lab::new(-2000, 500, 0))
    );
}

#[test]
fn empty_bucket_extrapolation() {
    // No purple sample anywhere: the purple entry is the Lab midpoint of the
    // purple region's corner colors.
    let gen: Generator = Default::default();
    let samples = vec![sample(0, 1000, 500), sample(0, 0, 0)];
    let out = gen.generate(&samples, &default_regions(), &corners());
    assert_eq!(out.palette.purple, Lab::new(20_000, 30_000, -40_000));
}

#[test]
fn accent_ordering() {
    let c = Lab::new(0, 0, 0);
    // Distinct populations: strictly descending.
    let pal = Palette {
        black: (c, 100usize),
        red: (Lab::new(1, 0, 0), 3usize),
        green: (Lab::new(2, 0, 0), 9),
        yellow: (Lab::new(3, 0, 0), 1),
        blue: (Lab::new(4, 0, 0), 7),
        purple: (Lab::new(5, 0, 0), 5),
        cyan: (Lab::new(6, 0, 0), 2),
        white: (c, 100usize),
    };
    let ranked = accents_ranked(&pal);
    let counts: Vec<usize> = ranked.iter().map(|a| a.count).collect();
    assert_eq!(counts, vec![9, 7, 5, 3, 2, 1]);

    // All tied: the fixed red/green/yellow/blue/purple/cyan order stands.
    let tied = Palette {
        black: (c, 0usize),
        red: (Lab::new(1, 0, 0), 4usize),
        green: (Lab::new(2, 0, 0), 4),
        yellow: (Lab::new(3, 0, 0), 4),
        blue: (Lab::new(4, 0, 0), 4),
        purple: (Lab::new(5, 0, 0), 4),
        cyan: (Lab::new(6, 0, 0), 4),
        white: (c, 0usize),
    };
    let ranked = accents_ranked(&tied);
    let slots: Vec<usize> = ranked.iter().map(|a| a.slot).collect();
    assert_eq!(slots, vec![0, 1, 2, 3, 4, 5]);
    assert_eq!(
        ranked,
        vec![
            Accent { color: Lab::new(1, 0, 0), count: 4, slot: 0 },
            Accent { color: Lab::new(2, 0, 0), count: 4, slot: 1 },
            Accent { color: Lab::new(3, 0, 0), count: 4, slot: 2 },
            Accent { color: Lab::new(4, 0, 0), count: 4, slot: 3 },
            Accent { color: Lab::new(5, 0, 0), count: 4, slot: 4 },
            Accent { color: Lab::new(6, 0, 0), count: 4, slot: 5 },
        ]
    );
}

#[test]
fn automatic_fg_bg_selection() {
    let regs = default_regions();
    let cs = corners();
    let black = sample(0, 0, 0);
    let white = sample(0, 0, 950);

    // More black than white: background is the black color.
    let gen: Generator = Default::default();
    let out = gen.generate(&vec![black, black, white], &regs, &cs);
    assert_eq!(out.background, out.palette.black);
    assert_eq!(out.foreground, out.palette.white);

    // More white than black: reversed.
    let out = gen.generate(&vec![black, white, white], &regs, &cs);
    assert_eq!(out.background, out.palette.white);
    assert_eq!(out.foreground, out.palette.black);

    // Ties keep black as the background.
    let out = gen.generate(&vec![black, white], &regs, &cs);
    assert_eq!(out.background, out.palette.black);
    assert_eq!(out.foreground, out.palette.white);

    // Explicit preferences override populations entirely.
    let dark = Generator {
        mode_preference: Some(ModePreference::Dark),
        average_method: luthien::average::AverageMethod::LabCentroid,
    };
    let out = dark.generate(&vec![black, white, white], &regs, &cs);
    assert_eq!(out.background, out.palette.black);
    assert_eq!(out.foreground, out.palette.white);

    let light = Generator {
        mode_preference: Some(ModePreference::Light),
        average_method: luthien::average::AverageMethod::LabCentroid,
    };
    let out = light.generate(&vec![black, black, white], &regs, &cs);
    assert_eq!(out.background, out.palette.white);
    assert_eq!(out.foreground, out.palette.black);
}

#[test]
fn gen_palette_counts() {
    let gen: Generator = Default::default();
    let black = sample(0, 0, 0);
    let red = sample(0, 1000, 500);
    let pal = gen.gen_palette(&vec![black, red, red], &default_regions(), &corners());
    assert_eq!(pal.black.1, 1);
    assert_eq!(pal.red.1, 2);
    assert_eq!(pal.purple.1, 0);
    // The measured red bucket is the centroid of its two samples.
    let labs = vec![red.lab, red.lab];
    assert_eq!(Some(pal.red.0), lab_centroid(&labs));
}

#[test]
fn preference_parse() {
    assert_eq!(ModePreference::parse(b"dark"), Some(ModePreference::Dark));
    assert_eq!(ModePreference::parse(b"light"), Some(ModePreference::Light));
    assert_eq!(ModePreference::parse(b"darker"), None);
    assert_eq!(ModePreference::parse(b""), None);
}

#[test]
fn palette_container_ops() {
    let p = Palette {
        black: 1i64,
        red: 2,
        green: 3,
        yellow: 4,
        blue: 5,
        purple: 6,
        cyan: 7,
        white: 8,
    };
    let u = Palette::uniform(0i64);
    assert_eq!(u.black, 0);
    assert_eq!(u.white, 0);
    let z = p.zip(u);
    assert_eq!(z.red, (2, 0));
    let m = p.map(|x| x * 10);
    assert_eq!(m.cyan, 70);
    let r = p.as_ref();
    assert_eq!(*r.yellow, 4);
    assert_eq!(p.accents(), vec![2, 3, 4, 5, 6, 7]);
}

#[test]
fn colors_map_applies_everywhere() {
    let c = luthien::theme::Colors {
        palette: Palette::uniform(1i64),
        accents: vec![2i64, 3, 4, 5, 6, 7],
        foreground: 8,
        background: 9,
    };
    let mapped = c.map(|x| x + 1);
    assert_eq!(mapped.palette.black, 2);
    assert_eq!(mapped.accents, vec![3, 4, 5, 6, 7, 8]);
    assert_eq!(mapped.foreground, 9);
    assert_eq!(mapped.background, 10);
}

#[test]
fn region_corners() {
    let d: Palette<RegionConfig> = Default::default();
    let red = d.red.to_region();
    let start = red.start();
    let end = red.end();
    assert_eq!(start, Hsl::new(345_000, 500, 100));
    assert_eq!(end, Hsl::new(15_000, 1000, 900));

    // Conversion wrappers are exercised through the engine's inputs in app
    // code; here the corner math itself.
    let black = d.black.to_region();
    assert_eq!(black.start().hue, 0);
    assert_eq!(black.end().hue, 0);
}

#[test]
fn srgb_wf_and_new() {
    let c = Srgb::new(1000, 0, 500);
    assert_eq!(c.red, 1000);
    assert_eq!(c.green, 0);
    assert_eq!(c.blue, 500);
}
