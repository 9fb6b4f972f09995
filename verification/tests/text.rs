use luthien::codec::{colors_from_json, colors_to_json, theme_from_json, theme_to_json};
use luthien::color::Srgb;
use luthien::hex::{channel_from_byte, channel_to_byte, hex_code, srgb_from_hex, Color};
use luthien::plugin::{
    cache_plan, hex_u64, plugin_name, resolve_executable, Directories, Paths,
};
use luthien::theme::{Colors, Palette, Theme};

fn test_theme() -> Theme {
    let palette = Palette {
        black: Srgb::new(0, 0, 0),
        red: Srgb::new(1000, 0, 0),
        green: Srgb::new(0, 1000, 0),
        yellow: Srgb::new(1000, 1000, 0),
        blue: Srgb::new(0, 0, 1000),
        purple: Srgb::new(1000, 0, 1000),
        cyan: Srgb::new(0, 1000, 1000),
        white: Srgb::new(1000, 1000, 1000),
    };
    Theme {
        wallpaper: Some(b"test.jpg".to_vec()),
        colors: Colors {
            accents: vec![
                palette.red,
                palette.green,
                palette.yellow,
                palette.blue,
                palette.purple,
                palette.cyan,
            ],
            foreground: palette.white,
            background: palette.black,
            palette,
        },
    }
}

#[test]
fn serialization() {
    let serialized = theme_to_json(&test_theme());
    let deserialized = theme_from_json(serialized.as_slice()).expect("Failed to deserialize.");

    assert_eq!(test_theme(), deserialized);
}

#[test]
fn colors_round_trip() {
    let colors = test_theme().colors;
    let bytes = colors_to_json(&colors);
    assert_eq!(colors_from_json(bytes.as_slice()), Some(colors));
}

#[test]
fn theme_without_wallpaper_round_trip() {
    let mut theme = test_theme();
    theme.wallpaper = None;
    let bytes = theme_to_json(&theme);
    assert_eq!(theme_from_json(bytes.as_slice()), Some(theme));
}

#[test]
fn interchange_is_real_json() {
    // A real JSON parser reads the emitted document and sees the agreed
    // shape: normalized red/green/blue fields, six accents, named slots.
    let theme = test_theme();
    let bytes = theme_to_json(&theme);
    let v: serde_json::Value = serde_json::from_slice(&bytes).expect("not JSON");
    assert_eq!(v["wallpaper"], serde_json::Value::String("test.jpg".into()));
    assert_eq!(v["colors"]["palette"]["black"]["red"].as_f64(), Some(0.0));
    assert_eq!(v["colors"]["palette"]["red"]["red"].as_f64(), Some(1.0));
    assert_eq!(v["colors"]["accents"].as_array().map(|a| a.len()), Some(6));
    assert_eq!(v["colors"]["foreground"]["green"].as_f64(), Some(1.0));
}

#[test]
fn rejects_mangled_documents() {
    let bytes = colors_to_json(&test_theme().colors);
    let mut broken = bytes.clone();
    broken[0] = b'[';
    assert_eq!(colors_from_json(broken.as_slice()), None);
    let mut truncated = bytes.clone();
    truncated.pop();
    assert_eq!(colors_from_json(truncated.as_slice()), None);
    let mut trailing = bytes.clone();
    trailing.push(b' ');
    assert_eq!(colors_from_json(trailing.as_slice()), None);
}

#[test]
fn from_color() {
    assert_eq!(
        Color::from_srgb(&Srgb::new(0, 0, 0)),
        Color {
            hex: b"#000000".to_vec(),
            hex_stripped: b"000000".to_vec(),
            red: 0,
            green: 0,
            blue: 0,
        }
    );
    assert_eq!(
        Color::from_srgb(&Srgb::new(1000, 1000, 1000)),
        Color {
            hex: b"#ffffff".to_vec(),
            hex_stripped: b"ffffff".to_vec(),
            red: 1000,
            green: 1000,
            blue: 1000,
        }
    );
}

#[test]
fn hex_round_trips() {
    // Every byte survives the scale up to thousandths and back.
    for b in 0u8..=255 {
        let v = channel_from_byte(b);
        assert!(0 <= v && v <= 1000);
        assert_eq!(channel_to_byte(v), b);
    }
    // A parsed hex code formats back to itself.
    let parsed = srgb_from_hex(b"#12ab7f").expect("valid code");
    assert_eq!(hex_code(&parsed), b"#12ab7f".to_vec());
    // Uppercase digits and missing `#` are accepted.
    assert_eq!(srgb_from_hex(b"12AB7F"), Some(parsed));
    // Malformed codes are rejected.
    assert_eq!(srgb_from_hex(b"#12ab7"), None);
    assert_eq!(srgb_from_hex(b"12ab7g"), None);
    assert_eq!(srgb_from_hex(b""), None);
}

#[test]
fn theme_from_hex() {
    let colors = Colors {
        palette: Palette {
            black: b"#000000".to_vec(),
            red: b"#ff0000".to_vec(),
            green: b"#00ff00".to_vec(),
            yellow: b"#ffff00".to_vec(),
            blue: b"#0000ff".to_vec(),
            purple: b"#ff00ff".to_vec(),
            cyan: b"#00ffff".to_vec(),
            white: b"#ffffff".to_vec(),
        },
        accents: vec![b"#ff0000".to_vec(); 6],
        foreground: b"#ffffff".to_vec(),
        background: b"#000000".to_vec(),
    };
    let theme = luthien::hex::theme_from_hex_colors(None, &colors).expect("valid hex colors");
    assert_eq!(theme.colors.palette.white, Srgb::new(1000, 1000, 1000));
    assert_eq!(theme.colors.palette.black, Srgb::new(0, 0, 0));
    assert_eq!(theme.colors.accents.len(), 6);

    let mut bad = colors.clone();
    bad.palette.green = b"#00ff0".to_vec();
    assert!(luthien::hex::theme_from_hex_colors(None, &bad).is_none());
}

#[test]
fn display() {
    // The terminal control stream of a theme, byte for byte.
    let theme = test_theme();
    let seq = theme.sequence();

    let mut expected: Vec<u8> = Vec::new();
    let hexes = [
        "#000000", "#ff0000", "#00ff00", "#ffff00", "#0000ff", "#ff00ff", "#00ffff", "#ffffff",
    ];
    for (i, hex) in hexes.iter().enumerate() {
        expected.extend(format!("\x1b]4;{};{}\x1b\\", i, hex).into_bytes());
        expected.extend(format!("\x1b]4;{};{}\x1b\\", i + 8, hex).into_bytes());
    }
    for idx in [11, 19, 232] {
        expected.extend(format!("\x1b]{};{}\x1b\\", idx, "#000000").into_bytes());
    }
    for idx in [10, 13, 17, 256] {
        expected.extend(format!("\x1b]{};{}\x1b\\", idx, "#ffffff").into_bytes());
    }
    assert_eq!(seq, expected);
}

#[test]
fn plugin_names() {
    assert_eq!(
        plugin_name(&Some(b"mine".to_vec()), b"/usr/bin/whatever"),
        b"mine".to_vec()
    );
    assert_eq!(plugin_name(&None, b"/usr/bin/luthien-sass"), b"sass".to_vec());
    assert_eq!(plugin_name(&None, b"luthien-luthien-x"), b"x".to_vec());
    assert_eq!(plugin_name(&None, b"/opt/tools/render.sh"), b"render".to_vec());
    assert_eq!(plugin_name(&None, b"plain"), b"plain".to_vec());
}

#[test]
fn executable_resolution() {
    assert_eq!(
        resolve_executable(b"~/bin/p", b"/home/me", b"/base"),
        b"/home/me/bin/p".to_vec()
    );
    assert_eq!(resolve_executable(b"~", b"/home/me", b"/base"), b"/home/me".to_vec());
    assert_eq!(resolve_executable(b"/usr/bin/p", b"/home/me", b"/base"), b"/usr/bin/p".to_vec());
    assert_eq!(resolve_executable(b"p", b"/home/me", b"/base"), b"/base/p".to_vec());
}

#[test]
fn standard_paths() {
    let paths = Paths::new(b"/home/me/.config", b"/home/me/.cache");
    assert_eq!(paths.config, b"/home/me/.config/luthien/config.toml".to_vec());
    assert_eq!(paths.themes, b"/home/me/.config/luthien/themes".to_vec());
    assert_eq!(paths.cache, b"/home/me/.cache/luthien".to_vec());

    let mut paths = paths;
    paths.set_config(b"/etc/luthien.toml".to_vec());
    assert_eq!(paths.config, b"/etc/luthien.toml".to_vec());
    assert_eq!(paths.themes, b"/home/me/.config/luthien/themes".to_vec());

    let dirs = Directories::new(b"sass", b"/c", b"/dl", b"/ca", b"/da");
    assert_eq!(dirs.config, b"/c/luthien/plugins/sass".to_vec());
    assert_eq!(dirs.output, b"/dl/luthien/outputs/plugins/sass".to_vec());
    assert_eq!(dirs.cache, b"/ca/luthien/plugins/sass".to_vec());
    assert_eq!(dirs.data, b"/da/luthien/plugins/sass".to_vec());
}

#[test]
fn cache_decisions() {
    for enabled in [false, true] {
        for finished in [false, true] {
            for exists in [false, true] {
                let plan = cache_plan(enabled, finished, exists);
                assert_eq!(plan.use_cached, finished && enabled && exists);
                assert_eq!(plan.store, finished);
            }
        }
    }
}

#[test]
fn hash_file_names() {
    assert_eq!(hex_u64(0), b"0".to_vec());
    assert_eq!(hex_u64(255), b"ff".to_vec());
    assert_eq!(hex_u64(0xdead_beef_u64), b"deadbeef".to_vec());
    assert_eq!(hex_u64(u64::MAX), b"ffffffffffffffff".to_vec());
    assert!(luthien::plugin::HashResult::Finished.finished());
    assert!(!luthien::plugin::HashResult::Inapplicable.finished());
}
