use analog_clock::cli::CliOptions;
use analog_clock::color::{minute_mark_rgb, Palette, Rgb, Theme};
use analog_clock::theme::{find_theme, themes};

#[test]
fn builtin_theme_names() {
    let names: Vec<&str> = themes().iter().map(|t| t.name).collect();
    assert_eq!(
        names,
        vec!["nord-frost", "nord-aurora", "gruvbox-light", "gruvbox-dark", "monokai", "lime-light", "lime-dark"]
    );
}

#[test]
fn every_builtin_theme_parses() {
    for t in themes() {
        assert!(Palette::from_theme(&t).is_some(), "{}", t.name);
    }
}

#[test]
fn nord_frost_palette() {
    let p = Palette::from_theme(&find_theme("nord-frost").unwrap()).unwrap();
    assert_eq!(p.hour, Rgb { r: 0x5E, g: 0x81, b: 0xAC });
    assert_eq!(p.minute, Rgb { r: 0x81, g: 0xA1, b: 0xC1 });
    assert_eq!(p.second, Rgb { r: 0x88, g: 0xC0, b: 0xD0 });
    assert_eq!(p.clock_face, Rgb { r: 0x8F, g: 0xBC, b: 0xBB });
}

#[test]
fn lower_case_hex_parses() {
    let p = Palette::from_theme(&find_theme("monokai").unwrap()).unwrap();
    assert_eq!(p.second, Rgb { r: 0xf9, g: 0x26, b: 0x72 });
}

#[test]
fn bad_colour_gives_no_palette() {
    let t = Theme { name: "x", hour: "#12345", minute: "#000000", second: "#000000", clock_face: "#zzzzzz" };
    assert!(Palette::from_theme(&t).is_none());
}

#[test]
fn minute_mark_colour() {
    assert_eq!(minute_mark_rgb(), Rgb { r: 0x4C, g: 0x56, b: 0x6A });
}

#[test]
fn unknown_theme_is_not_found() {
    assert!(find_theme("solarized").is_none());
    assert!(find_theme("").is_none());
    assert_eq!(find_theme("lime-light").unwrap().hour, "#8da729");
}

#[test]
fn cli_options_resolve() {
    let cli = CliOptions {
        theme: "gruvbox-light".to_string(),
        tick: 250,
        hide_second_hand: true,
        hide_hour_labels: false,
        show_minute_labels: true,
    };
    let o = cli.run_options().unwrap();
    assert_eq!(o.theme.name, "gruvbox-light");
    assert_eq!(o.tick_interval_ms, 250);
    assert!(!o.show_second_hand);
    assert!(o.show_hour_labels);
    assert!(o.show_minute_labels);
    let bad = CliOptions { theme: "nope".to_string(), ..cli };
    assert!(bad.run_options().is_none());
}
