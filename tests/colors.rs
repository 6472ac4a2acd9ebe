use homepage::color_scheme::{
    format_hex, generate_color_scheme_css, generate_css, parse_hex, ColorScheme, FromHexError,
    PageAccent, PreferredColorScheme, Rgb, TextColors,
};

fn rgb(red: u8, green: u8, blue: u8) -> Rgb {
    Rgb { red, green, blue }
}

fn text_colors() -> TextColors {
    TextColors {
        light: vec![rgb(0x12, 0x11, 0x11), rgb(0x11, 0x12, 0x11), rgb(0x11, 0x11, 0x12), rgb(0x13, 0x11, 0x11)],
        dark: vec![rgb(0xfe, 0xfe, 0xfe), rgb(0xfd, 0xfe, 0xfe), rgb(0xfe, 0xfd, 0xfe), rgb(0xfe, 0xfe, 0xfd)],
    }
}

#[test]
fn parses_three_digit_codes() {
    assert_eq!(parse_hex("#abc"), Ok(rgb(0xaa, 0xbb, 0xcc)));
    assert_eq!(parse_hex("#111"), Ok(rgb(17, 17, 17)));
    assert_eq!(parse_hex("fff"), Ok(rgb(255, 255, 255)));
    assert_eq!(parse_hex("#F0a"), Ok(rgb(255, 0, 170)));
}

#[test]
fn parses_six_digit_codes() {
    assert_eq!(parse_hex("#daabbc"), Ok(rgb(0xda, 0xab, 0xbc)));
    assert_eq!(parse_hex("191919"), Ok(rgb(25, 25, 25)));
    assert_eq!(parse_hex("#EEBF58"), Ok(rgb(0xee, 0xbf, 0x58)));
    assert_eq!(parse_hex("#000000"), Ok(rgb(0, 0, 0)));
}

#[test]
fn refuses_malformed_codes() {
    for code in ["#zz0000", "#12", "", "#", "#1234", "##abc", "#abcdefa", "#+f+f+f", "#ab c", "#ééé"] {
        assert_eq!(parse_hex(code), Err(FromHexError::InvalidHexFormat), "{code}");
    }
}

#[test]
fn six_digit_round_trip_is_lower_case() {
    for code in ["#daabbc", "#969F5A", "768036", "#3f2310", "#0A0b0C"] {
        let digits = code.trim_start_matches('#').to_lowercase();
        assert_eq!(format_hex(parse_hex(code).unwrap()), digits);
    }
}

#[test]
fn three_digit_channels_are_digit_times_17() {
    let c = parse_hex("#1e9").unwrap();
    assert_eq!((c.red, c.green, c.blue), (17, 14 * 17, 9 * 17));
}

#[test]
fn formats_two_digits_per_channel() {
    assert_eq!(format_hex(rgb(0, 10, 255)), "000aff");
}

#[test]
fn palettes_hold_their_codes() {
    let light = ColorScheme::light();
    assert_eq!(light.foreground, rgb(0x11, 0x11, 0x11));
    assert_eq!(light.background, rgb(0xff, 0xff, 0xff));
    let pages: Vec<&str> = light.pages.iter().map(|p| p.page.as_str()).collect();
    assert_eq!(pages, vec!["me", "people", "projects", "articles"]);
    assert_eq!(light.pages[3].accent, rgb(0x3f, 0x23, 0x10));
    let dark = ColorScheme::dark();
    assert_eq!(dark.foreground, rgb(0xff, 0xff, 0xff));
    assert_eq!(dark.background, rgb(0x19, 0x19, 0x19));
    assert_eq!(dark.pages[3].accent, rgb(0xee, 0xbf, 0x58));
    assert_eq!(dark.pages[0].accent, light.pages[0].accent);
}

#[test]
fn scheme_css_is_exact() {
    let scheme = ColorScheme {
        foreground: rgb(1, 2, 3),
        background: rgb(0xff, 0xee, 0xdd),
        pages: vec![PageAccent { page: "me".to_string(), accent: rgb(0xaa, 0xbb, 0xcc) }],
    };
    let css = generate_color_scheme_css(&scheme, &vec![rgb(4, 5, 6)]);
    assert_eq!(
        css,
        "body { background-color: #ffeedd; color: #010203; } body.me { color: #040506; }body.me a { color: #aabbcc; }.menu > li a.me { color: #aabbcc; }"
    );
}

#[test]
fn unspecified_css_has_one_media_query_and_both_themes() {
    let text = text_colors();
    let css = generate_css(PreferredColorScheme::Unspecified, &text);
    assert_eq!(css.matches("prefers-color-scheme: dark").count(), 1);
    assert_eq!(css.matches('@').count(), 1);
    assert!(css.starts_with(".theme-selector .light { display: none; } body { background-color: #ffffff; color: #111111; }"));
    assert!(css.contains("body { background-color: #191919; color: #ffffff; }"));
    assert!(css.contains("body.articles a { color: #3f2310; }"));
    assert!(css.contains("body.articles a { color: #eebf58; }"));
    assert!(css.contains("body.me { color: #121111; }"));
    assert!(css.contains("body.me { color: #fefefe; }"));
    assert!(css.ends_with(" }"));
}

#[test]
fn stored_preference_css_has_one_theme_and_no_media_query() {
    let text = text_colors();
    let light = generate_css(PreferredColorScheme::Light, &text);
    assert_eq!(light.matches('@').count(), 0);
    assert!(light.starts_with(".theme-selector .light { display: none; } body { background-color: #ffffff;"));
    assert!(!light.contains("#191919"));
    assert!(!light.contains("eebf58"));
    let dark = generate_css(PreferredColorScheme::Dark, &text);
    assert_eq!(dark.matches('@').count(), 0);
    assert!(dark.starts_with(".theme-selector .dark { display: none; } body { background-color: #191919; color: #ffffff; }"));
    assert!(!dark.contains("3f2310"));
    assert_eq!(dark.matches("body.").count(), 8);
}
