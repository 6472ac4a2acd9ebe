//! Colours: hex parsing and formatting, the two fixed palettes, and the
//! stylesheet text that each colour-scheme preference gets.
use vstd::prelude::*;

use crate::text::{
    chars_of, count_char, count_occurrences, lemma_concat_absent, lemma_count_absent,
    lemma_count_concat, lemma_occurrence_kept, lemma_occurrences_at_most_count,
};

verus! {

/// An sRGB colour with 8-bit channels.
#[derive(Clone, Copy, Debug, PartialEq, Eq, Structural)]
pub struct Rgb {
    pub red: u8,
    pub green: u8,
    pub blue: u8,
}

/// Why a hex colour code was refused.
#[derive(Clone, Copy, Debug, PartialEq, Eq, Structural)]
pub enum FromHexError {
    /// Not three or six hex digits after an optional leading `#`.
    InvalidHexFormat,
}

pub open spec fn is_hex_digit(c: char) -> bool {
    ('0' <= c && c <= '9') || ('a' <= c && c <= 'f') || ('A' <= c && c <= 'F')
}

/// The value of a hex digit.
pub open spec fn hex_value(c: char) -> int {
    if '0' <= c && c <= '9' {
        c as int - '0' as int
    } else if 'a' <= c && c <= 'f' {
        c as int - 'a' as int + 10
    } else {
        c as int - 'A' as int + 10
    }
}

pub open spec fn all_hex_digits(s: Seq<char>) -> bool {
    forall|i: int| 0 <= i < s.len() ==> is_hex_digit(#[trigger] s[i])
}

/// The digits of a colour code: the code without its leading `#`, if any.
pub open spec fn hex_digits_of(s: Seq<char>) -> Seq<char> {
    if s.len() > 0 && s[0] == '#' {
        s.drop_first()
    } else {
        s
    }
}

/// A channel written as one digit `d` stands for `d * 17` (`f` is `ff`).
pub open spec fn short_channel(d: char) -> u8 {
    (hex_value(d) * 17) as u8
}

pub open spec fn long_channel(hi: char, lo: char) -> u8 {
    (hex_value(hi) * 16 + hex_value(lo)) as u8
}

/// What a colour code denotes: `#abc` or `abc` gives each digit times 17,
/// `#aabbcc` or `aabbcc` gives each pair of digits; anything else is refused.
pub open spec fn spec_parse_hex(s: Seq<char>) -> Result<Rgb, FromHexError> {
    let d = hex_digits_of(s);
    if d.len() == 3 && all_hex_digits(d) {
        Ok(Rgb { red: short_channel(d[0]), green: short_channel(d[1]), blue: short_channel(d[2]) })
    } else if d.len() == 6 && all_hex_digits(d) {
        Ok(
            Rgb {
                red: long_channel(d[0], d[1]),
                green: long_channel(d[2], d[3]),
                blue: long_channel(d[4], d[5]),
            },
        )
    } else {
        Err(FromHexError::InvalidHexFormat)
    }
}

/// The lower-case digit for a value below 16.
pub open spec fn hex_char(n: int) -> char {
    if n < 10 {
        (n + '0' as int) as char
    } else {
        (n - 10 + 'a' as int) as char
    }
}

/// Two lower-case digits for a byte.
pub open spec fn byte_hex(b: u8) -> Seq<char> {
    seq![hex_char(b as int / 16), hex_char(b as int % 16)]
}

/// Six lower-case digits, two per channel, red first.
pub open spec fn hex_code(c: Rgb) -> Seq<char> {
    byte_hex(c.red) + byte_hex(c.green) + byte_hex(c.blue)
}

fn hex_digit_value(c: char) -> (r: Option<u8>)
    ensures
        r == (if is_hex_digit(c) {
            Some(hex_value(c) as u8)
        } else {
            None::<u8>
        }),
{
    if '0' <= c && c <= '9' {
        Some(((c as u32) - ('0' as u32)) as u8)
    } else if 'a' <= c && c <= 'f' {
        Some(((c as u32) - ('a' as u32) + 10) as u8)
    } else if 'A' <= c && c <= 'F' {
        Some(((c as u32) - ('A' as u32) + 10) as u8)
    } else {
        None
    }
}

/// Parses a colour code of three or six hex digits, with or without a
/// leading `#`.
pub fn parse_hex(hex: &str) -> (r: Result<Rgb, FromHexError>)
    ensures
        r == spec_parse_hex(hex@),
        r is Err <==> !((hex_digits_of(hex@).len() == 3 || hex_digits_of(hex@).len() == 6)
            && all_hex_digits(hex_digits_of(hex@))),
{
    let all = chars_of(hex);
    let start: usize = if all.len() > 0 && all[0] == '#' {
        1
    } else {
        0
    };
    let n: usize = all.len() - start;
    let ghost d = hex_digits_of(hex@);
    assert(d =~= all@.subrange(start as int, all@.len() as int));
    if n != 3 && n != 6 {
        return Err(FromHexError::InvalidHexFormat);
    }
    let mut values: Vec<u8> = Vec::new();
    let mut i: usize = 0;
    while i < n
        invariant
            all@ == hex@,
            d == hex_digits_of(hex@),
            n == 3 || n == 6,
            0 <= start <= all.len(),
            n == all.len() - start,
            d =~= all@.subrange(start as int, all@.len() as int),
            i <= n,
            values.len() == i,
            forall|j: int| 0 <= j < i ==> is_hex_digit(#[trigger] d[j]),
            forall|j: int| 0 <= j < i ==> values[j] == hex_value(#[trigger] d[j]) as u8,
        decreases n - i,
    {
        match hex_digit_value(all[start + i]) {
            Some(v) => {
                values.push(v);
            },
            None => {
                assert(!is_hex_digit(d[i as int]));
                assert(!all_hex_digits(d));
                return Err(FromHexError::InvalidHexFormat);
            },
        }
        i = i + 1;
    }
    assert(all_hex_digits(d));
    if n == 3 {
        Ok(Rgb { red: values[0] * 17, green: values[1] * 17, blue: values[2] * 17 })
    } else {
        Ok(
            Rgb {
                red: values[0] * 16 + values[1],
                green: values[2] * 16 + values[3],
                blue: values[4] * 16 + values[5],
            },
        )
    }
}

fn push_hex_byte(out: &mut String, b: u8)
    ensures
        final(out)@ == old(out)@ + byte_hex(b),
{
    let digits = "0123456789abcdef";
    proof {
        reveal_strlit("0123456789abcdef");
        assert forall|n: int| 0 <= n < 16 implies #[trigger] digits@[n] == hex_char(n) by {
            assert(digits@ =~= seq!['0', '1', '2', '3', '4', '5', '6', '7', '8', '9', 'a', 'b', 'c', 'd', 'e', 'f']);
        }
    }
    let hi: usize = (b / 16) as usize;
    let lo: usize = (b % 16) as usize;
    out.append(digits.substring_ascii(hi, hi + 1));
    out.append(digits.substring_ascii(lo, lo + 1));
    assert(final(out)@ =~= old(out)@ + byte_hex(b)) by {
        assert(digits@.subrange(hi as int, hi + 1) =~= seq![hex_char(hi as int)]);
        assert(digits@.subrange(lo as int, lo + 1) =~= seq![hex_char(lo as int)]);
    }
}

/// The colour as six lower-case hex digits, without a `#`.
pub fn format_hex(color: Rgb) -> (s: String)
    ensures
        s@ == hex_code(color),
{
    let mut s = String::new();
    push_hex_byte(&mut s, color.red);
    push_hex_byte(&mut s, color.green);
    push_hex_byte(&mut s, color.blue);
    assert(s@ =~= hex_code(color));
    s
}

/// A hex digit in lower case.
pub open spec fn lower_hex_digit(c: char) -> char {
    if 'A' <= c && c <= 'F' {
        (c as int + 32) as char
    } else {
        c
    }
}

proof fn lemma_digit_round_trip(c: char)
    requires
        is_hex_digit(c),
    ensures
        0 <= hex_value(c) < 16,
        hex_char(hex_value(c)) == lower_hex_digit(c),
{
}

proof fn lemma_byte_round_trip(hi: char, lo: char)
    requires
        is_hex_digit(hi),
        is_hex_digit(lo),
    ensures
        byte_hex(long_channel(hi, lo)) == seq![lower_hex_digit(hi), lower_hex_digit(lo)],
{
    lemma_digit_round_trip(hi);
    lemma_digit_round_trip(lo);
    let a = hex_value(hi);
    let b = hex_value(lo);
    assert((a * 16 + b) / 16 == a && (a * 16 + b) % 16 == b) by (nonlinear_arith)
        requires
            0 <= a < 16,
            0 <= b < 16,
    ;
    assert(byte_hex(long_channel(hi, lo)) =~= seq![lower_hex_digit(hi), lower_hex_digit(lo)]);
}

/// A six-digit code, parsed and formatted again, gives back its digits in
/// lower case.
pub proof fn lemma_six_digit_round_trip(s: Seq<char>)
    requires
        hex_digits_of(s).len() == 6,
        all_hex_digits(hex_digits_of(s)),
    ensures
        spec_parse_hex(s) is Ok,
        hex_code(spec_parse_hex(s)->Ok_0) == hex_digits_of(s).map_values(|c: char| lower_hex_digit(c)),
{
    let d = hex_digits_of(s);
    assert(is_hex_digit(d[0]) && is_hex_digit(d[1]) && is_hex_digit(d[2]));
    assert(is_hex_digit(d[3]) && is_hex_digit(d[4]) && is_hex_digit(d[5]));
    lemma_byte_round_trip(d[0], d[1]);
    lemma_byte_round_trip(d[2], d[3]);
    lemma_byte_round_trip(d[4], d[5]);
    assert(hex_code(spec_parse_hex(s)->Ok_0) =~= d.map_values(|c: char| lower_hex_digit(c)));
}

/// A three-digit code gives each channel as its digit times 17.
pub proof fn lemma_three_digit_expansion(s: Seq<char>)
    requires
        hex_digits_of(s).len() == 3,
        all_hex_digits(hex_digits_of(s)),
    ensures
        spec_parse_hex(s) is Ok,
        spec_parse_hex(s)->Ok_0.red == hex_value(hex_digits_of(s)[0]) * 17,
        spec_parse_hex(s)->Ok_0.green == hex_value(hex_digits_of(s)[1]) * 17,
        spec_parse_hex(s)->Ok_0.blue == hex_value(hex_digits_of(s)[2]) * 17,
{
    let d = hex_digits_of(s);
    assert(is_hex_digit(d[0]) && is_hex_digit(d[1]) && is_hex_digit(d[2]));
}

/// A code whose digits number other than three or six, or hold a character
/// that is no hex digit, is refused as malformed.
pub proof fn lemma_malformed_refused(s: Seq<char>)
    requires
        (hex_digits_of(s).len() != 3 && hex_digits_of(s).len() != 6) || exists|i: int|
            0 <= i < hex_digits_of(s).len() && !is_hex_digit(#[trigger] hex_digits_of(s)[i]),
    ensures
        spec_parse_hex(s) == Err::<Rgb, FromHexError>(FromHexError::InvalidHexFormat),
{
}

/// Which colour scheme a page is rendered for. `Unspecified` leaves the
/// choice to the client's `prefers-color-scheme`, falling back to light.
#[derive(Clone, Copy, Debug, PartialEq, Eq, Structural)]
pub enum PreferredColorScheme {
    Dark,
    Light,
    Unspecified,
}

/// The accent colour of one page class.
pub struct PageAccent {
    pub page: String,
    pub accent: Rgb,
}

/// A theme's palette: foreground, background, and an accent per page class.
pub struct ColorScheme {
    pub foreground: Rgb,
    pub background: Rgb,
    pub pages: Vec<PageAccent>,
}

pub struct ColorSchemeView {
    pub foreground: Rgb,
    pub background: Rgb,
    pub pages: Seq<(Seq<char>, Rgb)>,
}

impl View for ColorScheme {
    type V = ColorSchemeView;

    open spec fn view(&self) -> ColorSchemeView {
        ColorSchemeView {
            foreground: self.foreground,
            background: self.background,
            pages: self.pages@.map_values(|p: PageAccent| (p.page@, p.accent)),
        }
    }
}

/// The page classes that carry an accent, in navigation order.
pub open spec fn page_classes() -> Seq<Seq<char>> {
    seq!["me"@, "people"@, "projects"@, "articles"@]
}

pub open spec fn rgb(red: u8, green: u8, blue: u8) -> Rgb {
    Rgb { red, green, blue }
}

pub open spec fn with_classes(accents: Seq<Rgb>) -> Seq<(Seq<char>, Rgb)> {
    seq![
        (page_classes()[0], accents[0]),
        (page_classes()[1], accents[1]),
        (page_classes()[2], accents[2]),
        (page_classes()[3], accents[3]),
    ]
}

/// The light palette: `#111` on `#fff`.
pub open spec fn light_scheme() -> ColorSchemeView {
    ColorSchemeView {
        foreground: rgb(0x11, 0x11, 0x11),
        background: rgb(0xff, 0xff, 0xff),
        pages: with_classes(
            seq![
                rgb(0xda, 0xab, 0xbc),
                rgb(0x96, 0x9f, 0x5a),
                rgb(0x76, 0x80, 0x36),
                rgb(0x3f, 0x23, 0x10),
            ],
        ),
    }
}

/// The dark palette: `#fff` on `#191919`.
pub open spec fn dark_scheme() -> ColorSchemeView {
    ColorSchemeView {
        foreground: rgb(0xff, 0xff, 0xff),
        background: rgb(0x19, 0x19, 0x19),
        pages: with_classes(
            seq![
                rgb(0xda, 0xab, 0xbc),
                rgb(0x96, 0x9f, 0x5a),
                rgb(0x76, 0x80, 0x36),
                rgb(0xee, 0xbf, 0x58),
            ],
        ),
    }
}

/// A palette colour written as a code that is known to parse.
fn known_color(hex: &str) -> (c: Rgb)
    requires
        spec_parse_hex(hex@) is Ok,
    ensures
        c == spec_parse_hex(hex@)->Ok_0,
{
    match parse_hex(hex) {
        Ok(c) => c,
        Err(_) => {
            assert(false);
            Rgb { red: 0, green: 0, blue: 0 }
        },
    }
}

fn page_accent(page: &str, hex: &str) -> (p: PageAccent)
    requires
        spec_parse_hex(hex@) is Ok,
    ensures
        p.page@ == page@,
        p.accent == spec_parse_hex(hex@)->Ok_0,
{
    PageAccent { page: String::from_str(page), accent: known_color(hex) }
}

fn scheme_from_codes(
    foreground: &str,
    background: &str,
    me: &str,
    people: &str,
    projects: &str,
    articles: &str,
) -> (s: ColorScheme)
    requires
        spec_parse_hex(foreground@) is Ok,
        spec_parse_hex(background@) is Ok,
        spec_parse_hex(me@) is Ok,
        spec_parse_hex(people@) is Ok,
        spec_parse_hex(projects@) is Ok,
        spec_parse_hex(articles@) is Ok,
    ensures
        s@.foreground == spec_parse_hex(foreground@)->Ok_0,
        s@.background == spec_parse_hex(background@)->Ok_0,
        s@.pages == with_classes(
            seq![
                spec_parse_hex(me@)->Ok_0,
                spec_parse_hex(people@)->Ok_0,
                spec_parse_hex(projects@)->Ok_0,
                spec_parse_hex(articles@)->Ok_0,
            ],
        ),
{
    let mut pages: Vec<PageAccent> = Vec::new();
    pages.push(page_accent("me", me));
    pages.push(page_accent("people", people));
    pages.push(page_accent("projects", projects));
    pages.push(page_accent("articles", articles));
    let s = ColorScheme {
        foreground: known_color(foreground),
        background: known_color(background),
        pages,
    };
    assert(s@.pages =~= with_classes(
        seq![
            spec_parse_hex(me@)->Ok_0,
            spec_parse_hex(people@)->Ok_0,
            spec_parse_hex(projects@)->Ok_0,
            spec_parse_hex(articles@)->Ok_0,
        ],
    ));
    s
}

impl ColorScheme {
    /// The light palette, read from its colour codes.
    pub fn light() -> (s: ColorScheme)
        ensures
            s@ == light_scheme(),
    {
        proof {
            reveal_strlit("#111");
            reveal_strlit("#fff");
            reveal_strlit("#daabbc");
            reveal_strlit("#969f5a");
            reveal_strlit("#768036");
            reveal_strlit("#3f2310");
        }
        let s = scheme_from_codes("#111", "#fff", "#daabbc", "#969f5a", "#768036", "#3f2310");
        assert(s@.pages =~= light_scheme().pages);
        s
    }

    /// The dark palette, read from its colour codes.
    pub fn dark() -> (s: ColorScheme)
        ensures
            s@ == dark_scheme(),
    {
        proof {
            reveal_strlit("#fff");
            reveal_strlit("#191919");
            reveal_strlit("#daabbc");
            reveal_strlit("#969f5a");
            reveal_strlit("#768036");
            reveal_strlit("#eebf58");
        }
        let s = scheme_from_codes("#fff", "#191919", "#daabbc", "#969f5a", "#768036", "#eebf58");
        assert(s@.pages =~= dark_scheme().pages);
        s
    }
}

/// The three rules of one page class: body text in the derived text colour,
/// links and the class's menu entry in the accent colour.
pub open spec fn page_rules(page: Seq<char>, accent: Rgb, text: Rgb) -> Seq<char> {
    "body."@ + page + " { color: #"@ + hex_code(text) + "; }"@ + "body."@ + page + " a { color: #"@
        + hex_code(accent) + "; }"@ + ".menu > li a."@ + page + " { color: #"@ + hex_code(accent)
        + "; }"@
}

/// The rules of the first `n` page classes.
pub open spec fn pages_rules(pages: Seq<(Seq<char>, Rgb)>, text: Seq<Rgb>, n: int) -> Seq<char>
    decreases n,
{
    if n <= 0 {
        seq![]
    } else {
        pages_rules(pages, text, n - 1) + page_rules(pages[n - 1].0, pages[n - 1].1, text[n - 1])
    }
}

/// A palette's stylesheet: page colours, then the rules of every page class,
/// where `text[i]` is the body-text colour derived for the `i`-th class.
pub open spec fn scheme_css(scheme: ColorSchemeView, text: Seq<Rgb>) -> Seq<char> {
    "body { background-color: #"@ + hex_code(scheme.background) + "; color: #"@ + hex_code(
        scheme.foreground,
    ) + "; } "@ + pages_rules(scheme.pages, text, scheme.pages.len() as int)
}

pub open spec fn hide_dark_selector() -> Seq<char> {
    ".theme-selector .dark { display: none; } "@
}

pub open spec fn hide_light_selector() -> Seq<char> {
    ".theme-selector .light { display: none; } "@
}

/// Opens the media query that swaps to the dark theme, including the rules
/// that swap which theme-selector link shows.
pub open spec fn dark_media_query_open() -> Seq<char> {
    " @media screen and (prefers-color-scheme: dark) { .theme-selector .dark { display: none; } .theme-selector .light { display: inline; } "@
}

pub open spec fn media_query_close() -> Seq<char> {
    " }"@
}

/// The stylesheet for a preference. A stored preference gets that theme
/// alone; with none, the light theme applies unless the client prefers dark.
pub open spec fn spec_generate_css(
    color_scheme: PreferredColorScheme,
    light_text: Seq<Rgb>,
    dark_text: Seq<Rgb>,
) -> Seq<char> {
    match color_scheme {
        PreferredColorScheme::Dark => hide_dark_selector() + scheme_css(dark_scheme(), dark_text),
        PreferredColorScheme::Light => hide_light_selector() + scheme_css(
            light_scheme(),
            light_text,
        ),
        PreferredColorScheme::Unspecified => hide_light_selector() + scheme_css(
            light_scheme(),
            light_text,
        ) + dark_media_query_open() + scheme_css(dark_scheme(), dark_text) + media_query_close(),
    }
}

fn push_page_rules(out: &mut String, page: &str, accent: Rgb, text: Rgb)
    ensures
        final(out)@ == old(out)@ + page_rules(page@, accent, text),
{
    let text_hex = format_hex(text);
    let accent_hex = format_hex(accent);
    out.append("body.");
    out.append(page);
    out.append(" { color: #");
    out.append(text_hex.as_str());
    out.append("; }");
    out.append("body.");
    out.append(page);
    out.append(" a { color: #");
    out.append(accent_hex.as_str());
    out.append("; }");
    out.append(".menu > li a.");
    out.append(page);
    out.append(" { color: #");
    out.append(accent_hex.as_str());
    out.append("; }");
    assert(final(out)@ =~= old(out)@ + page_rules(page@, accent, text));
}

/// The stylesheet of one palette, with `text[i]` the body-text colour
/// derived for the palette's `i`-th page class.
pub fn generate_color_scheme_css(scheme: &ColorScheme, text: &Vec<Rgb>) -> (css: String)
    requires
        text.len() == scheme.pages.len(),
    ensures
        css@ == scheme_css(scheme@, text@),
{
    let mut css = String::new();
    css.append("body { background-color: #");
    let background = format_hex(scheme.background);
    css.append(background.as_str());
    css.append("; color: #");
    let foreground = format_hex(scheme.foreground);
    css.append(foreground.as_str());
    css.append("; } ");
    let ghost head = css@;
    assert(head =~= "body { background-color: #"@ + hex_code(scheme.background) + "; color: #"@
        + hex_code(scheme.foreground) + "; } "@);
    let mut i: usize = 0;
    while i < scheme.pages.len()
        invariant
            text.len() == scheme.pages.len(),
            i <= scheme.pages.len(),
            css@ == head + pages_rules(scheme@.pages, text@, i as int),
        decreases scheme.pages.len() - i,
    {
        let page = &scheme.pages[i];
        let ghost before = css@;
        push_page_rules(&mut css, page.page.as_str(), page.accent, text[i]);
        assert(scheme@.pages[i as int] == (page.page@, page.accent));
        assert(css@ =~= head + pages_rules(scheme@.pages, text@, i + 1));
        i = i + 1;
    }
    css
}

/// The body-text colours derived for each palette's page classes, in the
/// palette's order.
pub struct TextColors {
    pub light: Vec<Rgb>,
    pub dark: Vec<Rgb>,
}

impl TextColors {
    /// One colour per page class of each palette.
    pub open spec fn wf(&self) -> bool {
        &&& self.light.len() == light_scheme().pages.len()
        &&& self.dark.len() == dark_scheme().pages.len()
    }
}

/// The theme stylesheet for a colour-scheme preference.
pub fn generate_css(color_scheme: PreferredColorScheme, text: &TextColors) -> (css: String)
    requires
        text.wf(),
    ensures
        css@ == spec_generate_css(color_scheme, text.light@, text.dark@),
{
    match color_scheme {
        PreferredColorScheme::Dark => {
            let mut css = String::from_str(".theme-selector .dark { display: none; } ");
            let dark = generate_color_scheme_css(&ColorScheme::dark(), &text.dark);
            css.append(dark.as_str());
            css
        },
        PreferredColorScheme::Light => {
            let mut css = String::from_str(".theme-selector .light { display: none; } ");
            let light = generate_color_scheme_css(&ColorScheme::light(), &text.light);
            css.append(light.as_str());
            css
        },
        PreferredColorScheme::Unspecified => {
            let mut css = String::from_str(".theme-selector .light { display: none; } ");
            let light = generate_color_scheme_css(&ColorScheme::light(), &text.light);
            css.append(light.as_str());
            css.append(
                " @media screen and (prefers-color-scheme: dark) { .theme-selector .dark { display: none; } .theme-selector .light { display: inline; } ",
            );
            let dark = generate_color_scheme_css(&ColorScheme::dark(), &text.dark);
            css.append(dark.as_str());
            css.append(" }");
            css
        },
    }
}

proof fn lemma_hex_code_has_no_at(c: Rgb)
    ensures
        !hex_code(c).contains('@'),
{
    let h = hex_code(c);
    assert forall|i: int| 0 <= i < h.len() implies h[i] != '@' by {
        assert(h[i] == hex_char(c.red as int / 16) || h[i] == hex_char(c.red as int % 16) || h[i]
            == hex_char(c.green as int / 16) || h[i] == hex_char(c.green as int % 16) || h[i]
            == hex_char(c.blue as int / 16) || h[i] == hex_char(c.blue as int % 16));
    }
}

proof fn lemma_page_rules_have_no_at(page: Seq<char>, accent: Rgb, text: Rgb)
    requires
        !page.contains('@'),
    ensures
        !page_rules(page, accent, text).contains('@'),
{
    reveal_strlit("body.");
    reveal_strlit(" { color: #");
    reveal_strlit("; }");
    reveal_strlit(" a { color: #");
    reveal_strlit(".menu > li a.");
    lemma_hex_code_has_no_at(accent);
    lemma_hex_code_has_no_at(text);
    assert(!"body."@.contains('@'));
    assert(!" { color: #"@.contains('@'));
    assert(!"; }"@.contains('@'));
    assert(!" a { color: #"@.contains('@'));
    assert(!".menu > li a."@.contains('@'));
    lemma_concat_absent("body."@, page, '@');
    lemma_concat_absent("body."@ + page, " { color: #"@, '@');
    lemma_concat_absent("body."@ + page + " { color: #"@, hex_code(text), '@');
    lemma_concat_absent("body."@ + page + " { color: #"@ + hex_code(text), "; }"@, '@');
    let a1 = "body."@ + page + " { color: #"@ + hex_code(text) + "; }"@;
    lemma_concat_absent(a1, "body."@, '@');
    lemma_concat_absent(a1 + "body."@, page, '@');
    lemma_concat_absent(a1 + "body."@ + page, " a { color: #"@, '@');
    lemma_concat_absent(a1 + "body."@ + page + " a { color: #"@, hex_code(accent), '@');
    lemma_concat_absent(a1 + "body."@ + page + " a { color: #"@ + hex_code(accent), "; }"@, '@');
    let a2 = a1 + "body."@ + page + " a { color: #"@ + hex_code(accent) + "; }"@;
    lemma_concat_absent(a2, ".menu > li a."@, '@');
    lemma_concat_absent(a2 + ".menu > li a."@, page, '@');
    lemma_concat_absent(a2 + ".menu > li a."@ + page, " { color: #"@, '@');
    lemma_concat_absent(a2 + ".menu > li a."@ + page + " { color: #"@, hex_code(accent), '@');
    lemma_concat_absent(
        a2 + ".menu > li a."@ + page + " { color: #"@ + hex_code(accent),
        "; }"@,
        '@',
    );
}

proof fn lemma_pages_rules_have_no_at(pages: Seq<(Seq<char>, Rgb)>, text: Seq<Rgb>, n: int)
    requires
        0 <= n <= pages.len(),
        n <= text.len(),
        forall|i: int| 0 <= i < pages.len() ==> !(#[trigger] pages[i]).0.contains('@'),
    ensures
        !pages_rules(pages, text, n).contains('@'),
    decreases n,
{
    if n > 0 {
        lemma_pages_rules_have_no_at(pages, text, n - 1);
        lemma_page_rules_have_no_at(pages[n - 1].0, pages[n - 1].1, text[n - 1]);
        lemma_concat_absent(
            pages_rules(pages, text, n - 1),
            page_rules(pages[n - 1].0, pages[n - 1].1, text[n - 1]),
            '@',
        );
    } else {
        assert(pages_rules(pages, text, n) =~= seq![]);
    }
}

proof fn lemma_page_classes_have_no_at()
    ensures
        forall|i: int| 0 <= i < page_classes().len() ==> !(#[trigger] page_classes()[i]).contains('@'),
{
    reveal_strlit("me");
    reveal_strlit("people");
    reveal_strlit("projects");
    reveal_strlit("articles");
    assert(!"me"@.contains('@'));
    assert(!"people"@.contains('@'));
    assert(!"projects"@.contains('@'));
    assert(!"articles"@.contains('@'));
}

proof fn lemma_scheme_css_has_no_at(scheme: ColorSchemeView, text: Seq<Rgb>)
    requires
        scheme == light_scheme() || scheme == dark_scheme(),
        text.len() == scheme.pages.len(),
    ensures
        !scheme_css(scheme, text).contains('@'),
{
    lemma_page_classes_have_no_at();
    assert forall|i: int| 0 <= i < scheme.pages.len() implies !(#[trigger] scheme.pages[i]).0.contains(
        '@',
    ) by {
        assert(scheme.pages[i].0 == page_classes()[i]);
    }
    lemma_pages_rules_have_no_at(scheme.pages, text, scheme.pages.len() as int);
    reveal_strlit("body { background-color: #");
    reveal_strlit("; color: #");
    reveal_strlit("; } ");
    assert(!"body { background-color: #"@.contains('@'));
    assert(!"; color: #"@.contains('@'));
    assert(!"; } "@.contains('@'));
    lemma_hex_code_has_no_at(scheme.background);
    lemma_hex_code_has_no_at(scheme.foreground);
    let a = "body { background-color: #"@;
    lemma_concat_absent(a, hex_code(scheme.background), '@');
    let a = a + hex_code(scheme.background);
    lemma_concat_absent(a, "; color: #"@, '@');
    let a = a + "; color: #"@;
    lemma_concat_absent(a, hex_code(scheme.foreground), '@');
    let a = a + hex_code(scheme.foreground);
    lemma_concat_absent(a, "; } "@, '@');
    let a = a + "; } "@;
    lemma_concat_absent(a, pages_rules(scheme.pages, text, scheme.pages.len() as int), '@');
}

/// Every CSS at-rule starts with `@`. With no stored preference the
/// stylesheet holds exactly one: the media query on `prefers-color-scheme:
/// dark` that wraps the dark theme. A stored preference gets a stylesheet
/// with none.
pub proof fn lemma_media_queries(
    color_scheme: PreferredColorScheme,
    light_text: Seq<Rgb>,
    dark_text: Seq<Rgb>,
)
    requires
        light_text.len() == light_scheme().pages.len(),
        dark_text.len() == dark_scheme().pages.len(),
    ensures
        count_char(spec_generate_css(color_scheme, light_text, dark_text), '@') == (
        if color_scheme == PreferredColorScheme::Unspecified {
            1nat
        } else {
            0nat
        }),
{
    let light = scheme_css(light_scheme(), light_text);
    let dark = scheme_css(dark_scheme(), dark_text);
    lemma_scheme_css_has_no_at(light_scheme(), light_text);
    lemma_scheme_css_has_no_at(dark_scheme(), dark_text);
    lemma_count_absent(light, '@');
    lemma_count_absent(dark, '@');
    reveal_strlit(".theme-selector .dark { display: none; } ");
    reveal_strlit(".theme-selector .light { display: none; } ");
    reveal_strlit(" }");
    assert(!hide_dark_selector().contains('@'));
    assert(!hide_light_selector().contains('@'));
    assert(!media_query_close().contains('@'));
    lemma_count_absent(hide_dark_selector(), '@');
    lemma_count_absent(hide_light_selector(), '@');
    lemma_count_absent(media_query_close(), '@');
    match color_scheme {
        PreferredColorScheme::Dark => {
            lemma_count_concat(hide_dark_selector(), dark, '@');
        },
        PreferredColorScheme::Light => {
            lemma_count_concat(hide_light_selector(), light, '@');
        },
        PreferredColorScheme::Unspecified => {
            let open = dark_media_query_open();
            reveal_strlit(
                " @media screen and (prefers-color-scheme: dark) { .theme-selector .dark { display: none; } .theme-selector .light { display: inline; } ",
            );
            let head = open.subrange(0, 2);
            let rest = open.subrange(2, open.len() as int);
            assert(open =~= head + rest);
            assert(!rest.contains('@'));
            lemma_count_absent(rest, '@');
            assert(head.drop_last().drop_last() =~= seq![]);
            assert(head.last() == '@' && head.drop_last().last() == ' ');
            assert(count_char(head.drop_last().drop_last(), '@') == 0);
            assert(count_char(head.drop_last(), '@') == 0);
            assert(count_char(head, '@') == 1);
            lemma_count_concat(head, rest, '@');
            lemma_count_concat(hide_light_selector(), light, '@');
            lemma_count_concat(hide_light_selector() + light, open, '@');
            lemma_count_concat(hide_light_selector() + light + open, dark, '@');
            lemma_count_concat(hide_light_selector() + light + open + dark, media_query_close(), '@');
        },
    }
}

/// With no stored preference the stylesheet holds `@media` exactly once;
/// with a stored one, not at all.
pub proof fn lemma_media_query_occurrences(
    color_scheme: PreferredColorScheme,
    light_text: Seq<Rgb>,
    dark_text: Seq<Rgb>,
)
    requires
        light_text.len() == light_scheme().pages.len(),
        dark_text.len() == dark_scheme().pages.len(),
    ensures
        count_occurrences(spec_generate_css(color_scheme, light_text, dark_text), "@media"@) == (
        if color_scheme == PreferredColorScheme::Unspecified {
            1nat
        } else {
            0nat
        }),
{
    let css = spec_generate_css(color_scheme, light_text, dark_text);
    reveal_strlit("@media");
    lemma_media_queries(color_scheme, light_text, dark_text);
    lemma_occurrences_at_most_count(css, "@media"@, '@');
    if color_scheme == PreferredColorScheme::Unspecified {
        let open = dark_media_query_open();
        reveal_strlit(
            " @media screen and (prefers-color-scheme: dark) { .theme-selector .dark { display: none; } .theme-selector .light { display: inline; } ",
        );
        let before = hide_light_selector() + scheme_css(light_scheme(), light_text) + seq![' '];
        let after = open.drop_first() + scheme_css(dark_scheme(), dark_text) + media_query_close();
        assert(css =~= before + after);
        assert(after.subrange(0, 6) =~= "@media"@);
        lemma_occurrence_kept(before, after, "@media"@);
    }
}

} // verus!
