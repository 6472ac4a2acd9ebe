use homepage::cache::{ContentType, Request, VariantCache};
use homepage::color_scheme::{PreferredColorScheme, Rgb, TextColors};
use homepage::cookie::get_cookie;
use homepage::document::{Document, StaticAssets};
use homepage::json::{generate_json_page, generate_json_pages, json_page_from_literal};
use homepage::site::{build_menu, build_menu_item, generate_articles_content, get_page_defs, ArticleDef, SiteContent};

fn rgb(red: u8, green: u8, blue: u8) -> Rgb {
    Rgb { red, green, blue }
}

fn text_colors() -> TextColors {
    TextColors {
        light: vec![rgb(0x12, 0x11, 0x11); 4],
        dark: vec![rgb(0xfe, 0xfe, 0xfe); 4],
    }
}

fn assets() -> StaticAssets {
    StaticAssets {
        fonts_css: "@font-face{font-family:x}".to_string(),
        main_css: "main{}".to_string(),
        prism_css: "pre.prism{}".to_string(),
        main_js: "console.log('main')".to_string(),
        prism_js: "console.log('prism')".to_string(),
    }
}

fn content() -> SiteContent {
    SiteContent {
        index: "<p>Hello</p>".to_string(),
        people: "<p>People</p>".to_string(),
        projects: "<p>Projects</p>".to_string(),
        articles: vec![
            ArticleDef {
                title: "Local".to_string(),
                href: "/2024/01/local".to_string(),
                content: Some("<pre><code class=\"language-rust\">fn main() {}</code></pre>".to_string()),
            },
            ArticleDef {
                title: "Elsewhere".to_string(),
                href: "https://example.com/post".to_string(),
                content: None,
            },
        ],
    }
}

fn cache() -> VariantCache {
    VariantCache::build(&content(), assets(), &text_colors())
}

fn get(path: &str) -> Request {
    Request { method: "GET".to_string(), path: path.to_string(), query: None, accept: None, cookie: None }
}

#[test]
fn menu_item_marks_only_the_active_page() {
    assert_eq!(build_menu_item("me", "/", "Me", "me"), "<li><a class=\"me active\" href=\"/\">Me</a></li>");
    assert_eq!(build_menu_item("me", "/", "Me", "people"), "<li><a class=\"me\" href=\"/\">Me</a></li>");
}

#[test]
fn menu_lists_pages_in_navigation_order() {
    assert_eq!(
        build_menu("people"),
        "<ul class=\"menu\"><li><a class=\"me\" href=\"/\">Me</a></li><li><a class=\"people active\" href=\"/people\">People</a></li><li><a class=\"projects\" href=\"/projects\">Projects</a></li><li><a class=\"articles\" href=\"/articles\">Articles</a></li></ul>"
    );
    assert_eq!(build_menu("articles").matches("active").count(), 1);
    assert_eq!(build_menu("contact").matches("active").count(), 0);
}

#[test]
fn article_index_links_every_article() {
    let html = generate_articles_content(&content().articles);
    assert!(html.starts_with("<div class=\"content\"><h1>Articles</h1><p>"));
    assert!(html.ends_with("<ul><li><a href=\"/2024/01/local\">Local</a></li><li><a href=\"https://example.com/post\">Elsewhere</a></li></ul></div>"));
}

#[test]
fn page_list_holds_fixed_pages_then_hosted_articles() {
    let defs = get_page_defs(&content());
    let hrefs: Vec<&str> = defs.iter().map(|p| p.href.as_str()).collect();
    assert_eq!(hrefs, vec!["/", "/people", "/projects", "/articles", "/2024/01/local"]);
    assert_eq!(defs[0].page, "me");
    assert_eq!(defs[0].content, "<div class=\"content\"><p>Hello</p></div>");
    assert_eq!(defs[4].page, "articles");
    assert_eq!(
        defs[4].content,
        "<div class=\"content\"><h1>Local</h1><pre><code class=\"language-rust\">fn main() {}</code></pre></div>"
    );
}

#[test]
fn document_without_code_has_no_highlighter() {
    let html = Document::new("<body>plain</body>".to_string(), PreferredColorScheme::Light).render(&assets(), &text_colors());
    assert!(html.starts_with("<!DOCTYPE html><html><head><title>Arend van Beelen jr.</title>"));
    assert!(html.contains("<style>@font-face{font-family:x} main{} .theme-selector .light { display: none; }"));
    assert!(html.ends_with("; } </style><script defer src=\"/main.js\" type=\"module\"></script></head><body>plain</body></html>"));
    assert!(!html.contains("prism"));
}

#[test]
fn document_with_code_has_highlighter() {
    let body = "<body><code class=\"language-js\">x</code></body>";
    let html = Document::new(body.to_string(), PreferredColorScheme::Dark).render(&assets(), &text_colors());
    assert!(html.contains("; } pre.prism{}</style>"));
    assert!(html.ends_with("</body><script src=\"/prism.js\"></script></html>"));
    assert_eq!(html.matches("<head>").count(), 1);
    assert_eq!(html.matches("<body").count(), 1);
}

#[test]
fn cookie_lookup_follows_pairs() {
    assert_eq!(get_cookie("color_scheme=dark", "color_scheme"), Some("dark"));
    assert_eq!(get_cookie("a=1;color_scheme=light;b=2", "color_scheme"), Some("light"));
    assert_eq!(get_cookie("a=1; color_scheme=light", "color_scheme"), Some("light"));
    assert_eq!(get_cookie("lang=en; color_scheme=dark", "color_scheme"), Some("dark"));
    assert_eq!(get_cookie("lang=en;   color_scheme=dark ", "color_scheme"), Some("dark "));
    assert_eq!(get_cookie("lang=en; xcolor_scheme=dark", "color_scheme"), None);
    assert_eq!(get_cookie("color_scheme", "color_scheme"), None);
    assert_eq!(get_cookie("color_scheme=a=b", "color_scheme"), Some("a=b"));
    assert_eq!(get_cookie("x=1;color_scheme=;color_scheme=dark", "color_scheme"), Some(""));
    assert_eq!(get_cookie("", "color_scheme"), None);
}

#[test]
fn json_page_escapes_content() {
    assert_eq!(json_page_from_literal("\"x\""), "{\"content\":\"x\"}");
    assert_eq!(
        generate_json_page("<div class=\"content\">a\\b\n</div>"),
        "{\"content\":\"<div class=\\\"content\\\">a\\\\b\\n</div>\"}"
    );
    assert_eq!(generate_json_page("\u{1}\t\u{8}\u{c}\r\u{1f}é/"), "{\"content\":\"\\u0001\\t\\b\\f\\r\\u001fé/\"}");
    assert_eq!(generate_json_page(""), "{\"content\":\"\"}");
}

#[test]
fn every_page_gets_a_json_object() {
    let defs = get_page_defs(&content());
    let json = generate_json_pages(&defs);
    assert_eq!(json.len(), defs.len());
    for (page, def) in json.iter().zip(defs.iter()) {
        assert_eq!(page.href, def.href);
        assert!(page.body.starts_with("{\"content\":\"<div class=\\\"content\\\">"));
    }
}

#[test]
fn home_without_preference_gets_both_themes() {
    let r = cache().serve(&get("/"));
    assert_eq!(r.status, 200);
    assert_eq!(r.content_type, Some(ContentType::Html));
    assert_eq!(ContentType::Html.header_value(), "text/html; charset=UTF-8");
    assert!(r.vary_accept);
    assert_eq!(r.set_cookie, None);
    assert!(r.body.contains("body { background-color: #ffffff; color: #111111; }"));
    assert!(r.body.contains("@media screen and (prefers-color-scheme: dark) { .theme-selector .dark { display: none; } .theme-selector .light { display: inline; } body { background-color: #191919;"));
    assert!(r.body.contains("<body class=\"me\">"));
    assert!(r.body.contains("<a class=\"me active\" href=\"/\">Me</a>"));
}

#[test]
fn home_as_json_is_theme_independent() {
    let mut req = get("/");
    req.accept = Some("application/json".to_string());
    req.query = Some("preferred_color_scheme=dark".to_string());
    let r = cache().serve(&req);
    assert_eq!(r.status, 200);
    assert_eq!(r.content_type, Some(ContentType::Json));
    assert_eq!(ContentType::Json.header_value(), "application/json");
    assert_eq!(r.body, "{\"content\":\"<div class=\\\"content\\\"><p>Hello</p></div>\"}");
    assert_eq!(r.set_cookie, Some("color_scheme=dark; Path=/".to_string()));
    req.query = None;
    req.cookie = Some("color_scheme=light".to_string());
    let plain = cache().serve(&req);
    assert_eq!(plain.body, r.body);
    assert_eq!(plain.set_cookie, None);
}

#[test]
fn accept_must_match_exactly() {
    let mut req = get("/");
    req.accept = Some("application/json, text/html".to_string());
    let r = cache().serve(&req);
    assert_eq!(r.content_type, Some(ContentType::Html));
}

#[test]
fn query_dark_sets_cookie_and_serves_dark_only() {
    let mut req = get("/");
    req.query = Some("preferred_color_scheme=dark".to_string());
    req.cookie = Some("color_scheme=light".to_string());
    let r = cache().serve(&req);
    assert_eq!(r.status, 200);
    assert_eq!(r.set_cookie, Some("color_scheme=dark; Path=/".to_string()));
    assert!(r.body.contains(".theme-selector .dark { display: none; } body { background-color: #191919;"));
    assert!(!r.body.contains("#ffffff; color: #111111"));
    assert!(!r.body.contains("@media"));
}

#[test]
fn cookie_light_serves_light_only_without_set_cookie() {
    let mut req = get("/people");
    req.cookie = Some("lang=en; color_scheme=light".to_string());
    let r = cache().serve(&req);
    assert_eq!(r.status, 200);
    assert_eq!(r.set_cookie, None);
    assert!(r.body.contains("body { background-color: #ffffff; color: #111111; }"));
    assert!(!r.body.contains("#191919"));
    assert!(!r.body.contains("@media"));
    assert!(r.body.contains("<a class=\"people active\" href=\"/people\">People</a>"));
}

#[test]
fn unknown_query_and_cookie_fall_back_to_unspecified() {
    let mut req = get("/projects");
    req.query = Some("preferred_color_scheme=blue".to_string());
    req.cookie = Some("color_scheme=blue".to_string());
    let r = cache().serve(&req);
    assert_eq!(r.set_cookie, None);
    assert!(r.body.contains("@media"));
}

#[test]
fn query_light_sets_light_cookie() {
    let mut req = get("/articles");
    req.query = Some("preferred_color_scheme=light".to_string());
    let r = cache().serve(&req);
    assert_eq!(r.set_cookie, Some("color_scheme=light; Path=/".to_string()));
    assert!(r.body.contains("<li><a href=\"/2024/01/local\">Local</a></li>"));
}

#[test]
fn post_is_not_allowed() {
    let mut req = get("/");
    req.method = "POST".to_string();
    let r = cache().serve(&req);
    assert_eq!(r.status, 405);
    assert_eq!(r.body, "Method Not Allowed");
    assert_eq!(r.content_type, None);
}

#[test]
fn unknown_path_is_not_found() {
    let r = cache().serve(&get("/does-not-exist"));
    assert_eq!(r.status, 404);
    assert_eq!(r.body, "Not Found");
    let mut req = get("/does-not-exist");
    req.query = Some("preferred_color_scheme=dark".to_string());
    assert_eq!(cache().serve(&req).set_cookie, None);
}

#[test]
fn static_assets_pass_through() {
    let c = cache();
    let js = c.serve(&get("/main.js"));
    assert_eq!((js.status, js.content_type, js.body.as_str()), (200, Some(ContentType::Javascript), "console.log('main')"));
    let prism = c.serve(&get("/prism.js"));
    assert_eq!(prism.body, "console.log('prism')");
    let css = c.serve(&get("/prism.css"));
    assert_eq!((css.content_type, css.body.as_str()), (Some(ContentType::Css), "pre.prism{}"));
    assert_eq!(ContentType::Javascript.header_value(), "application/javascript");
    assert_eq!(ContentType::Css.header_value(), "text/css");
    assert!(!css.vary_accept);
}

#[test]
fn hosted_article_gets_highlighter() {
    let r = cache().serve(&get("/2024/01/local"));
    assert_eq!(r.status, 200);
    assert!(r.body.contains("pre.prism{}</style>"));
    assert!(r.body.contains("<script src=\"/prism.js\"></script></html>"));
    assert!(r.body.contains("<a class=\"articles active\" href=\"/articles\">Articles</a>"));
    assert_eq!(cache().serve(&get("https://example.com/post")).status, 404);
}

#[test]
fn identical_requests_get_identical_bodies() {
    let c = cache();
    let mut req = get("/people");
    req.cookie = Some("color_scheme=dark".to_string());
    let first = c.serve(&req);
    for _ in 0..3 {
        let again = c.serve(&req);
        assert_eq!(again.body, first.body);
        assert_eq!(again.status, first.status);
        assert_eq!(again.set_cookie, first.set_cookie);
    }
}
