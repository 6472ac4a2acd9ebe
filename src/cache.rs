//! The variant cache, built once before serving, and the negotiation that
//! answers each request from it.
use vstd::prelude::*;

use crate::color_scheme::{PreferredColorScheme, TextColors};
use crate::cookie::{cookie_value, get_cookie};
use crate::document::StaticAssets;
use crate::json::{generate_json_pages, json_page, json_string_of};
use crate::site::{
    generate_static_pages, get_page_defs, page_def_view, spec_build_document, spec_page_defs,
    PageDef, RenderedPage, SiteContent,
};

verus! {

/// The body stored for `path` among `pages`; where several share a path,
/// the last one counts.
pub open spec fn lookup(pages: Seq<RenderedPage>, path: Seq<char>) -> Option<Seq<char>>
    decreases pages.len(),
{
    if pages.len() == 0 {
        None
    } else if pages.last().href@ == path {
        Some(pages.last().body@)
    } else {
        lookup(pages.drop_last(), path)
    }
}

/// Every page pre-rendered in each variant, with the assets served as they
/// are.
pub struct VariantCache {
    /// HTML for clients with no stored preference.
    pub pages: Vec<RenderedPage>,
    pub dark_pages: Vec<RenderedPage>,
    pub light_pages: Vec<RenderedPage>,
    pub json_pages: Vec<RenderedPage>,
    pub assets: StaticAssets,
}

/// `rendered` holds, in order, each page of `defs` as HTML for `color_scheme`.
pub open spec fn html_variants(
    rendered: Seq<RenderedPage>,
    defs: Seq<(Seq<char>, Seq<char>, Seq<char>)>,
    color_scheme: PreferredColorScheme,
    assets: &StaticAssets,
    text: &TextColors,
) -> bool {
    &&& rendered.len() == defs.len()
    &&& forall|i: int|
        0 <= i < defs.len() ==> (#[trigger] rendered[i]).href@ == defs[i].1 && rendered[i].body@
            == spec_build_document(defs[i].0, defs[i].2, color_scheme, assets, text)
}

/// `rendered` holds, in order, each page of `defs` as a JSON object.
pub open spec fn json_variants(
    rendered: Seq<RenderedPage>,
    defs: Seq<(Seq<char>, Seq<char>, Seq<char>)>,
) -> bool {
    &&& rendered.len() == defs.len()
    &&& forall|i: int|
        0 <= i < defs.len() ==> (#[trigger] rendered[i]).href@ == defs[i].1 && rendered[i].body@
            == json_page(json_string_of(defs[i].2))
}

impl VariantCache {
    /// The cache holds every page of `content` in every variant.
    pub open spec fn holds(&self, content: &SiteContent, text: &TextColors) -> bool {
        let defs = spec_page_defs(content);
        &&& html_variants(self.pages@, defs, PreferredColorScheme::Unspecified, &self.assets, text)
        &&& html_variants(self.dark_pages@, defs, PreferredColorScheme::Dark, &self.assets, text)
        &&& html_variants(self.light_pages@, defs, PreferredColorScheme::Light, &self.assets, text)
        &&& json_variants(self.json_pages@, defs)
    }

    /// Renders every page of `content` in every variant.
    pub fn build(content: &SiteContent, assets: StaticAssets, text: &TextColors) -> (cache:
        VariantCache)
        requires
            text.wf(),
        ensures
            cache.holds(content, text),
            cache.assets == assets,
    {
        let defs = get_page_defs(content);
        let ghost view = defs@.map_values(|p: PageDef| page_def_view(p));
        assert(forall|i: int| 0 <= i < defs.len() ==> #[trigger] view[i] == page_def_view(defs@[i]));
        let pages = generate_static_pages(&defs, PreferredColorScheme::Unspecified, &assets, text);
        let dark_pages = generate_static_pages(&defs, PreferredColorScheme::Dark, &assets, text);
        let light_pages = generate_static_pages(&defs, PreferredColorScheme::Light, &assets, text);
        let json_pages = generate_json_pages(&defs);
        VariantCache { pages, dark_pages, light_pages, json_pages, assets }
    }
}

/// Which stored variant a request is answered from.
#[derive(Clone, Copy, Debug, PartialEq, Eq, Structural)]
pub enum ContentType {
    Html,
    Json,
    Javascript,
    Css,
}

/// The `Content-Type` header value of a content type.
pub open spec fn spec_content_type_value(t: ContentType) -> Seq<char> {
    match t {
        ContentType::Html => "text/html; charset=UTF-8"@,
        ContentType::Json => "application/json"@,
        ContentType::Javascript => "application/javascript"@,
        ContentType::Css => "text/css"@,
    }
}

impl ContentType {
    /// The `Content-Type` header value.
    pub fn header_value(&self) -> (v: &'static str)
        ensures
            v@ == spec_content_type_value(*self),
    {
        match self {
            ContentType::Html => "text/html; charset=UTF-8",
            ContentType::Json => "application/json",
            ContentType::Javascript => "application/javascript",
            ContentType::Css => "text/css",
        }
    }
}

/// What a request carries that the answer depends on. Header values that
/// are absent, or not text, are `None`.
pub struct Request {
    pub method: String,
    pub path: String,
    pub query: Option<String>,
    pub accept: Option<String>,
    pub cookie: Option<String>,
}

pub struct RequestView {
    pub method: Seq<char>,
    pub path: Seq<char>,
    pub query: Option<Seq<char>>,
    pub accept: Option<Seq<char>>,
    pub cookie: Option<Seq<char>>,
}

pub open spec fn opt_view(s: Option<String>) -> Option<Seq<char>> {
    match s {
        Some(t) => Some(t@),
        None => None,
    }
}

impl View for Request {
    type V = RequestView;

    open spec fn view(&self) -> RequestView {
        RequestView {
            method: self.method@,
            path: self.path@,
            query: opt_view(self.query),
            accept: opt_view(self.accept),
            cookie: opt_view(self.cookie),
        }
    }
}

/// An answer: status, headers and body.
pub struct Response {
    pub status: u16,
    pub content_type: Option<ContentType>,
    /// Whether the answer carries `Vary: Accept`.
    pub vary_accept: bool,
    /// The value of a `Set-Cookie` header, if one is sent.
    pub set_cookie: Option<String>,
    pub body: String,
}

pub struct ResponseView {
    pub status: u16,
    pub content_type: Option<ContentType>,
    pub vary_accept: bool,
    pub set_cookie: Option<Seq<char>>,
    pub body: Seq<char>,
}

impl View for Response {
    type V = ResponseView;

    open spec fn view(&self) -> ResponseView {
        ResponseView {
            status: self.status,
            content_type: self.content_type,
            vary_accept: self.vary_accept,
            set_cookie: opt_view(self.set_cookie),
            body: self.body@,
        }
    }
}

/// The theme that the query string asks for: only the exact texts
/// `preferred_color_scheme=light` and `preferred_color_scheme=dark` count.
pub open spec fn query_override(query: Option<Seq<char>>) -> PreferredColorScheme {
    match query {
        Some(q) => if q == "preferred_color_scheme=light"@ {
            PreferredColorScheme::Light
        } else if q == "preferred_color_scheme=dark"@ {
            PreferredColorScheme::Dark
        } else {
            PreferredColorScheme::Unspecified
        },
        None => PreferredColorScheme::Unspecified,
    }
}

/// The theme that the `color_scheme` cookie stores.
pub open spec fn cookie_preference(cookie: Option<Seq<char>>) -> PreferredColorScheme {
    match cookie {
        Some(header) => match cookie_value(header, "color_scheme"@) {
            Some(v) => if v == "light"@ {
                PreferredColorScheme::Light
            } else if v == "dark"@ {
                PreferredColorScheme::Dark
            } else {
                PreferredColorScheme::Unspecified
            },
            None => PreferredColorScheme::Unspecified,
        },
        None => PreferredColorScheme::Unspecified,
    }
}

/// The query's choice wins; without one, the stored cookie decides.
pub open spec fn effective_preference(req: RequestView) -> PreferredColorScheme {
    let o = query_override(req.query);
    if o != PreferredColorScheme::Unspecified {
        o
    } else {
        cookie_preference(req.cookie)
    }
}

/// JSON is sent only for an `Accept` header that is exactly
/// `application/json`.
pub open spec fn wants_json(accept: Option<Seq<char>>) -> bool {
    accept == Some("application/json"@)
}

/// The cookie that keeps a choice made in the query; none without one.
pub open spec fn spec_color_scheme_cookie(o: PreferredColorScheme) -> Option<Seq<char>> {
    match o {
        PreferredColorScheme::Dark => Some("color_scheme=dark; Path=/"@),
        PreferredColorScheme::Light => Some("color_scheme=light; Path=/"@),
        PreferredColorScheme::Unspecified => None,
    }
}

pub open spec fn html_pages(cache: &VariantCache, p: PreferredColorScheme) -> Seq<RenderedPage> {
    match p {
        PreferredColorScheme::Dark => cache.dark_pages@,
        PreferredColorScheme::Light => cache.light_pages@,
        PreferredColorScheme::Unspecified => cache.pages@,
    }
}

pub open spec fn plain(status: u16, body: Seq<char>) -> ResponseView {
    ResponseView { status, content_type: None, vary_accept: false, set_cookie: None, body }
}

pub open spec fn asset(t: ContentType, body: Seq<char>) -> ResponseView {
    ResponseView {
        status: 200,
        content_type: Some(t),
        vary_accept: false,
        set_cookie: None,
        body,
    }
}

/// The answer to a request.
pub open spec fn spec_serve(cache: &VariantCache, req: RequestView) -> ResponseView {
    if req.method != "GET"@ {
        plain(405, "Method Not Allowed"@)
    } else if req.path == "/main.js"@ {
        asset(ContentType::Javascript, cache.assets.main_js@)
    } else if req.path == "/prism.js"@ {
        asset(ContentType::Javascript, cache.assets.prism_js@)
    } else if req.path == "/prism.css"@ {
        asset(ContentType::Css, cache.assets.prism_css@)
    } else {
        let json = wants_json(req.accept);
        let pages = if json {
            cache.json_pages@
        } else {
            html_pages(cache, effective_preference(req))
        };
        match lookup(pages, req.path) {
            Some(body) => ResponseView {
                status: 200,
                content_type: Some(
                    if json {
                        ContentType::Json
                    } else {
                        ContentType::Html
                    },
                ),
                vary_accept: true,
                set_cookie: spec_color_scheme_cookie(query_override(req.query)),
                body,
            },
            None => plain(404, "Not Found"@),
        }
    }
}

fn text_is(s: &String, literal: &str) -> (r: bool)
    ensures
        r == (s@ == literal@),
{
    *s == String::from_str(literal)
}

fn opt_text_is(s: &Option<String>, literal: &str) -> (r: bool)
    ensures
        r == (opt_view(*s) == Some(literal@)),
{
    match s {
        Some(t) => text_is(t, literal),
        None => false,
    }
}

/// The theme asked for in a request's query string.
pub fn color_scheme_override(query: &Option<String>) -> (p: PreferredColorScheme)
    ensures
        p == query_override(opt_view(*query)),
{
    if opt_text_is(query, "preferred_color_scheme=light") {
        PreferredColorScheme::Light
    } else if opt_text_is(query, "preferred_color_scheme=dark") {
        PreferredColorScheme::Dark
    } else {
        PreferredColorScheme::Unspecified
    }
}

/// The theme stored in a `Cookie` header.
pub fn stored_color_scheme(cookie: &Option<String>) -> (p: PreferredColorScheme)
    ensures
        p == cookie_preference(opt_view(*cookie)),
{
    match cookie {
        Some(header) => match get_cookie(header.as_str(), "color_scheme") {
            Some(v) => {
                let v = String::from_str(v);
                if text_is(&v, "light") {
                    PreferredColorScheme::Light
                } else if text_is(&v, "dark") {
                    PreferredColorScheme::Dark
                } else {
                    PreferredColorScheme::Unspecified
                }
            },
            None => PreferredColorScheme::Unspecified,
        },
        None => PreferredColorScheme::Unspecified,
    }
}

/// The `Set-Cookie` value that keeps a theme chosen in the query.
pub fn color_scheme_cookie(color_scheme_override: PreferredColorScheme) -> (c: Option<String>)
    ensures
        opt_view(c) == spec_color_scheme_cookie(color_scheme_override),
{
    match color_scheme_override {
        PreferredColorScheme::Dark => Some(String::from_str("color_scheme=dark; Path=/")),
        PreferredColorScheme::Light => Some(String::from_str("color_scheme=light; Path=/")),
        PreferredColorScheme::Unspecified => None,
    }
}

/// The position of the page stored for `path`, the last one if several are.
fn find_page(pages: &Vec<RenderedPage>, path: &String) -> (r: Option<usize>)
    ensures
        r matches Some(i) ==> i < pages.len() && lookup(pages@, path@) == Some(pages@[i as int].body@),
        r is None ==> lookup(pages@, path@) is None,
{
    let mut i: usize = pages.len();
    assert(pages@.subrange(0, i as int) =~= pages@);
    while i > 0
        invariant
            i <= pages.len(),
            lookup(pages@, path@) == lookup(pages@.subrange(0, i as int), path@),
        decreases i,
    {
        let ghost prefix = pages@.subrange(0, i as int);
        if pages[i - 1].href == *path {
            return Some(i - 1);
        }
        assert(prefix.drop_last() =~= pages@.subrange(0, i - 1));
        i = i - 1;
    }
    assert(pages@.subrange(0, 0) =~= Seq::<RenderedPage>::empty());
    None
}

fn page_response(
    pages: &Vec<RenderedPage>,
    path: &String,
    content_type: ContentType,
    set_cookie: Option<String>,
) -> (r: Response)
    ensures
        r@ == (match lookup(pages@, path@) {
            Some(body) => ResponseView {
                status: 200,
                content_type: Some(content_type),
                vary_accept: true,
                set_cookie: opt_view(set_cookie),
                body,
            },
            None => plain(404, "Not Found"@),
        }),
{
    match find_page(pages, path) {
        Some(i) => Response {
            status: 200,
            content_type: Some(content_type),
            vary_accept: true,
            set_cookie,
            body: pages[i].body.clone(),
        },
        None => Response {
            status: 404,
            content_type: None,
            vary_accept: false,
            set_cookie: None,
            body: String::from_str("Not Found"),
        },
    }
}

fn asset_response(content_type: ContentType, body: &String) -> (r: Response)
    ensures
        r@ == asset(content_type, body@),
{
    Response {
        status: 200,
        content_type: Some(content_type),
        vary_accept: false,
        set_cookie: None,
        body: body.clone(),
    }
}

impl VariantCache {
    /// Answers a request from the cache; the cache is never changed.
    pub fn serve(&self, req: &Request) -> (r: Response)
        ensures
            r@ == spec_serve(self, req@),
    {
        if !text_is(&req.method, "GET") {
            return Response {
                status: 405,
                content_type: None,
                vary_accept: false,
                set_cookie: None,
                body: String::from_str("Method Not Allowed"),
            };
        }
        if text_is(&req.path, "/main.js") {
            return asset_response(ContentType::Javascript, &self.assets.main_js);
        } else if text_is(&req.path, "/prism.js") {
            return asset_response(ContentType::Javascript, &self.assets.prism_js);
        } else if text_is(&req.path, "/prism.css") {
            return asset_response(ContentType::Css, &self.assets.prism_css);
        }
        let o = color_scheme_override(&req.query);
        let set_cookie = color_scheme_cookie(o);
        if opt_text_is(&req.accept, "application/json") {
            page_response(&self.json_pages, &req.path, ContentType::Json, set_cookie)
        } else {
            let preferred = if o == PreferredColorScheme::Unspecified {
                stored_color_scheme(&req.cookie)
            } else {
                o
            };
            let pages = match preferred {
                PreferredColorScheme::Dark => &self.dark_pages,
                PreferredColorScheme::Light => &self.light_pages,
                PreferredColorScheme::Unspecified => &self.pages,
            };
            page_response(pages, &req.path, ContentType::Html, set_cookie)
        }
    }
}

proof fn lemma_lookup_finds(pages: Seq<RenderedPage>, path: Seq<char>, i: int)
    requires
        0 <= i < pages.len(),
        pages[i].href@ == path,
        forall|j: int| i < j < pages.len() ==> (#[trigger] pages[j]).href@ != path,
    ensures
        lookup(pages, path) == Some(pages[i].body@),
    decreases pages.len(),
{
    if i < pages.len() - 1 {
        let shorter = pages.drop_last();
        assert forall|j: int| i < j < shorter.len() implies (#[trigger] shorter[j]).href@ != path by {
            assert(shorter[j] == pages[j]);
        }
        lemma_lookup_finds(shorter, path, i);
    }
}

/// The path of the `i`-th page of `content` is no asset's path and no later
/// page shares it.
pub open spec fn serves_page(content: &SiteContent, i: int) -> bool {
    let defs = spec_page_defs(content);
    &&& 0 <= i < defs.len()
    &&& defs[i].1 != "/main.js"@
    &&& defs[i].1 != "/prism.js"@
    &&& defs[i].1 != "/prism.css"@
    &&& forall|j: int| i < j < defs.len() ==> (#[trigger] defs[j]).1 != defs[i].1
}

/// A GET for a page's path is answered 200 with that page's variant: its
/// JSON object when `Accept` is exactly `application/json`, whatever the
/// cookie and query; otherwise its HTML for the preference that the query,
/// or failing that the cookie, gives. A `Set-Cookie` is sent exactly when
/// the query chose a theme, for either kind of content.
pub proof fn lemma_page_requests_answered(
    cache: &VariantCache,
    content: &SiteContent,
    text: &TextColors,
    req: RequestView,
    i: int,
)
    requires
        cache.holds(content, text),
        serves_page(content, i),
        req.method == "GET"@,
        req.path == spec_page_defs(content)[i].1,
    ensures
        ({
            let def = spec_page_defs(content)[i];
            let r = spec_serve(cache, req);
            &&& r.status == 200
            &&& r.vary_accept
            &&& r.set_cookie == spec_color_scheme_cookie(query_override(req.query))
            &&& (r.set_cookie is Some <==> (req.query == Some("preferred_color_scheme=light"@)
                || req.query == Some("preferred_color_scheme=dark"@)))
            &&& wants_json(req.accept) ==> r.content_type == Some(ContentType::Json) && r.body
                == json_page(json_string_of(def.2))
            &&& !wants_json(req.accept) ==> r.content_type == Some(ContentType::Html) && r.body
                == spec_build_document(
                def.0,
                def.2,
                effective_preference(req),
                &cache.assets,
                text,
            )
        }),
{
    let defs = spec_page_defs(content);
    let path = defs[i].1;
    let pages = if wants_json(req.accept) {
        cache.json_pages@
    } else {
        html_pages(cache, effective_preference(req))
    };
    assert(pages.len() == defs.len());
    assert forall|j: int| i < j < pages.len() implies (#[trigger] pages[j]).href@ != path by {
        assert(pages[j].href@ == defs[j].1);
    }
    lemma_lookup_finds(pages, path, i);
    reveal_strlit("preferred_color_scheme=light");
    reveal_strlit("preferred_color_scheme=dark");
}

/// The cache is a constant: identical requests get identical answers,
/// byte for byte.
pub proof fn lemma_identical_requests_identical_answers(
    cache: &VariantCache,
    first: RequestView,
    second: RequestView,
)
    requires
        first == second,
    ensures
        spec_serve(cache, first) == spec_serve(cache, second),
        spec_serve(cache, first).body == spec_serve(cache, second).body,
{
}

} // verus!
