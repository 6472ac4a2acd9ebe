//! The pages of the site: navigation menu, article index, the list of pages
//! drawn from the supplied content, and each page rendered for one
//! colour-scheme preference.
use vstd::prelude::*;

use crate::color_scheme::{PreferredColorScheme, TextColors};
use crate::document::{
    has_code, head_close, highlighter_script, spec_document, spec_head, Document, StaticAssets,
};
use crate::color_scheme::spec_generate_css;
use crate::text::{
    count_char, count_occurrences, lemma_count_absent, lemma_count_concat, lemma_occurrence_kept,
    lemma_occurrences_at_most_char_count,
};

verus! {

/// One entry of the navigation menu: page class, link target, title.
pub open spec fn menu_entries() -> Seq<(Seq<char>, Seq<char>, Seq<char>)> {
    seq![
        ("me"@, "/"@, "Me"@),
        ("people"@, "/people"@, "People"@),
        ("projects"@, "/projects"@, "Projects"@),
        ("articles"@, "/articles"@, "Articles"@),
    ]
}

/// A menu entry; the anchor's classes are the page class, plus `active`
/// on the entry of the page being shown.
pub open spec fn menu_item(page: Seq<char>, href: Seq<char>, title: Seq<char>, active: bool) -> Seq<
    char,
> {
    "<li><a class=\""@ + page + (if active {
        " active"@
    } else {
        seq![]
    }) + "\" href=\""@ + href + "\">"@ + title + "</a></li>"@
}

/// The menu's entries as shown on the page of class `active_page`.
pub open spec fn menu_items(active_page: Seq<char>) -> Seq<Seq<char>> {
    menu_entries().map_values(
        |e: (Seq<char>, Seq<char>, Seq<char>)| menu_item(e.0, e.1, e.2, e.0 == active_page),
    )
}

pub open spec fn spec_menu(active_page: Seq<char>) -> Seq<char> {
    let items = menu_items(active_page);
    "<ul class=\"menu\">"@ + items[0] + items[1] + items[2] + items[3] + "</ul>"@
}

/// The links that let a visitor pick a theme.
pub open spec fn theme_selector() -> Seq<char> {
    "<div class=\"theme-selector\">\n    <a class=\"dark\" href=\"?preferred_color_scheme=dark\">Dark theme</a>\n    <a class=\"light\" href=\"?preferred_color_scheme=light\">Light theme</a>\n</div>"@
}

/// The body element of a page: class, theme selector, menu, content.
pub open spec fn spec_page_body(page: Seq<char>, content: Seq<char>) -> Seq<char> {
    "<body class=\""@ + page + "\">"@ + theme_selector() + spec_menu(page) + content + "</body>"@
}

pub open spec fn spec_build_document(
    page: Seq<char>,
    content: Seq<char>,
    color_scheme: PreferredColorScheme,
    assets: &StaticAssets,
    text: &TextColors,
) -> Seq<char> {
    spec_document(spec_page_body(page, content), color_scheme, assets, text)
}

/// One menu entry.
pub fn build_menu_item(page: &str, href: &str, title: &str, active_page: &str) -> (item: String)
    ensures
        item@ == menu_item(page@, href@, title@, page@ == active_page@),
{
    let mut item = String::from_str("<li><a class=\"");
    item.append(page);
    let active = String::from_str(page) == String::from_str(active_page);
    if active {
        item.append(" active");
    }
    item.append("\" href=\"");
    item.append(href);
    item.append("\">");
    item.append(title);
    item.append("</a></li>");
    assert(item@ =~= menu_item(page@, href@, title@, page@ == active_page@));
    item
}

/// The navigation menu, with the entry of `active_page` marked.
pub fn build_menu(active_page: &str) -> (menu: String)
    ensures
        menu@ == spec_menu(active_page@),
{
    let me = build_menu_item("me", "/", "Me", active_page);
    let people = build_menu_item("people", "/people", "People", active_page);
    let projects = build_menu_item("projects", "/projects", "Projects", active_page);
    let articles = build_menu_item("articles", "/articles", "Articles", active_page);
    let mut menu = String::from_str("<ul class=\"menu\">");
    menu.append(me.as_str());
    menu.append(people.as_str());
    menu.append(projects.as_str());
    menu.append(articles.as_str());
    menu.append("</ul>");
    assert(menu@ =~= spec_menu(active_page@));
    menu
}

/// The entries that carry `active` on the page of class `active_page` are
/// exactly those of that class; since the menu's classes differ, a page of
/// one of them has exactly one marked entry.
pub proof fn lemma_only_active_entry_marked(active_page: Seq<char>)
    ensures
        forall|i: int|
            0 <= i < 4 ==> (#[trigger] menu_items(active_page)[i] == menu_item(
                menu_entries()[i].0,
                menu_entries()[i].1,
                menu_entries()[i].2,
                true,
            ) <==> menu_entries()[i].0 == active_page),
        forall|i: int, j: int|
            0 <= i < 4 && 0 <= j < 4 && i != j && #[trigger] menu_entries()[i].0 == active_page
                ==> #[trigger] menu_entries()[j].0 != active_page,
{
    reveal_strlit("me");
    reveal_strlit("people");
    reveal_strlit("projects");
    reveal_strlit("articles");
    reveal_strlit(" active");
    assert forall|i: int| 0 <= i < 4 implies (#[trigger] menu_items(active_page)[i] == menu_item(
        menu_entries()[i].0,
        menu_entries()[i].1,
        menu_entries()[i].2,
        true,
    ) <==> menu_entries()[i].0 == active_page) by {
        let e = menu_entries()[i];
        if e.0 != active_page {
            assert(menu_item(e.0, e.1, e.2, true).len() != menu_item(e.0, e.1, e.2, false).len());
        }
    }
    assert("me"@.len() == 2 && "people"@.len() == 6 && "projects"@.len() == 8 && "articles"@.len()
        == 8);
    assert("projects"@[0] != "articles"@[0]);
}

proof fn lemma_absent_count(s: Seq<char>, c: char)
    requires
        forall|i: int| 0 <= i < s.len() ==> s[i] != c,
    ensures
        count_char(s, c) == 0,
{
    lemma_count_absent(s, c);
}

proof fn lemma_menu_item_v_count(page: Seq<char>, href: Seq<char>, title: Seq<char>, active: bool)
    requires
        count_char(page, 'v') == 0,
        count_char(href, 'v') == 0,
        count_char(title, 'v') == 0,
    ensures
        count_char(menu_item(page, href, title, active), 'v') == (if active {
            1nat
        } else {
            0nat
        }),
{
    reveal_strlit("<li><a class=\"");
    reveal_strlit(" active");
    reveal_strlit("\" href=\"");
    reveal_strlit("\">");
    reveal_strlit("</a></li>");
    let l1 = "<li><a class=\""@;
    let l2 = "\" href=\""@;
    let l3 = "\">"@;
    let l4 = "</a></li>"@;
    let mark: Seq<char> = if active {
        " active"@
    } else {
        seq![]
    };
    lemma_absent_count(l1, 'v');
    lemma_absent_count(l2, 'v');
    lemma_absent_count(l3, 'v');
    lemma_absent_count(l4, 'v');
    if active {
        let a = " acti"@;
        reveal_strlit(" acti");
        assert(" active"@ =~= a + seq!['v'] + seq!['e']);
        lemma_absent_count(a, 'v');
        lemma_absent_count(seq!['e'], 'v');
        assert(seq!['v'].drop_last() =~= Seq::<char>::empty());
        assert(count_char(seq!['v'].drop_last(), 'v') == 0);
        assert(count_char(seq!['v'], 'v') == 1);
        lemma_count_concat(a, seq!['v'], 'v');
        lemma_count_concat(a + seq!['v'], seq!['e'], 'v');
    } else {
        assert(count_char(mark, 'v') == 0);
    }
    lemma_count_concat(l1, page, 'v');
    lemma_count_concat(l1 + page, mark, 'v');
    lemma_count_concat(l1 + page + mark, l2, 'v');
    lemma_count_concat(l1 + page + mark + l2, href, 'v');
    lemma_count_concat(l1 + page + mark + l2 + href, l3, 'v');
    lemma_count_concat(l1 + page + mark + l2 + href + l3, title, 'v');
    lemma_count_concat(l1 + page + mark + l2 + href + l3 + title, l4, 'v');
}

/// The menu marks the word `active` exactly once on a page of one of its
/// classes, and nowhere on any other page.
pub proof fn lemma_menu_marks_one_anchor(active_page: Seq<char>)
    ensures
        count_occurrences(spec_menu(active_page), "active"@) == (if active_page == "me"@
            || active_page == "people"@ || active_page == "projects"@ || active_page
            == "articles"@ {
            1nat
        } else {
            0nat
        }),
{
    lemma_only_active_entry_marked(active_page);
    reveal_strlit("me");
    reveal_strlit("people");
    reveal_strlit("projects");
    reveal_strlit("articles");
    reveal_strlit("/");
    reveal_strlit("/people");
    reveal_strlit("/projects");
    reveal_strlit("/articles");
    reveal_strlit("Me");
    reveal_strlit("People");
    reveal_strlit("Projects");
    reveal_strlit("Articles");
    reveal_strlit("<ul class=\"menu\">");
    reveal_strlit("</ul>");
    reveal_strlit("active");
    let e = menu_entries();
    let items = menu_items(active_page);
    assert forall|i: int| 0 <= i < 4 implies #[trigger] count_char(items[i], 'v') == (if e[i].0
        == active_page {
        1nat
    } else {
        0nat
    }) by {
        lemma_absent_count(e[i].0, 'v');
        lemma_absent_count(e[i].1, 'v');
        lemma_absent_count(e[i].2, 'v');
        lemma_menu_item_v_count(e[i].0, e[i].1, e[i].2, e[i].0 == active_page);
    }
    let open = "<ul class=\"menu\">"@;
    let close = "</ul>"@;
    lemma_absent_count(open, 'v');
    lemma_absent_count(close, 'v');
    lemma_count_concat(open, items[0], 'v');
    lemma_count_concat(open + items[0], items[1], 'v');
    lemma_count_concat(open + items[0] + items[1], items[2], 'v');
    lemma_count_concat(open + items[0] + items[1] + items[2], items[3], 'v');
    lemma_count_concat(open + items[0] + items[1] + items[2] + items[3], close, 'v');
    let menu = spec_menu(active_page);
    assert("active"@ =~= seq!['a', 'c', 't', 'i', 'v', 'e']);
    assert("active"@[4] == 'v');
    lemma_occurrences_at_most_char_count(menu, "active"@, 4);
    if exists|i: int| 0 <= i < 4 && e[i].0 == active_page {
        let i = choose|i: int| 0 <= i < 4 && e[i].0 == active_page;
        lemma_marked_entry_occurs(active_page, i);
    }
}

proof fn lemma_occurs_between(x: Seq<char>, y: Seq<char>, z: Seq<char>, pat: Seq<char>)
    requires
        pat.len() > 0,
        y.len() >= pat.len(),
        y.subrange(0, pat.len() as int) == pat,
    ensures
        count_occurrences(x + y + z, pat) >= 1,
{
    assert(x + y + z =~= x + (y + z));
    assert((y + z).subrange(0, pat.len() as int) =~= pat);
    lemma_occurrence_kept(x, y + z, pat);
}

proof fn lemma_marked_item_split(page: Seq<char>, href: Seq<char>, title: Seq<char>)
    ensures
        menu_item(page, href, title, true) == ("<li><a class=\""@ + page + seq![' ']) + ("active"@
            + "\" href=\""@ + href + "\">"@ + title + "</a></li>"@),
{
    reveal_strlit(" active");
    reveal_strlit("active");
    assert(menu_item(page, href, title, true) =~= ("<li><a class=\""@ + page + seq![' ']) + (
    "active"@ + "\" href=\""@ + href + "\">"@ + title + "</a></li>"@));
}

proof fn lemma_marked_entry_occurs(active_page: Seq<char>, i: int)
    requires
        0 <= i < 4,
        menu_entries()[i].0 == active_page,
    ensures
        count_occurrences(spec_menu(active_page), "active"@) >= 1,
{
    reveal_strlit("active");
    let e = menu_entries();
    let items = menu_items(active_page);
    let open = "<ul class=\"menu\">"@;
    let close = "</ul>"@;
    let menu = spec_menu(active_page);
    let (x, z) = if i == 0 {
        (open, items[1] + items[2] + items[3] + close)
    } else if i == 1 {
        (open + items[0], items[2] + items[3] + close)
    } else if i == 2 {
        (open + items[0] + items[1], items[3] + close)
    } else {
        (open + items[0] + items[1] + items[2], close)
    };
    assert(menu =~= x + items[i] + z);
    lemma_marked_item_split(e[i].0, e[i].1, e[i].2);
    let a = "<li><a class=\""@ + e[i].0 + seq![' '];
    let b = "active"@ + "\" href=\""@ + e[i].1 + "\">"@ + e[i].2 + "</a></li>"@;
    assert(items[i] == a + b);
    assert(x + items[i] + z =~= (x + a) + b + z);
    assert(b.subrange(0, 6) =~= "active"@);
    lemma_occurs_between(x + a, b, z, "active"@);
}

/// A whole page: its body element framed as a document.
pub fn build_document(
    page: &str,
    content: &str,
    color_scheme: PreferredColorScheme,
    assets: &StaticAssets,
    text: &TextColors,
) -> (html: String)
    requires
        text.wf(),
    ensures
        html@ == spec_build_document(page@, content@, color_scheme, assets, text),
{
    let mut body = String::from_str("<body class=\"");
    body.append(page);
    body.append("\">");
    body.append(
        "<div class=\"theme-selector\">\n    <a class=\"dark\" href=\"?preferred_color_scheme=dark\">Dark theme</a>\n    <a class=\"light\" href=\"?preferred_color_scheme=light\">Light theme</a>\n</div>",
    );
    let menu = build_menu(page);
    body.append(menu.as_str());
    body.append(content);
    body.append("</body>");
    assert(body@ =~= spec_page_body(page@, content@));
    Document::new(body, color_scheme).render(assets, text)
}

/// Every page, for every preference, is one `html` element holding one
/// `head` element and then the page's one `body` element, whose menu is the
/// one of the page's class; only the highlighter script may follow the body.
pub proof fn lemma_page_document_shape(
    page: Seq<char>,
    content: Seq<char>,
    color_scheme: PreferredColorScheme,
    assets: &StaticAssets,
    text: &TextColors,
)
    ensures
        ({
            let body = spec_page_body(page, content);
            let head = spec_head(
                assets,
                spec_generate_css(color_scheme, text.light@, text.dark@),
                has_code(body),
            );
            let tail = if has_code(body) {
                highlighter_script()
            } else {
                seq![]
            };
            &&& spec_build_document(page, content, color_scheme, assets, text)
                == "<!DOCTYPE html><html>"@ + head + body + tail + "</html>"@
            &&& head.subrange(0, 6) == "<head>"@
            &&& head.subrange(head.len() - 7, head.len() as int) == "</head>"@
            &&& body == "<body class=\""@ + page + "\">"@ + theme_selector() + spec_menu(page)
                + content + "</body>"@
        }),
{
    let body = spec_page_body(page, content);
    let head = spec_head(
        assets,
        spec_generate_css(color_scheme, text.light@, text.dark@),
        has_code(body),
    );
    reveal_strlit(
        "<head><title>Arend van Beelen jr.</title><meta name=\"author\" content=\"Arend van Beelen jr.\"><meta name=\"viewport\" content=\"width=device-width, initial-scale=1\"><style>",
    );
    reveal_strlit("</style><script defer src=\"/main.js\" type=\"module\"></script></head>");
    reveal_strlit("<head>");
    reveal_strlit("</head>");
    let close = head_close();
    assert(head.subrange(0, 6) =~= "<head>"@);
    assert(head.subrange(head.len() - close.len(), head.len() as int) =~= close);
    assert(head.subrange(head.len() - 7, head.len() as int) =~= close.subrange(
        close.len() - 7,
        close.len() as int,
    ));
    assert(close.subrange(close.len() - 7, close.len() as int) =~= "</head>"@);
}

/// An article: its title, its address, and its markup when the site hosts
/// it (`None` for one published elsewhere, which is only linked).
pub struct ArticleDef {
    pub title: String,
    pub href: String,
    pub content: Option<String>,
}

/// What the site shows: the markup of the fixed pages and the articles,
/// newest first.
pub struct SiteContent {
    pub index: String,
    pub people: String,
    pub projects: String,
    pub articles: Vec<ArticleDef>,
}

/// A page to render: its class (which selects accent colours and the
/// active menu entry), its path, and its content markup.
pub struct PageDef {
    pub page: String,
    pub href: String,
    pub content: String,
}

pub open spec fn page_def_view(p: PageDef) -> (Seq<char>, Seq<char>, Seq<char>) {
    (p.page@, p.href@, p.content@)
}

pub open spec fn wrap_content(html: Seq<char>) -> Seq<char> {
    "<div class=\"content\">"@ + html + "</div>"@
}

pub open spec fn article_link(a: ArticleDef) -> Seq<char> {
    "<li><a href=\""@ + a.href@ + "\">"@ + a.title@ + "</a></li>"@
}

/// The links to the first `n` articles.
pub open spec fn article_links(articles: Seq<ArticleDef>, n: int) -> Seq<char>
    decreases n,
{
    if n <= 0 {
        seq![]
    } else {
        article_links(articles, n - 1) + article_link(articles[n - 1])
    }
}

pub open spec fn articles_intro() -> Seq<char> {
    "<div class=\"content\"><h1>Articles</h1><p>Not an avid blogger myself, I do write the occassional post. I've listed them here for your enjoyment:</p><ul>"@
}

/// The article index: an introduction and a link to every article.
pub open spec fn spec_articles_content(articles: Seq<ArticleDef>) -> Seq<char> {
    articles_intro() + article_links(articles, articles.len() as int) + "</ul></div>"@
}

/// The content of a hosted article's own page: its title over its markup.
pub open spec fn article_page_content(title: Seq<char>, markup: Seq<char>) -> Seq<char> {
    wrap_content("<h1>"@ + title + "</h1>"@ + markup)
}

/// The pages of the first `n` articles that the site hosts, in order.
pub open spec fn article_pages(articles: Seq<ArticleDef>, n: int) -> Seq<
    (Seq<char>, Seq<char>, Seq<char>),
>
    decreases n,
{
    if n <= 0 {
        seq![]
    } else {
        let a = articles[n - 1];
        let before = article_pages(articles, n - 1);
        match a.content {
            Some(markup) => before.push(
                ("articles"@, a.href@, article_page_content(a.title@, markup@)),
            ),
            None => before,
        }
    }
}

/// Every page of the site: home, people, projects, the article index, then
/// each hosted article.
pub open spec fn spec_page_defs(content: &SiteContent) -> Seq<(Seq<char>, Seq<char>, Seq<char>)> {
    seq![
        ("me"@, "/"@, wrap_content(content.index@)),
        ("people"@, "/people"@, wrap_content(content.people@)),
        ("projects"@, "/projects"@, wrap_content(content.projects@)),
        ("articles"@, "/articles"@, spec_articles_content(content.articles@)),
    ] + article_pages(content.articles@, content.articles.len() as int)
}

fn wrapped(html: &str) -> (s: String)
    ensures
        s@ == wrap_content(html@),
{
    let mut s = String::from_str("<div class=\"content\">");
    s.append(html);
    s.append("</div>");
    s
}

/// The article index.
pub fn generate_articles_content(articles: &Vec<ArticleDef>) -> (html: String)
    ensures
        html@ == spec_articles_content(articles@),
{
    let mut html = String::from_str(
        "<div class=\"content\"><h1>Articles</h1><p>Not an avid blogger myself, I do write the occassional post. I've listed them here for your enjoyment:</p><ul>",
    );
    let mut i: usize = 0;
    while i < articles.len()
        invariant
            i <= articles.len(),
            html@ == articles_intro() + article_links(articles@, i as int),
        decreases articles.len() - i,
    {
        let a = &articles[i];
        html.append("<li><a href=\"");
        html.append(a.href.as_str());
        html.append("\">");
        html.append(a.title.as_str());
        html.append("</a></li>");
        assert(html@ =~= articles_intro() + article_links(articles@, i + 1));
        i = i + 1;
    }
    html.append("</ul></div>");
    html
}

fn page_def(page: &str, href: &str, content: String) -> (p: PageDef)
    ensures
        page_def_view(p) == (page@, href@, content@),
{
    PageDef { page: String::from_str(page), href: String::from_str(href), content }
}

/// The pages to render, drawn from the site's content.
pub fn get_page_defs(content: &SiteContent) -> (pages: Vec<PageDef>)
    ensures
        pages@.map_values(|p: PageDef| page_def_view(p)) == spec_page_defs(content),
{
    let mut pages: Vec<PageDef> = Vec::new();
    pages.push(page_def("me", "/", wrapped(content.index.as_str())));
    pages.push(page_def("people", "/people", wrapped(content.people.as_str())));
    pages.push(page_def("projects", "/projects", wrapped(content.projects.as_str())));
    pages.push(page_def("articles", "/articles", generate_articles_content(&content.articles)));
    let ghost fixed = spec_page_defs(content).subrange(0, 4);
    assert(pages@.map_values(|p: PageDef| page_def_view(p)) =~= fixed);
    let mut i: usize = 0;
    while i < content.articles.len()
        invariant
            i <= content.articles.len(),
            fixed == spec_page_defs(content).subrange(0, 4),
            pages@.map_values(|p: PageDef| page_def_view(p)) == fixed + article_pages(
                content.articles@,
                i as int,
            ),
        decreases content.articles.len() - i,
    {
        let a = &content.articles[i];
        let ghost before = pages@.map_values(|p: PageDef| page_def_view(p));
        assert(a == content.articles@[i as int]);
        match &a.content {
            Some(markup) => {
                let mut inner = String::from_str("<h1>");
                inner.append(a.title.as_str());
                inner.append("</h1>");
                inner.append(markup.as_str());
                let page_content = wrapped(inner.as_str());
                pages.push(page_def("articles", a.href.as_str(), page_content));
                assert(page_content@ == article_page_content(a.title@, markup@)) by {
                    assert(inner@ =~= "<h1>"@ + a.title@ + "</h1>"@ + markup@);
                }
                assert(pages@.map_values(|p: PageDef| page_def_view(p)) =~= before.push(
                    ("articles"@, a.href@, article_page_content(a.title@, markup@)),
                ));
            },
            None => {},
        }
        assert(pages@.map_values(|p: PageDef| page_def_view(p)) =~= fixed + article_pages(
            content.articles@,
            i + 1,
        ));
        i = i + 1;
    }
    assert(spec_page_defs(content) =~= fixed + article_pages(
        content.articles@,
        content.articles.len() as int,
    ));
    pages
}

/// A rendered variant of a page: its path and its body.
pub struct RenderedPage {
    pub href: String,
    pub body: String,
}

/// Every page rendered as HTML for one colour-scheme preference, in the
/// order of `pages`.
pub fn generate_static_pages(
    pages: &Vec<PageDef>,
    color_scheme: PreferredColorScheme,
    assets: &StaticAssets,
    text: &TextColors,
) -> (rendered: Vec<RenderedPage>)
    requires
        text.wf(),
    ensures
        rendered.len() == pages.len(),
        forall|i: int|
            0 <= i < pages.len() ==> (#[trigger] rendered[i]).href@ == pages[i].href@
                && rendered[i].body@ == spec_build_document(
                pages[i].page@,
                pages[i].content@,
                color_scheme,
                assets,
                text,
            ),
{
    let mut rendered: Vec<RenderedPage> = Vec::new();
    let mut i: usize = 0;
    while i < pages.len()
        invariant
            text.wf(),
            i <= pages.len(),
            rendered.len() == i,
            forall|j: int|
                0 <= j < i ==> (#[trigger] rendered[j]).href@ == pages[j].href@
                    && rendered[j].body@ == spec_build_document(
                    pages[j].page@,
                    pages[j].content@,
                    color_scheme,
                    assets,
                    text,
                ),
        decreases pages.len() - i,
    {
        let p = &pages[i];
        let body = build_document(p.page.as_str(), p.content.as_str(), color_scheme, assets, text);
        rendered.push(RenderedPage { href: p.href.clone(), body });
        i = i + 1;
    }
    rendered
}

} // verus!
