//! Whole HTML documents: a page body framed by the head that carries the
//! stylesheets for one colour-scheme preference.
use vstd::prelude::*;

use crate::color_scheme::{generate_css, spec_generate_css, PreferredColorScheme, TextColors};
use crate::text::{chars_of, contains_chars, seq_contains};

verus! {

/// The text that marks a body as holding highlighted code blocks.
pub open spec fn code_marker() -> Seq<char> {
    "<code class=\"language-"@
}

/// Whether a body asks for the code highlighter: a plain scan for the
/// marker, not a parse.
pub open spec fn has_code(body: Seq<char>) -> bool {
    seq_contains(body, code_marker())
}

/// The stylesheets and scripts served as they are.
pub struct StaticAssets {
    pub fonts_css: String,
    pub main_css: String,
    pub prism_css: String,
    pub main_js: String,
    pub prism_js: String,
}

pub open spec fn head_open() -> Seq<char> {
    "<head><title>Arend van Beelen jr.</title><meta name=\"author\" content=\"Arend van Beelen jr.\"><meta name=\"viewport\" content=\"width=device-width, initial-scale=1\"><style>"@
}

pub open spec fn head_close() -> Seq<char> {
    "</style><script defer src=\"/main.js\" type=\"module\"></script></head>"@
}

pub open spec fn highlighter_script() -> Seq<char> {
    "<script src=\"/prism.js\"></script>"@
}

/// The head: metadata, then one style element with the fonts, the base
/// layout, the theme rules and, for a body with code, the highlighter's
/// stylesheet; then the deferred module script.
pub open spec fn spec_head(assets: &StaticAssets, theme_css: Seq<char>, code: bool) -> Seq<char> {
    head_open() + assets.fonts_css@ + " "@ + assets.main_css@ + " "@ + theme_css + " "@ + (if code {
        assets.prism_css@
    } else {
        seq![]
    }) + head_close()
}

/// The document for a body and a preference.
pub open spec fn spec_document(
    body: Seq<char>,
    color_scheme: PreferredColorScheme,
    assets: &StaticAssets,
    text: &TextColors,
) -> Seq<char> {
    let code = has_code(body);
    "<!DOCTYPE html><html>"@ + spec_head(
        assets,
        spec_generate_css(color_scheme, text.light@, text.dark@),
        code,
    ) + body + (if code {
        highlighter_script()
    } else {
        seq![]
    }) + "</html>"@
}

/// A page body waiting to be framed for one colour-scheme preference.
pub struct Document {
    pub body: String,
    pub color_scheme: PreferredColorScheme,
}

impl Document {
    pub fn new(body: String, color_scheme: PreferredColorScheme) -> (d: Document)
        ensures
            d.body == body,
            d.color_scheme == color_scheme,
    {
        Document { body, color_scheme }
    }

    /// The complete HTML document.
    pub fn render(&self, assets: &StaticAssets, text: &TextColors) -> (html: String)
        requires
            text.wf(),
        ensures
            html@ == spec_document(self.body@, self.color_scheme, assets, text),
    {
        let body_chars = chars_of(self.body.as_str());
        let marker = chars_of("<code class=\"language-");
        let code = contains_chars(&body_chars, &marker);
        let css = generate_css(self.color_scheme, text);
        let mut html = String::from_str("<!DOCTYPE html><html>");
        html.append(
            "<head><title>Arend van Beelen jr.</title><meta name=\"author\" content=\"Arend van Beelen jr.\"><meta name=\"viewport\" content=\"width=device-width, initial-scale=1\"><style>",
        );
        html.append(assets.fonts_css.as_str());
        html.append(" ");
        html.append(assets.main_css.as_str());
        html.append(" ");
        html.append(css.as_str());
        html.append(" ");
        if code {
            html.append(assets.prism_css.as_str());
        }
        html.append("</style><script defer src=\"/main.js\" type=\"module\"></script></head>");
        let ghost with_head = html@;
        assert(with_head =~= "<!DOCTYPE html><html>"@ + spec_head(assets, css@, code));
        html.append(self.body.as_str());
        if code {
            html.append("<script src=\"/prism.js\"></script>");
        }
        html.append("</html>");
        assert(html@ =~= spec_document(self.body@, self.color_scheme, assets, text));
        html
    }
}

} // verus!
