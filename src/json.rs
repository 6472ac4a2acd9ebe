//! The JSON variant of a page: `{"content":...}` with the content as a JSON
//! string.
use vstd::prelude::*;

use crate::color_scheme::hex_char;
use crate::site::{PageDef, RenderedPage};

verus! {

#[verifier::external_type_specification]
#[verifier::external_body]
pub struct ExJsonError(serde_json::Error);

/// A character inside a JSON string: quote and backslash escaped with a
/// backslash, backspace, tab, line feed, form feed and carriage return by
/// their short escapes, other characters below U+0020 as `\u00` and two
/// lower-case hex digits, everything else as it is.
pub open spec fn json_escape_char(c: char) -> Seq<char> {
    if c == '"' {
        seq!['\\', '"']
    } else if c == '\\' {
        seq!['\\', '\\']
    } else if c == '\u{8}' {
        seq!['\\', 'b']
    } else if c == '\t' {
        seq!['\\', 't']
    } else if c == '\n' {
        seq!['\\', 'n']
    } else if c == '\u{c}' {
        seq!['\\', 'f']
    } else if c == '\r' {
        seq!['\\', 'r']
    } else if (c as int) < 0x20 {
        seq!['\\', 'u', '0', '0', hex_char(c as int / 16), hex_char(c as int % 16)]
    } else {
        seq![c]
    }
}

pub open spec fn json_escaped(s: Seq<char>) -> Seq<char>
    decreases s.len(),
{
    if s.len() == 0 {
        seq![]
    } else {
        json_escaped(s.drop_last()) + json_escape_char(s.last())
    }
}

/// The JSON string literal for a text: its characters escaped, in quotes.
pub open spec fn json_string_of(s: Seq<char>) -> Seq<char> {
    seq!['"'] + json_escaped(s) + seq!['"']
}

/// Relies on `serde_json::to_string` applied to a `str`: it writes the
/// quoted, escaped text into a `Vec<u8>`, whose writes never fail, so it
/// returns `Ok` with the literal.
#[verifier::external_body]
fn json_string(s: &str) -> (r: Result<String, serde_json::Error>)
    ensures
        r is Ok,
        r matches Ok(j) ==> j@ == json_string_of(s@),
{
    serde_json::to_string(s)
}

/// The JSON object of a page whose content is given as a JSON string
/// literal.
pub open spec fn json_page(content_literal: Seq<char>) -> Seq<char> {
    "{\"content\":"@ + content_literal + "}"@
}

/// Frames an already encoded string literal as a page's JSON object.
pub fn json_page_from_literal(content_literal: &str) -> (json: String)
    ensures
        json@ == json_page(content_literal@),
{
    let mut json = String::from_str("{\"content\":");
    json.append(content_literal);
    json.append("}");
    json
}

/// A page's JSON object, `{"content":...}`.
pub fn generate_json_page(content: &str) -> (json: String)
    ensures
        json@ == json_page(json_string_of(content@)),
{
    match json_string(content) {
        Ok(literal) => json_page_from_literal(literal.as_str()),
        Err(_) => {
            assert(false);
            String::new()
        },
    }
}

/// Every page's JSON object, in the order of `pages`.
pub fn generate_json_pages(pages: &Vec<PageDef>) -> (rendered: Vec<RenderedPage>)
    ensures
        rendered.len() == pages.len(),
        forall|i: int|
            0 <= i < pages.len() ==> (#[trigger] rendered[i]).href@ == pages[i].href@
                && rendered[i].body@ == json_page(json_string_of(pages[i].content@)),
{
    let mut rendered: Vec<RenderedPage> = Vec::new();
    let mut i: usize = 0;
    while i < pages.len()
        invariant
            i <= pages.len(),
            rendered.len() == i,
            forall|j: int|
                0 <= j < i ==> (#[trigger] rendered[j]).href@ == pages[j].href@
                    && rendered[j].body@ == json_page(json_string_of(pages[j].content@)),
        decreases pages.len() - i,
    {
        let p = &pages[i];
        let body = generate_json_page(p.content.as_str());
        rendered.push(RenderedPage { href: p.href.clone(), body });
        i = i + 1;
    }
    rendered
}

} // verus!
