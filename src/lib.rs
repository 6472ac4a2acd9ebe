//! A personal website's page-variant cache: colour-scheme CSS derived from
//! fixed palettes, documents assembled once per page and theme, and a
//! per-request negotiation that picks among the pre-rendered variants.
pub mod cache;
pub mod color_scheme;
pub mod cookie;
pub mod document;
pub mod json;
pub mod site;
pub mod text;
