//! The logic of Anna Aurora's personal website: page ordering, the
//! markdown post-processing rules, HTML and Atom templates, the ETag
//! revalidation rule and the webring neighbours.
use vstd::prelude::*;

pub mod datetime;
pub mod encoding;
pub mod etag;
pub mod feeds;
pub mod frontmatter;
pub mod listings;
pub mod md_events;
pub mod md_render;
pub mod pages;
pub mod templates;
pub mod text;
pub mod webring;

verus! {

/// The public address of the site, with its trailing slash.
pub const BASE_URL: &'static str = "https://annaaurora.eu/";

/// The content security policy shared by every response.
pub const COMMON_CSP: &'static str = "default-src 'none'; font-src 'self'; img-src 'self'; media-src 'self'; base-uri 'self'; form-action 'none';";

} // verus!
