//! Entity tags for non-HTML responses and answering conditional requests.
use vstd::prelude::*;
use crate::encoding::{base64_encode, base64_text, be_bytes, to_be_bytes};
use crate::text::{push_char, str_eq};

verus! {

/// The 128-bit XXH3 hash of some bytes.
pub uninterp spec fn xxh3_128_of(bytes: Seq<u8>) -> u128;

/// `xxh3_128` of `xxhash-rust`. Trusted: the result is named after the
/// hashed bytes, of which alone it depends.
#[verifier::external_body]
pub fn xxh3_128(bytes: &[u8]) -> (res: u128)
    ensures
        res == xxh3_128_of(bytes@),
{
    xxhash_rust::xxh3::xxh3_128(bytes)
}

/// The tag of a body without its quotes: the big-endian bytes of the body's
/// XXH3-128 hash, base64-encoded without padding.
pub open spec fn bare_tag(body: Seq<u8>) -> Seq<char> {
    base64_text(be_bytes(xxh3_128_of(body)), false)
}

/// The `ETag` header value of a body: its bare tag in double quotes.
pub open spec fn entity_tag(body: Seq<u8>) -> Seq<char> {
    seq!['"'] + bare_tag(body) + seq!['"']
}

/// An `If-None-Match` value the server can read: a double quote, then text
/// that ends with another double quote.
pub open spec fn quoted(v: Seq<char>) -> bool {
    v.len() >= 2 && v[0] == '"' && v[v.len() - 1] == '"'
}

/// The text between the quotes.
pub open spec fn unquoted(v: Seq<char>) -> Seq<char> {
    v.subrange(1, v.len() - 1)
}

/// A successful status code (2xx).
pub open spec fn is_success(status: u16) -> bool {
    200 <= status <= 299
}

/// The content type of pages, which differ on every request because of the
/// style nonce and so are never tagged.
pub open spec fn html_content_type() -> Seq<char> {
    "text/html; charset=utf-8"@
}

/// Whether a response gets an entity tag: successful and not an HTML page.
pub open spec fn is_tagged(status: u16, content_type: Option<Seq<char>>) -> bool {
    is_success(status) && content_type != Some(html_content_type())
}

/// What to do with a response.
pub enum EtagOutcome {
    /// Send the response as it is.
    Untouched,
    /// Send it with this `ETag` value; when `not_modified`, answer
    /// `304 Not Modified` with an empty body instead of the body.
    Tagged { etag: String, not_modified: bool },
}

/// The content type, when present, as text.
pub open spec fn opt_view(v: Option<&str>) -> Option<Seq<char>> {
    match v {
        Some(s) => Some(s@),
        None => None,
    }
}

/// Whether a response gets an entity tag: it is successful and not an
/// HTML page.
pub fn etag_applies(status: u16, content_type: Option<&str>) -> (res: bool)
    ensures
        res == is_tagged(status, opt_view(content_type)),
{
    if !(200 <= status && status <= 299) {
        return false;
    }
    proof {
        reveal_strlit("text/html; charset=utf-8");
    }
    match content_type {
        Some(ct) => !str_eq(ct, "text/html; charset=utf-8"),
        None => true,
    }
}

/// Whether an `If-None-Match` value has the quotes the server reads it by.
pub fn is_quoted(v: &str) -> (res: bool)
    ensures
        res == quoted(v@),
{
    let n = v.unicode_len();
    n >= 2 && v.get_char(0) == '"' && v.get_char(n - 1) == '"'
}

/// The answer to a request: `None` when the response is sent as it is,
/// else the `ETag` value and whether the client's copy is current.
pub open spec fn etag_answer(status: u16, content_type: Option<Seq<char>>, if_none_match: Option<Seq<char>>, body: Seq<u8>) -> Option<(Seq<char>, bool)> {
    if is_tagged(status, content_type) {
        Some((entity_tag(body), if_none_match matches Some(v) && unquoted(v) == bare_tag(body)))
    } else {
        None
    }
}

/// Decides how a response is tagged: a successful non-HTML response gets
/// the entity tag of its body, and when the request's `If-None-Match`
/// carries that tag (between its quotes) the client's copy is current.
/// The `Last-Modified` header is dropped from every response by the caller.
pub fn apply_etag(status: u16, content_type: Option<&str>, if_none_match: Option<&str>, body: &[u8]) -> (res: EtagOutcome)
    requires
        is_success(status) ==> content_type is Some,
        is_tagged(status, opt_view(content_type)) && if_none_match is Some ==> quoted(if_none_match->0@),
    ensures
        match etag_answer(status, opt_view(content_type), opt_view(if_none_match), body@) {
            None => res is Untouched,
            Some((tag, current)) => res matches EtagOutcome::Tagged { etag, not_modified }
                && etag@ == tag && not_modified == current,
        },
{
    if !etag_applies(status, content_type) {
        return EtagOutcome::Untouched;
    }
    let hash = xxh3_128(body);
    let hash_bytes = to_be_bytes(hash);
    let tag = base64_encode(hash_bytes.as_slice(), false);
    let mut quoted_tag = String::new();
    push_char(&mut quoted_tag, '"');
    quoted_tag.append(tag.as_str());
    push_char(&mut quoted_tag, '"');
    assert(quoted_tag@ =~= entity_tag(body@));
    let not_modified = match if_none_match {
        Some(inm) => {
            let n = inm.unicode_len();
            let inner = inm.substring_char(1, n - 1);
            str_eq(inner, tag.as_str())
        },
        None => false,
    };
    EtagOutcome::Tagged { etag: quoted_tag, not_modified }
}

/// A client that sends back the entity tag it was given, for an unchanged
/// body, is told that its copy is current: the second answer is "not
/// modified", with the same tag. The tag it sends meets the server's
/// requirement on `If-None-Match` values.
pub proof fn resent_tag_is_not_modified(status: u16, content_type: Option<Seq<char>>, body: Seq<u8>)
    requires
        is_tagged(status, content_type),
    ensures
        etag_answer(status, content_type, None, body) == Some((entity_tag(body), false)),
        quoted(entity_tag(body)),
        etag_answer(status, content_type, Some(entity_tag(body)), body) == Some((entity_tag(body), true)),
{
    assert(unquoted(entity_tag(body)) =~= bare_tag(body));
}

/// A client that revalidates a copy of an earlier body whose tag differs
/// from the current body's is not told its copy is current: it gets the
/// current body's tag and the body.
pub proof fn stale_tag_is_modified(status: u16, content_type: Option<Seq<char>>, old_body: Seq<u8>, body: Seq<u8>)
    requires
        is_tagged(status, content_type),
        bare_tag(old_body) != bare_tag(body),
    ensures
        etag_answer(status, content_type, Some(entity_tag(old_body)), body) == Some((entity_tag(body), false)),
{
    assert(unquoted(entity_tag(old_body)) =~= bare_tag(old_body));
}

/// A request is answered as current only when its `If-None-Match` value is
/// exactly the current body's entity tag.
pub proof fn only_the_current_tag_is_not_modified(status: u16, content_type: Option<Seq<char>>, if_none_match: Seq<char>, body: Seq<u8>)
    requires
        quoted(if_none_match),
        etag_answer(status, content_type, Some(if_none_match), body) matches Some((_, current)) && current,
    ensures
        if_none_match == entity_tag(body),
{
    let v = if_none_match;
    assert(v =~= seq![v[0]] + unquoted(v) + seq![v[v.len() - 1]]);
}

} // verus!
