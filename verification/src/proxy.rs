//! Building the proxied request's target URL, and handling HTML responses.

use crate::rewrite::{apply_rewrite, spec_apply_rewrite};
use crate::text::{
    chars_of, contains, find_first, first_occurrence, lemma_contains_iff_first_occurrence,
    lemma_first_occurrence_from, occurs_at, utf8_len,
};
use crate::types::Location;
use std::str::FromStr;
use vstd::prelude::*;
use vstd::string::{StrSliceExecFns, StringExecFns};


verus! {

broadcast use vstd::string::group_string_axioms;

#[verifier::external_type_specification]
#[verifier::external_body]
pub struct ExUrl(url::Url);

/// The serialization (`url::Url::as_str`) of the URL that `url::Url::parse`
/// makes of `input`; `None` where `input` does not parse.
pub uninterp spec fn url_parse(input: Seq<char>) -> Option<Seq<char>>;

/// The serialization of the URL that `url::Url::parse` makes of `input`,
/// after `url::Url::set_path(path)`.
pub uninterp spec fn url_set_path(input: Seq<char>, path: Seq<char>) -> Seq<char>;

/// The text (as `Display` writes it) of the URI that `http::Uri::from_str`
/// makes of `text`; `None` where it is rejected.
pub uninterp spec fn uri_text(text: Seq<char>) -> Option<Seq<char>>;

/// A parsed URL, with the text it was parsed from and its serialization.
///
/// Values are made by `parse_url` alone, so `url` is always
/// `url::Url::parse(source)` and `text` its serialization.
pub(crate) struct ParsedUrl {
    source: String,
    text: String,
    url: url::Url,
}

impl ParsedUrl {
    /// The text this URL was parsed from.
    pub(crate) closed spec fn source(&self) -> Seq<char> {
        self.source@
    }

    /// The serialization of this URL.
    pub(crate) closed spec fn text(&self) -> Seq<char> {
        self.text@
    }

    /// The length in bytes of the serialization.
    fn text_len(&self) -> (n: usize)
        ensures
            n == utf8_len(self.text()),
    {
        self.text.as_str().as_bytes().len()
    }
}

/// Parses `input` with `url::Url::parse`, keeping the URL's serialization
/// (`url::Url::as_str`). `Url::parse` does not panic.
/// Trusted: the result is `Some` exactly where the named `url_parse` is, with
/// that serialization and `input` as its source.
#[verifier::external_body]
fn parse_url(input: &str) -> (res: Option<ParsedUrl>)
    ensures
        match res {
            Some(p) => url_parse(input@) == Some(p.text()) && p.source() == input@,
            None => url_parse(input@) is None,
        },
{
    match url::Url::parse(input) {
        Ok(url) => Some(ParsedUrl { source: input.to_string(), text: url.as_str().to_string(), url }),
        Err(_) => None,
    }
}

/// Whether `url::Url::set_path(path)` on a URL serialized as `serialization`
/// stays within `u32::MAX` bytes whatever `path` holds: `set_path` writes
/// at most three bytes for each byte of `path`, and three more, in place of
/// the old path.
pub open spec fn path_fits(serialization: Seq<char>, path: Seq<char>) -> bool {
    utf8_len(serialization) + 3 * utf8_len(path) + 3 <= u32::MAX
}

/// Replaces the path of `parsed` with `url::Url::set_path(path)` and
/// returns `url::Url::as_str` of the result. `set_path` panics only where
/// the URL outgrows `u32::MAX` bytes, which `path_fits` rules out.
/// Trusted: the result is the named `url_set_path` of the source and `path`.
#[verifier::external_body]
fn set_url_path(parsed: ParsedUrl, path: &str) -> (res: String)
    requires
        path_fits(parsed.text(), path@),
    ensures
        res@ == url_set_path(parsed.source(), path@),
{
    let mut url = parsed.url;
    url.set_path(path);
    url.as_str().to_string()
}

/// Parses `text` with `http::Uri::from_str` and renders the URI with its
/// `Display` implementation.
/// Trusted: the result is the named `uri_text`.
#[verifier::external_body]
fn parse_uri(text: &str) -> (res: Option<String>)
    ensures
        match res {
            Some(s) => uri_text(text@) == Some(s@),
            None => uri_text(text@) is None,
        },
{
    match http::Uri::from_str(text) {
        Ok(uri) => Some(uri.to_string()),
        Err(_) => None,
    }
}

/// Why no target URL could be built.
#[derive(Debug, Clone, Copy, PartialEq, Eq, Structural)]
pub enum TargetUrlError {
    /// The location's target is not a URL.
    InvalidTarget,
    /// The URL with the request's path is not a valid URI.
    InvalidUri,
    /// The path is too long to be set on the target's URL within `u32::MAX`
    /// bytes (the limit beyond which `url::Url::set_path` panics).
    PathTooLong,
}

/// The path that is requested from the target: the request path, rewritten
/// by the location's rules if it has any.
pub open spec fn spec_target_path(location: Location, request_path: Seq<char>) -> Seq<char> {
    match location.path_rewrite {
        Some(rules) => spec_apply_rewrite(request_path, rules@, rules@.len() as int),
        None => request_path,
    }
}

/// The target URL for `target` with its path replaced by `path`: the
/// target must parse as a URL, the path must fit on it (see `path_fits`),
/// and the result must be a valid `http::Uri`.
pub open spec fn spec_target_url(target: Seq<char>, path: Seq<char>) -> Result<Seq<char>, TargetUrlError> {
    match url_parse(target) {
        None => Err(TargetUrlError::InvalidTarget),
        Some(serialization) => if !path_fits(serialization, path) {
            Err(TargetUrlError::PathTooLong)
        } else {
            match uri_text(url_set_path(target, path)) {
                None => Err(TargetUrlError::InvalidUri),
                Some(uri) => Ok(uri),
            }
        },
    }
}

/// A built URL, by its view.
pub open spec fn url_result_view(r: Result<String, TargetUrlError>) -> Result<Seq<char>, TargetUrlError> {
    match r {
        Ok(s) => Ok(s@),
        Err(e) => Err(e),
    }
}

/// The target URL for `target` with its path replaced by `path`.
pub fn target_url_for_path(target: &str, path: &str) -> (res: Result<String, TargetUrlError>)
    ensures
        url_result_view(res) == spec_target_url(target@, path@),
{
    let parsed = match parse_url(target) {
        None => return Err(TargetUrlError::InvalidTarget),
        Some(p) => p,
    };
    let text_len = parsed.text_len();
    let path_len = path.as_bytes().len();
    if path_len > 0x5555_5555 || text_len > 0xffff_ffff {
        return Err(TargetUrlError::PathTooLong);
    }
    let total: u64 = text_len as u64 + 3 * (path_len as u64) + 3;
    if total > 0xffff_ffff {
        return Err(TargetUrlError::PathTooLong);
    }
    let url = set_url_path(parsed, path);
    match parse_uri(url.as_str()) {
        None => Err(TargetUrlError::InvalidUri),
        Some(uri) => Ok(uri),
    }
}

/// Parse and construct the target URL from a location and request path.
pub fn build_target_url(location: &Location, request_path: &str) -> (res: Result<String, TargetUrlError>)
    ensures
        url_result_view(res) == spec_target_url(
            location.target@,
            spec_target_path(*location, request_path@),
        ),
{
    match &location.path_rewrite {
        Some(rules) => {
            let path = apply_rewrite(request_path, rules);
            target_url_for_path(location.target.as_str(), path.as_str())
        },
        None => target_url_for_path(location.target.as_str(), request_path),
    }
}

/// Without rewrite rules (none given, or an empty list), the target URL is
/// built from the request path itself.
pub proof fn law_target_path_without_rewrite(location: Location, request_path: Seq<char>)
    requires
        match location.path_rewrite {
            None => true,
            Some(rules) => rules@.len() == 0,
        },
    ensures
        spec_target_path(location, request_path) == request_path,
{
}

/// Whether a content type names an HTML document.
pub open spec fn spec_is_html(content_type: Option<&str>) -> bool {
    match content_type {
        Some(ct) => contains(ct@, "text/html"@) || contains(ct@, "application/xhtml"@),
        None => false,
    }
}

/// Whether `pat` occurs in `s`.
fn str_contains(s: &Vec<char>, pat: &str) -> (b: bool)
    ensures
        b == contains(s@, pat@),
{
    let p = chars_of(pat);
    proof {
        lemma_contains_iff_first_occurrence(s@, p@);
    }
    find_first(s, &p).is_some()
}

/// Check if a response is HTML content
pub fn is_html_response(content_type: Option<&str>) -> (b: bool)
    ensures
        b == spec_is_html(content_type),
{
    if let Some(ct) = content_type {
        let cs = chars_of(ct);
        str_contains(&cs, "text/html") || str_contains(&cs, "application/xhtml")
    } else {
        false
    }
}

/// The closing tag of an HTML head: `"</head>"`.
pub open spec fn head_close() -> Seq<char> {
    "</head>"@
}

/// `html` with `inject` placed right before its first `</head>`, or at the
/// start where it has none.
pub open spec fn spec_inject_into_html(html: Seq<char>, inject: Seq<char>) -> Seq<char> {
    match first_occurrence(html, head_close()) {
        Some(k) => html.take(k) + inject + html.skip(k),
        None => inject + html,
    }
}

/// Inject content into HTML response
pub fn inject_into_html(html: &str, inject_content: &str) -> (res: String)
    ensures
        res@ == spec_inject_into_html(html@, inject_content@),
{
    let cs = chars_of(html);
    let pat = chars_of("</head>");
    match find_first(&cs, &pat) {
        Some(head_end) => {
            proof {
                lemma_first_occurrence_from(html@, head_close(), 0);
            }
            let mut result = html.substring_char(0, head_end).to_owned();
            result.append(inject_content);
            result.append(html.substring_char(head_end, cs.len()));
            assert(html@.subrange(0, head_end as int) =~= html@.take(head_end as int));
            assert(html@.subrange(head_end as int, html@.len() as int) =~= html@.skip(
                head_end as int,
            ));
            result
        },
        None => {
            // If no </head>, just append to the beginning
            let mut result = inject_content.to_owned();
            result.append(html);
            result
        },
    }
}

/// The injected content can be taken out again: what stands around it is the
/// original HTML, and it sits right before the first `</head>` if there is one.
pub proof fn law_inject_keeps_html(html: Seq<char>, inject: Seq<char>)
    ensures
        ({
            let res = spec_inject_into_html(html, inject);
            let k = match first_occurrence(html, head_close()) {
                Some(k) => k,
                None => 0,
            };
            &&& 0 <= k <= html.len()
            &&& res.len() == html.len() + inject.len()
            &&& res.subrange(k, k + inject.len()) == inject
            &&& res.take(k) + res.skip(k + inject.len()) == html
            &&& first_occurrence(html, head_close()) is Some ==> occurs_at(
                res,
                head_close(),
                k + inject.len(),
            )
        }),
{
    lemma_first_occurrence_from(html, head_close(), 0);
    let res = spec_inject_into_html(html, inject);
    match first_occurrence(html, head_close()) {
        Some(k) => {
            assert(res.subrange(k, k + inject.len()) =~= inject);
            assert(res.take(k) + res.skip(k + inject.len()) =~= html);
            let m = k + inject.len();
            assert(res.subrange(m, m + head_close().len()) =~= html.subrange(
                k,
                k + head_close().len(),
            ));
        },
        None => {
            assert(res.subrange(0, inject.len() as int) =~= inject);
            assert(res.take(0) + res.skip(inject.len() as int) =~= html);
        },
    }
}

/// The body sent back for an upstream reply: with `inject` placed into it
/// when there is content to inject and the reply is HTML, else unchanged.
pub open spec fn spec_injected_body(inject: Option<String>, content_type: Option<&str>, body: Seq<char>) -> Seq<char> {
    match inject {
        Some(s) => if spec_is_html(content_type) {
            spec_inject_into_html(body, s@)
        } else {
            body
        },
        None => body,
    }
}

/// The body sent back for an upstream reply, given the content to inject.
pub fn injected_body(inject: &Option<String>, content_type: Option<&str>, body: &str) -> (r: String)
    ensures
        r@ == spec_injected_body(*inject, content_type, body@),
{
    match inject {
        Some(s) => if is_html_response(content_type) {
            inject_into_html(body, s.as_str())
        } else {
            body.to_owned()
        },
        None => body.to_owned(),
    }
}

/// The body sent back for an upstream reply `body` to a request routed to
/// `loc`: the location's injection placed into it if the reply is HTML.
pub open spec fn spec_response_body(loc: Location, content_type: Option<&str>, body: Seq<char>) -> Seq<char> {
    if loc.inject is Some && spec_is_html(content_type) {
        spec_inject_into_html(body, loc.inject->0@)
    } else {
        body
    }
}

/// The body sent back for an upstream reply to a request routed to `loc`:
/// the location's injection goes into HTML replies, other replies pass unchanged.
pub fn response_body(loc: &Location, content_type: Option<&str>, body: &str) -> (r: String)
    ensures
        r@ == spec_response_body(*loc, content_type, body@),
{
    injected_body(&loc.inject, content_type, body)
}

/// The result holds the injected content, and keeps every `</head>` of the HTML.
pub proof fn law_inject_result_contains(html: Seq<char>, inject: Seq<char>)
    ensures
        contains(spec_inject_into_html(html, inject), inject),
        contains(html, head_close()) ==> contains(spec_inject_into_html(html, inject), head_close()),
{
    law_inject_keeps_html(html, inject);
    lemma_contains_iff_first_occurrence(html, head_close());
    let res = spec_inject_into_html(html, inject);
    let k = match first_occurrence(html, head_close()) {
        Some(k) => k,
        None => 0,
    };
    assert(occurs_at(res, inject, k));
    if contains(html, head_close()) {
        assert(occurs_at(res, head_close(), k + inject.len()));
    }
}

} // verus!

verus! {

/// Where `big` holds `small` at `k`, an occurrence of `big` holds `small` too.
proof fn lemma_occurrence_within(s: Seq<char>, big: Seq<char>, small: Seq<char>, k: int, i: int)
    requires
        occurs_at(s, big, i),
        0 <= k,
        k + small.len() <= big.len(),
        big.subrange(k, k + small.len()) == small,
    ensures
        occurs_at(s, small, i + k),
{
    assert(s.subrange(i + k, i + k + small.len()) =~= big.subrange(k, k + small.len()));
}

/// A content type counts as HTML only if it names `html`: no other text
/// type (`text/css`, `text/javascript`, `text/plain`, ...) does; and every
/// content type naming `text/html` or `application/xhtml` counts.
pub proof fn law_html_content_types(content_type: Option<&str>)
    ensures
        spec_is_html(content_type) ==> content_type is Some && contains(
            content_type->0@,
            "html"@,
        ),
        content_type is None ==> !spec_is_html(content_type),
        content_type matches Some(ct) && (contains(ct@, "text/html"@) || contains(
            ct@,
            "application/xhtml"@,
        )) ==> spec_is_html(content_type),
{
    reveal_strlit("html");
    reveal_strlit("text/html");
    reveal_strlit("application/xhtml");
    if let Some(ct) = content_type {
        let s = ct@;
        if contains(s, "text/html"@) {
            let i = choose|i: int| occurs_at(s, "text/html"@, i);
            assert("text/html"@.subrange(5, 9) =~= "html"@);
            lemma_occurrence_within(s, "text/html"@, "html"@, 5, i);
        } else if contains(s, "application/xhtml"@) {
            let i = choose|i: int| occurs_at(s, "application/xhtml"@, i);
            assert("application/xhtml"@.subrange(13, 17) =~= "html"@);
            lemma_occurrence_within(s, "application/xhtml"@, "html"@, 13, i);
        }
    }
}

/// The reply body is changed only for a reply whose content type names
/// `html`, and only when there is content to inject.
pub proof fn law_only_html_replies_are_changed(
    inject: Option<String>,
    content_type: Option<&str>,
    body: Seq<char>,
)
    ensures
        spec_injected_body(inject, content_type, body) != body ==> inject is Some
            && content_type is Some && contains(content_type->0@, "html"@),
{
    law_html_content_types(content_type);
}

} // verus!

verus! {

/// The injected content goes right before the first `</head>` of the HTML,
/// or at its very start where the HTML has no `</head>`; nothing else of the
/// HTML changes.
pub proof fn law_inject_position(html: Seq<char>, inject: Seq<char>)
    ensures
        exists|k: int|
            0 <= k <= html.len() && spec_inject_into_html(html, inject) == html.take(k) + inject
                + html.skip(k) && (if exists|j: int| occurs_at(html, "</head>"@, j) {
                occurs_at(html, "</head>"@, k) && forall|j: int|
                    0 <= j < k ==> !occurs_at(html, "</head>"@, j)
            } else {
                k == 0
            }),
{
    lemma_first_occurrence_from(html, "</head>"@, 0);
    match first_occurrence(html, "</head>"@) {
        Some(k) => {
            assert(occurs_at(html, "</head>"@, k));
        },
        None => {
            assert(html.take(0) + inject + html.skip(0) =~= inject + html);
        },
    }
}

} // verus!
