//! Vanity import resolution.
//!
//! An import path inside the redirect-capable namespace does not name a
//! source-control host. The page served at that path carries a marker that
//! names the repository. This module decides whether a page is needed and
//! reads the marker out of a page that was fetched; fetching is left to
//! the caller.

use vstd::prelude::*;
use crate::path::{identifier_of, lemma_identifier_strips_scheme, HTTP_SCHEME};
use crate::pattern::{capture, regex_capture};
use crate::text::{has_prefix, opt_str, opt_text};

verus! {

/// Import paths that begin with this text are resolved through a page.
pub const VANITY_NAMESPACE: &'static str = "golang.org/x";

/// Scheme put in front of an import path that is used as it stands.
pub const FALLBACK_SCHEME: &'static str = HTTP_SCHEME;

/// Matches the redirection marker of a page; group 1 is the repository URL.
pub const MARKER_PATTERN: &'static str = ".*go-import.* git ([^'\"]*)\"?'?>";

/// Matches `scheme://host/suffix`; group 1 is the suffix.
pub const SUFFIX_PATTERN: &'static str = "[^/]*//[^/]*/(.*)";

/// Whether `import` lies in the redirect-capable namespace.
pub open spec fn in_vanity_namespace(import: Seq<char>) -> bool {
    VANITY_NAMESPACE@.is_prefix_of(import)
}

/// The import path with the fallback scheme in front.
pub open spec fn http_prefixed(import: Seq<char>) -> Seq<char> {
    FALLBACK_SCHEME@ + import
}

/// The identifier inside the namespace that ends in `suffix`.
pub open spec fn canonical_identifier(suffix: Seq<char>) -> Seq<char> {
    VANITY_NAMESPACE@ + seq!['/'] + suffix
}

/// What resolution yields once the marker and the suffix are known.
///
/// `marker` is the repository URL found in the page, if any; `suffix` is the
/// path found behind the host of that URL, if any.
pub open spec fn redirect_outcome(
    import: Seq<char>,
    marker: Option<Seq<char>>,
    suffix: Option<Seq<char>>,
) -> (Seq<char>, Option<Seq<char>>) {
    match marker {
        None => (http_prefixed(import), None),
        Some(url) => match suffix {
            Some(tail) => (url, Some(canonical_identifier(tail))),
            None => (url, None),
        },
    }
}

/// The repository URL that the marker of `page` names, if there is one.
pub open spec fn marker_of(page: Option<Seq<char>>) -> Option<Seq<char>> {
    match page {
        Some(body) => regex_capture(MARKER_PATTERN@, body, 1),
        None => None,
    }
}

/// The path behind the host of the repository URL, if there is one.
pub open spec fn suffix_of(marker: Option<Seq<char>>) -> Option<Seq<char>> {
    match marker {
        Some(url) => regex_capture(SUFFIX_PATTERN@, url, 1),
        None => None,
    }
}

/// What resolution yields for `import` when the request ended with `page`
/// (`None`: the request failed).
pub open spec fn resolved_from_page(import: Seq<char>, page: Option<Seq<char>>) -> (
    Seq<char>,
    Option<Seq<char>>,
) {
    redirect_outcome(import, marker_of(page), suffix_of(marker_of(page)))
}

/// The URL of an import path that is used as it stands has that import
/// path as its identifier.
pub proof fn lemma_fallback_keeps_identifier(import: Seq<char>)
    ensures
        identifier_of(http_prefixed(import)) == import,
{
    lemma_identifier_strips_scheme(import);
}

/// The first decision of a resolution.
#[derive(Debug, PartialEq, Eq)]
pub enum Lookup {
    /// The import path needs no page: the URL and the canonical identifier.
    Settled(String, Option<String>),
    /// The page at this address has to be fetched.
    Fetch(String),
}

/// Whether `repo_url` lies in the redirect-capable namespace.
pub fn is_vanity_import(repo_url: &str) -> (vanity: bool)
    ensures
        vanity == in_vanity_namespace(repo_url@),
{
    has_prefix(repo_url, VANITY_NAMESPACE)
}

/// The import path used as it stands: the fallback scheme in front, and no
/// canonical identifier.
pub fn fallback(repo_url: &str) -> (out: (String, Option<String>))
    ensures
        out.0@ == http_prefixed(repo_url@),
        out.1 is None,
{
    let mut url = FALLBACK_SCHEME.to_owned();
    url.append(repo_url);
    (url, None)
}

/// Starts the resolution of `repo_url`.
///
/// Outside the namespace the answer is final and no request is made. Inside
/// it the caller fetches the page at `repo_url` and hands the body to
/// [`resolve_page`].
pub fn modify_golang_org(repo_url: &str) -> (step: Lookup)
    ensures
        !in_vanity_namespace(repo_url@) ==> (step matches Lookup::Settled(url, canonical)
            && url@ == http_prefixed(repo_url@) && canonical is None),
        in_vanity_namespace(repo_url@) ==> (step matches Lookup::Fetch(address) && address@
            == repo_url@),
{
    if is_vanity_import(repo_url) {
        Lookup::Fetch(repo_url.to_owned())
    } else {
        let plain = fallback(repo_url);
        Lookup::Settled(plain.0, plain.1)
    }
}

/// Finishes a resolution from what the two searches found.
///
/// Without a marker the import path is used as it stands. With one, the
/// repository URL is the answer, and a suffix behind its host gives the
/// canonical identifier.
pub fn finish_resolution(repo_url: &str, marker: Option<String>, suffix: Option<String>) -> (out: (
    String,
    Option<String>,
))
    ensures
        (out.0@, opt_text(out.1)) == redirect_outcome(repo_url@, opt_text(marker), opt_text(suffix)),
{
    match marker {
        None => fallback(repo_url),
        Some(url) => match suffix {
            Some(tail) => {
                let mut canonical = VANITY_NAMESPACE.to_owned();
                canonical.append("/");
                canonical.append(tail.as_str());
                proof {
                    reveal_strlit("/");
                }
                (url, Some(canonical))
            },
            None => (url, None),
        },
    }
}

/// Finishes the resolution of `repo_url` from the page that was fetched
/// (`None`: the request failed).
///
/// Every failure ends in the fallback: a failed request, a page without
/// marker. Nothing is retried and no error is reported.
pub fn resolve_page(repo_url: &str, page: Option<&str>) -> (out: (String, Option<String>))
    ensures
        (out.0@, opt_text(out.1)) == resolved_from_page(repo_url@, opt_str(page)),
        page is None ==> out.0@ == http_prefixed(repo_url@) && out.1 is None,
{
    let marker = match page {
        Some(body) => capture(MARKER_PATTERN, body, 1),
        None => None,
    };
    let suffix = match &marker {
        Some(url) => capture(SUFFIX_PATTERN, url.as_str(), 1),
        None => None,
    };
    finish_resolution(repo_url, marker, suffix)
}

} // verus!
