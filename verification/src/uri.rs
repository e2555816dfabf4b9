//! Conversion between file paths and `file://` URIs.
use vstd::prelude::*;
use vstd::string::StringExecFns;
use crate::text::{chars_of, starts_with, string_of_range};

verus! {

/// What `url::Url::from_file_path(path)` followed by `to_string` gives for a path.
pub uninterp spec fn url_from_path(path: Seq<char>) -> Option<Seq<char>>;

/// What `url::Url::parse(uri)` followed by `Url::to_file_path` gives for a text, the path
/// written as text (invalid UTF-8 replaced).
pub uninterp spec fn url_file_path(uri: Seq<char>) -> Option<Seq<char>>;

/// `url::Url::from_file_path`, serialized with `to_string`. On Unix it succeeds exactly
/// for absolute paths (those starting with `/`), and the URI then starts with `file://`.
#[verifier::external_body]
fn file_url(path: &str) -> (r: Option<String>)
    ensures
        match r {
            Some(u) => url_from_path(path@) == Some(u@),
            None => url_from_path(path@) is None,
        },
        r is Some <==> (path@.len() > 0 && path@[0] == '/'),
        r matches Some(u) ==> u@.len() >= 7 && u@.take(7) == "file://"@,
{
    url::Url::from_file_path(path).ok().map(|u| u.to_string())
}

/// `url::Url::parse` followed by `Url::to_file_path`, the path given as text.
#[verifier::external_body]
fn parse_file_url(uri: &str) -> (r: Option<String>)
    ensures
        match r {
            Some(p) => url_file_path(uri@) == Some(p@),
            None => url_file_path(uri@) is None,
        },
{
    url::Url::parse(uri).ok().and_then(|u| u.to_file_path().ok()).map(|p| p.to_string_lossy().into_owned())
}

/// The `file://` URI of an (already canonicalized) path; when the path is not absolute,
/// `file://` followed by the path.
pub open spec fn path_uri_text(path: Seq<char>) -> Seq<char> {
    match url_from_path(path) {
        Some(u) => u,
        None => "file://"@ + path,
    }
}

/// Convert a filesystem path to an RFC-compliant `file://` URI.
pub fn path_to_uri(canonical: &str) -> (r: String)
    ensures
        r@ == path_uri_text(canonical@),
{
    match file_url(canonical) {
        Some(u) => u,
        None => String::from_str("file://").concat(canonical),
    }
}

/// The path named by a URI: the URI's file path when it is a file URL, else the text
/// with a leading `file://` removed, else the text itself.
pub open spec fn uri_path_text(uri: Seq<char>) -> Seq<char> {
    match url_file_path(uri) {
        Some(p) => p,
        None => if uri.len() >= 7 && uri.take(7) == "file://"@ { uri.skip(7) } else { uri },
    }
}

/// Convert a `file://` URI to a filesystem path.
pub fn uri_to_path(uri: &str) -> (r: String)
    ensures
        r@ == uri_path_text(uri@),
{
    match parse_file_url(uri) {
        Some(p) => p,
        None => {
            let cs = chars_of(uri);
            let prefix = chars_of("file://");
            if starts_with(cs.as_slice(), prefix.as_slice()) {
                proof {
                    reveal_strlit("file://");
                }
                let rest = string_of_range(cs.as_slice(), 7, cs.len());
                assert(rest@ =~= uri@.skip(7));
                rest
            } else {
                String::from_str(uri)
            }
        },
    }
}

} // verus!
