use vstd::prelude::*;

verus! {

/// The local path that URI `uri` names, as the url crate reads it.
pub uninterp spec fn uri_file_path(uri: Seq<char>) -> Option<Seq<char>>;

/// The `file:` URI of path `path`, as the url crate writes it.
pub uninterp spec fn file_uri(path: Seq<char>) -> Option<Seq<char>>;

/// Relies on `Url::parse` and `Url::to_file_path` of the url crate (which
/// lsp-types re-exports): the path that a URI names, where it parses, has no
/// host other than `localhost`, and decodes to a path of valid text.
#[verifier::external_body]
fn url_to_file_path(uri: &String) -> (r: Option<String>)
    ensures
        match r {
            Some(p) => uri_file_path(uri@) == Some(p@),
            None => uri_file_path(uri@) is None,
        },
{
    let url = lsp_types::Url::parse(uri).ok()?;
    let path = url.to_file_path().ok()?;
    path.to_str().map(|s| s.to_owned())
}

/// Relies on `Url::from_file_path` of the url crate: the `file:` URI of an
/// absolute path; none for a relative one.
#[verifier::external_body]
pub(crate) fn url_from_file_path(path: &String) -> (r: Option<String>)
    ensures
        match r {
            Some(u) => file_uri(path@) == Some(u@),
            None => file_uri(path@) is None,
        },
{
    lsp_types::Url::from_file_path(path).ok().map(|u| u.as_str().to_owned())
}

/// Whether `uri` is in the `file` scheme.
pub open spec fn has_file_scheme(uri: Seq<char>) -> bool {
    uri.len() >= 5 && uri.subrange(0, 5) == "file:"@
}

/// The local path of `uri`, for a URI in the `file` scheme.
pub open spec fn local_path(uri: Seq<char>) -> Option<Seq<char>> {
    if has_file_scheme(uri) {
        uri_file_path(uri)
    } else {
        None
    }
}

/// Whether `uri` is in the `file` scheme.
pub fn is_file_uri(uri: &String) -> (r: bool)
    ensures
        r == has_file_scheme(uri@),
{
    let s = uri.as_str();
    let n = s.unicode_len();
    if n < 5 {
        return false;
    }
    let head = s.substring_char(0, 5).to_owned();
    head == "file:".to_owned()
}

/// The local path of `uri`: none for a URI of another scheme, or one that
/// names no local path.
pub fn file_path_of(uri: &String) -> (r: Option<String>)
    ensures
        match r {
            Some(p) => local_path(uri@) == Some(p@),
            None => local_path(uri@) is None,
        },
{
    if is_file_uri(uri) {
        url_to_file_path(uri)
    } else {
        None
    }
}

} // verus!
