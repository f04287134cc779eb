//! Link targets: from what a document says to a URL that a terminal can open.
use vstd::prelude::*;

verus! {

/// The URL that the `url` crate parses from `text`, in its serialised form;
/// `None` where `text` is no absolute URL.
pub uninterp spec fn parsed_url(text: Seq<char>) -> Option<Seq<char>>;

/// The path that std makes of `path` joined to the directory `base_dir`:
/// `path` itself where it is absolute, else `path` below `base_dir`.
pub uninterp spec fn joined_path(base_dir: Seq<char>, path: Seq<char>) -> Seq<char>;

/// The `file` URL that the `url` crate makes of the path `path`, in its
/// serialised form; `None` where `path` is not absolute.
pub uninterp spec fn file_url(path: Seq<char>) -> Option<Seq<char>>;

/// Holds where `url` is the text that stands for `named`.
pub open spec fn is_url(url: Option<String>, named: Option<Seq<char>>) -> bool {
    match url {
        Some(url) => named == Some(url@),
        None => named is None,
    }
}

/// Parses `text` with `url::Url::parse` and hands back the serialisation of
/// the URL, or `None` where the parser fails. The contract only names the
/// result.
#[verifier::external_body]
fn parse_url(text: &str) -> (url: Option<String>)
    ensures
        is_url(url, parsed_url(text@)),
{
    url::Url::parse(text).ok().map(String::from)
}

/// Joins `path` to `base_dir` with `std::path::Path::join` and hands the
/// joined path back as text. The contract only names the result, which is a
/// function of the two texts on a given platform.
#[verifier::external_body]
fn join_paths(base_dir: &str, path: &str) -> (joined: String)
    ensures
        joined@ == joined_path(base_dir@, path@),
{
    std::path::Path::new(base_dir).join(path).to_string_lossy().into_owned()
}

/// Converts `path` with `url::Url::from_file_path` and hands back the
/// serialisation of the URL, or `None` where the conversion fails. The
/// contract only names the result, which is a function of the path on a
/// given platform.
#[verifier::external_body]
fn url_from_file_path(path: &str) -> (url: Option<String>)
    ensures
        is_url(url, file_url(path@)),
{
    url::Url::from_file_path(path).ok().map(String::from)
}

/// The URL that a link target stands for: the target itself where it is an
/// absolute URL, else the file that it names below `base_dir`.
pub open spec fn resolved_link(base_dir: Seq<char>, target: Seq<char>) -> Option<Seq<char>> {
    match parsed_url(target) {
        Some(url) => Some(url),
        None => file_url(joined_path(base_dir, target)),
    }
}

/// Resolves a link target to a URL.
pub fn resolve_link(base_dir: &str, target: &str) -> (url: Option<String>)
    ensures
        is_url(url, resolved_link(base_dir@, target@)),
{
    match parse_url(target) {
        Some(url) => Some(url),
        None => {
            let path = join_paths(base_dir, target);
            url_from_file_path(path.as_str())
        },
    }
}

} // verus!
