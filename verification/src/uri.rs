//! Table locations.

use std::path::PathBuf;

use url::Url;
use vstd::prelude::*;
use vstd::utf8::encode_utf8;

use crate::error::{DeltaResult, Error, ErrorV};
use crate::text::{opt_string_view, text_eq};

verus! {

/// A URL as plain text: its normal form, and its scheme.
#[derive(Debug, PartialEq)]
pub struct ParsedUrl {
    pub text: String,
    pub scheme: String,
}

/// What `Url::parse` makes of a text: the URL's normal form and its scheme. `None` for a text that
/// is no absolute URL.
pub uninterp spec fn parsed_url(text: Seq<char>) -> Option<(Seq<char>, Seq<char>)>;

/// `url::Url::parse`: reads a text as an absolute URL, a function of the text alone. What the
/// normal form and the scheme of a given text are is not stated.
#[verifier::external_body]
fn parse_url(text: &str) -> (url: Option<ParsedUrl>)
    ensures
        match url {
            Some(u) => parsed_url(text@) == Some((u.text@, u.scheme@)),
            None => parsed_url(text@) is None,
        },
{
    let url = Url::parse(text).ok()?;
    Some(ParsedUrl { text: url.as_str().to_string(), scheme: url.scheme().to_string() })
}

/// What `Url::join` makes of a URL, given by its text, and a relative reference; why it is refused
/// otherwise.
pub uninterp spec fn joined_url(base: Seq<char>, reference: Seq<char>) -> Result<
    Seq<char>,
    Seq<char>,
>;

/// `url::Url::join`: resolves a reference against a base URL, which is given by its text and
/// refused if it is none; a function of the two alone. Which URL that gives is not stated.
#[verifier::external_body]
fn join_url(base: &str, reference: &str) -> (url: Result<String, String>)
    ensures
        match url {
            Ok(u) => joined_url(base@, reference@) == Ok::<_, Seq<char>>(u@),
            Err(why) => joined_url(base@, reference@) == Err::<Seq<char>, _>(why@),
        },
{
    match Url::parse(base).and_then(|base| base.join(reference)) {
        Ok(url) => Ok(url.as_str().to_string()),
        Err(why) => Err(why.to_string()),
    }
}

/// `std::path::PathBuf`, carried through as it is.
#[verifier::external_type_specification]
#[verifier::external_body]
pub struct ExPathBuf(PathBuf);

/// `std::path::PathBuf::from`: the local path that a text names. What a path consists of depends on
/// the operating system, so nothing is claimed of it but that this call gave it.
#[verifier::external_body]
fn path_from_text(text: &str) -> (path: PathBuf) {
    PathBuf::from(text)
}

/// Whether `path` is what asking for the path that a text names gave.
pub closed spec fn path_given(text: Seq<char>, path: PathBuf) -> bool {
    exists|t: &str| t@ == text && #[trigger] call_ensures(path_from_text, (t,), path)
}

/// `url::Url::to_file_path`: the local path that a `file` URL names, by the rules of the operating
/// system; `None` if it names none. Which path it is depends on the operating system, so nothing is
/// claimed of it but that this call gave it.
#[verifier::external_body]
fn url_to_file_path(url: &str) -> (path: Option<PathBuf>) {
    Url::parse(url).ok()?.to_file_path().ok()
}

/// Whether `path` is what asking for the local path of a `file` URL gave. `url` is the text that
/// the URL was parsed from.
pub closed spec fn file_path_given(url: Seq<char>, path: Option<PathBuf>) -> bool {
    exists|t: &str| t@ == url && #[trigger] call_ensures(url_to_file_path, (t,), path)
}

/// `url::Url::from_directory_path`: the `file` URL of a directory, by the rules of the operating
/// system; `None` for a path that is not absolute. The URL starts with `file://` and ends in a
/// slash; which one it is depends on the operating system, so no more is claimed of it.
#[verifier::external_body]
fn url_from_directory_path(path: &PathBuf) -> (url: Option<String>)
    ensures
        url matches Some(u) ==> "file://"@.is_prefix_of(u@) && u@.last() == '/',
{
    Url::from_directory_path(path).ok().map(|url| url.as_str().to_string())
}

/// Whether `url` is what asking for the `file` URL of a directory gave.
pub closed spec fn directory_url_given(path: PathBuf, url: Option<Seq<char>>) -> bool {
    exists|given: Option<String>|
        opt_string_view(given) == url && #[trigger] call_ensures(
            url_from_directory_path,
            (&path,),
            given,
        )
}

/// The URL of a table's file: its path, resolved against the table's root.
pub fn resolve_file_path(table_root: &str, path: &str) -> (url: DeltaResult<String>)
    ensures
        match url {
            Ok(u) => joined_url(table_root@, path@) == Ok::<_, Seq<char>>(u@),
            Err(e) => joined_url(table_root@, path@) is Err && e@ == ErrorV::InvalidUrl(
                joined_url(table_root@, path@)->Err_0,
            ),
        },
{
    match join_url(table_root, path) {
        Ok(url) => Ok(url),
        Err(why) => Err(Error::InvalidUrl(why)),
    }
}

/// What a table location is: a local path, or a URL.
#[derive(Debug, PartialEq)]
pub enum UriType {
    LocalPath(PathBuf),
    Url(String),
}

/// A location as that of a directory: with a slash at the end.
pub open spec fn with_slash(uri: Seq<char>) -> Seq<char> {
    if uri.len() > 0 && uri.last() == '/' {
        uri
    } else {
        uri + "/"@
    }
}

/// What a location ending in a slash is, given what parsing it as a URL gave and, for a `file`
/// URL, which local path it names: the path of that URL, the path that the location itself names,
/// or a URL. A scheme of one letter is the drive letter of a Windows path.
pub open spec fn classified(
    location: Seq<char>,
    url: Option<(Seq<char>, Seq<char>)>,
    file_path: Option<PathBuf>,
    kind: DeltaResult<UriType>,
) -> bool {
    match url {
        None => named_path(location, kind),
        Some((text, scheme)) => if scheme == "file"@ {
            match file_path {
                Some(path) => kind == Ok::<_, Error>(UriType::LocalPath(path)),
                None => kind is Err && kind->Err_0@ == ErrorV::InvalidTableLocation(location),
            }
        } else if encode_utf8(scheme).len() == 1 {
            named_path(location, kind)
        } else {
            kind is Ok && kind->Ok_0 is Url && (kind->Ok_0)->Url_0@ == text
        },
    }
}

/// Whether `kind` is the local path that a location names.
pub open spec fn named_path(location: Seq<char>, kind: DeltaResult<UriType>) -> bool {
    kind is Ok && kind->Ok_0 is LocalPath && path_given(location, (kind->Ok_0)->LocalPath_0)
}

fn add_slash(uri: &str) -> (location: String)
    ensures
        location@ == with_slash(uri@),
{
    let len = uri.unicode_len();
    if len > 0 && uri.get_char(len - 1) == '/' {
        uri.to_string()
    } else {
        uri.to_string().concat("/")
    }
}

/// Figures out whether a location is a local path or some kind of URL, from what parsing it as a
/// URL gave and, for a `file` URL, which local path it names.
pub fn classify_uri(location: String, url: Option<ParsedUrl>, file_path: Option<PathBuf>) -> (kind:
    DeltaResult<UriType>)
    ensures
        classified(
            location@,
            match url {
                Some(u) => Some((u.text@, u.scheme@)),
                None => None,
            },
            file_path,
            kind,
        ),
{
    let url = match url {
        Some(url) => url,
        None => return Ok(UriType::LocalPath(named_by(&location))),
    };
    if text_eq(url.scheme.as_str(), "file") {
        match file_path {
            Some(path) => Ok(UriType::LocalPath(path)),
            None => Err(Error::InvalidTableLocation(location)),
        }
    } else if url.scheme.as_str().as_bytes().len() == 1 {
        // NOTE this check is required to support absolute windows paths which may properly
        // parse as url; a single character scheme is taken to be a windows drive letter
        Ok(UriType::LocalPath(named_by(&location)))
    } else {
        Ok(UriType::Url(url.text))
    }
}

/// The path that a location names.
fn named_by(location: &String) -> (path: PathBuf)
    ensures
        path_given(location@, path),
{
    path_from_text(location.as_str())
}

/// Utility function to figure out whether string representation of the path is either local path or
/// some kind or URL.
///
/// Will return an error if the path is not valid.
pub fn resolve_uri_type(table_uri: &str) -> (kind: DeltaResult<UriType>)
    ensures
        ({
            let location = with_slash(table_uri@);
            let url = parsed_url(location);
            if url is Some && (url->0).1 == "file"@ {
                exists|file_path: Option<PathBuf>| #[trigger]
                    file_path_given(location, file_path) && classified(
                        location,
                        url,
                        file_path,
                        kind,
                    )
            } else {
                classified(location, url, None, kind)
            }
        }),
{
    let location = add_slash(table_uri);
    let url = parse_url(location.as_str());
    let file_path = match &url {
        Some(url) => if text_eq(url.scheme.as_str(), "file") {
            let file_path = url_to_file_path(location.as_str());
            assert(file_path_given(location@, file_path));
            file_path
        } else {
            None
        },
        None => None,
    };
    classify_uri(location, url, file_path)
}

/// What the local file system says of a path.
pub trait LocalFiles {
    fn path_exists(&self, path: &PathBuf) -> bool;

    fn is_dir(&self, path: &PathBuf) -> bool;

    /// The path with all links resolved; on failure, why it cannot be resolved.
    fn canonicalize(&self, path: &PathBuf) -> Result<PathBuf, String>;

    /// The path as it is shown in messages.
    fn shown(&self, path: &PathBuf) -> String;
}

/// What is said of a path that does not exist.
pub open spec fn path_missing(shown: Seq<char>) -> ErrorV {
    ErrorV::InvalidTableLocation("Path does not exist: "@ + shown)
}

/// What is said of a path that is no directory.
pub open spec fn not_a_directory(shown: Seq<char>) -> ErrorV {
    ErrorV::InvalidTableLocation(shown + " is not a directory"@)
}

/// What is said of a path that cannot be resolved.
pub open spec fn unresolvable(uri: Seq<char>, why: Seq<char>) -> ErrorV {
    ErrorV::InvalidTableLocation("Invalid table location: "@ + uri + " Error: "@ + why)
}

/// What is said of a path that has no URL.
pub open spec fn no_url_for_path(shown: Seq<char>) -> ErrorV {
    ErrorV::InvalidTableLocation(
        "Could not construct a URL from canonicalized path: "@ + shown
            + ".\nSomething must be very wrong with the table path."@,
    )
}

/// Whether a local path is usable as a table location, given what the file system says of it.
pub fn check_local_path(found: bool, is_dir: bool, shown: &str) -> (r: DeltaResult<()>)
    ensures
        match r {
            Ok(_) => found && is_dir,
            Err(e) => if !found {
                e@ == path_missing(shown@)
            } else {
                !is_dir && e@ == not_a_directory(shown@)
            },
        },
{
    if !found {
        return Err(
            Error::InvalidTableLocation("Path does not exist: ".to_string().concat(shown)),
        );
    }
    if !is_dir {
        return Err(Error::InvalidTableLocation(shown.to_string().concat(" is not a directory")));
    }
    Ok(())
}

/// The URL of a local table, for every answer of the file system.
pub open spec fn local_table_url<F: LocalFiles>(
    uri: Seq<char>,
    files: &F,
    path: PathBuf,
    url: DeltaResult<String>,
) -> bool {
    exists|found: bool, is_dir: bool, shown: String|
        #[trigger] call_ensures(F::path_exists, (files, &path), found) && #[trigger] call_ensures(
            F::is_dir,
            (files, &path),
            is_dir,
        ) && #[trigger] call_ensures(F::shown, (files, &path), shown) && if !found {
            url is Err && url->Err_0@ == path_missing(shown@)
        } else if !is_dir {
            url is Err && url->Err_0@ == not_a_directory(shown@)
        } else {
            exists|canonical: Result<PathBuf, String>| #[trigger]
                call_ensures(F::canonicalize, (files, &path), canonical) && match canonical {
                    Err(why) => url is Err && url->Err_0@ == unresolvable(uri, why@),
                    Ok(canonical) => match url {
                        Ok(u) => directory_url_given(canonical, Some(u@))
                            && "file://"@.is_prefix_of(u@) && u@.last() == '/',
                        Err(e) => directory_url_given(canonical, None) && exists|shown: String|
                         #[trigger]
                            call_ensures(F::shown, (files, &canonical), shown) && e@
                                == no_url_for_path(shown@),
                    },
                }
        }
}

/// Try to parse string uri into a URL for a table path. This will do it's best to handle things
/// like `/local/paths`, and even `../relative/paths`.
pub fn try_parse_uri<F: LocalFiles>(uri: &str, files: &F) -> (url: DeltaResult<String>)
    ensures
        ({
            let location = with_slash(uri@);
            let parsed = parsed_url(location);
            exists|file_path: Option<PathBuf>, kind: DeltaResult<UriType>|
                (parsed is Some && (parsed->0).1 == "file"@ ==> file_path_given(
                    location,
                    file_path,
                )) && #[trigger] classified(location, parsed, file_path, kind) && match kind {
                    Err(e) => url == Err::<String, _>(e),
                    Ok(UriType::Url(text)) => url == Ok::<_, Error>(text),
                    Ok(UriType::LocalPath(path)) => local_table_url(uri@, files, path, url),
                }
        }),
{
    let path = match resolve_uri_type(uri) {
        Ok(UriType::Url(url)) => return Ok(url),
        Ok(UriType::LocalPath(path)) => path,
        Err(e) => return Err(e),
    };
    let found = files.path_exists(&path);
    let is_dir = files.is_dir(&path);
    let shown = files.shown(&path);
    match check_local_path(found, is_dir, shown.as_str()) {
        Ok(_) => {},
        Err(e) => {
            let url: DeltaResult<String> = Err(e);
            assert(local_table_url(uri@, files, path, url));
            return url;
        },
    }
    let canonicalized = files.canonicalize(&path);
    let ghost answer = canonicalized;
    let canonical = match canonicalized {
        Ok(canonical) => canonical,
        Err(why) => {
            let url: DeltaResult<String> = Err(
                Error::InvalidTableLocation(
                    "Invalid table location: ".to_string().concat(uri).concat(" Error: ").concat(
                        why.as_str(),
                    ),
                ),
            );
            assert(local_table_url(uri@, files, path, url));
            return url;
        },
    };
    let directory_url = url_from_directory_path(&canonical);
    assert(directory_url_given(canonical, opt_string_view(directory_url)));
    match directory_url {
        Some(text) => {
            let url: DeltaResult<String> = Ok(text);
            assert(local_table_url(uri@, files, path, url));
            url
        },
        None => {
            let shown = files.shown(&canonical);
            let url: DeltaResult<String> = Err(
                Error::InvalidTableLocation(
                    "Could not construct a URL from canonicalized path: ".to_string().concat(
                        shown.as_str(),
                    ).concat(".\nSomething must be very wrong with the table path."),
                ),
            );
            assert(local_table_url(uri@, files, path, url));
            url
        },
    }
}

} // verus!
