//! What table locations mean.

use std::path::PathBuf;

use vstd::prelude::*;
use vstd::utf8::encode_utf8;

use crate::error::DeltaResult;
use crate::uri::{classified, with_slash, UriType};

verus! {

/// A location names a directory: it ends with a slash, and has one put behind it only if it does
/// not end with one. So it does not matter whether the slash was given.
pub proof fn locations_are_directories(uri: Seq<char>)
    ensures
        with_slash(uri).last() == '/',
        uri.is_prefix_of(with_slash(uri)),
        with_slash(uri).len() <= uri.len() + 1,
        with_slash(with_slash(uri)) == with_slash(uri),
        !(uri.len() > 0 && uri.last() == '/') ==> with_slash(uri) == with_slash(uri.push('/')),
{
    reveal_strlit("/");
    assert("/"@ =~= seq!['/']);
    if !(uri.len() > 0 && uri.last() == '/') {
        assert(uri + "/"@ =~= uri.push('/'));
        assert(uri.push('/').last() == '/');
    }
}

/// A location is a URL if and only if it parses as one whose scheme is neither `file` nor a single
/// letter; it is refused if and only if it is a `file` URL that names no path.
pub proof fn schemes_tell_urls_from_paths(
    location: Seq<char>,
    text: Seq<char>,
    scheme: Seq<char>,
    file_path: Option<PathBuf>,
    kind: DeltaResult<UriType>,
)
    requires
        classified(location, Some((text, scheme)), file_path, kind),
    ensures
        kind is Err <==> scheme == "file"@ && file_path is None,
        kind is Ok ==> (kind->Ok_0 is Url <==> scheme != "file"@ && encode_utf8(scheme).len() != 1),
        kind is Ok && kind->Ok_0 is Url ==> (kind->Ok_0)->Url_0@ == text,
        kind is Ok && scheme == "file"@ ==> Some((kind->Ok_0)->LocalPath_0) == file_path,
{
}

/// A location that does not parse as a URL is a local path.
pub proof fn other_locations_are_paths(
    location: Seq<char>,
    file_path: Option<PathBuf>,
    kind: DeltaResult<UriType>,
)
    requires
        classified(location, None, file_path, kind),
    ensures
        kind is Ok,
        kind->Ok_0 is LocalPath,
{
}

} // verus!
