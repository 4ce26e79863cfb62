use std::path::PathBuf;
use std::sync::atomic::{AtomicBool, AtomicU32, Ordering};
use std::sync::Arc;

use delta_kernel::error::Error;
use delta_kernel::uri::{
    classify_uri, resolve_file_path, resolve_uri_type, try_parse_uri, LocalFiles, ParsedUrl,
    UriType,
};
use delta_kernel::utils::{current_time_ms, CollectInto, FoldWithOption, IteratorExt};

#[test]
fn test_path_parsing() {
    for x in [
        "file:///foo/bar",
        "file:///foo/bar/",
        "/foo/bar",
        "/foo/bar/",
        "../foo/bar",
        "../foo/bar/",
        "c:/foo/bar",
        "c:/",
        "file:///C:/",
    ] {
        match resolve_uri_type(x) {
            Ok(UriType::LocalPath(_)) => {}
            x => panic!("Should have parsed as a local path {x:?}"),
        }
    }

    for x in [
        "s3://foo/bar",
        "s3a://foo/bar",
        "memory://foo/bar",
        "gs://foo/bar",
        "https://foo/bar/",
        "unknown://foo/bar",
        "s2://foo/bar",
    ] {
        match resolve_uri_type(x) {
            Ok(UriType::Url(_)) => {}
            x => panic!("Should have parsed as a url {x:?}"),
        }
    }

    resolve_uri_type("file://foo/bar").expect_err("file://foo/bar should not have parsed");
}

struct Files {
    exists: bool,
    is_dir: bool,
    canonical: Result<PathBuf, String>,
}

impl LocalFiles for Files {
    fn path_exists(&self, _: &PathBuf) -> bool {
        self.exists
    }

    fn is_dir(&self, _: &PathBuf) -> bool {
        self.is_dir
    }

    fn canonicalize(&self, _: &PathBuf) -> Result<PathBuf, String> {
        self.canonical.clone()
    }

    fn shown(&self, path: &PathBuf) -> String {
        format!("{path:?}")
    }
}

fn directory(canonical: &str) -> Files {
    Files { exists: true, is_dir: true, canonical: Ok(PathBuf::from(canonical)) }
}

#[test]
fn try_from_uri_without_trailing_slash() {
    let location = "s3://foo/__unitystorage/catalogs/cid/tables/tid";
    let url = try_parse_uri(location, &directory("/")).unwrap();
    assert_eq!(url, "s3://foo/__unitystorage/catalogs/cid/tables/tid/");
}

#[test]
fn local_paths_become_file_urls() {
    let url = try_parse_uri("../table one", &directory("/data/table one")).unwrap();
    assert_eq!(url, "file:///data/table%20one/");
}

#[test]
fn file_urls_name_their_path() {
    assert_eq!(
        resolve_uri_type("file:///data/a%20b").unwrap(),
        UriType::LocalPath(PathBuf::from("/data/a b/"))
    );
}

#[test]
fn file_urls_may_name_paths_that_are_no_text() {
    let Ok(UriType::LocalPath(path)) = resolve_uri_type("file:///data/%FF") else {
        panic!("expected a local path");
    };
    assert!(path.to_str().is_none());
    assert_eq!(path.parent(), Some(PathBuf::from("/data").as_path()));
    let files = Files { canonical: Ok(path), ..directory("/") };
    assert_eq!(try_parse_uri("file:///data/%FF", &files).unwrap(), "file:///data/%FF/");
}

#[test]
fn unusable_local_paths_are_errors() {
    let missing = Files { exists: false, ..directory("/") };
    assert_eq!(
        try_parse_uri("/nowhere", &missing).unwrap_err(),
        Error::InvalidTableLocation("Path does not exist: \"/nowhere/\"".to_string())
    );
    let file = Files { is_dir: false, ..directory("/") };
    assert_eq!(
        try_parse_uri("/a.txt", &file).unwrap_err(),
        Error::InvalidTableLocation("\"/a.txt/\" is not a directory".to_string())
    );
    let unresolvable = Files { canonical: Err("denied".to_string()), ..directory("/") };
    assert_eq!(
        try_parse_uri("/x", &unresolvable).unwrap_err(),
        Error::InvalidTableLocation("Invalid table location: /x Error: denied".to_string())
    );
    let relative = try_parse_uri("/x", &directory("not/absolute")).unwrap_err();
    assert!(relative.message().starts_with("Could not construct a URL"));
}

#[test]
fn locations_are_classified_by_scheme() {
    let url = |text: &str, scheme: &str| {
        Some(ParsedUrl { text: text.to_string(), scheme: scheme.to_string() })
    };
    let location = || "x/".to_string();
    assert_eq!(
        classify_uri(location(), None, None).unwrap(),
        UriType::LocalPath(PathBuf::from("x/"))
    );
    assert_eq!(
        classify_uri(location(), url("c:/", "c"), None).unwrap(),
        UriType::LocalPath(PathBuf::from("x/"))
    );
    assert_eq!(
        classify_uri(location(), url("s3://b/", "s3"), None).unwrap(),
        UriType::Url("s3://b/".to_string())
    );
    assert_eq!(
        classify_uri(location(), url("file:///p/", "file"), Some(PathBuf::from("/p/"))).unwrap(),
        UriType::LocalPath(PathBuf::from("/p/"))
    );
    assert_eq!(
        classify_uri(location(), url("file://h/p/", "file"), None).unwrap_err(),
        Error::InvalidTableLocation("x/".to_string())
    );
}

#[test]
fn file_paths_are_resolved_against_the_root() {
    assert_eq!(
        resolve_file_path("s3://bucket/table/", "a=1/part.parquet").unwrap(),
        "s3://bucket/table/a=1/part.parquet"
    );
    assert_eq!(
        resolve_file_path("s3://bucket/table/", "s3://other/part.parquet").unwrap(),
        "s3://other/part.parquet"
    );
    assert!(matches!(resolve_file_path("not a url", "part"), Err(Error::InvalidUrl(_))));
}

#[test]
fn times_are_checked() {
    assert_eq!(current_time_ms(Ok(1_700_000_000_000)).unwrap(), 1_700_000_000_000);
    assert_eq!(
        current_time_ms(Ok(1 << 63)).unwrap_err().message(),
        "Current timestamp exceeds i64 millisecond range"
    );
    assert_eq!(
        current_time_ms(Err("early".to_string())).unwrap_err().message(),
        "System time before Unix epoch: early"
    );
}

#[test]
fn folding_an_option() {
    assert_eq!(1.fold_with(Some(2), |a, b| a + b), 3);
    assert_eq!(1.fold_with(None, |a, b: i32| a + b), 1);
    assert_eq!(1.try_fold_with(Some(2), |_, _| Err("no")), Err("no"));
    assert_eq!(1.try_fold_with(None, |_, _: i32| Err("no")), Ok(1));
}

#[test]
fn collecting_into() {
    let items: Vec<i32> = vec![1, 2].collect_into();
    assert_eq!(items, [1, 2]);
}

#[test]
fn test_calls_on_exhaustion() {
    let called = Arc::new(AtomicBool::new(false));
    let called_clone = called.clone();
    let mut iter = vec![1, 2].into_iter().on_complete(move || {
        called_clone.store(true, Ordering::SeqCst);
    });
    assert_eq!(iter.next(), Some(1));
    assert!(!called.load(Ordering::SeqCst));
    assert_eq!(iter.next(), Some(2));
    assert_eq!(iter.next(), None);
    assert!(called.load(Ordering::SeqCst));
}

#[test]
fn test_does_not_call_on_early_drop() {
    let called = Arc::new(AtomicBool::new(false));
    let called_clone = called.clone();
    {
        let mut iter = vec![1, 2].into_iter().on_complete(move || {
            called_clone.store(true, Ordering::SeqCst);
        });
        assert_eq!(iter.next(), Some(1));
        // Drop without exhausting - callback should NOT be called
    }
    assert!(!called.load(Ordering::SeqCst));
}

#[test]
fn test_calls_only_once() {
    let count = Arc::new(AtomicU32::new(0));
    let count_clone = count.clone();
    {
        let mut iter = vec![1].into_iter().on_complete(move || {
            count_clone.fetch_add(1, Ordering::SeqCst);
        });
        assert_eq!(iter.next(), Some(1));
        assert_eq!(iter.next(), None); // triggers callback
        assert_eq!(iter.next(), None); // should not trigger again
    } // drop should not trigger again
    assert_eq!(count.load(Ordering::SeqCst), 1);
}
