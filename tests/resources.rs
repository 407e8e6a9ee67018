use std::sync::atomic::{AtomicUsize, Ordering};
use std::sync::Arc;

use mdcat_resources::{
    filter_schemes, DispatchingResourceHandler, Error, ErrorKind, MimeData, MimeType,
    NoopResourceHandler, ResourceUrl, ResourceUrlHandler,
};

fn url(s: &str) -> ResourceUrl {
    ResourceUrl::parse(s).expect("valid URL")
}

#[derive(Clone, Copy)]
enum Behaviour {
    Decline,
    Succeed(u8),
    Fail(ErrorKind),
}

/// A handler that counts its calls and answers as told.
struct Probe {
    behaviour: Behaviour,
    calls: Arc<AtomicUsize>,
}

impl Probe {
    fn new(behaviour: Behaviour) -> (Probe, Arc<AtomicUsize>) {
        let calls = Arc::new(AtomicUsize::new(0));
        (
            Probe {
                behaviour,
                calls: calls.clone(),
            },
            calls,
        )
    }
}

impl ResourceUrlHandler for Probe {
    fn read_resource(&self, url: &ResourceUrl) -> Result<MimeData, Error> {
        self.calls.fetch_add(1, Ordering::SeqCst);
        match self.behaviour {
            Behaviour::Decline => Err(Error::new(
                ErrorKind::Unsupported,
                format!("probe declines {}", url.as_str()),
            )),
            Behaviour::Succeed(b) => Ok(MimeData {
                mime_type: None,
                data: vec![b],
            }),
            Behaviour::Fail(kind) => Err(Error::new(kind, String::from("probe failed"))),
        }
    }
}

/// Reads `file:` URLs only, always with the same PNG data.
struct FileOnly {
    scheme: &'static str,
}

impl ResourceUrlHandler for FileOnly {
    fn read_resource(&self, url: &ResourceUrl) -> Result<MimeData, Error> {
        let url = filter_schemes(&[self.scheme], url)?;
        assert_eq!(url.scheme(), "file");
        Ok(MimeData {
            mime_type: Some(MimeType::parse("image/png").expect("valid mime type")),
            data: vec![0x89, b'P', b'N', b'G'],
        })
    }
}

#[test]
fn filter_schemes_lets_listed_scheme_through() {
    let u = url("file:///tmp/x.png");
    let r = filter_schemes(&["data", "file"], &u).expect("file is listed");
    assert_eq!(r.as_str(), "file:///tmp/x.png");
}

#[test]
fn filter_schemes_rejects_other_scheme() {
    let u = url("https://example.com/x.png");
    let e = filter_schemes(&["file", "data"], &u).unwrap_err();
    assert_eq!(e.kind(), ErrorKind::Unsupported);
    assert_eq!(
        e.message(),
        "Unsupported scheme in https://example.com/x.png, expected one of [\"file\", \"data\"]"
    );
}

#[test]
fn filter_schemes_with_no_schemes_rejects() {
    let u = url("file:///tmp/x.png");
    let e = filter_schemes(&[], &u).unwrap_err();
    assert!(e.is_unsupported());
    assert_eq!(
        e.message(),
        "Unsupported scheme in file:///tmp/x.png, expected one of []"
    );
}

#[test]
fn filter_schemes_compares_whole_scheme() {
    let u = url("file:///tmp/x.png");
    assert!(filter_schemes(&["fil", "files"], &u).is_err());
}

#[test]
fn noop_declines_every_url() {
    for s in ["file:///tmp/x.png", "data:,hello", "https://example.com/"] {
        let e = NoopResourceHandler.read_resource(&url(s)).unwrap_err();
        assert_eq!(e.kind(), ErrorKind::Unsupported);
        assert_eq!(
            e.message(),
            format!("Reading from resource {s} is not supported")
        );
    }
}

#[test]
fn reference_reads_as_handler() {
    let u = url("file:///tmp/x.png");
    let handler = FileOnly { scheme: "file" };
    let by_ref: &FileOnly = &handler;
    let data = ResourceUrlHandler::read_resource(&by_ref, &u).expect("read");
    assert_eq!(data.data, vec![0x89, b'P', b'N', b'G']);
}

#[test]
fn dispatch_stops_at_first_success() {
    let (h1, c1) = Probe::new(Behaviour::Decline);
    let (h2, c2) = Probe::new(Behaviour::Succeed(7));
    let (h3, c3) = Probe::new(Behaviour::Succeed(9));
    let d = DispatchingResourceHandler::new(vec![Box::new(h1), Box::new(h2), Box::new(h3)]);
    let data = d.read_resource(&url("file:///a")).expect("h2 reads");
    assert_eq!(data.data, vec![7]);
    assert!(data.mime_type.is_none());
    assert_eq!(c1.load(Ordering::SeqCst), 1);
    assert_eq!(c2.load(Ordering::SeqCst), 1);
    assert_eq!(c3.load(Ordering::SeqCst), 0);
}

#[test]
fn dispatch_returns_first_other_error() {
    let (h1, c1) = Probe::new(Behaviour::Fail(ErrorKind::NotFound));
    let (h2, c2) = Probe::new(Behaviour::Succeed(7));
    let (h3, c3) = Probe::new(Behaviour::Decline);
    let d = DispatchingResourceHandler::new(vec![Box::new(h1), Box::new(h2), Box::new(h3)]);
    let e = d.read_resource(&url("file:///a")).unwrap_err();
    assert_eq!(e.kind(), ErrorKind::NotFound);
    assert_eq!(e.message(), "probe failed");
    assert_eq!(c1.load(Ordering::SeqCst), 1);
    assert_eq!(c2.load(Ordering::SeqCst), 0);
    assert_eq!(c3.load(Ordering::SeqCst), 0);
}

#[test]
fn dispatch_over_no_handlers_declines() {
    let d = DispatchingResourceHandler::new(Vec::new());
    for s in ["file:///a", "data:,x", "https://example.com/"] {
        let e = d.read_resource(&url(s)).unwrap_err();
        assert_eq!(e.kind(), ErrorKind::Unsupported);
        assert_eq!(e.message(), format!("No handler supported reading from {s}"));
    }
}

#[test]
fn dispatch_when_all_decline() {
    let (h1, c1) = Probe::new(Behaviour::Decline);
    let (h2, c2) = Probe::new(Behaviour::Decline);
    let d = DispatchingResourceHandler::new(vec![Box::new(h1), Box::new(h2)]);
    let e = d.read_resource(&url("data:,x")).unwrap_err();
    assert!(e.is_unsupported());
    assert_eq!(e.message(), "No handler supported reading from data:,x");
    assert_eq!(c1.load(Ordering::SeqCst), 1);
    assert_eq!(c2.load(Ordering::SeqCst), 1);
}

#[test]
fn nested_dispatch_reads_as_flat_list() {
    for (first, second, third) in [
        (Behaviour::Decline, Behaviour::Decline, Behaviour::Succeed(3)),
        (Behaviour::Decline, Behaviour::Succeed(2), Behaviour::Succeed(3)),
        (Behaviour::Decline, Behaviour::Fail(ErrorKind::PermissionDenied), Behaviour::Succeed(3)),
        (Behaviour::Decline, Behaviour::Decline, Behaviour::Decline),
    ] {
        let u = url("file:///a");
        let (a, _) = Probe::new(first);
        let (b, _) = Probe::new(second);
        let (c, c_calls) = Probe::new(third);
        let inner = DispatchingResourceHandler::new(vec![Box::new(a), Box::new(b)]);
        let nested = DispatchingResourceHandler::new(vec![Box::new(inner), Box::new(c)]);
        let nested_result = nested.read_resource(&u);
        let nested_third = c_calls.load(Ordering::SeqCst);

        let (a, _) = Probe::new(first);
        let (b, _) = Probe::new(second);
        let (c, c_calls) = Probe::new(third);
        let flat = DispatchingResourceHandler::new(vec![Box::new(a), Box::new(b), Box::new(c)]);
        let flat_result = flat.read_resource(&u);
        assert_eq!(nested_third, c_calls.load(Ordering::SeqCst));

        match (nested_result, flat_result) {
            (Ok(x), Ok(y)) => assert_eq!(x.data, y.data),
            (Err(x), Err(y)) => {
                assert_eq!(x.kind(), y.kind());
                assert_eq!(x.message(), y.message());
            }
            _ => panic!("nested and flat dispatch disagree"),
        }
    }
}

#[test]
fn mime_type_essence_drops_parameters() {
    let data = MimeData {
        mime_type: Some(MimeType::parse("image/png; charset=binary").expect("valid")),
        data: Vec::new(),
    };
    assert_eq!(data.mime_type_essence(), Some("image/png"));
    assert_eq!(
        data.mime_type.as_ref().map(|m| m.as_str()),
        Some("image/png; charset=binary")
    );
}

#[test]
fn mime_type_essence_without_mime_type() {
    let data = MimeData {
        mime_type: None,
        data: vec![1, 2, 3],
    };
    assert_eq!(data.mime_type_essence(), None);
}

#[test]
fn mime_type_parse_rejects_garbage() {
    let e = MimeType::parse("not a mime type").unwrap_err();
    assert_eq!(e.kind(), ErrorKind::InvalidInput);
}

#[test]
fn url_parse_reads_scheme() {
    let u = url("FILE:///tmp/x.png");
    assert_eq!(u.scheme(), "file");
    assert_eq!(u.as_str(), "file:///tmp/x.png");
}

#[test]
fn url_parse_rejects_relative() {
    let e = ResourceUrl::parse("tmp/x.png").unwrap_err();
    assert_eq!(e.kind(), ErrorKind::InvalidInput);
    assert!(!e.message().is_empty());
}

#[test]
fn file_only_and_noop_decline_data_url() {
    let d = DispatchingResourceHandler::new(vec![
        Box::new(FileOnly { scheme: "file" }),
        Box::new(NoopResourceHandler),
    ]);
    let e = d.read_resource(&url("data:image/png;base64,iVBORw0KGgo=")).unwrap_err();
    assert_eq!(e.kind(), ErrorKind::Unsupported);
}

#[test]
fn file_only_reads_file_url() {
    let d = DispatchingResourceHandler::new(vec![Box::new(FileOnly { scheme: "file" })]);
    let data = d.read_resource(&url("file:///tmp/x.png")).expect("read");
    assert_eq!(data.mime_type_essence(), Some("image/png"));
    assert_eq!(data.data, vec![0x89, b'P', b'N', b'G']);
}
