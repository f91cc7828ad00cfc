//! Exchanges, turn by turn.
use cache_me::error::ErrorKind;
use cache_me::exchange::rules::Finding;
use cache_me::exchange::run::{encoded_reply, judge, link_error};
use cache_me::exchange::{
    CacheExchange, ContentMode, Effect, Event, Phase, Query, ReadFailure, Reply, Step, Turn,
};
use cache_me::storage::cache_zone::{CacheState, ZoneReport};
use cache_me::stream::{
    build_gzip_encoder_stream, finish_encoding, ChunkWriter, GzipFailure, GzipStep,
};
use cache_me::table::Table;
use cache_me::types::metadata::ObjectMetaData;
use cache_me::types::{Content, Request, Source};
use cache_me::upstream::ShareState;
use http::{HeaderMap, HeaderName, HeaderValue};
use std::io::Read;

const NOW: i64 = 1_000_000;

fn header_map(list: &[(&str, &str)]) -> HeaderMap {
    let mut headers = HeaderMap::new();
    for (name, value) in list {
        headers.append(
            HeaderName::from_bytes(name.as_bytes()).unwrap(),
            HeaderValue::from_str(value).unwrap(),
        );
    }
    headers
}

fn request(headers: &[(&str, &str)]) -> Request {
    Request {
        host: "a".to_string(),
        method: "b".to_string(),
        url_path: "c".to_string(),
        headers: header_map(headers),
        timestamp: NOW,
    }
}

const KEY: &str = "900150983cd24fb0d6963f7d28e17f72";

fn meta(headers: &[(&str, &str)]) -> ObjectMetaData {
    let mut table = Table::new();
    for (name, value) in headers {
        table.put(name.to_string(), vec![value.to_string()]);
    }
    ObjectMetaData {
        status_code: 200,
        headers: table,
        size: 100,
        method: "b".to_string(),
        url_path: "c".to_string(),
        host: "a".to_string(),
        etag: "v1".to_string(),
        expire: 60,
        last_ref_time: NOW - 10,
        ref_count: 7,
        first_time_ref: NOW - 10,
        storage_level: 1,
        storage_path: "stored".to_string(),
        cache_zone: 3,
    }
}

fn stale(headers: &[(&str, &str)]) -> ObjectMetaData {
    let mut meta = meta(headers);
    meta.expire = 10;
    meta
}

fn begin(headers: &[(&str, &str)], mode: ContentMode) -> CacheExchange {
    let turn = CacheExchange::start(request(headers), mode);
    assert!(turn.effects.is_empty());
    match turn.step {
        Step::Ask { next, query: Query::GetObject { hash } } => {
            assert_eq!(hash, KEY);
            next
        }
        _ => panic!("no lookup"),
    }
}

fn go(x: CacheExchange, event: Event) -> Turn {
    assert!(x.accepts(&event));
    x.advance(event)
}

fn asked(turn: Turn) -> (CacheExchange, Query) {
    match turn.step {
        Step::Ask { next, query } => (next, query),
        Step::Done { result: Err(err) } => panic!("failed: {}", err.text()),
        Step::Done { .. } => panic!("over"),
    }
}

fn replied(turn: Turn) -> Reply {
    match turn.step {
        Step::Done { result: Ok(reply) } => reply,
        _ => panic!("not over"),
    }
}

fn failed(turn: Turn) -> ErrorKind {
    match turn.step {
        Step::Done { result: Err(err) } => err,
        _ => panic!("not failed"),
    }
}

fn names(turn: &Turn) -> Vec<String> {
    turn.effects
        .iter()
        .map(|effect| match effect {
            Effect::RemoveObject { hash, cache_zone, storage_path } => {
                assert_eq!(hash, KEY);
                format!("remove {cache_zone} {storage_path}")
            }
            Effect::ReleaseUpstream { hash, failed } => {
                assert_eq!(hash, KEY);
                format!("release {failed}")
            }
            Effect::RemoveTemp { path } => format!("rm {path}"),
            Effect::PutObject { hash, meta } => {
                assert_eq!(hash, KEY);
                format!("put {} {}", meta.ref_count, meta.last_ref_time)
            }
            Effect::CountHit => "hit".to_string(),
        })
        .collect()
}

fn found(headers: &[(&str, &str)], mode: ContentMode, meta: ObjectMetaData) -> Turn {
    go(begin(headers, mode), Event::Object(Ok(Some(meta))))
}

/// An exchange that waits for the size of an object that was cached.
fn measuring(headers: &[(&str, &str)], mode: ContentMode, meta: ObjectMetaData) -> CacheExchange {
    let (x, query) = asked(found(headers, mode, meta));
    assert!(matches!(query, Query::ZoneOk { cache_zone: 3 }));
    let (x, query) = asked(go(x, Event::ZoneOk(Some(true))));
    assert!(
        matches!(query, Query::ObjectSize { cache_zone: 3, ref path } if path == "stored")
    );
    x
}

fn report(avaiable_size: usize, usage_ok: bool) -> ZoneReport {
    ZoneReport {
        state: CacheState { avaiable_size, total_size: 1000, error_count: 0 },
        usage_ok,
    }
}

/// An exchange that waits for the origin's answer.
fn fetching(headers: &[(&str, &str)]) -> CacheExchange {
    let (x, query) = asked(go(begin(headers, ContentMode::Stream), Event::Object(Ok(None))));
    assert!(matches!(query, Query::TryUpstream { ref hash } if hash == KEY));
    let (x, query) = asked(go(x, Event::Acquired(true)));
    match query {
        Query::Fetch { request } => {
            assert_eq!(request.method, "b");
            assert_eq!(request.url, "http://ac");
        }
        _ => panic!("no fetch"),
    }
    x
}

/// An exchange that waits for the zone to take the temporary file over.
fn linking(answer: &[(&str, &str)]) -> CacheExchange {
    let x = fetching(&[]);
    let (x, query) = asked(go(x, Event::Fetched(Ok((201, header_map(answer))))));
    assert!(matches!(query, Query::StoreTemp));
    let (x, query) = asked(go(x, Event::Temp(Ok("t/1".to_string()))));
    assert!(matches!(query, Query::TempSize { ref path } if path == "t/1"));
    let (x, query) = asked(go(x, Event::TempSize(Ok(55))));
    assert!(matches!(query, Query::ZoneStates));
    let zones = vec![report(100, true), report(56, true), report(55, true), report(99, false)];
    let (x, query) = asked(go(x, Event::Zones(zones)));
    assert!(matches!(query, Query::ZoneOk { cache_zone: 1 }));
    let (x, query) = asked(go(x, Event::ZoneOk(Some(true))));
    assert!(matches!(query, Query::LinkTemp { cache_zone: 1, ref path } if path == "t/1"));
    x
}

#[test]
fn a_lookup_that_fails_ends_the_exchange() {
    let err = ErrorKind::OperateError("db".to_string());
    let turn = go(begin(&[], ContentMode::Stream), Event::Object(Err(err)));
    assert!(names(&turn).is_empty());
    assert!(matches!(failed(turn), ErrorKind::OperateError(m) if m == "db"));
}

#[test]
fn a_cached_object_is_served_as_a_stream() {
    let turn = found(&[], ContentMode::Stream, meta(&[("content-length", "100")]));
    assert_eq!(names(&turn), ["hit"]);
    let x = measuring(&[], ContentMode::Stream, meta(&[("content-length", "100")]));
    let turn = go(x, Event::ObjectSize(Ok(100)));
    assert_eq!(names(&turn), [format!("put 8 {NOW}")]);
    let (x, query) = asked(turn);
    assert!(
        matches!(query, Query::OpenContent { cache_zone: 3, ref path, rng: (-1, -1) } if path == "stored")
    );
    assert!(!x.accepts(&Event::ObjectPath("p".to_string())));
    let reply = replied(go(x, Event::Opened(Ok(()))));
    assert!(reply.can_answer());
    let response = reply.into_response();
    assert_eq!(response.status_code, 200);
    assert!(matches!(response.content, Content::Stream(Source::Opened)));
    assert_eq!(response.headers.get("x-cache").unwrap(), "HIT");
    assert_eq!(response.headers.get("content-length").unwrap(), "100");
}

#[test]
fn a_cached_object_is_served_as_a_file() {
    let x = measuring(&[], ContentMode::File, meta(&[]));
    let (x, query) = asked(go(x, Event::ObjectSize(Ok(100))));
    assert!(matches!(query, Query::ObjectPath { cache_zone: 3, ref path } if path == "stored"));
    assert!(!x.accepts(&Event::Opened(Ok(()))));
    let reply = replied(go(x, Event::ObjectPath("/z/stored".to_string())));
    let response = reply.into_response();
    assert!(matches!(response.content, Content::Path(p) if p == "/z/stored"));
    assert_eq!(response.headers.get("x-cache").unwrap(), "HIT");
    assert!(response.headers.get("content-length").is_none());
}

#[test]
fn a_part_is_announced_with_its_length() {
    let x = measuring(
        &[("range", "bytes=10-19")],
        ContentMode::Stream,
        meta(&[("content-length", "100")]),
    );
    let turn = go(x, Event::ObjectSize(Ok(100)));
    match &turn.effects[0] {
        Effect::PutObject { meta, .. } => {
            assert_eq!(meta.headers.get("content-length"), Some(&vec!["100".to_string()]));
            assert!(!meta.headers.contains("x-cache"));
        }
        _ => panic!("not stored"),
    }
    let (x, query) = asked(turn);
    assert!(matches!(query, Query::OpenContent { rng: (10, 19), .. }));
    let response = replied(go(x, Event::Opened(Ok(())))).into_response();
    assert_eq!(response.status_code, 206);
    assert_eq!(response.headers.get("content-length").unwrap(), "10");
}

#[test]
fn a_part_beyond_the_end_is_clipped() {
    let x = measuring(
        &[("range", "bytes=90-1000")],
        ContentMode::Stream,
        meta(&[("content-length", "100")]),
    );
    let (x, query) = asked(go(x, Event::ObjectSize(Ok(100))));
    assert!(matches!(query, Query::OpenContent { rng: (90, 99), .. }));
    let response = replied(go(x, Event::Opened(Ok(())))).into_response();
    assert_eq!(response.status_code, 206);
    assert_eq!(response.headers.get("content-length").unwrap(), "10");
}

#[test]
fn ranges_of_all_forms_are_answered() {
    let answer = |range: &str| {
        let x = measuring(
            &[("range", range)],
            ContentMode::Stream,
            meta(&[("content-length", "100")]),
        );
        let (x, query) = asked(go(x, Event::ObjectSize(Ok(100))));
        let rng = match query {
            Query::OpenContent { rng, .. } => rng,
            _ => panic!("not opened"),
        };
        let response = replied(go(x, Event::Opened(Ok(())))).into_response();
        let length = response.headers.get("content-length").unwrap().to_str().unwrap().to_string();
        (response.status_code, length, rng)
    };
    assert_eq!(answer("bytes=0-0"), (206, "1".to_string(), (0, 0)));
    assert_eq!(answer("bytes=7-7"), (206, "1".to_string(), (7, 7)));
    assert_eq!(answer("bytes=-30"), (206, "30".to_string(), (70, 99)));
    assert_eq!(answer("bytes=95-"), (206, "5".to_string(), (95, -1)));
    assert_eq!(answer("bytes=0-"), (200, "100".to_string(), (0, -1)));
    assert_eq!(answer("bytes=9-3"), (200, "100".to_string(), (-1, -1)));
}

#[test]
fn a_request_that_cannot_be_handed_on_is_not_accepted() {
    let strange = || {
        let mut req = request(&[]);
        req.headers.insert(HeaderName::from_static("a\"b"), HeaderValue::from_static("x"));
        req
    };
    assert!(!strange().is_well_formed());
    let x = asked(CacheExchange::start(strange(), ContentMode::Stream)).0;
    assert!(x.accepts(&Event::Object(Ok(Some(meta(&[]))))));
    let x = asked(go(x, Event::Object(Ok(None)))).0;
    assert!(!x.accepts(&Event::Acquired(true)));
    assert!(x.accepts(&Event::Acquired(false)));
}

#[test]
fn events_that_cannot_be_handled_are_not_accepted() {
    let x = measuring(&[("range", "bytes=0-1")], ContentMode::Stream, meta(&[]));
    assert!(!x.accepts(&Event::ObjectSize(Ok(0))));
    assert!(x.accepts(&Event::ObjectSize(Ok(1))));
    assert!(!x.accepts(&Event::Waited(true)));
    let mut counted = meta(&[]);
    counted.ref_count = i64::MAX;
    let x = measuring(&[], ContentMode::Stream, counted);
    assert!(!x.accepts(&Event::ObjectSize(Ok(1))));
    let x = begin(&[], ContentMode::Stream);
    let mut dated = meta(&[]);
    dated.expire = i64::MAX;
    assert!(!x.accepts(&Event::Object(Ok(Some(dated)))));
    let hollow = |name: &str| {
        let mut hollow = meta(&[]);
        hollow.headers.put(name.to_string(), vec![]);
        hollow
    };
    assert!(x.accepts(&Event::Object(Ok(Some(hollow("last-modified"))))));
    let since = &[("if-modified-since", "Sun, 06 Nov 1994 08:49:37 GMT")];
    let x = begin(since, ContentMode::Stream);
    assert!(!x.accepts(&Event::Object(Ok(Some(hollow("last-modified"))))));
    let x = measuring(&[], ContentMode::Stream, hollow("content-length"));
    assert!(x.accepts(&Event::ObjectSize(Ok(100))));
    let x = measuring(&[("range", "bytes=1-2")], ContentMode::Stream, hollow("content-length"));
    assert!(!x.accepts(&Event::ObjectSize(Ok(100))));
}

#[test]
fn an_expired_object_is_removed_and_fetched() {
    let turn = found(&[], ContentMode::Stream, stale(&[]));
    assert_eq!(names(&turn), ["remove 3 stored"]);
    let (x, query) = asked(turn);
    assert!(matches!(query, Query::TryUpstream { .. }));
    assert!(matches!(x.phase, Phase::Acquiring { meta: Some(_) }));
}

#[test]
fn an_object_is_fresh_until_its_time_is_over() {
    let mut last = meta(&[]);
    last.expire = 11;
    assert_eq!(names(&found(&[], ContentMode::Stream, last)), ["hit"]);
    assert_eq!(names(&found(&[], ContentMode::Stream, stale(&[]))), ["remove 3 stored"]);
}

#[test]
fn a_known_tag_is_served_from_the_cache() {
    let turn = found(&[("if-none-match", "v1")], ContentMode::Stream, meta(&[]));
    assert_eq!(names(&turn), ["hit"]);
}

#[test]
fn another_tag_has_the_origin_asked() {
    let ask = || {
        let turn = found(&[("if-none-match", "v0")], ContentMode::Stream, meta(&[]));
        assert!(names(&turn).is_empty());
        let (x, query) = asked(turn);
        assert!(matches!(query, Query::Head { ref request } if request.method == "HEAD"));
        x
    };
    let same = go(ask(), Event::Head(Ok((200, header_map(&[("etag", "v1")])))));
    assert_eq!(names(&same), ["hit"]);
    let untagged = go(ask(), Event::Head(Ok((200, header_map(&[])))));
    assert_eq!(names(&untagged), ["hit"]);
    let other = go(ask(), Event::Head(Ok((200, header_map(&[("etag", "v2")])))));
    assert_eq!(names(&other), ["remove 3 stored"]);
    assert!(matches!(asked(other).1, Query::TryUpstream { .. }));
    let unmodified = go(ask(), Event::Head(Ok((304, header_map(&[])))));
    assert!(names(&unmodified).is_empty());
    assert!(matches!(asked(unmodified).1, Query::TryUpstream { .. }));
    let missing = go(ask(), Event::Head(Ok((404, header_map(&[("etag", "v2")])))));
    assert_eq!(names(&missing), ["hit"]);
    let unreachable = go(ask(), Event::Head(Err("timeout".to_string())));
    assert!(
        matches!(failed(unreachable), ErrorKind::OperateError(m) if m == "upstream http://ac failed timeout")
    );
}

#[test]
fn an_expired_object_is_fetched_whatever_the_origin_says_of_it() {
    let turn = found(&[("if-none-match", "v0")], ContentMode::Stream, stale(&[]));
    assert_eq!(names(&turn), ["remove 3 stored"]);
    let (x, _) = asked(turn);
    let turn = go(x, Event::Head(Ok((200, header_map(&[("etag", "v1")])))));
    assert!(names(&turn).is_empty());
    assert!(matches!(asked(turn).1, Query::TryUpstream { .. }));
}

#[test]
fn an_unchanged_object_is_not_sent_again() {
    let date = "Sun, 06 Nov 1994 08:49:37 GMT";
    let later = "Sun, 06 Nov 1994 08:49:38 GMT";
    let since = |d: &str, m: ObjectMetaData| {
        found(&[("if-modified-since", d)], ContentMode::Stream, m)
    };
    let turn = since(date, meta(&[("last-modified", date)]));
    assert!(names(&turn).is_empty());
    let response = replied(turn).into_response();
    assert_eq!(response.status_code, 304);
    assert!(response.headers.is_empty());
    assert!(matches!(response.content, Content::Stream(Source::Empty)));
    assert_eq!(names(&since(date, meta(&[("last-modified", later)]))), ["hit"]);
    assert_eq!(names(&since(date, meta(&[]))), ["hit"]);
    let turn = since(later, stale(&[("last-modified", date)]));
    assert_eq!(names(&turn), ["remove 3 stored"]);
    assert!(matches!(replied(turn), Reply::NotModified));
}

#[test]
fn a_tag_counts_before_a_date() {
    let date = "Sun, 06 Nov 1994 08:49:37 GMT";
    let turn = found(
        &[("if-modified-since", date), ("if-none-match", "v1")],
        ContentMode::Stream,
        meta(&[("last-modified", date)]),
    );
    assert_eq!(names(&turn), ["hit"]);
}

#[test]
fn findings_are_judged() {
    let tag = |t: &str| Some(t.to_string());
    assert_eq!(judge(false, &tag("x"), "y", true), Finding::Validate);
    assert_eq!(judge(true, &tag("x"), "y", false), Finding::Validate);
    assert_eq!(judge(false, &None, "y", true), Finding::NotModified);
    assert_eq!(judge(true, &None, "y", true), Finding::NotModified);
    assert_eq!(judge(false, &tag("y"), "y", true), Finding::Serve);
    assert_eq!(judge(true, &tag("y"), "y", true), Finding::Fetch);
    assert_eq!(judge(false, &None, "y", false), Finding::Serve);
    assert_eq!(judge(true, &None, "y", false), Finding::Fetch);
}

#[test]
fn what_is_fetched_is_stored_and_served() {
    let x = linking(&[("etag", "v9"), ("cache-control", "max-age=30"), ("content-length", "55")]);
    let turn = go(x, Event::Linked(Ok("real".to_string())));
    assert_eq!(names(&turn), ["release false"]);
    let (x, query) = asked(turn);
    assert!(matches!(query, Query::WaitUpstream { ref hash } if hash == KEY));
    let (x, query) = asked(go(x, Event::Waited(false)));
    assert!(matches!(query, Query::ZoneOk { cache_zone: 1 }));
    let (x, query) = asked(go(x, Event::ZoneOk(Some(true))));
    assert!(matches!(query, Query::ObjectSize { cache_zone: 1, ref path } if path == "real"));
    let turn = go(x, Event::ObjectSize(Ok(55)));
    assert_eq!(names(&turn), [format!("put 1 {NOW}")]);
    match &turn.effects[0] {
        Effect::PutObject { meta, .. } => {
            assert_eq!(meta.status_code, 201);
            assert_eq!(meta.etag, "v9");
            assert_eq!(meta.expire, 30);
            assert_eq!(meta.first_time_ref, NOW);
            assert_eq!(meta.size, 55);
            assert_eq!(meta.storage_level, 1);
            assert_eq!(meta.storage_path, "real");
            assert_eq!((meta.method.as_str(), meta.host.as_str()), ("b", "a"));
            assert_eq!(meta.url_path, "c");
            assert_eq!(meta.headers.len(), 3);
        }
        _ => panic!("not stored"),
    }
    let (x, _) = asked(turn);
    let response = replied(go(x, Event::Opened(Ok(())))).into_response();
    assert_eq!(response.status_code, 201);
    assert_eq!(response.headers.get("x-cache").unwrap(), "MISS");
}

#[test]
fn what_was_stored_is_served_to_the_next_request() {
    let x = linking(&[("cache-control", "max-age=30")]);
    let (x, _) = asked(go(x, Event::Linked(Ok("real".to_string()))));
    let (x, _) = asked(go(x, Event::Waited(false)));
    let (x, _) = asked(go(x, Event::ZoneOk(Some(true))));
    let turn = go(x, Event::ObjectSize(Ok(55)));
    let kept = match turn.effects.into_iter().next() {
        Some(Effect::PutObject { meta, .. }) => meta,
        _ => panic!("not stored"),
    };
    let later = |seconds: i64| {
        let mut req = request(&[]);
        req.timestamp = NOW + seconds;
        let x = asked(CacheExchange::start(req, ContentMode::Stream)).0;
        names(&go(x, Event::Object(Ok(Some(kept.copy())))))
    };
    assert_eq!(later(29), ["hit"]);
    assert_eq!(later(30), ["remove 1 real"]);
}

#[test]
fn what_is_not_to_be_cached_is_handed_through() {
    let x = fetching(&[]);
    let answer = header_map(&[("cache-control", "no-store"), ("x", "y")]);
    let turn = go(x, Event::Fetched(Ok((200, answer))));
    assert_eq!(names(&turn), ["release false"]);
    let response = replied(turn).into_response();
    assert_eq!(response.status_code, 200);
    assert_eq!(response.headers.get("x").unwrap(), "y");
    assert!(matches!(response.content, Content::Stream(Source::Upstream)));
}

#[test]
fn every_failure_of_a_fetch_ends_it() {
    let machine = |turn: Turn, want: &str| {
        assert_eq!(names(&turn).last().unwrap(), "release true");
        assert!(matches!(failed(turn), ErrorKind::MachineError(m) if m == want), "{want}");
    };
    let turn = go(fetching(&[]), Event::Fetched(Err("reset".to_string())));
    assert_eq!(names(&turn), ["release true"]);
    assert!(
        matches!(failed(turn), ErrorKind::OperateError(m) if m == "upstream http://ac failed reset")
    );

    let storing = || asked(go(fetching(&[]), Event::Fetched(Ok((200, header_map(&[])))))).0;
    let full = ErrorKind::MachineError("disk full".to_string());
    machine(go(storing(), Event::Temp(Err(full))), "disk full");

    let sizing = || asked(go(storing(), Event::Temp(Ok("t/2".to_string())))).0;
    let turn = go(sizing(), Event::TempSize(Err("gone".to_string())));
    assert_eq!(names(&turn), ["rm t/2", "release true"]);
    machine(turn, "get temp file t/2 metadata failed gone");

    let placing = || asked(go(sizing(), Event::TempSize(Ok(10)))).0;
    let turn = go(placing(), Event::Zones(vec![report(10, true), report(11, false)]));
    assert_eq!(names(&turn), ["rm t/2", "release true"]);
    machine(turn, "not avaiable cache_zone");

    let checking = || asked(go(placing(), Event::Zones(vec![report(11, true)]))).0;
    machine(go(checking(), Event::ZoneOk(None)), "cache_zone 0 get failed");
    machine(go(checking(), Event::ZoneOk(Some(false))), "cache_zone 0 is not ok");

    let linking = asked(go(checking(), Event::ZoneOk(Some(true)))).0;
    let rename = ErrorKind::MachineError("no \"t/2\"".to_string());
    machine(
        go(linking, Event::Linked(Err(rename))),
        "cache_zone 0 link_temp t/2 return error MachineError(\"no \\\"t/2\\\"\")",
    );
}

#[test]
fn a_request_that_cannot_be_built_ends_the_fetch() {
    let mut req = request(&[]);
    req.method = "b d".to_string();
    let x = asked(CacheExchange::start(req, ContentMode::Stream)).0;
    let x = asked(go(x, Event::Object(Ok(None)))).0;
    let turn = x.advance(Event::Acquired(true));
    assert!(matches!(turn.effects[..], [Effect::ReleaseUpstream { failed: true, .. }]));
    assert!(matches!(failed(turn), ErrorKind::LogicalError(_)));
}

#[test]
fn a_fetch_by_someone_else_is_waited_for() {
    let waiting = |meta| {
        let turn = match meta {
            Some(meta) => found(&[], ContentMode::Stream, meta),
            None => go(begin(&[], ContentMode::Stream), Event::Object(Ok(None))),
        };
        let (x, _) = asked(turn);
        let turn = go(x, Event::Acquired(false));
        assert!(names(&turn).is_empty());
        let (x, query) = asked(turn);
        assert!(matches!(query, Query::WaitUpstream { .. }));
        x
    };
    let turn = go(waiting(None), Event::Waited(true));
    let want = format!("other upstream failed.hashkey={KEY} use same result");
    assert!(matches!(failed(turn), ErrorKind::OperateError(m) if m == want));
    assert!(!waiting(None).accepts(&Event::Waited(false)));
    let turn = go(waiting(Some(stale(&[]))), Event::Waited(false));
    assert!(matches!(asked(turn).0.phase, Phase::Reopening { hit: false, .. }));
}

#[test]
fn a_zone_that_cannot_be_read_fails_the_exchange() {
    let reopening = || asked(found(&[], ContentMode::Stream, meta(&[]))).0;
    let turn = go(reopening(), Event::ZoneOk(None));
    assert!(
        matches!(failed(turn), ErrorKind::OperateError(m) if m == "not found cache_zone 3")
    );
    let turn = go(reopening(), Event::ZoneOk(Some(false)));
    assert!(
        matches!(failed(turn), ErrorKind::MachineError(m) if m == "cache_zone 3 is not ok")
    );
    let gone = || ErrorKind::MachineError("open".to_string());
    let x = measuring(&[], ContentMode::Stream, meta(&[]));
    let turn = go(x, Event::ObjectSize(Err(gone())));
    assert!(names(&turn).is_empty());
    assert!(matches!(failed(turn), ErrorKind::MachineError(m) if m == "open"));
    let x = measuring(&[], ContentMode::Stream, meta(&[]));
    let x = asked(go(x, Event::ObjectSize(Ok(100)))).0;
    let turn = go(x, Event::Opened(Err(gone())));
    assert!(matches!(failed(turn), ErrorKind::MachineError(m) if m == "open"));
}

fn encoding(headers: &[(&str, &str)], meta: ObjectMetaData) -> CacheExchange {
    let x = measuring(headers, ContentMode::Stream, meta);
    let x = asked(go(x, Event::ObjectSize(Ok(100)))).0;
    let (x, query) = asked(go(x, Event::Opened(Ok(()))));
    assert!(
        matches!(query, Query::ReadContent { cache_zone: 3, ref path, .. } if path == "stored")
    );
    x
}

fn gunzip(data: &[u8]) -> Vec<u8> {
    let mut out = Vec::new();
    flate2::read::GzDecoder::new(data).read_to_end(&mut out).unwrap();
    out
}

#[test]
fn a_body_is_compressed_for_those_who_take_that() {
    let x = encoding(
        &[("accept-encoding", "gzip")],
        meta(&[("content-length", "100"), ("Vary", "origin")]),
    );
    let body = vec![b'x'; 3000];
    let reply = replied(go(x, Event::Content(Ok(body.clone()))));
    match &reply {
        Reply::Stored { headers, content: Content::Stream(Source::Bytes(data)), .. } => {
            assert_eq!(gunzip(data), body);
            assert_eq!(headers.get("content-length"), Some(&vec![data.len().to_string()]));
            assert_eq!(headers.get("content-encoding"), Some(&vec!["gzip".to_string()]));
            assert_eq!(
                headers.get("Vary"),
                Some(&vec!["origin".to_string(), "accept-encoding".to_string()])
            );
            assert_eq!(headers.get("x-cache"), Some(&vec!["HIT".to_string()]));
        }
        _ => panic!("not compressed"),
    }
    let response = reply.into_response();
    assert_eq!(response.headers.get_all("vary").iter().count(), 2);

    let x = encoding(&[("accept-encoding", "gzip")], meta(&[("vary", "origin")]));
    let response = replied(go(x, Event::Content(Ok(body)))).into_response();
    let mut vary: Vec<&str> =
        response.headers.get_all("vary").iter().map(|v| v.to_str().unwrap()).collect();
    vary.sort();
    assert_eq!(vary, ["accept-encoding", "origin"]);
    assert_eq!(response.headers.get_all("content-length").iter().count(), 1);
}

#[test]
fn a_body_that_cannot_be_read_is_not_compressed() {
    let x = encoding(&[("accept-encoding", "gzip")], meta(&[]));
    let lost = ErrorKind::MachineError("lost".to_string());
    let turn = go(x, Event::Content(Err(ReadFailure::Open(lost))));
    assert!(matches!(failed(turn), ErrorKind::MachineError(m) if m == "lost"));
    let x = encoding(&[("accept-encoding", "gzip")], meta(&[]));
    let turn = go(x, Event::Content(Err(ReadFailure::Read("torn".to_string()))));
    let want = "read source stream when build gzip stream failed torn";
    assert!(matches!(failed(turn), ErrorKind::OperateError(m) if m == want));
}

#[test]
fn compressing_comes_to_a_body_or_an_error() {
    let data = build_gzip_encoder_stream(Ok(b"hello hello hello".to_vec())).ok().unwrap();
    assert_eq!(gunzip(&data), b"hello hello hello");
    assert_eq!(&data[..3], &[0x1f, 0x8b, 8]);
    let fail = |step| {
        finish_encoding(Err(GzipFailure { step, message: "why".to_string() })).err().unwrap()
    };
    assert!(
        matches!(fail(GzipStep::Write), ErrorKind::OperateError(m) if m == "gzip stream write data failed why")
    );
    assert!(
        matches!(fail(GzipStep::Finish), ErrorKind::OperateError(m) if m == "finished gzip stream failed why")
    );
    assert_eq!(finish_encoding(Ok(vec![1, 2])).ok(), Some(vec![1, 2]));
}

#[test]
fn every_body_that_was_read_is_compressed() {
    let mut seed: u32 = 1;
    let mut noise = |len: usize| -> Vec<u8> {
        (0..len)
            .map(|_| {
                seed = seed.wrapping_mul(1_664_525).wrapping_add(1_013_904_223);
                (seed >> 24) as u8
            })
            .collect()
    };
    let mut bodies = vec![vec![], vec![7], vec![0; 1_000_000], noise(500_000)];
    bodies.push((0..300_000u32).flat_map(|i| (i % 977).to_le_bytes()).collect());
    for n in [32_767, 32_768, 32_769, 65_535, 65_536, 65_537] {
        bodies.push(noise(n));
    }
    for body in bodies {
        let data = build_gzip_encoder_stream(Ok(body.clone())).ok().unwrap();
        assert_eq!(gunzip(&data), body);
    }
}

#[test]
fn a_compressed_answer_gives_its_length() {
    let mut headers = Table::new();
    headers.put("content-length".to_string(), vec!["9".to_string(), "9".to_string()]);
    match replied(encoded_reply(206, headers, Ok(vec![0; 12]))) {
        Reply::Stored { status: 206, headers, .. } => {
            assert_eq!(headers.get("content-length"), Some(&vec!["12".to_string()]));
            assert_eq!(headers.get("Vary"), Some(&vec!["accept-encoding".to_string()]));
        }
        _ => panic!("no answer"),
    }
}

#[test]
fn errors_are_written_with_their_kind() {
    let logical = ErrorKind::LogicalError("a\n\"b\"".to_string());
    assert_eq!(logical.text(), "LogicalError(\"a\\n\\\"b\\\"\")");
    assert_eq!(ErrorKind::OperateError(String::new()).text(), "OperateError(\"\")");
    assert_eq!(ErrorKind::MachineError("x".to_string()).text_with("?"), "MachineError(?)");
    assert!(
        matches!(link_error(&meta(&[]), "E"), ErrorKind::MachineError(m) if m == "cache_zone 3 link_temp stored return error E")
    );
}

#[test]
fn a_chunk_is_put_in_the_buffer() {
    let mut writer = ChunkWriter { boundary: "b".to_string(), data: vec![1, 2] };
    writer.write_chunk(b"hello");
    assert_eq!(writer.data, b"hello\r\n");
    let mut writer = ChunkWriter { boundary: "b".to_string(), data: vec![0; 5] };
    assert_eq!(writer.finalize(), b"0\r\n\r\n");
    assert_eq!(writer.boundary, "b");
}

#[test]
fn exchanges_share_the_account_of_fetches() {
    let mut state = ShareState::default();
    let (first, _) = asked(go(begin(&[], ContentMode::Stream), Event::Object(Ok(None))));
    let (second, _) = asked(go(begin(&[], ContentMode::Stream), Event::Object(Ok(None))));
    let leave = state.try_upstream(KEY.to_string());
    let (first, query) = asked(go(first, Event::Acquired(leave)));
    assert!(matches!(query, Query::Fetch { .. }));
    let leave = state.try_upstream(KEY.to_string());
    let (_, query) = asked(go(second, Event::Acquired(leave)));
    assert!(matches!(query, Query::WaitUpstream { .. }));
    let turn = go(first, Event::Fetched(Err("reset".to_string())));
    for effect in &turn.effects {
        if let Effect::ReleaseUpstream { hash, failed } = effect {
            assert!(state.runs(hash));
            assert!(state.release_upstream(hash, *failed).fail);
        }
    }
    assert!(!state.runs(KEY));
}

#[test]
fn a_whole_exchange_ends_the_fetch_that_it_began() {
    let x = linking(&[]);
    let turn = go(x, Event::Linked(Ok("real".to_string())));
    let mut released = turn.effects.len();
    let (x, _) = asked(turn);
    let (x, _) = asked(go(x, Event::Waited(false)));
    let (x, _) = asked(go(x, Event::ZoneOk(Some(true))));
    let turn = go(x, Event::ObjectSize(Ok(55)));
    released += names(&turn).iter().filter(|name| name.starts_with("release")).count();
    let (x, _) = asked(turn);
    let turn = go(x, Event::Opened(Ok(())));
    released += turn.effects.len();
    assert!(matches!(replied(turn), Reply::Stored { .. }));
    assert_eq!(released, 1);
}
