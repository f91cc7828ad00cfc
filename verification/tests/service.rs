//! Rules, routes, statuses, fetches and storage.
use cache_me::cache::Cache as MetaCache;
use cache_me::error::ErrorKind;
use cache_me::exchange::Reply;
use cache_me::router::{
    answer_metrics, choose_rule, error_status, hand_on, outgoing, refuse_control, refused,
    request_host, route_with, select_rule, sent_status, Choice, Frontend, Refusal, RequestHandler,
    Route, Service,
};
use cache_me::server::ProxyServer;
use cache_me::storage::cache_zone::disk::{CommonDisk, Mount};
use cache_me::storage::cache_zone::{get_suitable_cache_zone, CacheState, ZoneReport};
use cache_me::storage::database::gc::{can_collect, gc_batch, gc_keys, Scanned};
use cache_me::table::Table;
use cache_me::types::acl::{group_by_host, Acl, Cache, Proxy};
use cache_me::types::metadata::ObjectMetaData;
use cache_me::types::{Content, Request, Response, Source};
use cache_me::upstream::{ShareState, UpstreamStat, WaitStep};
use http::{HeaderMap, HeaderValue};

fn methods(list: Option<&[&str]>) -> Option<Vec<String>> {
    list.map(|l| l.iter().map(|m| m.to_string()).collect())
}

fn cache_rule(host: &str, path_match: &str, list: Option<&[&str]>) -> Acl {
    Acl::Cache(Cache {
        host: host.to_string(),
        path_match: path_match.to_string(),
        allow_method: methods(list),
    })
}

fn proxy_rule(host: &str, path_match: &str, list: Option<&[&str]>) -> Acl {
    Acl::Proxy(Proxy {
        host: host.to_string(),
        path_match: path_match.to_string(),
        allow_method: methods(list),
    })
}

fn host_header(host: &str) -> HeaderMap {
    let mut headers = HeaderMap::new();
    headers.insert("host", HeaderValue::from_str(host).unwrap());
    headers
}

fn meta(expire: i64, first_time_ref: i64) -> ObjectMetaData {
    ObjectMetaData {
        status_code: 200,
        headers: Table::new(),
        size: 1,
        method: "GET".to_string(),
        url_path: "/".to_string(),
        host: "h".to_string(),
        etag: String::new(),
        expire,
        last_ref_time: first_time_ref,
        ref_count: 0,
        first_time_ref,
        storage_level: 1,
        storage_path: "p".to_string(),
        cache_zone: 0,
    }
}

#[test]
fn rules_tell_host_and_pattern() {
    let rule = cache_rule("h", "/*", None);
    assert_eq!(rule.host(), "h");
    assert_eq!(rule.path_match(), "/*");
    let rule = proxy_rule("p", "^/api", None);
    assert_eq!(rule.host(), "p");
    assert_eq!(rule.path_match(), "^/api");
}

#[test]
fn rules_allow_methods() {
    assert!(cache_rule("h", "", None).method_match("GET"));
    assert!(cache_rule("h", "", Some(&["GET", "HEAD"])).method_match("HEAD"));
    assert!(!cache_rule("h", "", Some(&["GET"])).method_match("get"));
    assert!(!cache_rule("h", "", Some(&[])).method_match("GET"));
    assert!(proxy_rule("h", "", None).method_match("GET"));
    assert!(proxy_rule("h", "", Some(&[])).method_match("GET"));
    assert!(!proxy_rule("h", "", Some(&["PUT"])).method_match("GET"));
}

#[test]
fn rules_are_sorted_by_host() {
    let grouped = group_by_host(vec![
        cache_rule("a", "1", None),
        proxy_rule("b", "2", None),
        proxy_rule("a", "3", None),
    ]);
    assert_eq!(grouped.len(), 2);
    let patterns = |host: &str| -> Vec<String> {
        grouped.get(host).unwrap().iter().map(|r| r.path_match().to_string()).collect()
    };
    assert_eq!(patterns("a"), ["1", "3"]);
    assert_eq!(patterns("b"), ["2"]);
    assert_eq!(group_by_host(vec![]).len(), 0);
}

#[test]
fn rules_are_served_by_kind() {
    assert_eq!(cache_rule("h", "", None).handle(), Service::Cache);
    assert_eq!(proxy_rule("h", "", None).handle(), Service::Proxy);
}

#[test]
fn the_first_rule_that_covers_a_request_is_chosen() {
    let rules = vec![
        cache_rule("h", "^/a", Some(&["GET"])),
        proxy_rule("h", "^/b", None),
        cache_rule("h", "/*", None),
    ];
    assert_eq!(choose_rule(&rules, "GET", "/a/x"), Choice::Rule(0));
    assert_eq!(choose_rule(&rules, "PUT", "/a/x"), Choice::Rule(2));
    assert_eq!(choose_rule(&rules, "GET", "/b"), Choice::Rule(1));
    assert_eq!(choose_rule(&rules[..2].to_vec(), "GET", "/c"), Choice::Nothing);
    assert_eq!(choose_rule(&vec![], "GET", "/"), Choice::Nothing);
}

#[test]
fn a_pattern_that_is_none_matters_only_where_it_is_looked_at() {
    let rules = vec![cache_rule("h", "^/a", None), cache_rule("h", "(", Some(&["PUT"]))];
    assert_eq!(choose_rule(&rules, "PUT", "/a"), Choice::Rule(0));
    assert_eq!(choose_rule(&rules, "PUT", "/b"), Choice::BadPattern(1));
    assert_eq!(choose_rule(&rules, "GET", "/b"), Choice::Nothing);
}

#[test]
fn rules_are_chosen_by_what_patterns_say() {
    let rules = vec![
        cache_rule("h", "", Some(&["PUT"])),
        cache_rule("h", "", None),
        cache_rule("h", "", None),
    ];
    let select = |method: &str, verdicts: [Option<bool>; 3]| {
        select_rule(&rules, method, &verdicts.to_vec())
    };
    assert_eq!(select("GET", [None, Some(false), Some(true)]), Choice::Rule(2));
    assert_eq!(select("PUT", [None, Some(false), Some(true)]), Choice::BadPattern(0));
    assert_eq!(select("GET", [Some(true), Some(true), None]), Choice::Rule(1));
    assert_eq!(select("GET", [Some(true), Some(false), Some(false)]), Choice::Nothing);
}

#[test]
fn the_host_of_a_request_is_found() {
    let address = || Some("address".to_string());
    let headers = host_header("header");
    assert_eq!(request_host(Frontend::Hyper, address(), &headers), address());
    assert_eq!(request_host(Frontend::Hyper, None, &headers), Some("header".to_string()));
    assert_eq!(request_host(Frontend::Actix, address(), &headers), Some("header".to_string()));
    assert_eq!(request_host(Frontend::CacheMe, address(), &HeaderMap::new()), None);
    let mut binary = HeaderMap::new();
    binary.insert("host", HeaderValue::from_bytes(b"\xff").unwrap());
    assert_eq!(request_host(Frontend::Actix, None, &binary), None);
}

fn server() -> ProxyServer<&'static str, &'static str> {
    let acl = group_by_host(vec![
        cache_rule("doc", "/*", Some(&["GET", "HEAD"])),
        proxy_rule("api", "^/v1", None),
        cache_rule("bad", "[", None),
    ]);
    ProxyServer::new("./tmp/".to_string(), "db", vec!["zone0", "zone1"], acl)
}

#[test]
fn requests_are_routed() {
    let server = server();
    let route = |frontend, method: &str, path: &str, headers: &HeaderMap| {
        server.route(frontend, None, method, path, headers)
    };
    match route(Frontend::Actix, "GET", "/x", &host_header("doc")) {
        Route::Found { host, service } => {
            assert_eq!(host, "doc");
            assert_eq!(service, Service::Cache);
        }
        _ => panic!("not found"),
    }
    assert!(matches!(
        route(Frontend::Actix, "PUT", "/v1", &host_header("api")),
        Route::Found { service: Service::Proxy, .. }
    ));
    let why = |method: &str, path: &str, headers: HeaderMap| -> Refusal {
        match route(Frontend::Actix, method, path, &headers) {
            Route::Refused { refusal } => refusal,
            _ => panic!("not refused"),
        }
    };
    assert_eq!(why("GET", "/", HeaderMap::new()), Refusal::NoHost);
    assert_eq!(why("GET", "/", host_header("other")), Refusal::UnknownHost);
    assert_eq!(why("PUT", "/", host_header("doc")), Refusal::NoRule);
    assert_eq!(why("GET", "/v2", host_header("api")), Refusal::NoRule);
    assert!(matches!(
        route(Frontend::Actix, "GET", "/", &host_header("bad")),
        Route::BadPattern { rule: 0 }
    ));
}

#[test]
fn a_route_follows_from_the_choice() {
    let rules = vec![proxy_rule("h", "", None)];
    let route = |choice| route_with("h".to_string(), &rules, choice);
    assert!(matches!(route(Choice::Nothing), Route::Refused { refusal: Refusal::NoRule }));
    assert!(matches!(route(Choice::BadPattern(0)), Route::BadPattern { rule: 0 }));
    assert!(matches!(
        route(Choice::Rule(0)),
        Route::Found { ref host, service: Service::Proxy } if host == "h"
    ));
}

#[test]
fn the_proxy_knows_its_parts() {
    let server = server();
    assert_eq!(*server.database(), "db");
    assert_eq!(server.zone(1), Some(&"zone1"));
    assert_eq!(server.zone(2), None);
    assert_eq!(server.all_zones().len(), 2);
    assert_eq!(server.temp_path(&vec![0xde, 0xad, 0xbe, 0xef]), "./tmp/deadbeef");
    assert_eq!(*MetaCache::new(7).database(), 7);
}

#[test]
fn errors_are_answered_with_a_status() {
    let machine = ErrorKind::MachineError(String::new());
    let logical = ErrorKind::LogicalError(String::new());
    let operate = ErrorKind::OperateError(String::new());
    for frontend in [Frontend::Actix, Frontend::CacheMe] {
        assert_eq!(error_status(frontend, &machine), 500);
        assert_eq!(error_status(frontend, &logical), 403);
        assert_eq!(error_status(frontend, &operate), 501);
    }
    assert_eq!(error_status(Frontend::Hyper, &machine), 501);
    assert_eq!(error_status(Frontend::Hyper, &logical), 403);
    assert_eq!(error_status(Frontend::Hyper, &operate), 500);
    for err in [machine, logical, operate] {
        let logical = matches!(err, ErrorKind::LogicalError(_));
        let status = error_status(Frontend::Hyper, &err);
        let out = outgoing(Frontend::Hyper, Err(err));
        assert_eq!(out.status, Some(status));
        assert_eq!(out.internal, !logical);
        assert!(out.headers.is_empty());
        assert!(matches!(out.content, Content::Stream(Source::Empty)));
    }
    let out = outgoing(Frontend::Actix, Err(ErrorKind::MachineError(String::new())));
    assert!(!out.internal);
}

#[test]
fn refusals_are_answered_with_a_status() {
    for frontend in [Frontend::Actix, Frontend::Hyper, Frontend::CacheMe] {
        for refusal in [Refusal::NoHost, Refusal::UnknownHost, Refusal::NoRule] {
            let hyper = frontend == Frontend::Hyper;
            let out = refused(frontend, refusal);
            let bad = hyper && refusal == Refusal::NoHost;
            assert_eq!(out.status, Some(if bad { 400 } else { 404 }));
            let length = out.headers.get("content-length");
            if hyper && refusal == Refusal::NoRule {
                assert_eq!(length.unwrap(), "0");
                assert_eq!(out.headers.get("contention").unwrap(), "close");
            } else {
                assert!(out.headers.is_empty());
            }
            assert!(!out.internal);
        }
    }
}

#[test]
fn answers_go_out_as_they_are() {
    let response = || Response {
        status_code: 206,
        headers: host_header("x"),
        content: Content::Path("p".to_string()),
    };
    let out = outgoing(Frontend::CacheMe, Ok(response()));
    assert_eq!(out.status, Some(206));
    assert_eq!(out.headers, host_header("x"));
    assert!(matches!(out.content, Content::Path(ref p) if p == "p"));
    assert_eq!(outgoing(Frontend::Actix, Ok(response())).status, None);
    assert_eq!(outgoing(Frontend::Hyper, Ok(response())).status, Some(206));
}

#[test]
fn answers_are_sent_with_a_status() {
    let stream = Content::Stream(Source::Empty);
    let file = Content::Path("p".to_string());
    assert_eq!(sent_status(Frontend::Actix, 206, &stream), Some(206));
    assert_eq!(sent_status(Frontend::Actix, 206, &file), None);
    assert_eq!(sent_status(Frontend::Hyper, 206, &stream), Some(206));
    assert_eq!(sent_status(Frontend::Hyper, 304, &stream), Some(304));
    assert_eq!(sent_status(Frontend::CacheMe, 206, &file), Some(206));
}

#[test]
fn requests_are_handed_on() {
    let req = Request {
        host: "api".to_string(),
        method: "GET".to_string(),
        url_path: "/v1".to_string(),
        headers: HeaderMap::new(),
        timestamp: 0,
    };
    match hand_on(&req, Ok((418, host_header("x")))) {
        Ok(Reply::PassThrough { status: 418, headers }) => assert_eq!(headers.len(), 1),
        _ => panic!("not handed on"),
    }
    match hand_on(&req, Err("down".to_string())) {
        Err(ErrorKind::OperateError(m)) => assert_eq!(m, "upstream http://api/v1 failed down"),
        _ => panic!("no error"),
    }
}

#[test]
fn metrics_are_answered() {
    assert!(refuse_control("/metrics").is_none());
    let refused = refuse_control("/metrics/").unwrap();
    assert_eq!((refused.status, refused.metrics), (404, false));
    assert_eq!(refused.body, b"Not Found");
    let good = answer_metrics(Some(b"m 1".to_vec()));
    assert_eq!((good.status, good.metrics), (200, true));
    assert_eq!(good.body, b"m 1");
    let bad = answer_metrics(None);
    assert_eq!((bad.status, bad.metrics), (500, false));
    assert_eq!(bad.body, b"server internal error");
}

#[test]
fn one_fetch_runs_at_a_time() {
    let mut state = ShareState::default();
    assert!(state.try_upstream("k".to_string()));
    assert!(!state.try_upstream("k".to_string()));
    assert!(state.try_upstream("other".to_string()));
    assert!(state.runs("k"));
    assert!(!state.wait_upstream("k"));
    let stat = state.release_upstream("k", true);
    assert_eq!(stat, UpstreamStat { is_released: true, fail: true });
    assert!(!state.runs("k") && state.runs("other"));
    assert!(!state.wait_upstream("k"));
    assert!(state.try_upstream("k".to_string()));
}

#[test]
fn a_fetch_tells_those_who_wait() {
    let mut stat = UpstreamStat::default();
    assert_eq!(stat.wait(), WaitStep::Answer(false));
    stat.release(true);
    assert_eq!(stat.wait(), WaitStep::Notification);
    assert!(stat.notified());
    let mut stat = UpstreamStat::default();
    stat.release(false);
    assert!(!stat.notified());
}

#[test]
fn fetches_of_hosts_are_apart() {
    let mut server = server();
    assert!(server.try_upstream("doc", "k".to_string()));
    assert!(!server.try_upstream("doc", "k".to_string()));
    assert!(server.try_upstream("api", "k".to_string()));
    assert!(server.runs("doc", "k") && !server.runs("doc", "l") && !server.runs("none", "k"));
    assert!(!server.wait_upstream("doc", "k"));
    let stat = server.release_upstream("doc", "k", false);
    assert_eq!(stat, UpstreamStat { is_released: true, fail: false });
    assert!(!server.runs("doc", "k") && server.runs("api", "k"));
    assert!(server.try_upstream("doc", "k".to_string()));
}

#[test]
fn a_zone_is_chosen() {
    let report = |avaiable_size, usage_ok| ZoneReport {
        state: CacheState { avaiable_size, total_size: 100, error_count: 0 },
        usage_ok,
    };
    let choose = |zones: &[ZoneReport], size| get_suitable_cache_zone(&zones.to_vec(), size);
    assert!(matches!(choose(&[report(11, true), report(12, true)], 10), Ok(1)));
    assert!(matches!(choose(&[report(11, true), report(10, true)], 10), Ok(0)));
    assert!(matches!(choose(&[report(11, true), report(12, false)], 10), Ok(0)));
    for zones in [vec![], vec![report(10, true)], vec![report(11, false)]] {
        assert!(
            matches!(choose(&zones, 10), Err(ErrorKind::MachineError(m)) if m == "not avaiable cache_zone")
        );
    }
}

#[test]
fn a_disk_is_found_by_its_mount_point() {
    let mount = |point: &str, available, total| Mount { point: point.to_string(), available, total };
    let open = |path: &str, mounts: Vec<Mount>| {
        let state = CommonDisk::open(path, &mounts).state();
        (state.avaiable_size, state.total_size, state.error_count)
    };
    let all = || vec![mount("/data", 1, 2), mount("/", 3, 4), mount("/data/x", 5, 6)];
    assert_eq!(open("/data/zone", all()), (1, 2, 0));
    assert_eq!(open("/data/x", all()), (1, 2, 0));
    assert_eq!(open("/srv", all()), (3, 4, 0));
    assert_eq!(open("cache_zone0", all()), (3, 4, 0));
    assert_eq!(open("cache_zone0", vec![mount("/data", 1, 2)]), (0, 0, 0));
    assert_eq!(open("rel", vec![mount("/", 1, 2), mount("/", 7, 8)]), (7, 8, 0));
    let disk = CommonDisk::open("zone", &all());
    assert!(disk.is_ok());
    assert_eq!(disk.get_object_path("abc"), "zone/abc");
}

#[test]
fn a_disk_accounts_for_what_is_stored() {
    let root = Mount { point: "/".to_string(), available: 1000, total: 4000 };
    let mut disk = CommonDisk::open("/z", &vec![root]);
    assert_eq!(disk.account_stored(100), 900);
    assert_eq!(disk.account_stored(50), 850);
    assert_eq!(disk.account_removed(50), 900);
    let state = disk.state();
    assert_eq!((state.avaiable_size, state.total_size, state.error_count), (900, 4000, 0));
    disk.note_level_reached(false);
    assert!(disk.is_ok());
    disk.note_level_reached(true);
    assert!(!disk.is_ok());
    disk.note_level_left(false);
    assert!(!disk.is_ok());
    disk.note_level_left(true);
    assert!(disk.is_ok());
    assert_eq!(disk.account_stored(901), -1);
    assert_eq!(disk.state().avaiable_size, 0);
    disk.account = usize::MAX as i128;
    assert_eq!(disk.account_removed(3), usize::MAX as i128 + 3);
    assert_eq!(disk.state().avaiable_size, usize::MAX);
}

#[test]
fn removing_undoes_storing() {
    let root = Mount { point: "/".to_string(), available: 1000, total: 4000 };
    let mut disk = CommonDisk::open("/z", &vec![root]);
    for n in [0u64, 1, 999, 1000, 1001, u64::MAX] {
        disk.account_stored(n);
        disk.note_level_reached(true);
        assert_eq!(disk.account_removed(n), 1000);
        assert_eq!(disk.state().avaiable_size, 1000);
        disk.note_level_left(true);
        assert!(disk.is_ok());
    }
}

#[test]
fn an_object_larger_than_the_room_is_accounted_for() {
    let root = Mount { point: "/".to_string(), available: 5, total: 10 };
    let mut disk = CommonDisk::open("/z", &vec![root]);
    assert_eq!(disk.account_stored(10), -5);
    assert_eq!(disk.state().avaiable_size, 0);
    assert_eq!(disk.account_removed(10), 5);
    assert_eq!(disk.state().avaiable_size, 5);
}

#[test]
fn overlapping_stores_are_undone() {
    let open = || {
        let root = Mount { point: "/".to_string(), available: 100, total: 200 };
        CommonDisk::open("/z", &vec![root])
    };
    for (first, second) in [(60, 70), (70, 60)] {
        let mut disk = open();
        assert_eq!(disk.account_stored(60), 40);
        assert_eq!(disk.account_stored(70), -30);
        assert_eq!(disk.state().avaiable_size, 0);
        disk.account_removed(first);
        assert_eq!(disk.account_removed(second), 100);
        assert_eq!(disk.state().avaiable_size, 100);
    }
}

fn entries() -> Vec<Scanned> {
    vec![
        Scanned::Object { key: b"fresh".to_vec(), meta: meta(10, 91) },
        Scanned::Failed,
        Scanned::Dirty { key: b"dirty".to_vec() },
        Scanned::Object { key: b"stale".to_vec(), meta: meta(10, 90) },
    ]
}

#[test]
fn what_is_stale_is_collected() {
    assert!(can_collect(&entries()));
    assert_eq!(gc_keys(&entries(), 100), vec![b"dirty".to_vec(), b"stale".to_vec()]);
    assert_eq!(gc_keys(&entries(), 99), vec![b"dirty".to_vec()]);
    assert!(gc_batch(&vec![Scanned::Failed], 100).is_none());
    let late = vec![Scanned::Object { key: vec![1], meta: meta(i64::MAX, 1) }];
    assert!(!can_collect(&late));
}

#[test]
fn a_collection_removes_from_the_database() {
    let db = sled::Config::new().temporary(true).open().unwrap();
    for key in ["fresh", "dirty", "stale"] {
        db.insert(key, "v").unwrap();
    }
    db.apply_batch(gc_batch(&entries(), 100).unwrap()).unwrap();
    assert!(db.contains_key("fresh").unwrap());
    assert!(!db.contains_key("dirty").unwrap());
    assert!(!db.contains_key("stale").unwrap());
    assert_eq!(db.len(), 1);
}

#[test]
fn a_request_and_a_collection_agree_on_what_is_stale() {
    for expire in [-5i64, 0, 9, 10, 11, 1000] {
        for now in [80i64, 89, 90, 99, 100, 101] {
            let collected =
                gc_keys(&vec![Scanned::Object { key: vec![7], meta: meta(expire, 90) }], now);
            assert_eq!(!collected.is_empty(), meta(expire, 90).is_expired(now), "{expire} {now}");
        }
    }
}

#[test]
fn a_table_keeps_one_value_for_a_name() {
    let mut table = Table::new();
    table.put("a".to_string(), 1);
    table.put("b".to_string(), 2);
    table.put("a".to_string(), 3);
    assert_eq!(table.len(), 2);
    assert_eq!(table.get("a"), Some(&3));
    assert_eq!((table.name_at(0).as_str(), *table.value_at(0)), ("a", 3));
    assert_eq!(table.take("a"), Some(3));
    assert_eq!(table.take("a"), None);
    assert!(!table.contains("a") && table.contains("b"));
}

#[test]
fn metadata_tells_its_age() {
    let mut m = meta(60, 1000);
    assert!(m.is_datable() && !m.is_expired(1059) && m.is_expired(1060));
    assert!(m.is_dated() && m.is_measured());
    assert!(m.last_modified().is_none());
    m.headers.put(
        "last-modified".to_string(),
        vec!["Sun, 06 Nov 1994 08:49:37 GMT".to_string(), "later".to_string()],
    );
    assert_eq!(m.last_modified().unwrap().secs, 784111777);
    let copy = m.copy();
    assert_eq!(copy.headers.get("last-modified").unwrap().len(), 2);
    assert_eq!(copy.storage_path, "p");
    m.headers.put("last-modified".to_string(), vec![]);
    assert!(!m.is_dated() && m.is_measured());
    m.headers.put("content-length".to_string(), vec![]);
    assert!(!m.is_measured());
    assert!(!meta(i64::MAX, 1).is_datable());
}
