//! What an exchange does next, for each phase and each result.
use vstd::prelude::*;
use super::{
    AnswerView, ContentMode, EffectView, EventView, ExchangeView, PhaseView, QueryView,
    ReadFailureView, ReplyView, StepView, TurnView,
};
use crate::cache_control::CacheControl;
use crate::error::ErrorView;
use crate::forward::UpstreamView;
use crate::headers::{HeaderView, TextLists};
use crate::types::{ContentView, RequestView};
use crate::types::metadata::MetaView;

verus! {

/// An exchange that goes on with the result of a query.
pub open spec fn ask(
    x: ExchangeView,
    effects: Seq<EffectView>,
    phase: PhaseView,
    query: QueryView,
) -> TurnView {
    TurnView { effects, step: StepView::Ask { next: ExchangeView { phase, ..x }, query } }
}

/// An exchange that is over.
pub open spec fn done(effects: Seq<EffectView>, result: Result<ReplyView, ErrorView>) -> TurnView {
    TurnView { effects, step: StepView::Done { result } }
}

/// The removal of an object.
pub open spec fn removal(hash: Seq<char>, meta: MetaView) -> EffectView {
    EffectView::RemoveObject {
        hash,
        cache_zone: meta.cache_zone,
        storage_path: meta.storage_path,
    }
}

/// The end of the fetch.
pub open spec fn release(x: ExchangeView, failed: bool) -> EffectView {
    EffectView::ReleaseUpstream { hash: x.hash, failed }
}

/// How a failed fetch ends.
pub open spec fn fetch_failed(x: ExchangeView, err: ErrorView) -> TurnView {
    done(seq![release(x, true)], Err(err))
}

/// How an exchange goes on with the object that is cached.
pub open spec fn serve(x: ExchangeView, effects: Seq<EffectView>, meta: MetaView) -> TurnView {
    ask(
        x,
        effects.push(EffectView::CountHit),
        PhaseView::Reopening { meta, hit: true },
        QueryView::ZoneOk { cache_zone: meta.cache_zone },
    )
}

/// How an exchange goes on without an object that could be served.
pub open spec fn fetch(x: ExchangeView, effects: Seq<EffectView>, meta: Option<MetaView>) -> TurnView {
    ask(x, effects, PhaseView::Acquiring { meta }, QueryView::TryUpstream { hash: x.hash })
}

/// How an exchange goes on once it is known whether the cached object can be served.
pub open spec fn serve_or_fetch(
    x: ExchangeView,
    effects: Seq<EffectView>,
    meta: MetaView,
    hit: bool,
) -> TurnView {
    if hit {
        serve(x, effects, meta)
    } else {
        fetch(x, effects, Some(meta))
    }
}

/// What is done to an object that is found: one that has expired is removed.
pub open spec fn on_finding(x: ExchangeView, meta: MetaView) -> Seq<EffectView> {
    if meta.expired_at(x.req.timestamp) {
        seq![removal(x.hash, meta)]
    } else {
        Seq::empty()
    }
}

/// What is to be done with an object that was found.
#[derive(Clone, Copy, PartialEq, Eq, Structural, Debug)]
pub enum Finding {
    /// Ask the origin whether it is still current.
    Validate,
    /// Tell the sender that it has the current version.
    NotModified,
    /// Serve it.
    Serve,
    /// Fetch it anew.
    Fetch,
}

/// What is to be done with an object that was found. The sender's entity tag is compared first, the
/// dates count only where there is none.
pub open spec fn finding(
    expired: bool,
    tag: Option<Seq<char>>,
    etag: Seq<char>,
    unchanged: bool,
) -> Finding {
    if tag is Some && tag->0 != etag {
        Finding::Validate
    } else if tag is None && unchanged {
        Finding::NotModified
    } else if expired {
        Finding::Fetch
    } else {
        Finding::Serve
    }
}

/// How the origin is asked whether an object is still current, given the request for that.
pub open spec fn validation(
    x: ExchangeView,
    effects: Seq<EffectView>,
    meta: MetaView,
    hit: bool,
    head: Result<UpstreamView, ErrorView>,
) -> TurnView {
    match head {
        Ok(request) => ask(
            x,
            effects,
            PhaseView::Validating { meta, hit },
            QueryView::Head { request },
        ),
        Err(err) => done(effects, Err(err)),
    }
}

/// With the metadata of the object.
pub open spec fn looked_up(x: ExchangeView, found: Result<Option<MetaView>, ErrorView>) -> TurnView {
    match found {
        Err(err) => done(Seq::empty(), Err(err)),
        Ok(None) => fetch(x, Seq::empty(), None),
        Ok(Some(meta)) => {
            let effects = on_finding(x, meta);
            let expired = meta.expired_at(x.req.timestamp);
            let unchanged = crate::time::unchanged(
                meta.last_modified(),
                x.req.if_modified_since(),
            );
            match finding(expired, x.req.if_none_match(), meta.etag, unchanged) {
                Finding::Validate => validation(
                    x,
                    effects,
                    meta,
                    !expired,
                    crate::forward::head_request_of(x.req),
                ),
                Finding::NotModified => done(effects, Ok(ReplyView::NotModified)),
                Finding::Serve => serve(x, effects, meta),
                Finding::Fetch => fetch(x, effects, Some(meta)),
            }
        },
    }
}

/// Whether the origin has another version of an object: it answers with an entity tag that is not
/// the object's.
pub open spec fn replaced(status: u16, headers: HeaderView, meta: MetaView) -> bool {
    status == 200 && match crate::types::header_as_text(headers, "etag"@) {
        Some(tag) => tag != meta.etag,
        None => false,
    }
}

/// With what the origin says of the object that is cached.
pub open spec fn validated(x: ExchangeView, meta: MetaView, hit: bool, answer: AnswerView) -> TurnView {
    match answer {
        Err(failure) => done(Seq::empty(), Err(crate::forward::origin_failed(x.req, failure))),
        Ok((status, headers)) => if replaced(status, headers, meta) {
            fetch(x, seq![removal(x.hash, meta)], Some(meta))
        } else {
            serve_or_fetch(x, Seq::empty(), meta, hit && status != 304)
        },
    }
}

/// How the origin is asked for the object, given the request for that.
pub open spec fn fetching(x: ExchangeView, request: Result<UpstreamView, ErrorView>) -> TurnView {
    match request {
        Ok(request) => ask(x, Seq::empty(), PhaseView::Fetching, QueryView::Fetch { request }),
        Err(err) => fetch_failed(x, err),
    }
}

/// With leave to fetch the object, or without it.
pub open spec fn acquired(x: ExchangeView, meta: Option<MetaView>, leave: bool) -> TurnView {
    if leave {
        fetching(x, crate::forward::sub_request_of(x.req))
    } else {
        ask(x, Seq::empty(), PhaseView::Waiting { meta }, QueryView::WaitUpstream { hash: x.hash })
    }
}

/// What the origin says about caching its answer.
pub open spec fn caching_of(headers: HeaderView) -> CacheControl {
    match crate::types::header_as_text(headers, "cache-control"@) {
        Some(text) => crate::cache_control::cache_control_of(text),
        None => crate::cache_control::unrestricted(),
    }
}

/// With the origin's answer. One that is not to be cached ends the fetch.
pub open spec fn fetched(x: ExchangeView, answer: AnswerView) -> TurnView {
    match answer {
        Err(failure) => fetch_failed(x, crate::forward::origin_failed(x.req, failure)),
        Ok((status, headers)) => {
            let cc = caching_of(headers);
            if cc.need_cache {
                ask(
                    x,
                    Seq::empty(),
                    PhaseView::Storing { status, headers, max_age: cc.max_age },
                    QueryView::StoreTemp,
                )
            } else {
                done(seq![release(x, false)], Ok(ReplyView::PassThrough { status, headers }))
            }
        },
    }
}

/// With the temporary file.
pub open spec fn stored(
    x: ExchangeView,
    status: u16,
    headers: HeaderView,
    max_age: u32,
    temp: Result<Seq<char>, ErrorView>,
) -> TurnView {
    match temp {
        Err(err) => fetch_failed(x, err),
        Ok(path) => ask(
            x,
            Seq::empty(),
            PhaseView::Sizing { status, headers, max_age, path },
            QueryView::TempSize { path },
        ),
    }
}

/// How a fetch ends whose temporary file is of no use.
pub open spec fn temp_useless(x: ExchangeView, path: Seq<char>, err: ErrorView) -> TurnView {
    done(seq![EffectView::RemoveTemp { path }, release(x, true)], Err(err))
}

/// The error for a temporary file whose size is unknown.
pub open spec fn size_unknown(path: Seq<char>, failure: Seq<char>) -> ErrorView {
    ErrorView::Machine("get temp file "@ + path + " metadata failed "@ + failure)
}

/// With the size of the temporary file.
pub open spec fn sized(
    x: ExchangeView,
    status: u16,
    headers: HeaderView,
    max_age: u32,
    path: Seq<char>,
    size: Result<u64, Seq<char>>,
) -> TurnView {
    match size {
        Err(failure) => temp_useless(x, path, size_unknown(path, failure)),
        Ok(n) => ask(
            x,
            Seq::empty(),
            PhaseView::Placing { status, headers, max_age, path, size: n as usize },
            QueryView::ZoneStates,
        ),
    }
}

/// The origin's entity tag; none is kept as an empty one.
pub open spec fn etag_of(headers: HeaderView) -> Seq<char> {
    match crate::types::header_as_text(headers, "etag"@) {
        Some(tag) => tag,
        None => ""@,
    }
}

/// What is kept about an object that was just fetched.
pub open spec fn fresh_meta(
    req: RequestView,
    status: u16,
    headers: HeaderView,
    max_age: u32,
    path: Seq<char>,
    size: usize,
    cache_zone: u8,
) -> MetaView {
    MetaView {
        status_code: status,
        headers: crate::headers::first_texts(headers),
        size,
        method: req.method,
        url_path: req.url_path,
        host: req.host,
        etag: etag_of(headers),
        expire: max_age as i64,
        last_ref_time: req.timestamp,
        ref_count: 0,
        first_time_ref: req.timestamp,
        storage_level: 1,
        storage_path: path,
        cache_zone,
    }
}

/// With the state of the zones.
pub open spec fn placed(
    x: ExchangeView,
    status: u16,
    headers: HeaderView,
    max_age: u32,
    path: Seq<char>,
    size: usize,
    zones: Seq<crate::storage::cache_zone::ZoneReport>,
) -> TurnView {
    match crate::storage::cache_zone::suitable_zone(zones, size) {
        Err(err) => temp_useless(x, path, err),
        Ok(cache_zone) => ask(
            x,
            Seq::empty(),
            PhaseView::Checking {
                meta: fresh_meta(x.req, status, headers, max_age, path, size, cache_zone),
            },
            QueryView::ZoneOk { cache_zone },
        ),
    }
}

/// A zone's number in words.
pub open spec fn zone_words(front: Seq<char>, cache_zone: u8, back: Seq<char>) -> Seq<char> {
    front + crate::text::decimal(cache_zone as nat) + back
}

/// With the state of the zone that is to store the object.
pub open spec fn checked(x: ExchangeView, meta: MetaView, ok: Option<bool>) -> TurnView {
    match ok {
        None => fetch_failed(
            x,
            ErrorView::Machine(zone_words("cache_zone "@, meta.cache_zone, " get failed"@)),
        ),
        Some(false) => fetch_failed(
            x,
            ErrorView::Machine(zone_words("cache_zone "@, meta.cache_zone, " is not ok"@)),
        ),
        Some(true) => ask(
            x,
            Seq::empty(),
            PhaseView::Linking { meta },
            QueryView::LinkTemp { cache_zone: meta.cache_zone, path: meta.storage_path },
        ),
    }
}

/// The error for a temporary file that its zone could not take over, as the zone's error is written.
pub open spec fn link_failed(meta: MetaView, failure: Seq<char>) -> ErrorView {
    ErrorView::Machine(
        zone_words("cache_zone "@, meta.cache_zone, " link_temp "@) + meta.storage_path
            + " return error "@ + failure,
    )
}

/// With the name under which the zone keeps what was a temporary file.
pub open spec fn linked(
    x: ExchangeView,
    meta: MetaView,
    name: Result<Seq<char>, ErrorView>,
) -> TurnView {
    match name {
        Err(err) => fetch_failed(x, link_failed(meta, err.text())),
        Ok(storage_path) => ask(
            x,
            seq![release(x, false)],
            PhaseView::Waiting { meta: Some(MetaView { storage_path, ..meta }) },
            QueryView::WaitUpstream { hash: x.hash },
        ),
    }
}

/// The error for an object that someone else failed to fetch.
pub open spec fn other_failed(hash: Seq<char>) -> ErrorView {
    ErrorView::Operate("other upstream failed.hashkey="@ + hash + " use same result"@)
}

/// With the end of the fetch by someone else.
pub open spec fn waited(x: ExchangeView, meta: Option<MetaView>, failed: bool) -> TurnView {
    if failed {
        done(Seq::empty(), Err(other_failed(x.hash)))
    } else {
        ask(
            x,
            Seq::empty(),
            PhaseView::Reopening { meta: meta->0, hit: false },
            QueryView::ZoneOk { cache_zone: meta->0.cache_zone },
        )
    }
}

/// With the state of the zone that stores the object.
pub open spec fn reopened(x: ExchangeView, meta: MetaView, hit: bool, ok: Option<bool>) -> TurnView {
    match ok {
        None => done(
            Seq::empty(),
            Err(ErrorView::Operate(zone_words("not found cache_zone "@, meta.cache_zone, ""@))),
        ),
        Some(false) => done(
            Seq::empty(),
            Err(ErrorView::Machine(zone_words("cache_zone "@, meta.cache_zone, " is not ok"@))),
        ),
        Some(true) => ask(
            x,
            Seq::empty(),
            PhaseView::Measuring { meta, hit },
            QueryView::ObjectSize { cache_zone: meta.cache_zone, path: meta.storage_path },
        ),
    }
}

/// The status of the answer: that of the origin's, or that of a part.
pub open spec fn reply_status(meta: MetaView, rng: (i64, i64)) -> u16 {
    match crate::range::part_length(rng, meta.size) {
        Some(_) => 206,
        None => meta.status_code,
    }
}

/// The headers with the length of a part in place of that of the whole, where a length is given.
pub open spec fn part_headers(headers: TextLists, length: Option<usize>) -> TextLists {
    match length {
        Some(n) => if headers.contains_key("content-length"@) {
            headers.insert(
                "content-length"@,
                headers["content-length"@].update(0, crate::text::decimal(n as nat)),
            )
        } else {
            headers
        },
        None => headers,
    }
}

/// What the answer says of the cache.
pub open spec fn cache_mark(hit: bool) -> Seq<char> {
    if hit {
        "HIT"@
    } else {
        "MISS"@
    }
}

/// The headers of the answer.
pub open spec fn reply_headers(meta: MetaView, rng: (i64, i64), hit: bool) -> TextLists {
    part_headers(meta.headers, crate::range::part_length(rng, meta.size)).insert(
        "x-cache"@,
        seq![cache_mark(hit)],
    )
}

/// How the stored object is opened.
pub open spec fn opening(mode: ContentMode, meta: MetaView, rng: (i64, i64)) -> QueryView {
    match mode {
        ContentMode::Stream => QueryView::OpenContent {
            cache_zone: meta.cache_zone,
            path: meta.storage_path,
            rng,
        },
        ContentMode::File => QueryView::ObjectPath {
            cache_zone: meta.cache_zone,
            path: meta.storage_path,
        },
    }
}

/// With the size of the stored object. The metadata is stored again with one more reference to it.
pub open spec fn measured(
    x: ExchangeView,
    meta: MetaView,
    hit: bool,
    size: Result<u64, ErrorView>,
) -> TurnView {
    match size {
        Err(err) => done(Seq::empty(), Err(err)),
        Ok(n) => {
            let rng = crate::range::clipped(x.req.range(), n);
            ask(
                x,
                seq![
                    EffectView::PutObject {
                        hash: x.hash,
                        meta: meta.referenced(x.req.timestamp),
                    },
                ],
                PhaseView::Opening {
                    status: reply_status(meta, rng),
                    headers: reply_headers(meta, rng, hit),
                    cache_zone: meta.cache_zone,
                    path: meta.storage_path,
                    rng,
                },
                opening(x.mode, meta, rng),
            )
        },
    }
}

/// With a body that can be handed out as it is. It is compressed where the sender takes that.
pub open spec fn ready(
    x: ExchangeView,
    status: u16,
    headers: TextLists,
    cache_zone: u8,
    path: Seq<char>,
    rng: (i64, i64),
    content: ContentView,
) -> TurnView {
    if x.req.takes_gzip() {
        ask(
            x,
            Seq::empty(),
            PhaseView::Encoding { status, headers },
            QueryView::ReadContent { cache_zone, path, rng },
        )
    } else {
        done(Seq::empty(), Ok(ReplyView::Stored { status, headers, content }))
    }
}

/// `headers` with one more value under `name`.
pub open spec fn with_text(headers: TextLists, name: Seq<char>, value: Seq<char>) -> TextLists {
    headers.insert(
        name,
        if headers.contains_key(name) {
            headers[name].push(value)
        } else {
            seq![value]
        },
    )
}

/// The headers of an answer whose compressed body has `length` bytes.
pub open spec fn gzip_headers(headers: TextLists, length: nat) -> TextLists {
    with_text(
        headers.insert("content-encoding"@, seq!["gzip"@]),
        "Vary"@,
        "accept-encoding"@,
    ).insert("content-length"@, seq![crate::text::decimal(length)])
}

/// With the body to compress, given what compressing it comes to.
pub open spec fn encoded_reply(
    status: u16,
    headers: TextLists,
    body: Result<Seq<u8>, ErrorView>,
) -> TurnView {
    match body {
        Ok(data) => done(
            Seq::empty(),
            Ok(
                ReplyView::Stored {
                    status,
                    headers: gzip_headers(headers, data.len()),
                    content: ContentView::Bytes(data),
                },
            ),
        ),
        Err(err) => done(Seq::empty(), Err(err)),
    }
}

/// With the body to compress.
pub open spec fn read(
    status: u16,
    headers: TextLists,
    content: Result<Seq<u8>, ReadFailureView>,
) -> TurnView {
    match content {
        Ok(data) => encoded_reply(status, headers, crate::stream::encoded(Ok(data))),
        Err(ReadFailureView::Open(err)) => done(Seq::empty(), Err(err)),
        Err(ReadFailureView::Read(failure)) => encoded_reply(
            status,
            headers,
            crate::stream::encoded(Err(failure)),
        ),
    }
}

/// Whether the exchange ends with an answer whose bytes give `data` when they are unpacked.
pub open spec fn sends_packed(turn: TurnView, data: Seq<u8>) -> bool {
    turn.step matches StepView::Done { result: Ok(reply) } && (
    reply matches ReplyView::Stored { content, .. } && (
    content matches ContentView::Bytes(packed) && crate::stream::gunzipped(packed) == Some(data)))
}

/// Whether an object that was found can be judged: the end of its fresh time can be told, its date
/// where the sender gives one to compare, and the origin can be asked where that is to be done.
pub open spec fn judgeable(req: RequestView, meta: MetaView) -> bool {
    &&& meta.datable()
    &&& match req.if_none_match() {
        Some(tag) => tag != meta.etag ==> req.well_formed(),
        None => req.if_modified_since() is Some ==> meta.dated(),
    }
}

/// Whether an object of `n` stored bytes can be handed out: the range can be brought within it, the
/// length of a part has a place to stand, and the requests for it can be counted.
pub open spec fn servable(req: RequestView, meta: MetaView, n: u64) -> bool {
    &&& crate::range::clippable(req.range(), n)
    &&& crate::range::part_length(crate::range::clipped(req.range(), n), meta.size) is Some
        ==> meta.measured()
    &&& meta.ref_count < i64::MAX
}

/// Whether an exchange can go on with an event: it is what the exchange waits for, and what it
/// gives can be handled.
pub open spec fn accepts(x: ExchangeView, event: EventView) -> bool {
    match (x.phase, event) {
        (PhaseView::Lookup, EventView::Object(found)) => match found {
            Ok(Some(meta)) => judgeable(x.req, meta),
            _ => true,
        },
        (PhaseView::Validating { .. }, EventView::Head(_)) => true,
        (PhaseView::Acquiring { .. }, EventView::Acquired(leave)) => leave ==> x.req.well_formed(),
        (PhaseView::Fetching, EventView::Fetched(_)) => true,
        (PhaseView::Storing { .. }, EventView::Temp(_)) => true,
        (PhaseView::Sizing { .. }, EventView::TempSize(_)) => true,
        (PhaseView::Placing { .. }, EventView::Zones(_)) => true,
        (PhaseView::Checking { .. }, EventView::ZoneOk(_)) => true,
        (PhaseView::Linking { .. }, EventView::Linked(_)) => true,
        (PhaseView::Waiting { meta }, EventView::Waited(failed)) => failed || meta is Some,
        (PhaseView::Reopening { .. }, EventView::ZoneOk(_)) => true,
        (PhaseView::Measuring { meta, .. }, EventView::ObjectSize(size)) => match size {
            Ok(n) => servable(x.req, meta, n),
            Err(_) => true,
        },
        (PhaseView::Opening { .. }, EventView::Opened(_)) => x.mode == ContentMode::Stream,
        (PhaseView::Opening { .. }, EventView::ObjectPath(_)) => x.mode == ContentMode::File,
        (PhaseView::Encoding { .. }, EventView::Content(_)) => true,
        _ => false,
    }
}

/// What an exchange does next with an event that it accepts.
pub open spec fn turn_of(x: ExchangeView, event: EventView) -> TurnView
    recommends
        accepts(x, event),
{
    match (x.phase, event) {
        (PhaseView::Lookup, EventView::Object(found)) => looked_up(x, found),
        (PhaseView::Validating { meta, hit }, EventView::Head(answer)) => validated(
            x,
            meta,
            hit,
            answer,
        ),
        (PhaseView::Acquiring { meta }, EventView::Acquired(leave)) => acquired(x, meta, leave),
        (PhaseView::Fetching, EventView::Fetched(answer)) => fetched(x, answer),
        (PhaseView::Storing { status, headers, max_age }, EventView::Temp(temp)) => stored(
            x,
            status,
            headers,
            max_age,
            temp,
        ),
        (
            PhaseView::Sizing { status, headers, max_age, path },
            EventView::TempSize(size),
        ) => sized(x, status, headers, max_age, path, size),
        (
            PhaseView::Placing { status, headers, max_age, path, size },
            EventView::Zones(zones),
        ) => placed(x, status, headers, max_age, path, size, zones),
        (PhaseView::Checking { meta }, EventView::ZoneOk(ok)) => checked(x, meta, ok),
        (PhaseView::Linking { meta }, EventView::Linked(name)) => linked(x, meta, name),
        (PhaseView::Waiting { meta }, EventView::Waited(failed)) => waited(x, meta, failed),
        (PhaseView::Reopening { meta, hit }, EventView::ZoneOk(ok)) => reopened(x, meta, hit, ok),
        (PhaseView::Measuring { meta, hit }, EventView::ObjectSize(size)) => measured(
            x,
            meta,
            hit,
            size,
        ),
        (
            PhaseView::Opening { status, headers, cache_zone, path, rng },
            EventView::Opened(ret),
        ) => match ret {
            Ok(_) => ready(x, status, headers, cache_zone, path, rng, ContentView::Opened),
            Err(err) => done(Seq::empty(), Err(err)),
        },
        (
            PhaseView::Opening { status, headers, cache_zone, path, rng },
            EventView::ObjectPath(place),
        ) => ready(x, status, headers, cache_zone, path, rng, ContentView::Path(place)),
        (PhaseView::Encoding { status, headers }, EventView::Content(content)) => read(
            status,
            headers,
            content,
        ),
        _ => arbitrary(),
    }
}

/// The state that an exchange begins in.
pub open spec fn beginning(req: RequestView, mode: ContentMode) -> ExchangeView {
    ExchangeView {
        req,
        hash: crate::digest::object_key(req.method, req.host, req.url_path),
        mode,
        phase: PhaseView::Lookup,
    }
}

/// An exchange that begins.
pub open spec fn started(req: RequestView, mode: ContentMode) -> TurnView {
    let x = beginning(req, mode);
    TurnView {
        effects: Seq::empty(),
        step: StepView::Ask { next: x, query: QueryView::GetObject { hash: x.hash } },
    }
}

} // verus!
