//! The exchange itself.
use vstd::prelude::*;
use vstd::string::*;
use http::HeaderMap;
use http::HeaderValue;
use super::{
    CacheExchange, ContentMode, Effect, Event, Phase, Query, ReadFailure, Reply, Step, Turn,
};
use super::rules::Finding;
use crate::cache_control::{CacheControl, parse_cache_control};
use crate::digest::get_hash_v1;
use crate::error::ErrorKind;
use crate::forward::{UpstreamRequest, head_request, origin_error, sub_request};
use crate::headers::conver_header_map_to_hashmap;
use crate::range::{can_clip, clip_range, partial_length};
use crate::storage::cache_zone::{ZoneReport, get_suitable_cache_zone};
use crate::stream::build_gzip_encoder_stream;
use crate::table::Table;
use crate::text::{decimal_text, same_text};
use crate::time::{UtcTime, unchanged_since};
use crate::types::{Content, Request, Source, text_header};
use crate::types::metadata::ObjectMetaData;

verus! {

/// No effects.
fn no_effects() -> (effects: Vec<Effect>)
    ensures
        super::effect_views(effects@) == Seq::<super::EffectView>::empty(),
{
    let effects: Vec<Effect> = Vec::new();
    assert(super::effect_views(effects@) =~= Seq::<super::EffectView>::empty());
    effects
}

/// One effect.
fn one_effect(effect: Effect) -> (effects: Vec<Effect>)
    ensures
        super::effect_views(effects@) == seq![effect@],
{
    let ghost view = effect@;
    let mut effects: Vec<Effect> = Vec::new();
    effects.push(effect);
    assert(super::effect_views(effects@) =~= seq![view]);
    effects
}

/// One effect more.
fn more_effects(effects: Vec<Effect>, effect: Effect) -> (more: Vec<Effect>)
    ensures
        super::effect_views(more@) == super::effect_views(effects@).push(effect@),
{
    let ghost before = super::effect_views(effects@);
    let ghost view = effect@;
    let mut more: Vec<Effect> = effects;
    more.push(effect);
    assert(super::effect_views(more@) =~= before.push(view));
    more
}

/// An exchange that is over.
fn done(effects: Vec<Effect>, result: Result<Reply, ErrorKind>) -> (turn: Turn)
    ensures
        turn@ == super::rules::done(
            super::effect_views(effects@),
            match result {
                Ok(reply) => Ok(reply@),
                Err(err) => Err(err@),
            },
        ),
{
    Turn { effects, step: Step::Done { result } }
}

/// An exchange that fails.
fn failed(err: ErrorKind) -> (turn: Turn)
    ensures
        turn@ == super::rules::done(Seq::empty(), Err(err@)),
{
    done(no_effects(), Err(err))
}

/// The removal of an object.
fn removal(hash: &String, meta: &ObjectMetaData) -> (effect: Effect)
    ensures
        effect@ == super::rules::removal(hash@, meta@),
{
    Effect::RemoveObject {
        hash: hash.clone(),
        cache_zone: meta.cache_zone,
        storage_path: meta.storage_path.clone(),
    }
}

/// A zone's number in words.
fn zone_words(front: &str, cache_zone: u8, back: &str) -> (words: String)
    ensures
        words@ == super::rules::zone_words(front@, cache_zone, back@),
{
    let mut words: String = front.to_owned();
    words.append(decimal_text(cache_zone as u64).as_str());
    words.append(back);
    words
}

/// What is to be done with an object that was found.
pub fn judge(expired: bool, tag: &Option<String>, etag: &str, unchanged: bool) -> (finding: Finding)
    ensures
        finding == super::rules::finding(
            expired,
            crate::forward::optional_text(*tag),
            etag@,
            unchanged,
        ),
{
    match tag {
        Some(tag) => {
            if !same_text(tag.as_str(), etag) {
                return Finding::Validate;
            }
        },
        None => {
            if unchanged {
                return Finding::NotModified;
            }
        },
    }
    if expired {
        Finding::Fetch
    } else {
        Finding::Serve
    }
}

/// Whether the origin has another version of an object.
pub fn is_replaced(status: u16, headers: &HeaderMap<HeaderValue>, meta: &ObjectMetaData) -> (yes: bool)
    ensures
        yes == super::rules::replaced(status, crate::headers::header_contents(*headers), meta@),
{
    if status != 200 {
        return false;
    }
    proof {
        crate::types::lemma_known_names();
    }
    match text_header(headers, "etag") {
        Some(tag) => !same_text(tag.as_str(), meta.etag.as_str()),
        None => false,
    }
}

/// What the origin says about caching its answer.
pub fn caching(headers: &HeaderMap<HeaderValue>) -> (cc: CacheControl)
    ensures
        cc == super::rules::caching_of(crate::headers::header_contents(*headers)),
{
    proof {
        crate::types::lemma_known_names();
    }
    match text_header(headers, "cache-control") {
        Some(text) => parse_cache_control(text.as_str()),
        None => CacheControl::default(),
    }
}

/// What is kept about an object that was just fetched.
pub fn build_object_meta(
    req: &Request,
    status: u16,
    headers: HeaderMap<HeaderValue>,
    max_age: u32,
    path: String,
    size: usize,
    cache_zone: u8,
) -> (meta: ObjectMetaData)
    ensures
        meta@ == super::rules::fresh_meta(
            req@,
            status,
            crate::headers::header_contents(headers),
            max_age,
            path@,
            size,
            cache_zone,
        ),
{
    proof {
        crate::types::lemma_known_names();
    }
    let etag: String = match text_header(&headers, "etag") {
        Some(tag) => tag,
        None => "".to_owned(),
    };
    let stored: Table<Vec<String>> = match conver_header_map_to_hashmap(headers) {
        Ok(stored) => stored,
        Err(_) => Table::new(),
    };
    ObjectMetaData {
        status_code: status,
        headers: stored,
        size,
        method: req.method.clone(),
        url_path: req.url_path.clone(),
        host: req.host.clone(),
        etag,
        expire: max_age as i64,
        last_ref_time: req.timestamp,
        ref_count: 0,
        first_time_ref: req.timestamp,
        storage_level: 1,
        storage_path: path,
        cache_zone,
    }
}

/// The error for a temporary file that its zone could not take over, as the zone's error is written.
pub fn link_error(meta: &ObjectMetaData, failure: &str) -> (err: ErrorKind)
    ensures
        err@ == super::rules::link_failed(meta@, failure@),
{
    let mut m: String = zone_words("cache_zone ", meta.cache_zone, " link_temp ");
    m.append(meta.storage_path.as_str());
    m.append(" return error ");
    m.append(failure);
    ErrorKind::MachineError(m)
}

/// Stored headers with the values under one name replaced.
proof fn lemma_text_insert(headers: Map<Seq<char>, Vec<String>>, name: Seq<char>, values: Vec<String>)
    ensures
        crate::headers::text_lists(headers.insert(name, values)) == crate::headers::text_lists(
            headers,
        ).insert(name, crate::headers::texts(values@)),
{
    assert(crate::headers::text_lists(headers.insert(name, values)) =~= crate::headers::text_lists(
        headers,
    ).insert(name, crate::headers::texts(values@)));
}

/// Puts one value under a header name, in place of all that were there.
fn set_text(headers: &mut Table<Vec<String>>, name: &str, value: String)
    ensures
        crate::headers::text_lists(final(headers)@) == crate::headers::text_lists(
            old(headers)@,
        ).insert(name@, seq![value@]),
{
    let ghost text = value@;
    let mut values: Vec<String> = Vec::new();
    values.push(value);
    proof {
        assert(crate::headers::texts(values@) =~= seq![text]);
        lemma_text_insert(headers@, name@, values);
    }
    headers.put(name.to_owned(), values);
}

/// Adds a value after those under a header name.
fn add_text(headers: &mut Table<Vec<String>>, name: &str, value: String)
    ensures
        crate::headers::text_lists(final(headers)@) == super::rules::with_text(
            crate::headers::text_lists(old(headers)@),
            name@,
            value@,
        ),
{
    let ghost before = headers@;
    let ghost text = value@;
    let mut values: Vec<String> = match headers.take(name) {
        Some(values) => values,
        None => Vec::new(),
    };
    let ghost was = crate::headers::texts(values@);
    values.push(value);
    proof {
        assert(crate::headers::texts(values@) =~= was.push(text));
        assert(Seq::<Seq<char>>::empty().push(text) =~= seq![text]);
        assert(before.remove(name@).insert(name@, values) =~= before.insert(name@, values));
        lemma_text_insert(before, name@, values);
        if !before.contains_key(name@) {
            assert(was =~= Seq::<Seq<char>>::empty());
        } else {
            assert(crate::headers::text_lists(before)[name@] == was);
        }
    }
    headers.put(name.to_owned(), values);
}

/// Puts the length of a part in place of that of the whole, where a length is given.
fn set_part_length(headers: &mut Table<Vec<String>>, length: usize)
    requires
        crate::headers::text_lists(old(headers)@).contains_key("content-length"@)
            ==> crate::headers::text_lists(old(headers)@)["content-length"@].len() > 0,
    ensures
        crate::headers::text_lists(final(headers)@) == super::rules::part_headers(
            crate::headers::text_lists(old(headers)@),
            Some(length),
        ),
{
    let ghost before = headers@;
    match headers.take("content-length") {
        Some(values) => {
            let ghost was = crate::headers::texts(values@);
            let mut values: Vec<String> = values;
            proof {
                assert(crate::headers::text_lists(before).contains_key("content-length"@));
                assert(crate::headers::text_lists(before)["content-length"@] == was);
            }
            let text: String = decimal_text(length as u64);
            let ghost number = text@;
            values.set(0, text);
            proof {
                assert(crate::headers::texts(values@) =~= was.update(0, number));
                assert(before.remove("content-length"@).insert("content-length"@, values)
                    =~= before.insert("content-length"@, values));
                lemma_text_insert(before, "content-length"@, values);
            }
            headers.put("content-length".to_owned(), values);
        },
        None => {
            assert(headers@ =~= before);
        },
    }
}

/// The headers of an answer whose body is compressed.
fn set_gzip_headers(headers: &mut Table<Vec<String>>, length: usize)
    ensures
        crate::headers::text_lists(final(headers)@) == super::rules::gzip_headers(
            crate::headers::text_lists(old(headers)@),
            length as nat,
        ),
{
    set_text(headers, "content-encoding", "gzip".to_owned());
    add_text(headers, "Vary", "accept-encoding".to_owned());
    set_text(headers, "content-length", decimal_text(length as u64));
}

/// How an exchange ends with a compressed body.
pub fn encoded_reply(
    status: u16,
    headers: Table<Vec<String>>,
    body: Result<Vec<u8>, ErrorKind>,
) -> (turn: Turn)
    ensures
        turn@ == super::rules::encoded_reply(
            status,
            crate::headers::text_lists(headers@),
            crate::stream::bytes_outcome(body),
        ),
{
    match body {
        Ok(data) => {
            let mut headers: Table<Vec<String>> = headers;
            set_gzip_headers(&mut headers, data.len());
            done(
                no_effects(),
                Ok(Reply::Stored { status, headers, content: Content::Stream(Source::Bytes(data)) }),
            )
        },
        Err(err) => failed(err),
    }
}

impl CacheExchange {
    /// Goes on with the result of a query.
    fn ask(self, effects: Vec<Effect>, phase: Phase, query: Query) -> (turn: Turn)
        ensures
            turn@ == super::rules::ask(
                self@,
                super::effect_views(effects@),
                phase@,
                query@,
            ),
    {
        let next: CacheExchange = CacheExchange {
            req: self.req,
            hash: self.hash,
            mode: self.mode,
            phase,
        };
        Turn { effects, step: Step::Ask { next, query } }
    }

    /// Ends a failed fetch.
    fn fetch_failed(self, err: ErrorKind) -> (turn: Turn)
        ensures
            turn@ == super::rules::fetch_failed(self@, err@),
    {
        done(one_effect(Effect::ReleaseUpstream { hash: self.hash, failed: true }), Err(err))
    }

    /// Ends a fetch whose temporary file is of no use.
    fn temp_useless(self, path: String, err: ErrorKind) -> (turn: Turn)
        ensures
            turn@ == super::rules::temp_useless(self@, path@, err@),
    {
        let effects: Vec<Effect> = more_effects(
            one_effect(Effect::RemoveTemp { path }),
            Effect::ReleaseUpstream { hash: self.hash, failed: true },
        );
        assert(super::effect_views(effects@) =~= seq![
            super::EffectView::RemoveTemp { path: path@ },
            super::rules::release(self@, true),
        ]);
        done(effects, Err(err))
    }

    /// Goes on with the object that is cached.
    fn serve(self, effects: Vec<Effect>, meta: ObjectMetaData) -> (turn: Turn)
        ensures
            turn@ == super::rules::serve(self@, super::effect_views(effects@), meta@),
    {
        let cache_zone: u8 = meta.cache_zone;
        let effects: Vec<Effect> = more_effects(effects, Effect::CountHit);
        self.ask(effects, Phase::Reopening { meta, hit: true }, Query::ZoneOk { cache_zone })
    }

    /// Goes on without an object that could be served.
    fn fetch(self, effects: Vec<Effect>, meta: Option<ObjectMetaData>) -> (turn: Turn)
        ensures
            turn@ == super::rules::fetch(
                self@,
                super::effect_views(effects@),
                super::meta_option(meta),
            ),
    {
        let hash: String = self.hash.clone();
        self.ask(effects, Phase::Acquiring { meta }, Query::TryUpstream { hash })
    }

    /// Asks the origin whether an object is still current, given the request for that.
    pub fn validation(
        self,
        effects: Vec<Effect>,
        meta: ObjectMetaData,
        hit: bool,
        head: Result<UpstreamRequest, ErrorKind>,
    ) -> (turn: Turn)
        ensures
            turn@ == super::rules::validation(
                self@,
                super::effect_views(effects@),
                meta@,
                hit,
                crate::forward::request_outcome(head),
            ),
    {
        match head {
            Ok(request) => self.ask(
                effects,
                Phase::Validating { meta, hit },
                Query::Head { request },
            ),
            Err(err) => done(effects, Err(err)),
        }
    }

    /// Goes on with the metadata of the object.
    fn looked_up(self, found: Result<Option<ObjectMetaData>, ErrorKind>) -> (turn: Turn)
        requires
            found matches Ok(Some(meta)) ==> super::rules::judgeable(self@.req, meta@),
        ensures
            turn@ == super::rules::looked_up(
                self@,
                match found {
                    Ok(meta) => Ok(super::meta_option(meta)),
                    Err(err) => Err(err@),
                },
            ),
    {
        let meta: ObjectMetaData = match found {
            Err(err) => {
                return failed(err);
            },
            Ok(None) => {
                return self.fetch(no_effects(), None);
            },
            Ok(Some(meta)) => meta,
        };
        let expired: bool = meta.is_expired(self.req.timestamp);
        let effects: Vec<Effect> = if expired {
            one_effect(removal(&self.hash, &meta))
        } else {
            no_effects()
        };
        let tag: Option<String> = self.req.get_if_none_match();
        let since: Option<UtcTime> = self.req.get_if_modified_since();
        let unchanged: bool = if tag.is_none() && since.is_some() {
            unchanged_since(meta.last_modified(), since)
        } else {
            false
        };
        match judge(expired, &tag, meta.etag.as_str(), unchanged) {
            Finding::Validate => {
                let head: Result<UpstreamRequest, ErrorKind> = head_request(&self.req);
                self.validation(effects, meta, !expired, head)
            },
            Finding::NotModified => done(effects, Ok(Reply::NotModified)),
            Finding::Serve => self.serve(effects, meta),
            Finding::Fetch => self.fetch(effects, Some(meta)),
        }
    }

    /// Goes on with what the origin says of the object that is cached.
    fn validated(
        self,
        meta: ObjectMetaData,
        hit: bool,
        answer: Result<(u16, HeaderMap<HeaderValue>), String>,
    ) -> (turn: Turn)
        ensures
            turn@ == super::rules::validated(self@, meta@, hit, super::answer_view(answer)),
    {
        match answer {
            Err(failure) => failed(origin_error(&self.req, failure.as_str())),
            Ok((status, headers)) => {
                if is_replaced(status, &headers, &meta) {
                    let effects: Vec<Effect> = one_effect(removal(&self.hash, &meta));
                    self.fetch(effects, Some(meta))
                } else if hit && status != 304 {
                    self.serve(no_effects(), meta)
                } else {
                    self.fetch(no_effects(), Some(meta))
                }
            },
        }
    }

    /// Asks the origin for the object, given the request for that.
    pub fn fetching(self, request: Result<UpstreamRequest, ErrorKind>) -> (turn: Turn)
        ensures
            turn@ == super::rules::fetching(self@, crate::forward::request_outcome(request)),
    {
        match request {
            Ok(request) => self.ask(no_effects(), Phase::Fetching, Query::Fetch { request }),
            Err(err) => self.fetch_failed(err),
        }
    }

    /// Goes on with leave to fetch the object, or without it.
    fn acquired(self, meta: Option<ObjectMetaData>, leave: bool) -> (turn: Turn)
        requires
            leave ==> self@.req.well_formed(),
        ensures
            turn@ == super::rules::acquired(self@, super::meta_option(meta), leave),
    {
        if leave {
            let request: Result<UpstreamRequest, ErrorKind> = sub_request(&self.req);
            self.fetching(request)
        } else {
            let hash: String = self.hash.clone();
            self.ask(no_effects(), Phase::Waiting { meta }, Query::WaitUpstream { hash })
        }
    }

    /// Goes on with the origin's answer.
    fn fetched(self, answer: Result<(u16, HeaderMap<HeaderValue>), String>) -> (turn: Turn)
        ensures
            turn@ == super::rules::fetched(self@, super::answer_view(answer)),
    {
        match answer {
            Err(failure) => {
                let err: ErrorKind = origin_error(&self.req, failure.as_str());
                self.fetch_failed(err)
            },
            Ok((status, headers)) => {
                let cc: CacheControl = caching(&headers);
                if cc.need_cache {
                    self.ask(
                        no_effects(),
                        Phase::Storing { status, headers, max_age: cc.max_age },
                        Query::StoreTemp,
                    )
                } else {
                    done(
                        one_effect(Effect::ReleaseUpstream { hash: self.hash, failed: false }),
                        Ok(Reply::PassThrough { status, headers }),
                    )
                }
            },
        }
    }

    /// Goes on with the temporary file.
    fn stored(
        self,
        status: u16,
        headers: HeaderMap<HeaderValue>,
        max_age: u32,
        temp: Result<String, ErrorKind>,
    ) -> (turn: Turn)
        ensures
            turn@ == super::rules::stored(
                self@,
                status,
                crate::headers::header_contents(headers),
                max_age,
                super::text_result(temp),
            ),
    {
        match temp {
            Err(err) => self.fetch_failed(err),
            Ok(path) => {
                let query: Query = Query::TempSize { path: path.clone() };
                self.ask(no_effects(), Phase::Sizing { status, headers, max_age, path }, query)
            },
        }
    }

    /// Goes on with the size of the temporary file.
    fn sized(
        self,
        status: u16,
        headers: HeaderMap<HeaderValue>,
        max_age: u32,
        path: String,
        size: Result<u64, String>,
    ) -> (turn: Turn)
        ensures
            turn@ == super::rules::sized(
                self@,
                status,
                crate::headers::header_contents(headers),
                max_age,
                path@,
                match size {
                    Ok(n) => Ok(n),
                    Err(err) => Err(err@),
                },
            ),
    {
        match size {
            Err(failure) => {
                let mut m: String = "get temp file ".to_owned();
                m.append(path.as_str());
                m.append(" metadata failed ");
                m.append(failure.as_str());
                self.temp_useless(path, ErrorKind::MachineError(m))
            },
            Ok(n) => self.ask(
                no_effects(),
                Phase::Placing { status, headers, max_age, path, size: n as usize },
                Query::ZoneStates,
            ),
        }
    }

    /// Goes on with the state of the zones.
    fn placed(
        self,
        status: u16,
        headers: HeaderMap<HeaderValue>,
        max_age: u32,
        path: String,
        size: usize,
        zones: &Vec<ZoneReport>,
    ) -> (turn: Turn)
        ensures
            turn@ == super::rules::placed(
                self@,
                status,
                crate::headers::header_contents(headers),
                max_age,
                path@,
                size,
                zones@,
            ),
    {
        match get_suitable_cache_zone(zones, size) {
            Err(err) => self.temp_useless(path, err),
            Ok(cache_zone) => {
                let meta: ObjectMetaData = build_object_meta(
                    &self.req,
                    status,
                    headers,
                    max_age,
                    path,
                    size,
                    cache_zone,
                );
                self.ask(no_effects(), Phase::Checking { meta }, Query::ZoneOk { cache_zone })
            },
        }
    }

    /// Goes on with the state of the zone that is to store the object.
    fn checked(self, meta: ObjectMetaData, ok: Option<bool>) -> (turn: Turn)
        ensures
            turn@ == super::rules::checked(self@, meta@, ok),
    {
        let z: u8 = meta.cache_zone;
        match ok {
            None => self.fetch_failed(
                ErrorKind::MachineError(zone_words("cache_zone ", z, " get failed")),
            ),
            Some(ok) => {
                if !ok {
                    return self.fetch_failed(
                        ErrorKind::MachineError(zone_words("cache_zone ", z, " is not ok")),
                    );
                }
                let query: Query = Query::LinkTemp {
                    cache_zone: z,
                    path: meta.storage_path.clone(),
                };
                self.ask(no_effects(), Phase::Linking { meta }, query)
            },
        }
    }

    /// Goes on with the name under which the zone keeps what was a temporary file.
    fn linked(self, meta: ObjectMetaData, name: Result<String, ErrorKind>) -> (turn: Turn)
        ensures
            turn@ == super::rules::linked(self@, meta@, super::text_result(name)),
    {
        match name {
            Err(err) => {
                let err: ErrorKind = link_error(&meta, err.text().as_str());
                self.fetch_failed(err)
            },
            Ok(real_path) => {
                let mut meta: ObjectMetaData = meta;
                meta.storage_path = real_path;
                let hash: String = self.hash.clone();
                let effects: Vec<Effect> = one_effect(
                    Effect::ReleaseUpstream { hash: self.hash.clone(), failed: false },
                );
                self.ask(
                    effects,
                    Phase::Waiting { meta: Some(meta) },
                    Query::WaitUpstream { hash },
                )
            },
        }
    }

    /// Goes on with the end of the fetch by someone else.
    fn waited(self, meta: Option<ObjectMetaData>, fail: bool) -> (turn: Turn)
        requires
            fail || meta is Some,
        ensures
            turn@ == super::rules::waited(self@, super::meta_option(meta), fail),
    {
        if fail {
            let mut m: String = "other upstream failed.hashkey=".to_owned();
            m.append(self.hash.as_str());
            m.append(" use same result");
            return failed(ErrorKind::OperateError(m));
        }
        let meta: ObjectMetaData = meta.unwrap();
        let cache_zone: u8 = meta.cache_zone;
        self.ask(no_effects(), Phase::Reopening { meta, hit: false }, Query::ZoneOk { cache_zone })
    }

    /// Goes on with the state of the zone that stores the object.
    fn reopened(self, meta: ObjectMetaData, hit: bool, ok: Option<bool>) -> (turn: Turn)
        ensures
            turn@ == super::rules::reopened(self@, meta@, hit, ok),
    {
        let z: u8 = meta.cache_zone;
        match ok {
            None => failed(ErrorKind::OperateError(zone_words("not found cache_zone ", z, ""))),
            Some(ok) => {
                if !ok {
                    return failed(
                        ErrorKind::MachineError(zone_words("cache_zone ", z, " is not ok")),
                    );
                }
                let query: Query = Query::ObjectSize {
                    cache_zone: z,
                    path: meta.storage_path.clone(),
                };
                self.ask(no_effects(), Phase::Measuring { meta, hit }, query)
            },
        }
    }

    /// Goes on with the size of the stored object.
    fn measured(self, meta: ObjectMetaData, hit: bool, size: Result<u64, ErrorKind>) -> (turn: Turn)
        requires
            size matches Ok(n) ==> super::rules::servable(self@.req, meta@, n),
        ensures
            turn@ == super::rules::measured(
                self@,
                meta@,
                hit,
                match size {
                    Ok(n) => Ok(n),
                    Err(err) => Err(err@),
                },
            ),
    {
        let n: u64 = match size {
            Err(err) => {
                return failed(err);
            },
            Ok(n) => n,
        };
        let rng: (i64, i64) = clip_range(self.req.range(), n);
        let mut meta: ObjectMetaData = meta;
        meta.last_ref_time = self.req.timestamp;
        meta.ref_count = meta.ref_count + 1;
        let effects: Vec<Effect> = one_effect(
            Effect::PutObject { hash: self.hash.clone(), meta: meta.copy() },
        );
        let mut status: u16 = meta.status_code;
        let mut headers: Table<Vec<String>> = meta.headers;
        match partial_length(rng, meta.size) {
            Some(length) => {
                status = 206;
                set_part_length(&mut headers, length);
            },
            None => {},
        }
        let mark: &str = if hit {
            "HIT"
        } else {
            "MISS"
        };
        set_text(&mut headers, "x-cache", mark.to_owned());
        let query: Query = match self.mode {
            ContentMode::Stream => Query::OpenContent {
                cache_zone: meta.cache_zone,
                path: meta.storage_path.clone(),
                rng,
            },
            ContentMode::File => Query::ObjectPath {
                cache_zone: meta.cache_zone,
                path: meta.storage_path.clone(),
            },
        };
        let phase: Phase = Phase::Opening {
            status,
            headers,
            cache_zone: meta.cache_zone,
            path: meta.storage_path,
            rng,
        };
        self.ask(effects, phase, query)
    }

    /// Goes on with a body that can be handed out as it is.
    fn ready(
        self,
        status: u16,
        headers: Table<Vec<String>>,
        cache_zone: u8,
        path: String,
        rng: (i64, i64),
        content: Content,
    ) -> (turn: Turn)
        ensures
            turn@ == super::rules::ready(
                self@,
                status,
                crate::headers::text_lists(headers@),
                cache_zone,
                path@,
                rng,
                content@,
            ),
    {
        if self.req.takes_gzip() {
            self.ask(
                no_effects(),
                Phase::Encoding { status, headers },
                Query::ReadContent { cache_zone, path, rng },
            )
        } else {
            done(no_effects(), Ok(Reply::Stored { status, headers, content }))
        }
    }

    /// Goes on with the body to compress.
    fn read(
        status: u16,
        headers: Table<Vec<String>>,
        content: Result<Vec<u8>, ReadFailure>,
    ) -> (turn: Turn)
        ensures
            turn@ == super::rules::read(
                status,
                crate::headers::text_lists(headers@),
                match content {
                    Ok(data) => Ok(data@),
                    Err(ReadFailure::Open(err)) => Err(super::ReadFailureView::Open(err@)),
                    Err(ReadFailure::Read(err)) => Err(super::ReadFailureView::Read(err@)),
                },
            ),
            content matches Ok(data) ==> super::rules::sends_packed(turn@, data@),
    {
        match content {
            Ok(data) => encoded_reply(status, headers, build_gzip_encoder_stream(Ok(data))),
            Err(ReadFailure::Open(err)) => failed(err),
            Err(ReadFailure::Read(failure)) => encoded_reply(
                status,
                headers,
                build_gzip_encoder_stream(Err(failure)),
            ),
        }
    }

    /// Begins an exchange.
    pub fn start(req: Request, mode: ContentMode) -> (turn: Turn)
        ensures
            turn@ == super::rules::started(req@, mode),
    {
        let hash: String = get_hash_v1(
            req.method.as_str(),
            req.host.as_str(),
            req.url_path.as_str(),
        );
        let query: Query = Query::GetObject { hash: hash.clone() };
        let next: CacheExchange = CacheExchange { req, hash, mode, phase: Phase::Lookup };
        Turn { effects: no_effects(), step: Step::Ask { next, query } }
    }

    /// Whether an object that was found can be judged.
    fn can_judge(&self, meta: &ObjectMetaData) -> (yes: bool)
        ensures
            yes == super::rules::judgeable(self@.req, meta@),
    {
        if !meta.is_datable() {
            return false;
        }
        match self.req.get_if_none_match() {
            Some(tag) => same_text(tag.as_str(), meta.etag.as_str()) || self.req.is_well_formed(),
            None => self.req.get_if_modified_since().is_none() || meta.is_dated(),
        }
    }

    /// Whether an object of `n` stored bytes can be handed out.
    fn can_serve(&self, meta: &ObjectMetaData, n: u64) -> (yes: bool)
        ensures
            yes == super::rules::servable(self@.req, meta@, n),
    {
        let rng: (i64, i64) = self.req.range();
        if !can_clip(rng, n) || meta.ref_count == i64::MAX {
            return false;
        }
        match partial_length(clip_range(rng, n), meta.size) {
            Some(_) => meta.is_measured(),
            None => true,
        }
    }

    /// Whether the exchange can go on with an event.
    pub fn accepts(&self, event: &Event) -> (yes: bool)
        ensures
            yes == super::rules::accepts(self@, event@),
    {
        match (&self.phase, event) {
            (Phase::Lookup, Event::Object(found)) => match found {
                Ok(Some(meta)) => self.can_judge(meta),
                _ => true,
            },
            (Phase::Validating { .. }, Event::Head(_)) => true,
            (Phase::Acquiring { .. }, Event::Acquired(leave)) => {
                !*leave || self.req.is_well_formed()
            },
            (Phase::Fetching, Event::Fetched(_)) => true,
            (Phase::Storing { .. }, Event::Temp(_)) => true,
            (Phase::Sizing { .. }, Event::TempSize(_)) => true,
            (Phase::Placing { .. }, Event::Zones(_)) => true,
            (Phase::Checking { .. }, Event::ZoneOk(_)) => true,
            (Phase::Linking { .. }, Event::Linked(_)) => true,
            (Phase::Waiting { meta }, Event::Waited(failed)) => *failed || meta.is_some(),
            (Phase::Reopening { .. }, Event::ZoneOk(_)) => true,
            (Phase::Measuring { meta, hit: _ }, Event::ObjectSize(size)) => match size {
                Ok(n) => self.can_serve(meta, *n),
                Err(_) => true,
            },
            (Phase::Opening { .. }, Event::Opened(_)) => self.mode == ContentMode::Stream,
            (Phase::Opening { .. }, Event::ObjectPath(_)) => self.mode == ContentMode::File,
            (Phase::Encoding { .. }, Event::Content(_)) => true,
            _ => false,
        }
    }

    /// Goes on with an event that the exchange accepts. Where a body was read to be compressed, an
    /// answer is sent that gives that body when it is unpacked.
    pub fn advance(self, event: Event) -> (turn: Turn)
        requires
            super::rules::accepts(self@, event@),
        ensures
            turn@ == super::rules::turn_of(self@, event@),
            event@ matches super::EventView::Content(Ok(data)) ==> super::rules::sends_packed(
                turn@,
                data,
            ),
    {
        let x: CacheExchange = CacheExchange {
            req: self.req,
            hash: self.hash,
            mode: self.mode,
            phase: Phase::Lookup,
        };
        match (self.phase, event) {
            (Phase::Lookup, Event::Object(found)) => x.looked_up(found),
            (Phase::Validating { meta, hit }, Event::Head(answer)) => x.validated(
                meta,
                hit,
                answer,
            ),
            (Phase::Acquiring { meta }, Event::Acquired(leave)) => x.acquired(meta, leave),
            (Phase::Fetching, Event::Fetched(answer)) => x.fetched(answer),
            (Phase::Storing { status, headers, max_age }, Event::Temp(temp)) => x.stored(
                status,
                headers,
                max_age,
                temp,
            ),
            (Phase::Sizing { status, headers, max_age, path }, Event::TempSize(size)) => x.sized(
                status,
                headers,
                max_age,
                path,
                size,
            ),
            (
                Phase::Placing { status, headers, max_age, path, size },
                Event::Zones(zones),
            ) => x.placed(status, headers, max_age, path, size, &zones),
            (Phase::Checking { meta }, Event::ZoneOk(ok)) => x.checked(meta, ok),
            (Phase::Linking { meta }, Event::Linked(name)) => x.linked(meta, name),
            (Phase::Waiting { meta }, Event::Waited(fail)) => x.waited(meta, fail),
            (Phase::Reopening { meta, hit }, Event::ZoneOk(ok)) => x.reopened(meta, hit, ok),
            (Phase::Measuring { meta, hit }, Event::ObjectSize(size)) => x.measured(
                meta,
                hit,
                size,
            ),
            (
                Phase::Opening { status, headers, cache_zone, path, rng },
                Event::Opened(ret),
            ) => match ret {
                Ok(_) => x.ready(
                    status,
                    headers,
                    cache_zone,
                    path,
                    rng,
                    Content::Stream(Source::Opened),
                ),
                Err(err) => failed(err),
            },
            (
                Phase::Opening { status, headers, cache_zone, path, rng },
                Event::ObjectPath(place),
            ) => x.ready(status, headers, cache_zone, path, rng, Content::Path(place)),
            (Phase::Encoding { status, headers }, Event::Content(content)) => Self::read(
                status,
                headers,
                content,
            ),
            _ => vstd::pervasive::unreached(),
        }
    }
}

} // verus!
