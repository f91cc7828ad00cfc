//! One request for a cacheable object, from its lookup to its answer.
//!
//! An exchange never performs work itself: it says what is to be done next, and goes on with what
//! came of it. `CacheExchange::start` and `CacheExchange::advance` return a `Turn`: the effects to
//! perform, in their order, and then either a query, whose result is the next event, or the end.
pub mod conduct;
pub mod laws;
pub mod reply;
pub mod rules;
pub mod run;

use vstd::prelude::*;
use vstd::string::*;
use http::HeaderMap;
use http::HeaderValue;
use crate::error::{ErrorKind, ErrorView};
use crate::forward::{UpstreamRequest, UpstreamView};
use crate::headers::{HeaderView, TextLists};
use crate::storage::cache_zone::ZoneReport;
use crate::table::Table;
use crate::types::{Content, ContentView, Request, RequestView};
use crate::types::metadata::{MetaView, ObjectMetaData};

verus! {

/// How the body of a stored object is handed out.
#[derive(Clone, Copy, PartialEq, Eq, Structural, Debug)]
pub enum ContentMode {
    /// As the path of its file.
    File,
    /// As a stream.
    Stream,
}

/// What is to be done on the way, without a result that matters.
pub enum Effect {
    /// Remove an object: its metadata, and its body from its zone.
    RemoveObject { hash: String, cache_zone: u8, storage_path: String },
    /// Say that the fetch of an object has ended.
    ReleaseUpstream { hash: String, failed: bool },
    /// Remove a temporary file.
    RemoveTemp { path: String },
    /// Store an object's metadata.
    PutObject { hash: String, meta: ObjectMetaData },
    /// Count a request that was answered from the cache.
    CountHit,
}

/// What is to be found out.
pub enum Query {
    /// The metadata of an object.
    GetObject { hash: String },
    /// What the origin answers to a request for an object's headers.
    Head { request: UpstreamRequest },
    /// Whether the object can be fetched, as nobody else fetches it.
    TryUpstream { hash: String },
    /// What the origin answers to a request for an object.
    Fetch { request: UpstreamRequest },
    /// The temporary file that the origin's body was put in.
    StoreTemp,
    /// The size of a temporary file.
    TempSize { path: String },
    /// The state of all zones.
    ZoneStates,
    /// Whether a zone is there and can be used.
    ZoneOk { cache_zone: u8 },
    /// The name under which a zone keeps what was a temporary file.
    LinkTemp { cache_zone: u8, path: String },
    /// Whether the fetch by someone else has failed.
    WaitUpstream { hash: String },
    /// The size of a stored object.
    ObjectSize { cache_zone: u8, path: String },
    /// Whether part of a stored object can be opened.
    OpenContent { cache_zone: u8, path: String, rng: (i64, i64) },
    /// The path of a stored object's file.
    ObjectPath { cache_zone: u8, path: String },
    /// The bytes of part of a stored object.
    ReadContent { cache_zone: u8, path: String, rng: (i64, i64) },
}

/// Why the bytes of a stored object could not be had.
pub enum ReadFailure {
    /// It could not be opened.
    Open(ErrorKind),
    /// It could not be read.
    Read(String),
}

/// The result of a query.
pub enum Event {
    Object(Result<Option<ObjectMetaData>, ErrorKind>),
    Head(Result<(u16, HeaderMap<HeaderValue>), String>),
    Acquired(bool),
    Fetched(Result<(u16, HeaderMap<HeaderValue>), String>),
    Temp(Result<String, ErrorKind>),
    TempSize(Result<u64, String>),
    Zones(Vec<ZoneReport>),
    ZoneOk(Option<bool>),
    Linked(Result<String, ErrorKind>),
    Waited(bool),
    ObjectSize(Result<u64, ErrorKind>),
    Opened(Result<(), ErrorKind>),
    ObjectPath(String),
    Content(Result<Vec<u8>, ReadFailure>),
}

/// Where an exchange stands: what it waits for.
pub enum Phase {
    /// For the metadata of the object.
    Lookup,
    /// For what the origin says of the object that is cached.
    Validating { meta: ObjectMetaData, hit: bool },
    /// For leave to fetch the object.
    Acquiring { meta: Option<ObjectMetaData> },
    /// For the origin's answer.
    Fetching,
    /// For the temporary file.
    Storing { status: u16, headers: HeaderMap<HeaderValue>, max_age: u32 },
    /// For the size of the temporary file.
    Sizing { status: u16, headers: HeaderMap<HeaderValue>, max_age: u32, path: String },
    /// For the state of the zones.
    Placing {
        status: u16,
        headers: HeaderMap<HeaderValue>,
        max_age: u32,
        path: String,
        size: usize,
    },
    /// For the state of the zone that is to store the object.
    Checking { meta: ObjectMetaData },
    /// For the zone to take the temporary file over.
    Linking { meta: ObjectMetaData },
    /// For the fetch by someone else.
    Waiting { meta: Option<ObjectMetaData> },
    /// For the state of the zone that stores the object.
    Reopening { meta: ObjectMetaData, hit: bool },
    /// For the size of the stored object.
    Measuring { meta: ObjectMetaData, hit: bool },
    /// For the stored object to be opened, or its path.
    Opening {
        status: u16,
        headers: Table<Vec<String>>,
        cache_zone: u8,
        path: String,
        rng: (i64, i64),
    },
    /// For the bytes that are to be compressed.
    Encoding { status: u16, headers: Table<Vec<String>> },
}

/// An answer that is found.
pub enum Reply {
    /// The cached object.
    Stored { status: u16, headers: Table<Vec<String>>, content: Content },
    /// The origin's answer, which is not to be cached.
    PassThrough { status: u16, headers: HeaderMap<HeaderValue> },
    /// The sender has the current version.
    NotModified,
}

/// One request for a cacheable object.
pub struct CacheExchange {
    /// The request.
    pub req: Request,
    /// The key of the object.
    pub hash: String,
    /// How the body is handed out.
    pub mode: ContentMode,
    /// Where the exchange stands.
    pub phase: Phase,
}

/// How an exchange goes on.
pub enum Step {
    /// With the result of a query.
    Ask { next: CacheExchange, query: Query },
    /// Not at all: it is over.
    Done { result: Result<Reply, ErrorKind> },
}

/// What is to be done next.
pub struct Turn {
    /// What is to be done first, in this order.
    pub effects: Vec<Effect>,
    /// How the exchange goes on.
    pub step: Step,
}

/// An effect, by its characters.
pub enum EffectView {
    RemoveObject { hash: Seq<char>, cache_zone: u8, storage_path: Seq<char> },
    ReleaseUpstream { hash: Seq<char>, failed: bool },
    RemoveTemp { path: Seq<char> },
    PutObject { hash: Seq<char>, meta: MetaView },
    CountHit,
}

impl View for Effect {
    type V = EffectView;

    open spec fn view(&self) -> EffectView {
        match self {
            Effect::RemoveObject { hash, cache_zone, storage_path } => EffectView::RemoveObject {
                hash: hash@,
                cache_zone: *cache_zone,
                storage_path: storage_path@,
            },
            Effect::ReleaseUpstream { hash, failed } => EffectView::ReleaseUpstream {
                hash: hash@,
                failed: *failed,
            },
            Effect::RemoveTemp { path } => EffectView::RemoveTemp { path: path@ },
            Effect::PutObject { hash, meta } => EffectView::PutObject { hash: hash@, meta: meta@ },
            Effect::CountHit => EffectView::CountHit,
        }
    }
}

/// A query, by its characters.
pub enum QueryView {
    GetObject { hash: Seq<char> },
    Head { request: UpstreamView },
    TryUpstream { hash: Seq<char> },
    Fetch { request: UpstreamView },
    StoreTemp,
    TempSize { path: Seq<char> },
    ZoneStates,
    ZoneOk { cache_zone: u8 },
    LinkTemp { cache_zone: u8, path: Seq<char> },
    WaitUpstream { hash: Seq<char> },
    ObjectSize { cache_zone: u8, path: Seq<char> },
    OpenContent { cache_zone: u8, path: Seq<char>, rng: (i64, i64) },
    ObjectPath { cache_zone: u8, path: Seq<char> },
    ReadContent { cache_zone: u8, path: Seq<char>, rng: (i64, i64) },
}

impl View for Query {
    type V = QueryView;

    open spec fn view(&self) -> QueryView {
        match self {
            Query::GetObject { hash } => QueryView::GetObject { hash: hash@ },
            Query::Head { request } => QueryView::Head { request: request@ },
            Query::TryUpstream { hash } => QueryView::TryUpstream { hash: hash@ },
            Query::Fetch { request } => QueryView::Fetch { request: request@ },
            Query::StoreTemp => QueryView::StoreTemp,
            Query::TempSize { path } => QueryView::TempSize { path: path@ },
            Query::ZoneStates => QueryView::ZoneStates,
            Query::ZoneOk { cache_zone } => QueryView::ZoneOk { cache_zone: *cache_zone },
            Query::LinkTemp { cache_zone, path } => QueryView::LinkTemp {
                cache_zone: *cache_zone,
                path: path@,
            },
            Query::WaitUpstream { hash } => QueryView::WaitUpstream { hash: hash@ },
            Query::ObjectSize { cache_zone, path } => QueryView::ObjectSize {
                cache_zone: *cache_zone,
                path: path@,
            },
            Query::OpenContent { cache_zone, path, rng } => QueryView::OpenContent {
                cache_zone: *cache_zone,
                path: path@,
                rng: *rng,
            },
            Query::ObjectPath { cache_zone, path } => QueryView::ObjectPath {
                cache_zone: *cache_zone,
                path: path@,
            },
            Query::ReadContent { cache_zone, path, rng } => QueryView::ReadContent {
                cache_zone: *cache_zone,
                path: path@,
                rng: *rng,
            },
        }
    }
}

/// Why the bytes of a stored object could not be had, by its characters.
pub enum ReadFailureView {
    Open(ErrorView),
    Read(Seq<char>),
}

/// The origin's answer, by its status and headers, or why there is none.
pub type AnswerView = Result<(u16, HeaderView), Seq<char>>;

/// The result of a query, by its characters and bytes.
pub enum EventView {
    Object(Result<Option<MetaView>, ErrorView>),
    Head(AnswerView),
    Acquired(bool),
    Fetched(AnswerView),
    Temp(Result<Seq<char>, ErrorView>),
    TempSize(Result<u64, Seq<char>>),
    Zones(Seq<ZoneReport>),
    ZoneOk(Option<bool>),
    Linked(Result<Seq<char>, ErrorView>),
    Waited(bool),
    ObjectSize(Result<u64, ErrorView>),
    Opened(Result<(), ErrorView>),
    ObjectPath(Seq<char>),
    Content(Result<Seq<u8>, ReadFailureView>),
}

/// The metadata of an object, by its characters.
pub open spec fn meta_option(meta: Option<ObjectMetaData>) -> Option<MetaView> {
    match meta {
        Some(m) => Some(m@),
        None => None,
    }
}

/// The origin's answer, by its status and headers.
pub open spec fn answer_view(answer: Result<(u16, HeaderMap<HeaderValue>), String>) -> AnswerView {
    match answer {
        Ok((status, headers)) => Ok((status, crate::headers::header_contents(headers))),
        Err(failure) => Err(failure@),
    }
}

/// A text or an error, by its characters.
pub open spec fn text_result(text: Result<String, ErrorKind>) -> Result<Seq<char>, ErrorView> {
    match text {
        Ok(t) => Ok(t@),
        Err(err) => Err(err@),
    }
}

impl View for Event {
    type V = EventView;

    open spec fn view(&self) -> EventView {
        match self {
            Event::Object(ret) => EventView::Object(
                match ret {
                    Ok(meta) => Ok(meta_option(*meta)),
                    Err(err) => Err(err@),
                },
            ),
            Event::Head(answer) => EventView::Head(answer_view(*answer)),
            Event::Acquired(acquired) => EventView::Acquired(*acquired),
            Event::Fetched(answer) => EventView::Fetched(answer_view(*answer)),
            Event::Temp(path) => EventView::Temp(text_result(*path)),
            Event::TempSize(size) => EventView::TempSize(
                match size {
                    Ok(n) => Ok(*n),
                    Err(err) => Err(err@),
                },
            ),
            Event::Zones(zones) => EventView::Zones(zones@),
            Event::ZoneOk(ok) => EventView::ZoneOk(*ok),
            Event::Linked(path) => EventView::Linked(text_result(*path)),
            Event::Waited(failed) => EventView::Waited(*failed),
            Event::ObjectSize(size) => EventView::ObjectSize(
                match size {
                    Ok(n) => Ok(*n),
                    Err(err) => Err(err@),
                },
            ),
            Event::Opened(ret) => EventView::Opened(
                match ret {
                    Ok(_) => Ok(()),
                    Err(err) => Err(err@),
                },
            ),
            Event::ObjectPath(path) => EventView::ObjectPath(path@),
            Event::Content(ret) => EventView::Content(
                match ret {
                    Ok(data) => Ok(data@),
                    Err(ReadFailure::Open(err)) => Err(ReadFailureView::Open(err@)),
                    Err(ReadFailure::Read(err)) => Err(ReadFailureView::Read(err@)),
                },
            ),
        }
    }
}

/// Where an exchange stands, by its characters.
pub enum PhaseView {
    Lookup,
    Validating { meta: MetaView, hit: bool },
    Acquiring { meta: Option<MetaView> },
    Fetching,
    Storing { status: u16, headers: HeaderView, max_age: u32 },
    Sizing { status: u16, headers: HeaderView, max_age: u32, path: Seq<char> },
    Placing { status: u16, headers: HeaderView, max_age: u32, path: Seq<char>, size: usize },
    Checking { meta: MetaView },
    Linking { meta: MetaView },
    Waiting { meta: Option<MetaView> },
    Reopening { meta: MetaView, hit: bool },
    Measuring { meta: MetaView, hit: bool },
    Opening { status: u16, headers: TextLists, cache_zone: u8, path: Seq<char>, rng: (i64, i64) },
    Encoding { status: u16, headers: TextLists },
}

impl View for Phase {
    type V = PhaseView;

    open spec fn view(&self) -> PhaseView {
        match self {
            Phase::Lookup => PhaseView::Lookup,
            Phase::Validating { meta, hit } => PhaseView::Validating { meta: meta@, hit: *hit },
            Phase::Acquiring { meta } => PhaseView::Acquiring { meta: meta_option(*meta) },
            Phase::Fetching => PhaseView::Fetching,
            Phase::Storing { status, headers, max_age } => PhaseView::Storing {
                status: *status,
                headers: crate::headers::header_contents(*headers),
                max_age: *max_age,
            },
            Phase::Sizing { status, headers, max_age, path } => PhaseView::Sizing {
                status: *status,
                headers: crate::headers::header_contents(*headers),
                max_age: *max_age,
                path: path@,
            },
            Phase::Placing { status, headers, max_age, path, size } => PhaseView::Placing {
                status: *status,
                headers: crate::headers::header_contents(*headers),
                max_age: *max_age,
                path: path@,
                size: *size,
            },
            Phase::Checking { meta } => PhaseView::Checking { meta: meta@ },
            Phase::Linking { meta } => PhaseView::Linking { meta: meta@ },
            Phase::Waiting { meta } => PhaseView::Waiting { meta: meta_option(*meta) },
            Phase::Reopening { meta, hit } => PhaseView::Reopening { meta: meta@, hit: *hit },
            Phase::Measuring { meta, hit } => PhaseView::Measuring { meta: meta@, hit: *hit },
            Phase::Opening { status, headers, cache_zone, path, rng } => PhaseView::Opening {
                status: *status,
                headers: crate::headers::text_lists(headers@),
                cache_zone: *cache_zone,
                path: path@,
                rng: *rng,
            },
            Phase::Encoding { status, headers } => PhaseView::Encoding {
                status: *status,
                headers: crate::headers::text_lists(headers@),
            },
        }
    }
}

/// An answer that is found, by its characters.
pub enum ReplyView {
    Stored { status: u16, headers: TextLists, content: ContentView },
    PassThrough { status: u16, headers: HeaderView },
    NotModified,
}

impl View for Reply {
    type V = ReplyView;

    open spec fn view(&self) -> ReplyView {
        match self {
            Reply::Stored { status, headers, content } => ReplyView::Stored {
                status: *status,
                headers: crate::headers::text_lists(headers@),
                content: content@,
            },
            Reply::PassThrough { status, headers } => ReplyView::PassThrough {
                status: *status,
                headers: crate::headers::header_contents(*headers),
            },
            Reply::NotModified => ReplyView::NotModified,
        }
    }
}

/// One request for a cacheable object, by its characters.
pub struct ExchangeView {
    pub req: RequestView,
    pub hash: Seq<char>,
    pub mode: ContentMode,
    pub phase: PhaseView,
}

impl View for CacheExchange {
    type V = ExchangeView;

    open spec fn view(&self) -> ExchangeView {
        ExchangeView {
            req: self.req@,
            hash: self.hash@,
            mode: self.mode,
            phase: self.phase@,
        }
    }
}

/// How an exchange goes on, by its characters.
pub enum StepView {
    Ask { next: ExchangeView, query: QueryView },
    Done { result: Result<ReplyView, ErrorView> },
}

impl View for Step {
    type V = StepView;

    open spec fn view(&self) -> StepView {
        match self {
            Step::Ask { next, query } => StepView::Ask { next: next@, query: query@ },
            Step::Done { result } => StepView::Done {
                result: match result {
                    Ok(reply) => Ok(reply@),
                    Err(err) => Err(err@),
                },
            },
        }
    }
}

/// What is to be done next, by its characters.
pub struct TurnView {
    pub effects: Seq<EffectView>,
    pub step: StepView,
}

/// Effects, by their characters.
pub open spec fn effect_views(effects: Seq<Effect>) -> Seq<EffectView> {
    effects.map_values(|e: Effect| e@)
}

impl View for Turn {
    type V = TurnView;

    open spec fn view(&self) -> TurnView {
        TurnView { effects: effect_views(self.effects@), step: self.step@ }
    }
}

} // verus!
