//! What an exchange does with what it is told, in terms of headers, times, statuses and bytes.
use vstd::prelude::*;
use super::{
    ContentMode, EffectView, Event, EventView, ExchangeView, PhaseView, QueryView, ReadFailureView,
    ReplyView, StepView, TurnView,
};
use crate::error::ErrorView;
use crate::headers::{HeaderView, TextLists};
use crate::storage::cache_zone::ZoneReport;
use crate::storage::database::gc::Scanned;
use crate::types::{ContentView, Request, RequestView};
use crate::types::metadata::{MetaView, ObjectMetaData};

verus! {

/// Whether a turn goes on with a phase and a query, after these effects.
pub open spec fn goes_on(
    turn: TurnView,
    effects: Seq<EffectView>,
    phase: PhaseView,
    query: QueryView,
) -> bool {
    &&& turn.effects == effects
    &&& turn.step matches StepView::Ask { next, query: asked } && next.phase == phase && asked
        == query
}

/// Whether a turn goes on to serve the object that is cached.
pub open spec fn goes_on_serving(turn: TurnView, effects: Seq<EffectView>, meta: MetaView) -> bool {
    goes_on(
        turn,
        effects.push(EffectView::CountHit),
        PhaseView::Reopening { meta, hit: true },
        QueryView::ZoneOk { cache_zone: meta.cache_zone },
    )
}

/// Whether a turn goes on to fetch the object.
pub open spec fn goes_on_fetching(
    turn: TurnView,
    x: ExchangeView,
    effects: Seq<EffectView>,
    meta: Option<MetaView>,
) -> bool {
    goes_on(
        turn,
        effects,
        PhaseView::Acquiring { meta },
        QueryView::TryUpstream { hash: x.hash },
    )
}

/// Whether a turn ends the exchange with an error, after these effects.
pub open spec fn fails(turn: TurnView, effects: Seq<EffectView>, err: ErrorView) -> bool {
    turn.effects == effects && turn.step == (StepView::Done { result: Err(err) })
}

/// The removal of the object that is cached, from the database and from its place in its zone.
pub open spec fn removed(x: ExchangeView, meta: MetaView) -> EffectView {
    EffectView::RemoveObject {
        hash: x.hash,
        cache_zone: meta.cache_zone,
        storage_path: meta.storage_path,
    }
}

/// The end of a fetch that failed.
pub open spec fn ended_badly(x: ExchangeView) -> EffectView {
    EffectView::ReleaseUpstream { hash: x.hash, failed: true }
}

/// Where the origin answers with another entity tag than that of the cached object, the object is
/// removed and fetched anew, and never served. Where the tag is the same, or there is none, it is served
/// if it was fresh; where the origin says that nothing has changed for the sender, it is fetched.
pub proof fn law_other_version_is_fetched(
    x: ExchangeView,
    meta: MetaView,
    hit: bool,
    status: u16,
    headers: HeaderView,
    tag: Seq<char>,
)
    requires
        x.phase == (PhaseView::Validating { meta, hit }),
        crate::types::has_values(headers),
    ensures
        ({
            let turn = super::rules::turn_of(x, EventView::Head(Ok((status, headers))));
            let none = Seq::<EffectView>::empty();
            &&& super::rules::accepts(x, EventView::Head(Ok((status, headers))))
            &&& status == 200 && crate::types::says(headers, "etag"@, tag) && tag != meta.etag
                ==> goes_on_fetching(turn, x, seq![removed(x, meta)], Some(meta))
            &&& status == 200 && crate::types::says(headers, "etag"@, meta.etag) ==> if hit {
                goes_on_serving(turn, none, meta)
            } else {
                goes_on_fetching(turn, x, none, Some(meta))
            }
            &&& status == 200 && crate::types::says_nothing(headers, "etag"@) ==> if hit {
                goes_on_serving(turn, none, meta)
            } else {
                goes_on_fetching(turn, x, none, Some(meta))
            }
            &&& status == 304 ==> goes_on_fetching(turn, x, none, Some(meta))
            &&& status != 200 && status != 304 ==> if hit {
                goes_on_serving(turn, none, meta)
            } else {
                goes_on_fetching(turn, x, none, Some(meta))
            }
        }),
{
    crate::types::law_header_is_read(headers, "etag"@, tag);
    crate::types::law_header_is_read(headers, "etag"@, meta.etag);
}

/// An origin that cannot be asked about the cached object, or for the object, is a failed operation, and
/// ends the fetch where there is one.
pub proof fn law_origin_out_of_reach(x: ExchangeView, failure: Seq<char>)
    ensures
        ({
            let url = "http://"@ + x.req.host + x.req.url_path;
            let err = ErrorView::Operate("upstream "@ + url + " failed "@ + failure);
            &&& x.phase is Validating ==> fails(
                super::rules::turn_of(x, EventView::Head(Err(failure))),
                Seq::empty(),
                err,
            )
            &&& x.phase is Fetching ==> fails(
                super::rules::turn_of(x, EventView::Fetched(Err(failure))),
                seq![ended_badly(x)],
                err,
            )
        }),
{
}

/// What is removed at lookup: the object, where its fresh time is over.
pub open spec fn removed_at_lookup(x: ExchangeView, meta: MetaView) -> Seq<EffectView> {
    if meta.first_time_ref + meta.expire <= x.req.timestamp {
        seq![removed(x, meta)]
    } else {
        Seq::empty()
    }
}

/// Whether a turn at lookup goes on as the object's fresh time says: it is served before the time is
/// over, and fetched from then on.
pub open spec fn goes_by_fresh_time(turn: TurnView, x: ExchangeView, meta: MetaView) -> bool {
    if meta.first_time_ref + meta.expire <= x.req.timestamp {
        goes_on_fetching(turn, x, removed_at_lookup(x, meta), Some(meta))
    } else {
        goes_on_serving(turn, removed_at_lookup(x, meta), meta)
    }
}

/// A request with another entity tag than that of the object that is found has the origin asked about the
/// object, with `HEAD` at the object's address, whether its fresh time is over or not; one with the same
/// tag is served or fetched as the fresh time says.
pub proof fn law_tags_are_compared(x: ExchangeView, meta: MetaView, tag: Seq<char>)
    requires
        x.phase is Lookup,
        super::rules::accepts(x, EventView::Object(Ok(Some(meta)))),
        crate::types::has_values(x.req.headers),
        crate::types::says(x.req.headers, "if-none-match"@, tag),
        tag.len() > 0,
    ensures
        ({
            let turn = super::rules::turn_of(x, EventView::Object(Ok(Some(meta))));
            let url = "http://"@ + x.req.host + x.req.url_path;
            &&& tag == meta.etag ==> goes_by_fresh_time(turn, x, meta)
            &&& tag != meta.etag && crate::forward::url_error(url) is None ==> {
                &&& turn.effects == removed_at_lookup(x, meta)
                &&& turn.step matches StepView::Ask { next, query: QueryView::Head { request } }
                    && next.phase == (PhaseView::Validating {
                    meta,
                    hit: x.req.timestamp < meta.first_time_ref + meta.expire,
                }) && request.method == "HEAD"@ && request.url == url && request.headers
                    == crate::forward::forwarded(x.req.headers)
            }
            &&& tag != meta.etag ==> (crate::forward::url_error(url) matches Some(why) ==> fails(
                turn,
                removed_at_lookup(x, meta),
                ErrorView::Logical("build logical error "@ + why),
            ))
        }),
{
    crate::types::law_conditions_are_read(x.req, tag);
}

/// Whether a request gives no entity tag: there is no text where one would stand, or it is empty.
pub open spec fn gives_no_tag(req: RequestView) -> bool {
    forall|tag: Seq<char>| #[trigger]
        crate::types::says(req.headers, "if-none-match"@, tag) ==> tag.len() == 0
}

/// Whether a request gives no time: there is no text where one would stand, or it is no date.
pub open spec fn gives_no_time(req: RequestView) -> bool {
    forall|text: Seq<char>| #[trigger]
        crate::types::says(req.headers, "if-modified-since"@, text) ==> text.len() == 0
            || crate::time::rfc2822_time(text) is None
}

proof fn lemma_no_condition(req: RequestView)
    requires
        crate::types::has_values(req.headers),
    ensures
        gives_no_tag(req) ==> req.if_none_match() is None,
        gives_no_time(req) ==> req.if_modified_since() is None,
{
    match req.if_none_match() {
        Some(tag) => {
            crate::types::law_conditions_are_read(req, tag);
        },
        None => {},
    }
    match crate::types::header_as_text(req.headers, "if-modified-since"@) {
        Some(text) => {
            crate::types::law_header_is_read(req.headers, "if-modified-since"@, text);
        },
        None => {},
    }
}

/// A request that gives no entity tag but a time is answered that nothing has changed exactly where the
/// object was last changed at that time or before it; else it is served or fetched as the fresh time
/// says.
pub proof fn law_times_are_compared(
    x: ExchangeView,
    meta: MetaView,
    since: Seq<char>,
    seen: (i64, u32),
    changed: (i64, u32),
)
    requires
        x.phase is Lookup,
        super::rules::accepts(x, EventView::Object(Ok(Some(meta)))),
        crate::types::has_values(x.req.headers),
        gives_no_tag(x.req),
        crate::types::says(x.req.headers, "if-modified-since"@, since),
        since.len() > 0,
        crate::time::rfc2822_time(since) == Some(seen),
        meta.headers.contains_key("last-modified"@),
        meta.headers["last-modified"@].len() > 0,
        crate::time::rfc2822_time(meta.headers["last-modified"@][0]) == Some(changed),
    ensures
        ({
            let turn = super::rules::turn_of(x, EventView::Object(Ok(Some(meta))));
            if changed.0 < seen.0 || (changed.0 == seen.0 && changed.1 <= seen.1) {
                &&& turn.effects == removed_at_lookup(x, meta)
                &&& turn.step == (StepView::Done { result: Ok(ReplyView::NotModified) })
            } else {
                goes_by_fresh_time(turn, x, meta)
            }
        }),
{
    crate::types::law_conditions_are_read(x.req, since);
    lemma_no_condition(x.req);
}

/// A request without conditions is served or fetched as the fresh time of what is found says, and so is
/// one that only gives a time where the object has none; where nothing is found, the object is fetched,
/// and an error on the way there is passed on.
pub proof fn law_fresh_time_decides(x: ExchangeView, meta: MetaView, err: ErrorView)
    requires
        x.phase is Lookup,
        crate::types::has_values(x.req.headers),
    ensures
        ({
            let found = EventView::Object(Ok(Some(meta)));
            let undated = !meta.headers.contains_key("last-modified"@) || crate::time::rfc2822_time(
                meta.headers["last-modified"@][0],
            ) is None;
            &&& gives_no_tag(x.req) && (gives_no_time(x.req) || undated) && super::rules::accepts(
                x,
                found,
            ) ==> goes_by_fresh_time(super::rules::turn_of(x, found), x, meta)
            &&& goes_on_fetching(
                super::rules::turn_of(x, EventView::Object(Ok(None))),
                x,
                Seq::empty(),
                None,
            )
            &&& fails(super::rules::turn_of(x, EventView::Object(Err(err))), Seq::empty(), err)
        }),
{
    lemma_no_condition(x.req);
}

/// With leave, the origin is asked for the object with the sender's method, at the object's address;
/// without it, the fetch by someone else is waited for. A request that cannot be made is the sender's
/// fault and ends the fetch.
pub proof fn law_leave_decides(x: ExchangeView, meta: Option<MetaView>)
    requires
        x.phase == (PhaseView::Acquiring { meta }),
    ensures
        ({
            let url = "http://"@ + x.req.host + x.req.url_path;
            let turn = super::rules::turn_of(x, EventView::Acquired(true));
            &&& goes_on(
                super::rules::turn_of(x, EventView::Acquired(false)),
                Seq::empty(),
                PhaseView::Waiting { meta },
                QueryView::WaitUpstream { hash: x.hash },
            )
            &&& crate::forward::url_error(url) is None && crate::headers::is_token(x.req.method) ==> {
                &&& turn.effects == Seq::<EffectView>::empty()
                &&& turn.step matches StepView::Ask { next, query: QueryView::Fetch { request } }
                    && next.phase == PhaseView::Fetching && request.method == x.req.method
                    && request.url == url && request.headers == crate::forward::forwarded(
                    x.req.headers,
                )
            }
            &&& crate::headers::is_token(x.req.method) ==> (crate::forward::url_error(
                url,
            ) matches Some(why) ==> fails(
                turn,
                seq![ended_badly(x)],
                ErrorView::Logical("build logical error "@ + why),
            ))
            &&& !crate::headers::is_token(x.req.method) ==> fails(
                turn,
                seq![ended_badly(x)],
                ErrorView::Logical(
                    "build method "@ + x.req.method + " error "@ + "invalid HTTP method"@,
                ),
            )
        }),
{
}

/// Whether a turn ends the exchange with the origin's answer as it is, and the fetch as one that did not
/// fail.
pub open spec fn passes_on(
    turn: TurnView,
    x: ExchangeView,
    status: u16,
    headers: HeaderView,
) -> bool {
    &&& turn.effects == seq![(EffectView::ReleaseUpstream { hash: x.hash, failed: false })]
    &&& turn.step == (StepView::Done { result: Ok(ReplyView::PassThrough { status, headers }) })
}

/// An answer of the origin is kept, fresh for as long as it says and for a day where it does not say,
/// unless it says that it is not to be kept: then it is passed on as it is, and nothing is kept.
pub proof fn law_answer_is_kept_as_it_says(
    x: ExchangeView,
    status: u16,
    headers: HeaderView,
    text: Seq<char>,
    age: nat,
)
    requires
        x.phase is Fetching,
        crate::types::has_values(headers),
    ensures
        ({
            let turn = super::rules::turn_of(x, EventView::Fetched(Ok((status, headers))));
            let none = Seq::<EffectView>::empty();
            let cc = crate::cache_control::cache_control_of(text);
            &&& crate::types::says_nothing(headers, "cache-control"@) ==> goes_on(
                turn,
                none,
                PhaseView::Storing { status, headers, max_age: 86400 },
                QueryView::StoreTemp,
            )
            &&& crate::types::says(headers, "cache-control"@, text) && cc.need_cache ==> goes_on(
                turn,
                none,
                PhaseView::Storing { status, headers, max_age: cc.max_age },
                QueryView::StoreTemp,
            )
            &&& crate::types::says(headers, "cache-control"@, text) && !cc.need_cache ==> passes_on(
                turn,
                x,
                status,
                headers,
            )
            &&& crate::types::says(headers, "cache-control"@, text) && (text == "private"@ || text
                == "no-store"@ || text == "no-cache"@) ==> passes_on(turn, x, status, headers)
            &&& crate::types::says(headers, "cache-control"@, text) && text == "max-age="@
                + crate::text::decimal(age) && age <= u32::MAX ==> goes_on(
                turn,
                none,
                PhaseView::Storing { status, headers, max_age: age as u32 },
                QueryView::StoreTemp,
            )
        }),
{
    crate::types::law_header_is_read(headers, "cache-control"@, text);
    reveal_strlit("private");
    reveal_strlit("no-store");
    reveal_strlit("no-cache");
    reveal_strlit("max-age=");
    assert(!"private"@.contains(','));
    assert(!"no-store"@.contains(','));
    assert(!"no-cache"@.contains(','));
    if text == "max-age="@ + crate::text::decimal(age) {
        crate::text::lemma_decimal(age);
        if text.contains(',') {
            let i = choose|i: int| 0 <= i < text.len() && text[i] == ',';
            if i >= 8 {
                assert(crate::text::decimal(age)[i - 8] == ',');
                assert(crate::text::is_digit(crate::text::decimal(age)[i - 8]));
            }
        }
        assert("max-age="@[0] == 'm' && "private"@[0] == 'p' && "no-store"@[0] == 'n'
            && "no-cache"@[0] == 'n');
        assert(text[0] == 'm');
        crate::cache_control::law_one_directive(text, age);
    }
    if text == "private"@ || text == "no-store"@ || text == "no-cache"@ {
        crate::cache_control::law_one_directive(text, age);
    }
}

/// Whether `kept` is what is to be kept about an object that was fetched for a request: whose it is, what
/// the origin answered, from when on and for how long it is fresh, and where it is stored.
pub open spec fn describes(
    kept: MetaView,
    req: RequestView,
    status: u16,
    headers: HeaderView,
    max_age: u32,
    size: u64,
    cache_zone: u8,
    name: Seq<char>,
) -> bool {
    &&& kept.host == req.host
    &&& kept.method == req.method
    &&& kept.url_path == req.url_path
    &&& kept.status_code == status
    &&& kept.size == size
    &&& kept.expire == max_age
    &&& kept.first_time_ref == req.timestamp
    &&& kept.last_ref_time == req.timestamp
    &&& kept.ref_count == 0
    &&& kept.storage_level == 1
    &&& kept.cache_zone == cache_zone
    &&& kept.storage_path == name
    &&& forall|tag: Seq<char>| #[trigger]
        crate::types::says(headers, "etag"@, tag) ==> kept.etag == tag
    &&& crate::types::says_nothing(headers, "etag"@) ==> kept.etag.len() == 0
    &&& forall|k: Seq<char>, text: Seq<char>| #[trigger]
        crate::types::says(headers, k, text) ==> kept.headers.contains_key(k) && kept.headers[k]
            == seq![text]
    &&& forall|k: Seq<char>| #[trigger]
        kept.headers.contains_key(k) ==> crate::types::says(headers, k, kept.headers[k][0])
}

/// What is kept about an object is what the origin answered to the request, and the name under which the
/// chosen zone took its body over; on the way there, the body's own temporary file is measured and handed
/// to that zone, and the fetch is ended once it is there.
pub proof fn law_fetched_object_is_described(
    x: ExchangeView,
    status: u16,
    headers: HeaderView,
    max_age: u32,
    path: Seq<char>,
    size: u64,
    zones: Seq<ZoneReport>,
    cache_zone: u8,
    name: Seq<char>,
)
    requires
        x.phase == (PhaseView::Storing { status, headers, max_age }),
        crate::types::has_values(headers),
        size <= usize::MAX,
        crate::storage::cache_zone::suitable_zone(zones, size as usize) == Ok::<u8, ErrorView>(
            cache_zone,
        ),
    ensures
        ({
            let stored = super::rules::turn_of(x, EventView::Temp(Ok(path)));
            let sizing = super::laws::after(x, EventView::Temp(Ok(path)));
            let placing = super::laws::after(sizing, EventView::TempSize(Ok(size)));
            let placed = super::rules::turn_of(placing, EventView::Zones(zones));
            let checking = super::laws::after(placing, EventView::Zones(zones));
            let checked = super::rules::turn_of(checking, EventView::ZoneOk(Some(true)));
            let linking = super::laws::after(checking, EventView::ZoneOk(Some(true)));
            let linked = super::rules::turn_of(linking, EventView::Linked(Ok(name)));
            &&& stored.effects == Seq::<EffectView>::empty()
            &&& stored.step matches StepView::Ask { query, .. } && query == (QueryView::TempSize {
                path,
            })
            &&& placed.step matches StepView::Ask { query, .. } && query == (QueryView::ZoneOk {
                cache_zone,
            })
            &&& checked.step matches StepView::Ask { query, .. } && query == (QueryView::LinkTemp {
                cache_zone,
                path,
            })
            &&& linked.effects == seq![
                (EffectView::ReleaseUpstream { hash: x.hash, failed: false }),
            ]
            &&& linked.step matches StepView::Ask { next, query } && query == (
            QueryView::WaitUpstream { hash: x.hash }) && (next.phase matches PhaseView::Waiting {
                meta: Some(kept),
            } && describes(kept, x.req, status, headers, max_age, size, cache_zone, name))
        }),
{
    let kept = super::rules::fresh_meta(
        x.req,
        status,
        headers,
        max_age,
        path,
        size as usize,
        cache_zone,
    );
    reveal_strlit("");
    assert forall|k: Seq<char>, text: Seq<char>| #[trigger]
        crate::types::says(headers, k, text) implies kept.headers.contains_key(k)
        && kept.headers[k] == seq![text] by {
        crate::types::law_header_is_read(headers, k, text);
    }
    assert forall|tag: Seq<char>| #[trigger]
        crate::types::says(headers, "etag"@, tag) implies kept.etag == tag by {
        crate::types::law_header_is_read(headers, "etag"@, tag);
    }
    crate::types::law_header_is_read(headers, "etag"@, kept.etag);
    assert forall|k: Seq<char>| #[trigger] kept.headers.contains_key(k) implies crate::types::says(
        headers,
        k,
        kept.headers[k][0],
    ) by {
        crate::types::law_header_is_read(headers, k, kept.headers[k][0]);
    }
}

/// A fetch whose body cannot be put anywhere fails: with the error of the step that failed, where it has
/// one of its own, and else with one of the machine that says what failed. A temporary file of no use is
/// removed, and the fetch is ended as a failure.
pub proof fn law_failed_fetch_is_cleared_away(
    x: ExchangeView,
    err: ErrorView,
    failure: Seq<char>,
    zones: Seq<ZoneReport>,
)
    ensures
        x.phase is Storing ==> fails(
            super::rules::turn_of(x, EventView::Temp(Err(err))),
            seq![ended_badly(x)],
            err,
        ),
        x.phase matches PhaseView::Sizing { path, .. } ==> fails(
            super::rules::turn_of(x, EventView::TempSize(Err(failure))),
            seq![(EffectView::RemoveTemp { path }), ended_badly(x)],
            ErrorView::Machine("get temp file "@ + path + " metadata failed "@ + failure),
        ),
        x.phase matches PhaseView::Placing { path, size, .. } ==> (
        crate::storage::cache_zone::suitable_zone(zones, size) matches Err(none) ==> fails(
            super::rules::turn_of(x, EventView::Zones(zones)),
            seq![(EffectView::RemoveTemp { path }), ended_badly(x)],
            none,
        )),
        x.phase matches PhaseView::Checking { meta } ==> {
            let number = crate::text::decimal(meta.cache_zone as nat);
            &&& fails(
                super::rules::turn_of(x, EventView::ZoneOk(None)),
                seq![ended_badly(x)],
                ErrorView::Machine("cache_zone "@ + number + " get failed"@),
            )
            &&& fails(
                super::rules::turn_of(x, EventView::ZoneOk(Some(false))),
                seq![ended_badly(x)],
                ErrorView::Machine("cache_zone "@ + number + " is not ok"@),
            )
        },
        x.phase matches PhaseView::Linking { meta } ==> fails(
            super::rules::turn_of(x, EventView::Linked(Err(err))),
            seq![ended_badly(x)],
            ErrorView::Machine(
                "cache_zone "@ + crate::text::decimal(meta.cache_zone as nat) + " link_temp "@
                    + meta.storage_path + " return error "@ + err.text(),
            ),
        ),
{
}

/// Once the object is there it is handed out from its zone, as one that was not cached before; where the
/// fetch by someone else has failed, so does the request.
pub proof fn law_waiting_ends(x: ExchangeView, meta: MetaView)
    requires
        x.phase == (PhaseView::Waiting { meta: Some(meta) }),
    ensures
        goes_on(
            super::rules::turn_of(x, EventView::Waited(false)),
            Seq::empty(),
            PhaseView::Reopening { meta, hit: false },
            QueryView::ZoneOk { cache_zone: meta.cache_zone },
        ),
        fails(
            super::rules::turn_of(x, EventView::Waited(true)),
            Seq::empty(),
            ErrorView::Operate("other upstream failed.hashkey="@ + x.hash + " use same result"@),
        ),
{
}

/// An object is handed out only from a zone that is there and can be used, and what is measured is the
/// object under its own name.
pub proof fn law_zone_is_needed(x: ExchangeView, meta: MetaView, hit: bool)
    requires
        x.phase == (PhaseView::Reopening { meta, hit }),
    ensures
        goes_on(
            super::rules::turn_of(x, EventView::ZoneOk(Some(true))),
            Seq::empty(),
            PhaseView::Measuring { meta, hit },
            QueryView::ObjectSize { cache_zone: meta.cache_zone, path: meta.storage_path },
        ),
        fails(
            super::rules::turn_of(x, EventView::ZoneOk(Some(false))),
            Seq::empty(),
            ErrorView::Machine(
                "cache_zone "@ + crate::text::decimal(meta.cache_zone as nat) + " is not ok"@,
            ),
        ),
        fails(
            super::rules::turn_of(x, EventView::ZoneOk(None)),
            Seq::empty(),
            ErrorView::Operate(
                "not found cache_zone "@ + crate::text::decimal(meta.cache_zone as nat),
            ),
        ),
{
    reveal_strlit("");
    let words = "not found cache_zone "@ + crate::text::decimal(meta.cache_zone as nat);
    assert(words + ""@ =~= words);
}

/// An error of the zone while an object is handed out ends the exchange and is passed on as it is; what
/// could not be read to its end is a failed operation.
pub proof fn law_errors_are_passed_on(x: ExchangeView, err: ErrorView, failure: Seq<char>)
    ensures
        x.phase is Measuring ==> fails(
            super::rules::turn_of(x, EventView::ObjectSize(Err(err))),
            Seq::empty(),
            err,
        ),
        x.phase is Opening ==> fails(
            super::rules::turn_of(x, EventView::Opened(Err(err))),
            Seq::empty(),
            err,
        ),
        x.phase is Encoding ==> fails(
            super::rules::turn_of(x, EventView::Content(Err(ReadFailureView::Open(err)))),
            Seq::empty(),
            err,
        ),
        x.phase is Encoding ==> fails(
            super::rules::turn_of(x, EventView::Content(Err(ReadFailureView::Read(failure)))),
            Seq::empty(),
            ErrorView::Operate("read source stream when build gzip stream failed "@ + failure),
        ),
{
}

/// An object is handed out with the origin's status and headers: only the mark of the cache is put in,
/// and where a part is asked for, its status is that of a part and its length stands in place of that of
/// the whole. One more request for it, at this time, is counted, and nothing else that is kept changes.
pub proof fn law_object_is_handed_out(x: ExchangeView, meta: MetaView, hit: bool, n: u64)
    requires
        x.phase == (PhaseView::Measuring { meta, hit }),
        super::rules::accepts(x, EventView::ObjectSize(Ok(n))),
    ensures
        ({
            let turn = super::rules::turn_of(x, EventView::ObjectSize(Ok(n)));
            let rng = crate::range::clipped(x.req.range(), n);
            let part = crate::range::part_length(rng, meta.size);
            let kept = MetaView {
                last_ref_time: x.req.timestamp,
                ref_count: (meta.ref_count + 1) as i64,
                ..meta
            };
            &&& turn.effects == seq![(EffectView::PutObject { hash: x.hash, meta: kept })]
            &&& turn.step matches StepView::Ask { next, query } && query == (match x.mode {
                ContentMode::Stream => QueryView::OpenContent {
                    cache_zone: meta.cache_zone,
                    path: meta.storage_path,
                    rng,
                },
                ContentMode::File => QueryView::ObjectPath {
                    cache_zone: meta.cache_zone,
                    path: meta.storage_path,
                },
            }) && (next.phase matches PhaseView::Opening {
                status,
                headers,
                cache_zone,
                path,
                rng: selected,
            } && {
                &&& cache_zone == meta.cache_zone
                &&& path == meta.storage_path
                &&& selected == rng
                &&& status == (if part is Some {
                    206
                } else {
                    meta.status_code
                })
                &&& headers.contains_key("x-cache"@)
                &&& headers["x-cache"@] == (if hit {
                    seq!["HIT"@]
                } else {
                    seq!["MISS"@]
                })
                &&& forall|k: Seq<char>|
                    k != "x-cache"@ && k != "content-length"@ ==> {
                        &&& #[trigger] headers.contains_key(k) <==> meta.headers.contains_key(k)
                        &&& headers.contains_key(k) ==> headers[k] == meta.headers[k]
                    }
                &&& headers.contains_key("content-length"@) <==> meta.headers.contains_key(
                    "content-length"@,
                )
                &&& headers.contains_key("content-length"@) ==> headers["content-length"@] == (
                match part {
                    Some(length) => meta.headers["content-length"@].update(
                        0,
                        crate::text::decimal(length as nat),
                    ),
                    None => meta.headers["content-length"@],
                })
            })
        }),
{
    reveal_strlit("x-cache");
    reveal_strlit("content-length");
    assert("x-cache"@.len() == 7);
    assert("content-length"@.len() == 14);
}

/// Whether compressing is announced in headers, and nothing else of them is changed by it.
pub open spec fn only_compressed(before: TextLists, after: TextLists, length: nat) -> bool {
    &&& after.contains_key("content-encoding"@)
    &&& after["content-encoding"@] == seq!["gzip"@]
    &&& after.contains_key("content-length"@)
    &&& after["content-length"@] == seq![crate::text::decimal(length)]
    &&& after.contains_key("Vary"@)
    &&& after["Vary"@] == (if before.contains_key("Vary"@) {
        before["Vary"@].push("accept-encoding"@)
    } else {
        seq!["accept-encoding"@]
    })
    &&& forall|k: Seq<char>|
        k != "content-encoding"@ && k != "content-length"@ && k != "Vary"@ ==> {
            &&& #[trigger] after.contains_key(k) <==> before.contains_key(k)
            &&& after.contains_key(k) ==> after[k] == before[k]
        }
}

/// The status of an answer from the cache is the one that was found for it, whether it is compressed or
/// not, and so are its headers, but for what compressing changes; what is compressed is read from the
/// same place as what would have been sent.
pub proof fn law_status_stays(
    x: ExchangeView,
    status: u16,
    headers: TextLists,
    cache_zone: u8,
    path: Seq<char>,
    rng: (i64, i64),
    place: Seq<char>,
)
    requires
        x.phase == (PhaseView::Opening { status, headers, cache_zone, path, rng }),
    ensures
        ({
            let opened = super::rules::turn_of(x, EventView::Opened(Ok(())));
            let found = super::rules::turn_of(x, EventView::ObjectPath(place));
            let none = Seq::<EffectView>::empty();
            let encoding = PhaseView::Encoding { status, headers };
            let reading = QueryView::ReadContent { cache_zone, path, rng };
            if x.req.takes_gzip() {
                goes_on(opened, none, encoding, reading) && goes_on(found, none, encoding, reading)
            } else {
                &&& opened.effects == none && found.effects == none
                &&& opened.step == (StepView::Done {
                    result: Ok(
                        ReplyView::Stored { status, headers, content: ContentView::Opened },
                    ),
                })
                &&& found.step == (StepView::Done {
                    result: Ok(
                        ReplyView::Stored { status, headers, content: ContentView::Path(place) },
                    ),
                })
            }
        }),
{
}

/// A compressed answer has the status that was found for it, and its headers but for what compressing
/// changes; its body is what compressing gave.
pub proof fn law_compressed_status_stays(
    x: ExchangeView,
    status: u16,
    headers: TextLists,
    data: Seq<u8>,
)
    requires
        x.phase == (PhaseView::Encoding { status, headers }),
    ensures
        ({
            let turn = super::rules::turn_of(x, EventView::Content(Ok(data)));
            &&& turn.effects == Seq::<EffectView>::empty()
            &&& match crate::stream::gzip_result(data) {
                Ok(packed) => turn.step matches StepView::Done {
                    result: Ok(ReplyView::Stored { status: sent, headers: out, content }),
                } && sent == status && content == ContentView::Bytes(packed) && only_compressed(
                    headers,
                    out,
                    packed.len(),
                ),
                Err(_) => turn.step matches StepView::Done { result: Err(ErrorView::Operate(_)) },
            }
        }),
{
    reveal_strlit("content-encoding");
    reveal_strlit("content-length");
    reveal_strlit("Vary");
    assert("content-encoding"@.len() == 16);
    assert("content-length"@.len() == 14);
    assert("Vary"@.len() == 4);
}

/// Two requests for the same bytes of the same object, of which one takes compressed answers and the
/// other does not, are answered with the same status: that of a part where a part is asked for, and that
/// of the origin's answer else.
pub proof fn law_compressing_changes_no_status(
    x: ExchangeView,
    y: ExchangeView,
    meta: MetaView,
    hit: bool,
    n: u64,
    data: Seq<u8>,
)
    requires
        x.phase == (PhaseView::Measuring { meta, hit }),
        y.phase == x.phase,
        x.mode == ContentMode::Stream,
        y.mode == ContentMode::Stream,
        x.req.range() == y.req.range(),
        x.req.takes_gzip(),
        !y.req.takes_gzip(),
        super::rules::accepts(x, EventView::ObjectSize(Ok(n))),
        super::rules::accepts(y, EventView::ObjectSize(Ok(n))),
        crate::stream::gzip_result(data) is Ok,
    ensures
        ({
            let status = if crate::range::part_length(
                crate::range::clipped(x.req.range(), n),
                meta.size,
            ) is Some {
                206
            } else {
                meta.status_code
            };
            let opening = super::laws::after(x, EventView::ObjectSize(Ok(n)));
            let encoding = super::laws::after(opening, EventView::Opened(Ok(())));
            let packed = super::rules::turn_of(encoding, EventView::Content(Ok(data)));
            let other = super::laws::after(y, EventView::ObjectSize(Ok(n)));
            let plain = super::rules::turn_of(other, EventView::Opened(Ok(())));
            &&& packed.step matches StepView::Done {
                result: Ok(ReplyView::Stored { status: sent, .. }),
            } && sent == status
            &&& plain.step matches StepView::Done {
                result: Ok(ReplyView::Stored { status: sent, .. }),
            } && sent == status
        }),
{
}

/// Whether an answer of the origin carries an entity tag that is not this one.
pub open spec fn carries_other_tag(headers: HeaderView, etag: Seq<char>) -> bool {
    exists|tag: Seq<char>| #[trigger] crate::types::says(headers, "etag"@, tag) && tag != etag
}

/// Nothing is removed but an object that is found after its fresh time, and one of which the origin has
/// another version; and a temporary file only where its size or a place for it could not be found.
pub proof fn law_only_the_useless_is_removed(x: ExchangeView, event: EventView, i: int)
    requires
        super::rules::accepts(x, event),
        0 <= i < super::rules::turn_of(x, event).effects.len(),
        event matches EventView::Head(Ok((_, headers))) ==> crate::types::has_values(headers),
    ensures
        ({
            let effect = super::rules::turn_of(x, event).effects[i];
            &&& effect is RemoveObject ==> {
                ||| x.phase is Lookup && (event matches EventView::Object(Ok(Some(meta)))
                    && meta.first_time_ref + meta.expire <= x.req.timestamp && effect == removed(
                    x,
                    meta,
                ))
                ||| (x.phase matches PhaseView::Validating { meta, .. } && effect == removed(
                    x,
                    meta,
                ) && (event matches EventView::Head(Ok((status, headers))) && status == 200
                    && carries_other_tag(headers, meta.etag)))
            }
            &&& effect is RemoveTemp ==> {
                ||| (x.phase matches PhaseView::Sizing { path, .. } && effect == (
                EffectView::RemoveTemp { path }) && event matches EventView::TempSize(Err(_)))
                ||| (x.phase matches PhaseView::Placing { path, size, .. } && effect == (
                EffectView::RemoveTemp { path }) && (event matches EventView::Zones(zones)
                    && crate::storage::cache_zone::suitable_zone(zones, size) is Err))
            }
        }),
{
    match event {
        EventView::Head(Ok((status, headers))) => {
            match crate::types::header_as_text(headers, "etag"@) {
                Some(tag) => {
                    crate::types::law_header_is_read(headers, "etag"@, tag);
                },
                None => {},
            }
        },
        _ => {},
    }
}

/// What is asked next is always about the object that the exchange is on the way with: its own key, its
/// own temporary file, its own zone and its own name there.
pub proof fn law_queries_are_about_the_object(x: ExchangeView, event: EventView)
    requires
        super::rules::accepts(x, event),
    ensures
        super::rules::turn_of(x, event).step matches StepView::Ask { next, query } ==> (
        match next.phase {
            PhaseView::Lookup => false,
            PhaseView::Validating { .. } => query is Head,
            PhaseView::Acquiring { .. } => query == (QueryView::TryUpstream { hash: x.hash }),
            PhaseView::Fetching => query is Fetch,
            PhaseView::Storing { .. } => query is StoreTemp,
            PhaseView::Sizing { path, .. } => query == (QueryView::TempSize { path }),
            PhaseView::Placing { .. } => query is ZoneStates,
            PhaseView::Checking { meta } => query == (QueryView::ZoneOk {
                cache_zone: meta.cache_zone,
            }),
            PhaseView::Linking { meta } => query == (QueryView::LinkTemp {
                cache_zone: meta.cache_zone,
                path: meta.storage_path,
            }),
            PhaseView::Waiting { .. } => query == (QueryView::WaitUpstream { hash: x.hash }),
            PhaseView::Reopening { meta, .. } => query == (QueryView::ZoneOk {
                cache_zone: meta.cache_zone,
            }),
            PhaseView::Measuring { meta, .. } => query == (QueryView::ObjectSize {
                cache_zone: meta.cache_zone,
                path: meta.storage_path,
            }),
            PhaseView::Opening { cache_zone, path, rng, .. } => query == (match x.mode {
                ContentMode::Stream => QueryView::OpenContent { cache_zone, path, rng },
                ContentMode::File => QueryView::ObjectPath { cache_zone, path },
            }),
            PhaseView::Encoding { .. } => x.phase matches PhaseView::Opening {
                cache_zone,
                path,
                rng,
                ..
            } && query == (QueryView::ReadContent { cache_zone, path, rng }),
        }),
{
}

/// The result of a query is what the exchange can go on with: each result of the kind that was asked for
/// is accepted, but for metadata whose times cannot be told, requests that cannot be handed on, and
/// ranges within empty objects.
pub proof fn law_results_are_accepted(x: ExchangeView, event: EventView)
    requires
        crate::forward::forwardable(x.req.headers),
        match (x.phase, event) {
            (PhaseView::Lookup, EventView::Object(found)) => found matches Ok(Some(meta)) ==> {
                &&& i64::MIN <= meta.first_time_ref + meta.expire <= i64::MAX
                &&& meta.headers.contains_key("last-modified"@)
                    ==> meta.headers["last-modified"@].len() > 0
            },
            (PhaseView::Validating { .. }, EventView::Head(_)) => true,
            (PhaseView::Acquiring { .. }, EventView::Acquired(_)) => true,
            (PhaseView::Fetching, EventView::Fetched(_)) => true,
            (PhaseView::Storing { .. }, EventView::Temp(_)) => true,
            (PhaseView::Sizing { .. }, EventView::TempSize(_)) => true,
            (PhaseView::Placing { .. }, EventView::Zones(_)) => true,
            (PhaseView::Checking { .. }, EventView::ZoneOk(_)) => true,
            (PhaseView::Linking { .. }, EventView::Linked(_)) => true,
            (PhaseView::Waiting { meta }, EventView::Waited(failed)) => failed || meta is Some,
            (PhaseView::Reopening { .. }, EventView::ZoneOk(_)) => true,
            (PhaseView::Measuring { meta, .. }, EventView::ObjectSize(size)) => size matches Ok(n)
                ==> {
                &&& n < i64::MAX
                &&& n > 0 || x.req.range() == (-1i64, -1i64)
                &&& meta.ref_count < i64::MAX
                &&& meta.headers.contains_key("content-length"@)
                    ==> meta.headers["content-length"@].len() > 0
            },
            (PhaseView::Opening { .. }, EventView::Opened(_)) => x.mode == ContentMode::Stream,
            (PhaseView::Opening { .. }, EventView::ObjectPath(_)) => x.mode == ContentMode::File,
            (PhaseView::Encoding { .. }, EventView::Content(_)) => true,
            _ => false,
        },
    ensures
        super::rules::accepts(x, event),
{
}

/// A request begins with the lookup of its own object: the key that is looked up is that of its host, its
/// method and its path, and stays that of the exchange.
pub proof fn law_exchange_begins_with_its_object(req: RequestView, mode: ContentMode)
    ensures
        ({
            let key = crate::digest::hex_text(
                crate::digest::md5_digest(
                    vstd::utf8::encode_utf8(req.host) + vstd::utf8::encode_utf8(req.method)
                        + vstd::utf8::encode_utf8(req.url_path),
                ),
            );
            let turn = super::rules::started(req, mode);
            &&& turn.effects == Seq::<EffectView>::empty()
            &&& turn.step == (StepView::Ask {
                next: ExchangeView { req, hash: key, mode, phase: PhaseView::Lookup },
                query: QueryView::GetObject { hash: key },
            })
        }),
{
}

/// An object is collected at a time exactly where a request at that time, without conditions, would
/// remove it and not serve it.
pub proof fn law_collected_is_what_is_not_served(
    x: ExchangeView,
    key: Vec<u8>,
    meta: ObjectMetaData,
)
    requires
        x.phase is Lookup,
        super::rules::accepts(x, EventView::Object(Ok(Some(meta@)))),
        crate::types::has_values(x.req.headers),
        gives_no_tag(x.req),
        gives_no_time(x.req),
    ensures
        ({
            let turn = super::rules::turn_of(x, EventView::Object(Ok(Some(meta@))));
            let keys = crate::storage::database::gc::due_keys(
                seq![(Scanned::Object { key, meta })],
                x.req.timestamp,
            );
            &&& keys.contains(key@) <==> turn.effects.contains(removed(x, meta@))
            &&& keys.contains(key@) <==> !super::laws::serves_hit(turn)
        }),
{
    law_fresh_time_decides(x, meta@, ErrorView::Machine(Seq::empty()));
    crate::storage::database::gc::law_collected_when_fresh_time_is_over(
        key,
        meta,
        x.req.timestamp,
    );
    let turn = super::rules::turn_of(x, EventView::Object(Ok(Some(meta@))));
    if meta.first_time_ref + meta.expire <= x.req.timestamp {
        assert(seq![key@][0] == key@);
        assert(turn.effects[0] == removed(x, meta@));
    } else {
        assert(turn.effects =~= seq![EffectView::CountHit]);
    }
}

/// An object that was fetched with an entity tag is current for as long as the origin gives the same tag,
/// and replaced as soon as the origin gives another.
pub proof fn law_tag_tells_versions_apart(
    x: ExchangeView,
    kept: MetaView,
    req: RequestView,
    status: u16,
    headers: HeaderView,
    max_age: u32,
    size: u64,
    cache_zone: u8,
    name: Seq<char>,
    later: HeaderView,
    old_tag: Seq<char>,
    new_tag: Seq<char>,
)
    requires
        describes(kept, req, status, headers, max_age, size, cache_zone, name),
        crate::types::says(headers, "etag"@, old_tag),
        x.phase == (PhaseView::Validating { meta: kept, hit: true }),
        crate::types::has_values(later),
        crate::types::says(later, "etag"@, new_tag),
    ensures
        ({
            let turn = super::rules::turn_of(x, EventView::Head(Ok((200, later))));
            super::laws::serves_hit(turn) <==> new_tag == old_tag
        }),
{
    law_other_version_is_fetched(x, kept, true, 200, later, new_tag);
}

/// What laws say of the results of queries they say of the results themselves: verdicts, sizes, statuses
/// and bytes are what they are, and texts are their characters.
pub proof fn law_results_are_seen_as_they_are(
    yes: bool,
    zone: Option<bool>,
    n: u64,
    status: u16,
    headers: http::HeaderMap<http::HeaderValue>,
    text: String,
    data: Vec<u8>,
    meta: ObjectMetaData,
    zones: Vec<ZoneReport>,
)
    ensures
        Event::Acquired(yes)@ == EventView::Acquired(yes),
        Event::Waited(yes)@ == EventView::Waited(yes),
        Event::ZoneOk(zone)@ == EventView::ZoneOk(zone),
        Event::Zones(zones)@ == EventView::Zones(zones@),
        Event::ObjectSize(Ok(n))@ == EventView::ObjectSize(Ok(n)),
        Event::TempSize(Ok(n))@ == EventView::TempSize(Ok(n)),
        Event::Temp(Ok(text))@ == EventView::Temp(Ok(text@)),
        Event::Linked(Ok(text))@ == EventView::Linked(Ok(text@)),
        Event::ObjectPath(text)@ == EventView::ObjectPath(text@),
        Event::Opened(Ok(()))@ == EventView::Opened(Ok(())),
        Event::Content(Ok(data))@ == EventView::Content(Ok(data@)),
        Event::Object(Ok(None))@ == EventView::Object(Ok(None)),
        Event::Object(Ok(Some(meta)))@ == EventView::Object(Ok(Some(meta@))),
        Event::Head(Ok((status, headers)))@ == EventView::Head(
            Ok((status, crate::headers::header_contents(headers))),
        ),
        Event::Fetched(Ok((status, headers)))@ == EventView::Fetched(
            Ok((status, crate::headers::header_contents(headers))),
        ),
{
}

/// What laws say of a request they say of its fields.
pub proof fn law_request_is_seen_as_it_is(req: Request)
    ensures
        req@.host == req.host@,
        req@.method == req.method@,
        req@.url_path == req.url_path@,
        req@.timestamp == req.timestamp,
        req@.headers == crate::headers::header_contents(req.headers),
{
}

} // verus!
