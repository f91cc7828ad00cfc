//! What holds of every exchange.
use vstd::prelude::*;
use super::{
    ContentMode, EffectView, EventView, ExchangeView, PhaseView, QueryView, ReplyView, StepView, TurnView,
};
use crate::headers::{HeaderView, TextLists};
use crate::types::{ContentView, RequestView};
use crate::types::metadata::MetaView;

verus! {

/// How far an exchange has come.
pub open spec fn progress(phase: PhaseView) -> nat {
    match phase {
        PhaseView::Lookup => 0,
        PhaseView::Validating { .. } => 1,
        PhaseView::Acquiring { .. } => 2,
        PhaseView::Fetching => 3,
        PhaseView::Storing { .. } => 4,
        PhaseView::Sizing { .. } => 5,
        PhaseView::Placing { .. } => 6,
        PhaseView::Checking { .. } => 7,
        PhaseView::Linking { .. } => 8,
        PhaseView::Waiting { .. } => 9,
        PhaseView::Reopening { .. } => 10,
        PhaseView::Measuring { .. } => 11,
        PhaseView::Opening { .. } => 12,
        PhaseView::Encoding { .. } => 13,
    }
}

/// Every exchange ends: each turn that asks something more comes further, and none comes further
/// than the last phase. The request, its key and the way of handing out bodies stay the same.
pub proof fn law_exchange_ends(x: ExchangeView, event: EventView)
    requires
        super::rules::accepts(x, event),
    ensures
        super::rules::turn_of(x, event).step matches StepView::Ask { next, .. } ==> {
            &&& progress(x.phase) < progress(next.phase) <= 13
            &&& next.req == x.req
            &&& next.hash == x.hash
            &&& next.mode == x.mode
        },
{
}

/// Whether an exchange fetches its object: it has leave for that and has not ended the fetch.
pub open spec fn fetches(phase: PhaseView) -> bool {
    match phase {
        PhaseView::Fetching => true,
        PhaseView::Storing { .. } => true,
        PhaseView::Sizing { .. } => true,
        PhaseView::Placing { .. } => true,
        PhaseView::Checking { .. } => true,
        PhaseView::Linking { .. } => true,
        _ => false,
    }
}

/// Whether no effect ends a fetch.
pub open spec fn ends_none(effects: Seq<EffectView>) -> bool {
    forall|i: int| 0 <= i < effects.len() ==> !((#[trigger] effects[i]) is ReleaseUpstream)
}

/// Whether the last effect, and no other, ends the fetch of the object.
pub open spec fn ends_one(effects: Seq<EffectView>, hash: Seq<char>, failed: bool) -> bool {
    &&& effects.len() > 0
    &&& effects.last() == EffectView::ReleaseUpstream { hash, failed }
    &&& ends_none(effects.drop_last())
}

/// Every fetch that begins is ended once, and none that did not begin. It is ended in the turn in
/// which the exchange goes on without it, and as a failure exactly where the exchange fails.
pub proof fn law_fetch_is_ended_once(x: ExchangeView, event: EventView)
    requires
        super::rules::accepts(x, event),
    ensures
        ({
            let turn = super::rules::turn_of(x, event);
            let begins = x.phase is Acquiring && event == EventView::Acquired(true);
            if fetches(x.phase) || begins {
                match turn.step {
                    StepView::Ask { next, .. } => if fetches(next.phase) {
                        ends_none(turn.effects)
                    } else {
                        ends_one(turn.effects, x.hash, false)
                    },
                    StepView::Done { result } => match result {
                        Ok(reply) => reply is PassThrough && ends_one(turn.effects, x.hash, false),
                        Err(_) => ends_one(turn.effects, x.hash, true),
                    },
                }
            } else {
                ends_none(turn.effects) && (turn.step matches StepView::Ask { next, .. }
                    ==> !fetches(next.phase))
            }
        }),
{
    let turn = super::rules::turn_of(x, event);
    assert(seq![super::rules::release(x, true)].drop_last() =~= Seq::<EffectView>::empty());
    assert(seq![super::rules::release(x, false)].drop_last() =~= Seq::<EffectView>::empty());
    match x.phase {
        PhaseView::Sizing { path, .. } => {
            let remove = EffectView::RemoveTemp { path };
            assert(seq![remove, super::rules::release(x, true)].drop_last() =~= seq![remove]);
        },
        PhaseView::Placing { path, .. } => {
            let remove = EffectView::RemoveTemp { path };
            assert(seq![remove, super::rules::release(x, true)].drop_last() =~= seq![remove]);
        },
        _ => {},
    }
}

/// Whether events are those of an exchange, one after the other: each is accepted, and none comes
/// after the end.
pub open spec fn run_of(x: ExchangeView, events: Seq<EventView>) -> bool
    decreases events.len(),
{
    events.len() > 0 ==> super::rules::accepts(x, events[0]) && match super::rules::turn_of(
        x,
        events[0],
    ).step {
        StepView::Ask { next, .. } => run_of(next, events.drop_first()),
        StepView::Done { .. } => events.len() == 1,
    }
}

/// How many of the effects end a fetch.
pub open spec fn ends(effects: Seq<EffectView>) -> nat
    decreases effects.len(),
{
    if effects.len() == 0 {
        0
    } else {
        ends(effects.drop_last()) + if effects.last() is ReleaseUpstream {
            1nat
        } else {
            0nat
        }
    }
}

/// How often a fetch begins in the course of an exchange.
pub open spec fn fetches_begun(x: ExchangeView, events: Seq<EventView>) -> nat
    decreases events.len(),
{
    if events.len() == 0 {
        0
    } else {
        let begins = x.phase is Acquiring && events[0] == EventView::Acquired(true);
        (if begins {
            1nat
        } else {
            0nat
        }) + match super::rules::turn_of(x, events[0]).step {
            StepView::Ask { next, .. } => fetches_begun(next, events.drop_first()),
            StepView::Done { .. } => 0,
        }
    }
}

/// How often a fetch is ended in the course of an exchange.
pub open spec fn fetches_ended(x: ExchangeView, events: Seq<EventView>) -> nat
    decreases events.len(),
{
    if events.len() == 0 {
        0
    } else {
        let turn = super::rules::turn_of(x, events[0]);
        ends(turn.effects) + match turn.step {
            StepView::Ask { next, .. } => fetches_ended(next, events.drop_first()),
            StepView::Done { .. } => 0,
        }
    }
}

/// Whether a fetch still runs after these events.
pub open spec fn left_open(x: ExchangeView, events: Seq<EventView>) -> bool
    decreases events.len(),
{
    if events.len() == 0 {
        fetches(x.phase)
    } else {
        match super::rules::turn_of(x, events[0]).step {
            StepView::Ask { next, .. } => left_open(next, events.drop_first()),
            StepView::Done { .. } => false,
        }
    }
}

/// One, or none.
pub open spec fn one_if(yes: bool) -> nat {
    if yes {
        1
    } else {
        0
    }
}

proof fn lemma_ends(effects: Seq<EffectView>)
    ensures
        ends_none(effects) ==> ends(effects) == 0,
        forall|hash: Seq<char>, failed: bool| #[trigger]
            ends_one(effects, hash, failed) ==> ends(effects) == 1,
    decreases effects.len(),
{
    if effects.len() > 0 {
        let front = effects.drop_last();
        lemma_ends(front);
        if ends_none(effects) {
            assert forall|i: int| 0 <= i < front.len() implies !((#[trigger] front[i]) is ReleaseUpstream) by {
                assert(front[i] == effects[i]);
            }
            assert(!(effects[effects.len() - 1] is ReleaseUpstream));
        }
    }
}

/// In the course of an exchange as many fetches are ended as begin, but for one that still runs.
pub proof fn law_fetches_are_balanced(x: ExchangeView, events: Seq<EventView>)
    requires
        run_of(x, events),
    ensures
        fetches_ended(x, events) + one_if(left_open(x, events)) == fetches_begun(x, events)
            + one_if(fetches(x.phase)),
    decreases events.len(),
{
    if events.len() > 0 {
        let turn = super::rules::turn_of(x, events[0]);
        law_fetch_is_ended_once(x, events[0]);
        lemma_ends(turn.effects);
        match turn.step {
            StepView::Ask { next, .. } => {
                law_fetches_are_balanced(next, events.drop_first());
            },
            StepView::Done { .. } => {},
        }
    }
}

/// An exchange is over after at most fourteen results.
pub proof fn law_exchange_is_short(x: ExchangeView, events: Seq<EventView>)
    requires
        run_of(x, events),
    ensures
        events.len() + progress(x.phase) <= 14,
    decreases events.len(),
{
    if events.len() > 0 {
        law_exchange_ends(x, events[0]);
        match super::rules::turn_of(x, events[0]).step {
            StepView::Ask { next, .. } => {
                law_exchange_is_short(next, events.drop_first());
            },
            StepView::Done { .. } => {},
        }
    }
}

/// Whether the fetch of an exchange is kept account of, where it has one.
pub open spec fn accounted(x: ExchangeView, running: Set<Seq<char>>) -> bool {
    fetches(x.phase) ==> running.contains(x.hash)
}

/// Whether two exchanges do not fetch the same object.
pub open spec fn apart(x: ExchangeView, y: ExchangeView) -> bool {
    fetches(x.phase) && fetches(y.phase) ==> x.hash != y.hash
}

/// The running fetches before the effects of a turn: leave to fetch has been asked for, where it was.
pub open spec fn after_asking(running: Set<Seq<char>>, x: ExchangeView, event: EventView) -> Set<
    Seq<char>,
> {
    if event is Acquired {
        running.insert(x.hash)
    } else {
        running
    }
}

/// The running fetches after the effects of a turn.
pub open spec fn after_effects(running: Set<Seq<char>>, x: ExchangeView, effects: Seq<EffectView>) -> Set<
    Seq<char>,
> {
    if ends(effects) > 0 {
        running.remove(x.hash)
    } else {
        running
    }
}

/// Exchanges that share an account of the running fetches never fetch the same object at a time.
/// Where leave to fetch is given as the account says, a turn of one exchange keeps its own fetch in
/// the account and those of the others too, ends only a fetch that is in it, and leaves no two
/// exchanges with the same object to fetch.
pub proof fn law_fetchers_stay_apart(
    x: ExchangeView,
    y: ExchangeView,
    running: Set<Seq<char>>,
    event: EventView,
)
    requires
        super::rules::accepts(x, event),
        event matches EventView::Acquired(leave) ==> leave == !running.contains(x.hash),
        accounted(x, running),
        accounted(y, running),
        apart(x, y),
    ensures
        ({
            let turn = super::rules::turn_of(x, event);
            let asked = after_asking(running, x, event);
            let after = after_effects(asked, x, turn.effects);
            &&& ends(turn.effects) > 0 ==> asked.contains(x.hash)
            &&& accounted(y, after)
            &&& turn.step matches StepView::Ask { next, .. } ==> accounted(next, after) && apart(
                next,
                y,
            )
        }),
{
    let turn = super::rules::turn_of(x, event);
    law_fetch_is_ended_once(x, event);
    law_exchange_ends(x, event);
    lemma_ends(turn.effects);
}

/// Whether an exchange is over after these events.
pub open spec fn is_over(x: ExchangeView, events: Seq<EventView>) -> bool
    decreases events.len(),
{
    events.len() > 0 && match super::rules::turn_of(x, events[0]).step {
        StepView::Ask { next, .. } => is_over(next, events.drop_first()),
        StepView::Done { .. } => true,
    }
}

/// The running fetches after an event and the effects of the turn that it brings.
pub open spec fn account_step(running: Set<Seq<char>>, x: ExchangeView, event: EventView) -> Set<
    Seq<char>,
> {
    after_effects(after_asking(running, x, event), x, super::rules::turn_of(x, event).effects)
}

/// Whether leave to fetch is given as the account of running fetches says.
pub open spec fn leave_by_account(
    x: ExchangeView,
    events: Seq<EventView>,
    running: Set<Seq<char>>,
) -> bool
    decreases events.len(),
{
    events.len() > 0 ==> (events[0] matches EventView::Acquired(leave) ==> leave
        == !running.contains(x.hash)) && match super::rules::turn_of(x, events[0]).step {
        StepView::Ask { next, .. } => leave_by_account(
            next,
            events.drop_first(),
            account_step(running, x, events[0]),
        ),
        StepView::Done { .. } => true,
    }
}

/// The running fetches after these events.
pub open spec fn account_after(
    x: ExchangeView,
    events: Seq<EventView>,
    running: Set<Seq<char>>,
) -> Set<Seq<char>>
    decreases events.len(),
{
    if events.len() == 0 {
        running
    } else {
        let step = account_step(running, x, events[0]);
        match super::rules::turn_of(x, events[0]).step {
            StepView::Ask { next, .. } => account_after(next, events.drop_first(), step),
            StepView::Done { .. } => step,
        }
    }
}

/// An exchange that is over leaves the account of running fetches as it found it, whatever its
/// outcome; one that was fetching leaves it without its object.
pub proof fn law_account_is_left_as_found(
    x: ExchangeView,
    events: Seq<EventView>,
    running: Set<Seq<char>>,
)
    requires
        run_of(x, events),
        is_over(x, events),
        leave_by_account(x, events, running),
    ensures
        account_after(x, events, running) == (if fetches(x.phase) {
            running.remove(x.hash)
        } else {
            running
        }),
    decreases events.len(),
{
    let turn = super::rules::turn_of(x, events[0]);
    let asked = after_asking(running, x, events[0]);
    let step = account_step(running, x, events[0]);
    law_fetch_is_ended_once(x, events[0]);
    law_exchange_ends(x, events[0]);
    lemma_ends(turn.effects);
    match events[0] {
        EventView::Acquired(leave) => {
            assert(x.phase is Acquiring);
            if leave {
                assert(asked.remove(x.hash) =~= running);
            } else {
                assert(asked =~= running);
            }
        },
        _ => {},
    }
    match turn.step {
        StepView::Ask { next, .. } => {
            law_account_is_left_as_found(next, events.drop_first(), step);
        },
        StepView::Done { .. } => {},
    }
}

/// Whether a turn counts a hit.
pub open spec fn counts_hit(turn: TurnView) -> bool {
    turn.effects.contains(EffectView::CountHit)
}

/// Whether a turn goes on to serve an object that was cached.
pub open spec fn serves_hit(turn: TurnView) -> bool {
    turn.step matches StepView::Ask { next, .. } && (next.phase matches PhaseView::Reopening {
        hit,
        ..
    } && hit)
}

/// The requests that are counted as hits are those that are answered with an object that was cached
/// before.
pub proof fn law_hits_are_counted(x: ExchangeView, event: EventView)
    requires
        super::rules::accepts(x, event),
    ensures
        counts_hit(super::rules::turn_of(x, event)) <==> serves_hit(super::rules::turn_of(x, event)),
{
    let turn = super::rules::turn_of(x, event);
    if serves_hit(turn) {
        assert(turn.effects[turn.effects.len() - 1] == EffectView::CountHit);
    }
}

/// An object that has expired is removed and not served: the sender is told that it has the current
/// version, or the origin is asked.
pub proof fn law_expired_is_not_served(x: ExchangeView, meta: MetaView)
    requires
        x.phase is Lookup,
        super::rules::accepts(x, EventView::Object(Ok(Some(meta)))),
        meta.expired_at(x.req.timestamp),
    ensures
        ({
            let turn = super::rules::turn_of(x, EventView::Object(Ok(Some(meta))));
            &&& turn.effects == seq![super::rules::removal(x.hash, meta)]
            &&& !serves_hit(turn)
            &&& turn.step matches StepView::Ask { next, .. } ==> next.phase == (
            PhaseView::Acquiring { meta: Some(meta) }) || next.phase == (PhaseView::Validating {
                meta,
                hit: false,
            })
        }),
{
}

/// Nor is it served after the origin was asked about it.
pub proof fn law_expired_is_fetched_after_validation(x: ExchangeView, meta: MetaView, event: EventView)
    requires
        x.phase == (PhaseView::Validating { meta, hit: false }),
        super::rules::accepts(x, event),
    ensures
        !serves_hit(super::rules::turn_of(x, event)),
        super::rules::turn_of(x, event).step matches StepView::Ask { next, .. } ==> next.phase == (
        PhaseView::Acquiring { meta: Some(meta) }),
{
}

/// A request without conditions.
pub open spec fn unconditional(req: RequestView) -> bool {
    req.if_none_match() is None && req.if_modified_since() is None
}

/// Where an exchange stands after an event that it goes on from.
pub open spec fn after(x: ExchangeView, event: EventView) -> ExchangeView {
    match super::rules::turn_of(x, event).step {
        StepView::Ask { next, .. } => next,
        StepView::Done { .. } => x,
    }
}

/// Whether `meta` is what is kept about an object that was fetched and is stored under `name`,
/// whatever the count and the time of the requests for it.
pub open spec fn is_kept(meta: MetaView, fetched: MetaView, name: Seq<char>) -> bool {
    meta == MetaView {
        storage_path: name,
        last_ref_time: meta.last_ref_time,
        ref_count: meta.ref_count,
        ..fetched
    }
}

/// What an exchange goes on with once its zone has taken the temporary file over is kept, and what is
/// put in the database when an object is served is kept, with one more reference to it.
pub proof fn law_kept_is_stored(
    x: ExchangeView,
    fetched: MetaView,
    name: Seq<char>,
    meta: MetaView,
    hit: bool,
    n: u64,
)
    requires
        is_kept(meta, fetched, name),
        super::rules::accepts(
            (ExchangeView { phase: PhaseView::Measuring { meta, hit }, ..x }),
            EventView::ObjectSize(Ok(n)),
        ),
    ensures
        after(
            (ExchangeView { phase: PhaseView::Linking { meta: fetched }, ..x }),
            EventView::Linked(Ok(name)),
        ).phase matches PhaseView::Waiting { meta: Some(linked) } && is_kept(linked, fetched, name),
        super::rules::turn_of(
            (ExchangeView { phase: PhaseView::Measuring { meta, hit }, ..x }),
            EventView::ObjectSize(Ok(n)),
        ).effects == seq![
            (EffectView::PutObject { hash: x.hash, meta: meta.referenced(x.req.timestamp) }),
        ],
        is_kept(meta.referenced(x.req.timestamp), fetched, name),
{
}

/// What is fetched for one request is served to the next: where what is kept of the origin's answer
/// is found by a request for the same object, without conditions, before the fresh time has passed,
/// the key is the same, the origin is not asked, and the answer is the stored object under its name,
/// marked as a hit, with the origin's status and headers or those of the part that is asked for. From
/// the end of the fresh time on, the object is fetched again.
pub proof fn law_stored_is_served_while_fresh(
    first: RequestView,
    status: u16,
    headers: HeaderView,
    max_age: u32,
    path: Seq<char>,
    size: usize,
    cache_zone: u8,
    name: Seq<char>,
    meta: MetaView,
    second: RequestView,
    mode: ContentMode,
    n: u64,
    place: Seq<char>,
)
    requires
        is_kept(
            meta,
            super::rules::fresh_meta(first, status, headers, max_age, path, size, cache_zone),
            name,
        ),
        meta.ref_count < i64::MAX,
        second.method == first.method,
        second.host == first.host,
        second.url_path == first.url_path,
        unconditional(second),
        !second.takes_gzip(),
        crate::range::clippable(second.range(), n),
        first.timestamp + max_age <= i64::MAX,
    ensures
        ({
            let x = super::rules::beginning(second, mode);
            let found = EventView::Object(Ok(Some(meta)));
            &&& x.hash == super::rules::beginning(first, mode).hash
            &&& super::rules::accepts(x, found)
            &&& second.timestamp < first.timestamp + max_age ==> served_from_cache(
                x,
                meta,
                n,
                place,
            ) && meta.storage_path == name && meta.cache_zone == cache_zone
            &&& second.timestamp < first.timestamp + max_age && second.range() == (-1i64, -1i64)
                ==> super::rules::reply_status(meta, crate::range::clipped(second.range(), n))
                == status && super::rules::reply_headers(
                meta,
                crate::range::clipped(second.range(), n),
                true,
            ) == crate::headers::first_texts(headers).insert("x-cache"@, seq!["HIT"@])
            &&& second.timestamp >= first.timestamp + max_age ==> super::rules::turn_of(x, found)
                == super::rules::ask(
                x,
                seq![super::rules::removal(x.hash, meta)],
                PhaseView::Acquiring { meta: Some(meta) },
                QueryView::TryUpstream { hash: x.hash },
            )
        }),
{
    let effects = Seq::<EffectView>::empty().push(EffectView::CountHit);
    assert(effects =~= seq![EffectView::CountHit]);
}

/// Whether an exchange that finds `meta` serves the object from the cache: it counts a hit, has the
/// stored object opened, and ends with it, marked as a hit.
pub open spec fn served_from_cache(
    x: ExchangeView,
    meta: MetaView,
    n: u64,
    place: Seq<char>,
) -> bool {
    let found = EventView::Object(Ok(Some(meta)));
    let rng = crate::range::clipped(x.req.range(), n);
    let reopening = after(x, found);
    let measuring = after(reopening, EventView::ZoneOk(Some(true)));
    let opening = after(measuring, EventView::ObjectSize(Ok(n)));
    let opened = match x.mode {
        ContentMode::Stream => EventView::Opened(Ok(())),
        ContentMode::File => EventView::ObjectPath(place),
    };
    let content = match x.mode {
        ContentMode::Stream => ContentView::Opened,
        ContentMode::File => ContentView::Path(place),
    };
    &&& super::rules::turn_of(x, found) == super::rules::ask(
        x,
        seq![EffectView::CountHit],
        PhaseView::Reopening { meta, hit: true },
        QueryView::ZoneOk { cache_zone: meta.cache_zone },
    )
    &&& super::rules::accepts(reopening, EventView::ZoneOk(Some(true)))
    &&& super::rules::accepts(measuring, EventView::ObjectSize(Ok(n)))
    &&& super::rules::turn_of(measuring, EventView::ObjectSize(Ok(n))).step == (StepView::Ask {
        next: opening,
        query: super::rules::opening(x.mode, meta, rng),
    })
    &&& super::rules::accepts(opening, opened)
    &&& super::rules::turn_of(opening, opened) == super::rules::done(
        Seq::empty(),
        Ok(
            ReplyView::Stored {
                status: super::rules::reply_status(meta, rng),
                headers: super::rules::reply_headers(meta, rng, true),
                content,
            },
        ),
    )
    &&& super::rules::reply_headers(meta, rng, true)["x-cache"@] == seq!["HIT"@]
}

/// A range of a stored object is answered with the bytes that it selects: they are what is opened,
/// and the answer is marked as a part and gives their number; where no part is selected, the whole is
/// opened under the origin's status.
pub proof fn law_part_is_opened(x: ExchangeView, meta: MetaView, hit: bool, data: Seq<u8>)
    requires
        x.phase == (PhaseView::Measuring { meta, hit }),
        x.mode == ContentMode::Stream,
        0 < data.len() <= i64::MAX,
        data.len() == meta.size,
        super::rules::accepts(x, EventView::ObjectSize(Ok(data.len() as u64))),
    ensures
        ({
            let rng = crate::range::clipped(x.req.range(), data.len() as u64);
            let read = crate::range::window_of(rng).part_of(data);
            let turn = super::rules::turn_of(x, EventView::ObjectSize(Ok(data.len() as u64)));
            &&& turn.step matches StepView::Ask { next, query } && query == (
            QueryView::OpenContent {
                cache_zone: meta.cache_zone,
                path: meta.storage_path,
                rng,
            }) && (next.phase matches PhaseView::Opening { status, headers, .. } && match crate::range::part_length(
                rng,
                meta.size,
            ) {
                Some(n) => {
                    &&& status == 206
                    &&& read.len() == n
                    &&& meta.headers.contains_key("content-length"@)
                        ==> headers["content-length"@][0] == crate::text::decimal(read.len())
                },
                None => status == meta.status_code && read == data,
            })
        }),
{
    let n = data.len() as u64;
    let rng = crate::range::clipped(x.req.range(), n);
    crate::range::law_announced_length_is_read(x.req.range(), n);
    crate::range::law_clipped_within(x.req.range(), n);
    assert(data.subrange(0, data.len() as int) =~= data);
    reveal_strlit("x-cache");
    reveal_strlit("content-length");
    assert("x-cache"@.len() == 7);
    assert("content-length"@.len() == 14);
}

/// What is compressed is what would have been sent: the same bytes of the same stored object are
/// read.
pub proof fn law_compressed_is_the_plain_body(x: ExchangeView, meta: MetaView, hit: bool, n: u64)
    requires
        x.phase == (PhaseView::Measuring { meta, hit }),
        x.mode == ContentMode::Stream,
        super::rules::accepts(x, EventView::ObjectSize(Ok(n))),
        x.req.takes_gzip(),
    ensures
        ({
            let rng = crate::range::clipped(x.req.range(), n);
            let measured = super::rules::turn_of(x, EventView::ObjectSize(Ok(n)));
            let opening = after(x, EventView::ObjectSize(Ok(n)));
            let opened = super::rules::turn_of(opening, EventView::Opened(Ok(())));
            &&& measured.step matches StepView::Ask { query, .. } && query == (
            QueryView::OpenContent {
                cache_zone: meta.cache_zone,
                path: meta.storage_path,
                rng,
            })
            &&& opened.step matches StepView::Ask { query, .. } && query == (
            QueryView::ReadContent {
                cache_zone: meta.cache_zone,
                path: meta.storage_path,
                rng,
            })
        }),
{
}

/// The sender is told that it has the current version only at lookup, only where it gives no entity
/// tag, and only where the object was last changed no later than the time that it gives.
pub proof fn law_not_modified_needs_dates(x: ExchangeView, event: EventView)
    requires
        super::rules::accepts(x, event),
        super::rules::turn_of(x, event).step == (StepView::Done { result: Ok(ReplyView::NotModified) }),
    ensures
        x.phase is Lookup,
        x.req.if_none_match() is None,
        event matches EventView::Object(Ok(Some(meta))) && crate::time::unchanged(
            meta.last_modified(),
            x.req.if_modified_since(),
        ),
{
}

/// What is stored of an object never depends on the request that it is served to, but for the count
/// and the time of requests: no part length and no mark of the cache gets into it.
pub proof fn law_stored_metadata_is_kept(x: ExchangeView, event: EventView, i: int)
    requires
        super::rules::accepts(x, event),
        0 <= i < super::rules::turn_of(x, event).effects.len(),
        super::rules::turn_of(x, event).effects[i] is PutObject,
    ensures
        x.phase matches PhaseView::Measuring { meta, .. } && super::rules::turn_of(
            x,
            event,
        ).effects[i] == (EffectView::PutObject {
            hash: x.hash,
            meta: MetaView {
                last_ref_time: x.req.timestamp,
                ref_count: (meta.ref_count + 1) as i64,
                ..meta
            },
        }),
{
}

/// The headers that an answer from the cache is on the way with.
pub open spec fn headers_on_the_way(phase: PhaseView) -> Option<TextLists> {
    match phase {
        PhaseView::Opening { headers, .. } => Some(headers),
        PhaseView::Encoding { headers, .. } => Some(headers),
        _ => None,
    }
}

/// The mark of the cache says whether the object was cached before, and stays to the end.
pub proof fn law_mark_tells_hit(x: ExchangeView, event: EventView)
    requires
        super::rules::accepts(x, event),
    ensures
        ({
            let turn = super::rules::turn_of(x, event);
            &&& x.phase matches PhaseView::Measuring { hit, .. } ==> (
            turn.step matches StepView::Ask { next, .. } ==> (headers_on_the_way(
                next.phase,
            ) matches Some(headers) && headers.contains_key("x-cache"@) && headers["x-cache"@]
                == seq![super::rules::cache_mark(hit)]))
            &&& headers_on_the_way(x.phase) matches Some(before) ==> before.contains_key("x-cache"@)
                ==> match turn.step {
                StepView::Ask { next, .. } => headers_on_the_way(next.phase) == Some(before),
                StepView::Done { result } => match result {
                    Ok(reply) => reply matches ReplyView::Stored { headers, .. }
                        && headers.contains_key("x-cache"@) && headers["x-cache"@]
                        == before["x-cache"@],
                    Err(_) => true,
                },
            }
        }),
{
    reveal_strlit("x-cache");
    reveal_strlit("content-encoding");
    reveal_strlit("content-length");
    reveal_strlit("Vary");
    assert("x-cache"@.len() == 7);
    assert("content-encoding"@.len() == 16);
    assert("content-length"@.len() == 14);
    assert("Vary"@.len() == 4);
}

/// An answer is marked as partial exactly where the length of a part is found, and then it gives
/// that length where it gives one.
pub proof fn law_part_is_announced(x: ExchangeView, meta: MetaView, hit: bool, n: u64)
    requires
        x.phase == (PhaseView::Measuring { meta, hit }),
        super::rules::accepts(x, EventView::ObjectSize(Ok(n))),
        meta.status_code != 206,
    ensures
        ({
            let turn = super::rules::turn_of(x, EventView::ObjectSize(Ok(n)));
            let part = crate::range::part_length(
                crate::range::clipped(x.req.range(), n),
                meta.size,
            );
            turn.step matches StepView::Ask { next, .. } && (next.phase matches PhaseView::Opening {
                status,
                headers,
                ..
            } && {
                &&& status == 206 <==> part is Some
                &&& part is Some && meta.headers.contains_key("content-length"@)
                    ==> headers["content-length"@][0] == crate::text::decimal(part->0 as nat)
                &&& part is None ==> headers == meta.headers.insert(
                    "x-cache"@,
                    seq![super::rules::cache_mark(hit)],
                )
            })
        }),
{
    reveal_strlit("x-cache");
    reveal_strlit("content-length");
    assert("x-cache"@.len() == 7);
    assert("content-length"@.len() == 14);
}

/// Bodies are compressed for those who take that, and for no others.
pub proof fn law_compressed_on_request(x: ExchangeView, event: EventView)
    requires
        x.phase is Opening,
        super::rules::accepts(x, event),
    ensures
        match super::rules::turn_of(x, event).step {
            StepView::Ask { next, query } => x.req.takes_gzip() && next.phase is Encoding
                && query is ReadContent,
            StepView::Done { result } => result is Ok ==> !x.req.takes_gzip(),
        },
{
}

/// A compressed answer says that it is, gives the length of the compressed body, and says that it
/// depends on what the sender takes.
pub proof fn law_compressed_is_announced(x: ExchangeView, event: EventView, reply: ReplyView)
    requires
        x.phase is Encoding,
        super::rules::accepts(x, event),
        super::rules::turn_of(x, event).step == (StepView::Done { result: Ok(reply) }),
    ensures
        reply matches ReplyView::Stored { headers, content, .. } && (
        content matches crate::types::ContentView::Bytes(data) && {
            &&& headers["content-encoding"@] == seq!["gzip"@]
            &&& headers["content-length"@] == seq![crate::text::decimal(data.len())]
            &&& headers["Vary"@].last() == "accept-encoding"@
        }),
{
    reveal_strlit("content-encoding");
    reveal_strlit("content-length");
    reveal_strlit("Vary");
    assert("content-encoding"@.len() == 16);
    assert("content-length"@.len() == 14);
    assert("Vary"@.len() == 4);
}

/// Whether all names are in lower case, as those of an origin's answer are.
pub open spec fn lower_names(headers: TextLists) -> bool {
    forall|k: Seq<char>| #[trigger] headers.contains_key(k) ==> crate::headers::lowercase(k) == k
}

/// What a compressed answer is sent with: it says that it is compressed, gives the length of the
/// compressed body and no other, and says that it depends on what the sender takes, beside all that
/// the origin said it depends on.
pub proof fn law_compressed_headers_are_sent(headers: TextLists, length: nat, out: HeaderView)
    requires
        lower_names(headers),
        crate::headers::headers_sent(super::rules::gzip_headers(headers, length), out),
    ensures
        out.contains_key("content-encoding"@),
        out["content-encoding"@] == seq![vstd::utf8::encode_utf8("gzip"@)],
        out.contains_key("content-length"@),
        out["content-length"@] == seq![vstd::utf8::encode_utf8(crate::text::decimal(length))],
        out.contains_key("vary"@),
        out["vary"@].contains(vstd::utf8::encode_utf8("accept-encoding"@)),
        forall|v: Seq<u8>|
            headers.contains_key("vary"@) && #[trigger] crate::headers::encoded_texts(
                headers["vary"@],
            ).contains(v) ==> out["vary"@].contains(v),
{
    let stored = super::rules::gzip_headers(headers, length);
    reveal_strlit("content-encoding");
    reveal_strlit("content-length");
    reveal_strlit("Vary");
    reveal_strlit("vary");
    let encoding = "content-encoding"@;
    let len_name = "content-length"@;
    assert(encoding.len() == 16 && len_name.len() == 14 && "Vary"@.len() == 4);
    assert(crate::headers::lowercase(encoding) =~= encoding);
    assert(crate::headers::lowercase(len_name) =~= len_name);
    assert(crate::headers::lowercase("Vary"@) =~= "vary"@);
    assert("Vary"@[0] == 'V' && "vary"@[0] == 'v');
    assert forall|k: Seq<char>| #[trigger] stored.contains_key(k) && k != "Vary"@ implies crate::headers::lowercase(
        k,
    ) == k by {
        if k != encoding && k != len_name {
            assert(headers.contains_key(k));
        }
    }
    crate::headers::law_sent_alone(stored, out, encoding);
    crate::headers::law_sent_alone(stored, out, len_name);
    assert(crate::headers::encoded_texts(stored[encoding]) =~= seq![
        vstd::utf8::encode_utf8("gzip"@),
    ]);
    assert(crate::headers::encoded_texts(stored[len_name]) =~= seq![
        vstd::utf8::encode_utf8(crate::text::decimal(length)),
    ]);
    crate::headers::law_no_value_is_lost(stored, out);
    let own = stored["Vary"@];
    assert(own.last() == "accept-encoding"@);
    let encoded = crate::headers::encoded_texts(own);
    assert(encoded[own.len() - 1] == vstd::utf8::encode_utf8("accept-encoding"@));
    assert(encoded.contains(vstd::utf8::encode_utf8("accept-encoding"@)));
    if headers.contains_key("vary"@) {
        assert(stored.contains_key("vary"@) && stored["vary"@] == headers["vary"@]);
        assert(crate::headers::lowercase("vary"@) == "vary"@);
    }
}

/// The headers of an answer from the cache, as they are sent, are in lower case wherever the stored
/// ones are, and those of an origin's answer are.
pub proof fn law_reply_names_are_lower(meta: MetaView, rng: (i64, i64), hit: bool, headers: HeaderView)
    requires
        crate::headers::received(headers),
    ensures
        lower_names(crate::headers::first_texts(headers)),
        lower_names(meta.headers) ==> lower_names(super::rules::reply_headers(meta, rng, hit)),
{
    reveal_strlit("x-cache");
    assert(crate::headers::lowercase("x-cache"@) =~= "x-cache"@);
    assert forall|k: Seq<char>| #[trigger]
        crate::headers::first_texts(headers).contains_key(k) implies crate::headers::lowercase(k)
        == k by {
        assert(headers.contains_key(k));
    }
    if lower_names(meta.headers) {
        let own = super::rules::reply_headers(meta, rng, hit);
        assert forall|k: Seq<char>| #[trigger] own.contains_key(k) implies crate::headers::lowercase(
            k,
        ) == k by {
            if k != "x-cache"@ {
                assert(meta.headers.contains_key(k));
            }
        }
    }
}

/// Values and names that the proxy gives headers of its own.
proof fn lemma_values_of_the_proxy(n: nat)
    ensures
        crate::headers::valid_value(vstd::utf8::encode_utf8(crate::text::decimal(n))),
        crate::headers::valid_value(vstd::utf8::encode_utf8("HIT"@)),
        crate::headers::valid_value(vstd::utf8::encode_utf8("MISS"@)),
        crate::headers::valid_value(vstd::utf8::encode_utf8("gzip"@)),
        crate::headers::valid_value(vstd::utf8::encode_utf8("accept-encoding"@)),
        crate::headers::valid_name("x-cache"@),
        crate::headers::valid_name("content-length"@),
        crate::headers::valid_name("content-encoding"@),
        crate::headers::valid_name("Vary"@),
{
    crate::text::lemma_decimal(n);
    let number = crate::text::decimal(n);
    assert forall|i: int| 0 <= i < number.len() implies ' ' <= #[trigger] number[i] <= '~' by {
        assert(crate::text::is_digit(number[i]));
    }
    crate::headers::lemma_printable(number);
    reveal_strlit("HIT");
    reveal_strlit("MISS");
    reveal_strlit("gzip");
    reveal_strlit("accept-encoding");
    crate::headers::lemma_printable("HIT"@);
    crate::headers::lemma_printable("MISS"@);
    crate::headers::lemma_printable("gzip"@);
    crate::headers::lemma_printable("accept-encoding"@);
    reveal_strlit("x-cache");
    reveal_strlit("content-length");
    reveal_strlit("content-encoding");
    reveal_strlit("Vary");
}

/// One more name, or other values under a name.
proof fn lemma_sendable_insert(headers: TextLists, name: Seq<char>, values: Seq<Seq<char>>)
    requires
        crate::headers::sendable(headers),
        headers.dom().len() < crate::headers::MAX_NAMES,
        crate::headers::sendable_entry(name, values),
    ensures
        crate::headers::sendable(headers.insert(name, values)),
        headers.insert(name, values).dom().len() <= headers.dom().len() + 1,
{
    let after = headers.insert(name, values);
    assert(after.dom() =~= headers.dom().insert(name));
    assert forall|k: Seq<char>| #[trigger] after.contains_key(k) implies crate::headers::sendable_entry(
        k,
        after[k],
    ) by {
        if k != name {
            assert(headers.contains_key(k));
        }
    }
}

/// The answer that the cache gives can be sent wherever the headers that are stored can be, with
/// room for the four names that the proxy adds, whatever part is asked for and whether the body is
/// compressed or not.
pub proof fn law_reply_can_be_sent(meta: MetaView, rng: (i64, i64), hit: bool, length: nat)
    requires
        crate::headers::sendable(meta.headers),
        meta.measured(),
        meta.headers.dom().len() + 4 <= crate::headers::MAX_NAMES,
    ensures
        crate::headers::sendable(super::rules::reply_headers(meta, rng, hit)),
        crate::headers::sendable(
            super::rules::gzip_headers(super::rules::reply_headers(meta, rng, hit), length),
        ),
{
    let part = crate::range::part_length(rng, meta.size);
    let own = super::rules::part_headers(meta.headers, part);
    match part {
        Some(n) => {
            lemma_values_of_the_proxy(n as nat);
            if meta.headers.contains_key("content-length"@) {
                let values = meta.headers["content-length"@];
                let other = values.update(0, crate::text::decimal(n as nat));
                assert(crate::headers::sendable_entry("content-length"@, values));
                assert forall|i: int| 0 <= i < other.len() implies crate::headers::valid_value(
                    vstd::utf8::encode_utf8(#[trigger] other[i]),
                ) by {
                    if i > 0 {
                        assert(other[i] == values[i]);
                    }
                }
                lemma_sendable_insert(meta.headers, "content-length"@, other);
                assert(own.dom() =~= meta.headers.dom());
            }
        },
        None => {},
    }
    lemma_values_of_the_proxy(length);
    let marked = super::rules::reply_headers(meta, rng, hit);
    let mark = seq![super::rules::cache_mark(hit)];
    lemma_sendable_insert(own, "x-cache"@, mark);
    let gzip = seq!["gzip"@];
    let with_encoding = marked.insert("content-encoding"@, gzip);
    lemma_sendable_insert(marked, "content-encoding"@, gzip);
    let vary = super::rules::with_text(with_encoding, "Vary"@, "accept-encoding"@);
    let vary_values = vary["Vary"@];
    if with_encoding.contains_key("Vary"@) {
        let was = with_encoding["Vary"@];
        assert(crate::headers::sendable_entry("Vary"@, was));
        assert forall|i: int| 0 <= i < vary_values.len() implies crate::headers::valid_value(
            vstd::utf8::encode_utf8(#[trigger] vary_values[i]),
        ) by {
            if i < was.len() {
                assert(vary_values[i] == was[i]);
            }
        }
    }
    lemma_sendable_insert(with_encoding, "Vary"@, vary_values);
    lemma_sendable_insert(vary, "content-length"@, seq![crate::text::decimal(length)]);
}

/// What is kept about an object that was just fetched can be judged by every later request, as far as
/// that can be handed on, and its parts can be announced, where the time of the request leaves room
/// for the fresh time. It is fresh at first, unless it is not to be fresh at all.
pub proof fn law_fetched_can_be_judged(
    req: RequestView,
    status: u16,
    headers: HeaderView,
    max_age: u32,
    path: Seq<char>,
    size: usize,
    cache_zone: u8,
    later: RequestView,
)
    requires
        req.timestamp + max_age <= i64::MAX,
        later.well_formed(),
    ensures
        ({
            let meta = super::rules::fresh_meta(
                req,
                status,
                headers,
                max_age,
                path,
                size,
                cache_zone,
            );
            &&& super::rules::judgeable(later, meta)
            &&& meta.measured()
            &&& meta.expired_at(req.timestamp) <==> max_age == 0
        }),
{
}

} // verus!
