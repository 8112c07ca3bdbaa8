//! Laws of the request lanes: which request waits where, and which goes next.

use crate::library::enrichment::{rank, LanesView};
use crate::library::entity_map::{distinct, entity_views};
use crate::library::requests::{
    after_message, begun, cache_view, disabled_payload, ended, phase_text, requeued,
    EnrichmentMessage, FetchPhase,
};
use crate::protocol::{
    EntityView, LibraryEnrichmentAttemptKind, LibraryEnrichmentEntity, LibraryEnrichmentPriority,
    LibraryEnrichmentStatus, PayloadView,
};
use vstd::prelude::*;

verus! {

/// A request for what is shown in detail is more urgent than one for what is in sight, and
/// that one more than one for the background.
pub proof fn details_are_most_urgent()
    ensures
        rank(LibraryEnrichmentAttemptKind::Detail) > rank(
            LibraryEnrichmentAttemptKind::VisiblePrefetch,
        ),
        rank(LibraryEnrichmentAttemptKind::VisiblePrefetch) > rank(
            LibraryEnrichmentAttemptKind::BackgroundWarm,
        ),
{
}

/// A new request waits at the end of its lane, unless 64 wait in a prefetch lane already; no
/// other request is touched.
pub proof fn new_requests_wait_at_the_end(
    s: LanesView,
    e: EntityView,
    kind: LibraryEnrichmentAttemptKind,
)
    requires
        !s.queued.contains_key(e),
        !s.in_flight.contains_key(e),
    ensures
        ({
            let after = s.enqueued(e, kind);
            let room = match kind {
                LibraryEnrichmentAttemptKind::Detail => true,
                LibraryEnrichmentAttemptKind::VisiblePrefetch => s.visible.len() < 64,
                LibraryEnrichmentAttemptKind::BackgroundWarm => s.background.len() < 64,
            };
            &&& after.in_flight == s.in_flight
            &&& after.last_background == s.last_background
            &&& room ==> after.queued == s.queued.insert(e, kind)
            &&& !room ==> after.queued == s.queued
            &&& after.detail == (if kind == LibraryEnrichmentAttemptKind::Detail {
                s.detail.push(e)
            } else {
                s.detail
            })
            &&& after.visible == (if room && kind == LibraryEnrichmentAttemptKind::VisiblePrefetch {
                s.visible.push(e)
            } else {
                s.visible
            })
            &&& after.background == (if room && kind
                == LibraryEnrichmentAttemptKind::BackgroundWarm {
                s.background.push(e)
            } else {
                s.background
            })
            &&& kind == LibraryEnrichmentAttemptKind::Detail ==> after.deferred
                == s.deferred.remove(e)
            &&& kind != LibraryEnrichmentAttemptKind::Detail ==> after.deferred == s.deferred
        }),
{
}

/// A request that waits already moves to the end of a more urgent lane, and never to a less
/// urgent one; one under way becomes as urgent as the most urgent request for it.
pub proof fn repeated_requests_become_more_urgent(
    s: LanesView,
    e: EntityView,
    kind: LibraryEnrichmentAttemptKind,
)
    ensures
        !s.in_flight.contains_key(e) && s.queued.contains_key(e) && rank(kind) > rank(s.queued[e])
            ==> s.enqueued(e, kind).queued == s.queued.insert(e, kind) && s.enqueued(
            e,
            kind,
        ).lane(kind) == s.lane(kind).push(e),
        !s.in_flight.contains_key(e) && s.queued.contains_key(e) && rank(kind) <= rank(s.queued[e])
            ==> s.enqueued(e, kind).queued == s.queued && s.enqueued(e, kind).visible == s.visible
            && s.enqueued(e, kind).background == s.background && s.enqueued(e, kind).detail
            == s.detail,
        s.in_flight.contains_key(e) ==> s.enqueued(e, kind).queued == s.queued && s.enqueued(
            e,
            kind,
        ).in_flight.contains_key(e) && rank(s.enqueued(e, kind).in_flight[e]) >= rank(kind)
            && rank(s.enqueued(e, kind).in_flight[e]) >= rank(s.in_flight[e]) && (s.enqueued(
            e,
            kind,
        ).in_flight[e] == kind || s.enqueued(e, kind).in_flight[e] == s.in_flight[e]),
        kind == LibraryEnrichmentAttemptKind::Detail ==> !s.enqueued(
            e,
            kind,
        ).deferred.contains_key(e),
{
}

/// A detail request that waits in its lane.
pub open spec fn detail_waits(s: LanesView, i: int) -> bool {
    0 <= i < s.detail.len() && s.queued.contains_key(s.detail[i]) && s.queued[s.detail[i]]
        == LibraryEnrichmentAttemptKind::Detail
}

/// Of the detail requests, the one that has waited longest goes next, and leaves its lane with
/// all before it.
pub proof fn the_oldest_detail_goes_next(s: LanesView, now: u64, i: int)
    requires
        detail_waits(s, i),
        forall|k: int| 0 <= k < i ==> !detail_waits(s, k),
    ensures
        s.dequeued(now).1 == Some((s.detail[i], LibraryEnrichmentAttemptKind::Detail)),
        s.dequeued(now).0 == (LanesView {
            queued: s.queued.remove(s.detail[i]),
            detail: s.detail.skip(i + 1),
            ..s
        }),
{
    lemma_detail_pick(s, i);
}

proof fn lemma_detail_pick(s: LanesView, i: int)
    requires
        detail_waits(s, i),
        forall|k: int| 0 <= k < i ==> !detail_waits(s, k),
    ensures
        s.detail_pick().1 == Some(s.detail[i]),
        s.detail_pick().0 == (LanesView {
            queued: s.queued.remove(s.detail[i]),
            detail: s.detail.skip(i + 1),
            ..s
        }),
    decreases i,
{
    if i == 0 {
        assert(s.detail.drop_first() =~= s.detail.skip(1));
    } else {
        assert(!detail_waits(s, 0));
        let rest = LanesView { detail: s.detail.drop_first(), ..s };
        assert(rest.detail[i - 1] == s.detail[i]);
        assert forall|k: int| 0 <= k < i - 1 implies !detail_waits(rest, k) by {
            assert(rest.detail[k] == s.detail[k + 1]);
            assert(!detail_waits(s, k + 1));
        }
        lemma_detail_pick(rest, i - 1);
        assert(rest.detail.skip(i) =~= s.detail.skip(i + 1));
    }
}

proof fn lemma_no_detail(s: LanesView)
    requires
        forall|k: int| 0 <= k < s.detail.len() ==> !detail_waits(s, k),
    ensures
        s.detail_pick().1 is None,
        s.detail_pick().0 == (LanesView { detail: Seq::empty(), ..s }),
    decreases s.detail.len(),
{
    if s.detail.len() == 0 {
        assert(s.detail =~= Seq::empty());
    } else {
        assert(!detail_waits(s, 0));
        let rest = LanesView { detail: s.detail.drop_first(), ..s };
        assert forall|k: int| 0 <= k < rest.detail.len() implies !detail_waits(rest, k) by {
            assert(rest.detail[k] == s.detail[k + 1]);
            assert(!detail_waits(s, k + 1));
        }
        lemma_no_detail(rest);
    }
}

/// An entry of a prefetch lane whose request is queued and not put off.
pub open spec fn entry_is_due(s: LanesView, entries: Seq<EntityView>, i: int, now: u64) -> bool {
    0 <= i < entries.len() && s.queued.contains_key(entries[i]) && !(s.deferred.contains_key(
        entries[i],
    ) && now < s.deferred[entries[i]])
}

proof fn lemma_lane_pick(
    s: LanesView,
    lane: LibraryEnrichmentAttemptKind,
    n: nat,
    now: u64,
    i: int,
)
    requires
        lane != LibraryEnrichmentAttemptKind::Detail,
        i < n <= s.lane(lane).len(),
        entry_is_due(s, s.lane(lane), i, now),
        forall|k: int| 0 <= k < i ==> !entry_is_due(s, s.lane(lane), k, now),
    ensures
        s.lane_pick(lane, n, now).1 == Some((s.lane(lane)[i], s.queued[s.lane(lane)[i]])),
        s.lane_pick(lane, n, now).0.queued == s.queued.remove(s.lane(lane)[i]),
        s.lane_pick(lane, n, now).0.deferred == s.deferred.remove(s.lane(lane)[i]),
        s.lane_pick(lane, n, now).0.in_flight == s.in_flight,
    decreases n,
{
    let entries = s.lane(lane);
    if i > 0 {
        assert(!entry_is_due(s, entries, 0, now));
        let e = entries[0];
        let next = if !s.queued.contains_key(e) {
            s.with_lane(lane, entries.drop_first())
        } else {
            s.with_lane(lane, entries.drop_first().push(e))
        };
        let rest = next.lane(lane);
        assert(next.queued == s.queued && next.deferred == s.deferred);
        assert(rest[i - 1] == entries[i]);
        assert(entry_is_due(next, rest, i - 1, now));
        assert forall|k: int| 0 <= k < i - 1 implies !entry_is_due(next, rest, k, now) by {
            assert(rest[k] == entries[k + 1]);
            assert(!entry_is_due(s, entries, k + 1, now));
        }
        lemma_lane_pick(next, lane, (n - 1) as nat, now, i - 1);
    }
}

/// Where no detail request waits, the request in sight that has waited longest and is not put
/// off goes next.
pub proof fn the_oldest_prefetch_goes_next(s: LanesView, now: u64, i: int)
    requires
        forall|k: int| 0 <= k < s.detail.len() ==> !detail_waits(s, k),
        entry_is_due(s, s.visible, i, now),
        forall|k: int| 0 <= k < i ==> !entry_is_due(s, s.visible, k, now),
    ensures
        s.dequeued(now).1 == Some((s.visible[i], s.queued[s.visible[i]])),
        s.dequeued(now).0.queued == s.queued.remove(s.visible[i]),
        s.dequeued(now).0.deferred == s.deferred.remove(s.visible[i]),
        s.dequeued(now).0.in_flight == s.in_flight,
{
    lemma_no_detail(s);
    let s1 = s.detail_pick().0;
    assert(entry_is_due(s1, s1.visible, i, now));
    assert forall|k: int| 0 <= k < i implies !entry_is_due(s1, s1.visible, k, now) by {
        assert(!entry_is_due(s, s.visible, k, now));
    }
    lemma_lane_pick(
        s1,
        LibraryEnrichmentAttemptKind::VisiblePrefetch,
        s1.visible.len(),
        now,
        i,
    );
}

proof fn lemma_nothing_due(s: LanesView, lane: LibraryEnrichmentAttemptKind, n: nat, now: u64)
    requires
        lane != LibraryEnrichmentAttemptKind::Detail,
        n <= s.lane(lane).len(),
        forall|k: int| 0 <= k < s.lane(lane).len() ==> !entry_is_due(s, s.lane(lane), k, now),
    ensures
        s.lane_pick(lane, n, now).1 is None,
        s.lane_pick(lane, n, now).0.queued == s.queued,
        s.lane_pick(lane, n, now).0.deferred == s.deferred,
        s.lane_pick(lane, n, now).0.in_flight == s.in_flight,
        s.lane_pick(lane, n, now).0.last_background == s.last_background,
        lane == LibraryEnrichmentAttemptKind::VisiblePrefetch ==> s.lane_pick(
            lane,
            n,
            now,
        ).0.background == s.background,
    decreases n,
{
    let entries = s.lane(lane);
    if n > 0 {
        assert(!entry_is_due(s, entries, 0, now));
        let e = entries[0];
        let next = if !s.queued.contains_key(e) {
            s.with_lane(lane, entries.drop_first())
        } else {
            s.with_lane(lane, entries.drop_first().push(e))
        };
        let rest = next.lane(lane);
        assert forall|k: int| 0 <= k < rest.len() implies !entry_is_due(next, rest, k, now) by {
            if k + 1 < entries.len() {
                assert(rest[k] == entries[k + 1]);
                assert(!entry_is_due(s, entries, k + 1, now));
            }
        }
        lemma_nothing_due(next, lane, (n - 1) as nat, now);
    }
}

/// Where nothing in sight can go, one from the background does, but none within half a minute
/// of the last.
pub proof fn the_background_goes_last(s: LanesView, now: u64, i: int)
    requires
        forall|k: int| 0 <= k < s.detail.len() ==> !detail_waits(s, k),
        forall|k: int| 0 <= k < s.visible.len() ==> !entry_is_due(s, s.visible, k, now),
        entry_is_due(s, s.background, i, now),
        forall|k: int| 0 <= k < i ==> !entry_is_due(s, s.background, k, now),
    ensures
        s.last_background matches Some(last) && now - last < 30000 ==> s.dequeued(now).1 is None
            && s.dequeued(now).0.queued == s.queued,
        s.last_background is None || now - s.last_background->Some_0 >= 30000 ==> s.dequeued(
            now,
        ).1 == Some((s.background[i], s.queued[s.background[i]])) && s.dequeued(now).0.queued
            == s.queued.remove(s.background[i]) && (s.queued[s.background[i]]
            == LibraryEnrichmentAttemptKind::BackgroundWarm ==> s.dequeued(
            now,
        ).0.last_background == Some(now)),
{
    lemma_no_detail(s);
    let s1 = s.detail_pick().0;
    assert forall|k: int| 0 <= k < s1.visible.len() implies !entry_is_due(
        s1,
        s1.visible,
        k,
        now,
    ) by {
        assert(!entry_is_due(s, s.visible, k, now));
    }
    lemma_nothing_due(s1, LibraryEnrichmentAttemptKind::VisiblePrefetch, s1.visible.len(), now);
    let s2 = s1.lane_pick(
        LibraryEnrichmentAttemptKind::VisiblePrefetch,
        s1.visible.len(),
        now,
    ).0;
    assert(entry_is_due(s2, s2.background, i, now));
    assert forall|k: int| 0 <= k < i implies !entry_is_due(s2, s2.background, k, now) by {
        assert(!entry_is_due(s, s.background, k, now));
    }
    lemma_lane_pick(
        s2,
        LibraryEnrichmentAttemptKind::BackgroundWarm,
        s2.background.len(),
        now,
        i,
    );
}

proof fn lemma_filled(
    s: LanesView,
    wanted: Seq<EntityView>,
    lane: LibraryEnrichmentAttemptKind,
    e: EntityView,
)
    ensures
        !wanted.contains(e) ==> (s.filled(wanted, lane).queued.contains_key(e)
            <==> s.queued.contains_key(e)) && (s.queued.contains_key(e) ==> s.filled(
            wanted,
            lane,
        ).queued[e] == s.queued[e]),
        s.queued.contains_key(e) || s.in_flight.contains_key(e) ==> s.filled(
            wanted,
            lane,
        ).queued.contains_key(e) || s.filled(wanted, lane).in_flight.contains_key(e),
    decreases wanted.len(),
{
    if wanted.len() > 0 && !s.full(lane) {
        let rest = wanted.drop_first();
        lemma_filled(s.offered(wanted[0], lane), rest, lane, e);
        if !wanted.contains(e) {
            assert(wanted[0] != e);
            assert(!rest.contains(e)) by {
                if rest.contains(e) {
                    let k = choose|k: int| 0 <= k < rest.len() && rest[k] == e;
                    assert(wanted[k + 1] == e);
                }
            }
        }
    }
}

/// Replacing a prefetch lane drops the requests of that lane that are no longer wanted, and
/// keeps those of other lanes; what is wanted and was queued stays queued or under way.
pub proof fn unwanted_prefetches_are_dropped(
    s: LanesView,
    wanted: Seq<EntityView>,
    lane: LibraryEnrichmentAttemptKind,
    e: EntityView,
)
    requires
        lane != LibraryEnrichmentAttemptKind::Detail,
    ensures
        !wanted.contains(e) && s.queued.contains_key(e) && s.queued[e] == lane ==> !s.replaced(
            wanted,
            lane,
        ).queued.contains_key(e),
        !wanted.contains(e) && s.queued.contains_key(e) && s.queued[e] != lane ==> s.replaced(
            wanted,
            lane,
        ).queued.contains_key(e) && s.replaced(wanted, lane).queued[e] == s.queued[e],
        !wanted.contains(e) && !s.queued.contains_key(e) ==> !s.replaced(
            wanted,
            lane,
        ).queued.contains_key(e),
        wanted.contains(e) && s.queued.contains_key(e) ==> s.replaced(
            wanted,
            lane,
        ).queued.contains_key(e) || s.replaced(wanted, lane).in_flight.contains_key(e),
{
    let emptied = LanesView {
        queued: s.kept_queued(wanted, lane),
        deferred: s.kept_deferred(wanted, lane),
        ..s
    }.with_lane(lane, Seq::empty());
    lemma_distinct(wanted, e);
    lemma_filled(emptied, distinct(wanted), lane, e);
}

proof fn lemma_filled_takes(
    s: LanesView,
    wanted: Seq<EntityView>,
    lane: LibraryEnrichmentAttemptKind,
    i: int,
)
    requires
        0 <= i < wanted.len(),
        s.lane(lane).len() + i < 64,
    ensures
        s.filled(wanted, lane).queued.contains_key(wanted[i]) || s.filled(
            wanted,
            lane,
        ).in_flight.contains_key(wanted[i]),
    decreases wanted.len(),
{
    let next = s.offered(wanted[0], lane);
    let rest = wanted.drop_first();
    if i == 0 {
        lemma_filled(next, rest, lane, wanted[0]);
    } else {
        assert(rest[i - 1] == wanted[i]);
        lemma_filled_takes(next, rest, lane, i - 1);
    }
}

/// The first 64 of the wanted prefetches, each counted once, are queued or under way after
/// the lane is replaced.
pub proof fn wanted_prefetches_are_queued(
    s: LanesView,
    wanted: Seq<EntityView>,
    lane: LibraryEnrichmentAttemptKind,
    i: int,
)
    requires
        lane != LibraryEnrichmentAttemptKind::Detail,
        0 <= i < distinct(wanted).len(),
        i < 64,
    ensures
        s.replaced(wanted, lane).queued.contains_key(distinct(wanted)[i]) || s.replaced(
            wanted,
            lane,
        ).in_flight.contains_key(distinct(wanted)[i]),
{
    let emptied = LanesView {
        queued: s.kept_queued(wanted, lane),
        deferred: s.kept_deferred(wanted, lane),
        ..s
    }.with_lane(lane, Seq::empty());
    lemma_filled_takes(emptied, distinct(wanted), lane, i);
}

/// A list without its repetitions holds what the list holds, and each item once.
pub proof fn distinct_lists_hold_the_same(wanted: Seq<EntityView>, e: EntityView)
    ensures
        distinct(wanted).contains(e) <==> wanted.contains(e),
        distinct(wanted).no_duplicates(),
    decreases wanted.len(),
{
    lemma_distinct(wanted, e);
    if wanted.len() > 0 {
        distinct_lists_hold_the_same(wanted.drop_last(), e);
        let before = distinct(wanted.drop_last());
        let all = distinct(wanted);
        if wanted.contains(e) {
            let k = choose|k: int| 0 <= k < wanted.len() && wanted[k] == e;
            if k < wanted.len() - 1 {
                assert(wanted.drop_last()[k] == e);
                let j = choose|j: int| 0 <= j < before.len() && before[j] == e;
                assert(all[j] == e);
            } else if !before.contains(e) {
                assert(all[before.len() as int] == e);
            } else {
                let j = choose|j: int| 0 <= j < before.len() && before[j] == e;
                assert(all[j] == e);
            }
        }
    }
}

proof fn lemma_distinct(wanted: Seq<EntityView>, e: EntityView)
    ensures
        distinct(wanted).contains(e) ==> wanted.contains(e),
    decreases wanted.len(),
{
    if wanted.len() > 0 {
        lemma_distinct(wanted.drop_last(), e);
        if distinct(wanted).contains(e) {
            let k = choose|k: int| 0 <= k < distinct(wanted).len() && distinct(wanted)[k] == e;
            if distinct(wanted.drop_last()).contains(e) {
                let j = choose|j: int|
                    0 <= j < wanted.drop_last().len() && wanted.drop_last()[j] == e;
                assert(wanted[j] == e);
            } else {
                let before = distinct(wanted.drop_last());
                if k < before.len() {
                    assert(before[k] == e);
                }
                assert(wanted[wanted.len() - 1] == e);
            }
        }
    }
}

/// What a message does to the lanes: a request waits as urgently as it was sent, a new set of
/// prefetches replaces its own lane, and clearing the cache forgets every request.
pub proof fn messages_reach_their_lane(
    s: LanesView,
    entity: LibraryEnrichmentEntity,
    entities: Vec<LibraryEnrichmentEntity>,
)
    ensures
        after_message(
            s,
            EnrichmentMessage::Request {
                entity,
                priority: LibraryEnrichmentPriority::Interactive,
            },
        ) == s.enqueued(entity@, LibraryEnrichmentAttemptKind::Detail),
        after_message(
            s,
            EnrichmentMessage::Request { entity, priority: LibraryEnrichmentPriority::Prefetch },
        ) == s.enqueued(entity@, LibraryEnrichmentAttemptKind::VisiblePrefetch),
        after_message(s, EnrichmentMessage::ReplacePrefetchQueue(entities)) == s.replaced(
            entity_views(entities@),
            LibraryEnrichmentAttemptKind::VisiblePrefetch,
        ),
        after_message(s, EnrichmentMessage::ReplaceBackgroundQueue(entities)) == s.replaced(
            entity_views(entities@),
            LibraryEnrichmentAttemptKind::BackgroundWarm,
        ),
        ({
            let after = after_message(s, EnrichmentMessage::ClearCache);
            &&& after.queued == Map::<EntityView, LibraryEnrichmentAttemptKind>::empty()
            &&& after.in_flight == Map::<EntityView, LibraryEnrichmentAttemptKind>::empty()
            &&& after.deferred == Map::<EntityView, u64>::empty()
            &&& after.detail.len() == 0
            &&& after.visible.len() == 0
            &&& after.background.len() == 0
            &&& after.last_background is None
        }),
{
}

/// What is read from the cache is told as it was stored, for the lane that asks now, without a
/// picture that is gone. A lookup that is switched off tells nothing.
pub proof fn cached_payloads_are_told(
    entity: EntityView,
    kind: LibraryEnrichmentAttemptKind,
    cached: PayloadView,
    image_usable: bool,
)
    ensures
        cache_view(entity, kind, Some(cached), image_usable) matches Some(told) ==> {
            &&& told.attempt_kind == kind
            &&& told.entity == cached.entity
            &&& told.status == cached.status
            &&& told.blurb == cached.blurb
            &&& told.source_name == cached.source_name
            &&& told.source_url == cached.source_url
            &&& told.error_kind == cached.error_kind
            &&& image_usable ==> told.image_path == cached.image_path
            &&& !image_usable ==> told.image_path is None
        },
        kind != LibraryEnrichmentAttemptKind::Detail ==> cache_view(
            entity,
            kind,
            Some(cached),
            image_usable,
        ) is Some,
        cache_view(entity, kind, None, image_usable) is None,
        disabled_payload(entity).status == LibraryEnrichmentStatus::Disabled,
        disabled_payload(entity).entity == entity,
        disabled_payload(entity).blurb.len() == 0,
        disabled_payload(entity).image_path is None,
{
}

/// A prefetch that is sent back waits two seconds, and no longer; nothing else waits for it.
pub proof fn sent_back_prefetches_wait_two_seconds(
    s: LanesView,
    e: EntityView,
    other: EntityView,
    kind: LibraryEnrichmentAttemptKind,
    now: u64,
    later: u64,
)
    requires
        kind != LibraryEnrichmentAttemptKind::Detail,
        now + 2000 <= u64::MAX,
    ensures
        requeued(s, e, kind, now).waits(e, later) <==> later < now + 2000,
        other != e ==> (requeued(s, e, kind, now).waits(other, later) <==> s.waits(other, later)),
{
}

/// One request is under way in its own lane from its start to its end, whatever else is.
pub proof fn requests_are_under_way_alone(
    s: LanesView,
    e: EntityView,
    other: EntityView,
    kind: LibraryEnrichmentAttemptKind,
)
    requires
        other != e,
    ensures
        begun(s, e, kind).in_flight.contains_key(e),
        begun(s, e, kind).in_flight[e] == kind,
        !ended(s, e).in_flight.contains_key(e),
        begun(s, e, kind).in_flight.contains_key(other) == s.in_flight.contains_key(other),
        ended(s, e).in_flight.contains_key(other) == s.in_flight.contains_key(other),
        s.in_flight.contains_key(other) ==> begun(s, e, kind).in_flight[other]
            == s.in_flight[other] && ended(s, e).in_flight[other] == s.in_flight[other],
        begun(s, e, kind).queued == s.queued && ended(s, e).queued == s.queued,
        begun(s, e, kind).deferred == s.deferred && ended(s, e).deferred == s.deferred,
{
}

/// A failure tells at which step it came.
pub proof fn failures_tell_their_step()
    ensures
        phase_text(FetchPhase::Request) == "Request failed: "@,
        phase_text(FetchPhase::Response) == "Failed to read response: "@,
        phase_text(FetchPhase::ImageRequest) == "Image request failed: "@,
        phase_text(FetchPhase::ImageResponse) == "Image read failed: "@,
{
}

} // verus!
