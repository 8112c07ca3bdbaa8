//! The enrichment lanes: which artist or album is looked up next.

use crate::config::LibraryConfig;
use crate::library::entity_map::{
    distinct, entity_views, entry_map, has_key, index_of_key, key_at, EntityMap,
};
use crate::protocol::{
    EntityView, LibraryEnrichmentAttemptKind, LibraryEnrichmentEntity, LibraryEnrichmentPriority,
};
use std::collections::VecDeque;
use vstd::prelude::*;

verus! {

/// How many prefetch requests a lane takes.
pub const MAX_PENDING_PREFETCH_REQUESTS: usize = 64;

/// Milliseconds between two background lookups.
pub const BACKGROUND_WARM_INTERVAL_MS: u64 = 30000;

/// The enrichment requests that wait, and those under way. Times are milliseconds of one
/// monotonic clock.
pub struct LibraryEnrichmentManager {
    pub online_metadata_enabled: bool,
    pub artist_image_cache_ttl_days: u32,
    pub artist_image_cache_max_size_mb: u32,
    pub queued_attempts: EntityMap<LibraryEnrichmentAttemptKind>,
    pub detail_queue: VecDeque<LibraryEnrichmentEntity>,
    pub visible_artist_queue: VecDeque<LibraryEnrichmentEntity>,
    pub background_artist_queue: VecDeque<LibraryEnrichmentEntity>,
    pub in_flight_attempts: EntityMap<LibraryEnrichmentAttemptKind>,
    pub deferred_not_before: EntityMap<u64>,
    pub last_background_dispatch_at: Option<u64>,
}

/// The requests of a [`LibraryEnrichmentManager`].
#[verifier::ext_equal]
pub struct LanesView {
    pub queued: Map<EntityView, LibraryEnrichmentAttemptKind>,
    pub detail: Seq<EntityView>,
    pub visible: Seq<EntityView>,
    pub background: Seq<EntityView>,
    pub in_flight: Map<EntityView, LibraryEnrichmentAttemptKind>,
    pub deferred: Map<EntityView, u64>,
    pub last_background: Option<u64>,
}

/// The more urgent a lane, the larger its rank.
pub open spec fn rank(kind: LibraryEnrichmentAttemptKind) -> u8 {
    match kind {
        LibraryEnrichmentAttemptKind::Detail => 3,
        LibraryEnrichmentAttemptKind::VisiblePrefetch => 2,
        LibraryEnrichmentAttemptKind::BackgroundWarm => 1,
    }
}

/// The prefetch lane beside a prefetch lane.
pub open spec fn other_lane(kind: LibraryEnrichmentAttemptKind) -> LibraryEnrichmentAttemptKind {
    if kind == LibraryEnrichmentAttemptKind::VisiblePrefetch {
        LibraryEnrichmentAttemptKind::BackgroundWarm
    } else {
        LibraryEnrichmentAttemptKind::VisiblePrefetch
    }
}

impl LanesView {
    pub open spec fn lane(self, kind: LibraryEnrichmentAttemptKind) -> Seq<EntityView> {
        match kind {
            LibraryEnrichmentAttemptKind::Detail => self.detail,
            LibraryEnrichmentAttemptKind::VisiblePrefetch => self.visible,
            LibraryEnrichmentAttemptKind::BackgroundWarm => self.background,
        }
    }

    pub open spec fn with_lane(
        self,
        kind: LibraryEnrichmentAttemptKind,
        lane: Seq<EntityView>,
    ) -> LanesView {
        match kind {
            LibraryEnrichmentAttemptKind::Detail => LanesView { detail: lane, ..self },
            LibraryEnrichmentAttemptKind::VisiblePrefetch => LanesView { visible: lane, ..self },
            LibraryEnrichmentAttemptKind::BackgroundWarm => LanesView { background: lane, ..self },
        }
    }

    /// An entity set down as queued in a lane, behind what waits there.
    pub open spec fn placed(self, e: EntityView, kind: LibraryEnrichmentAttemptKind) -> LanesView {
        LanesView { queued: self.queued.insert(e, kind), ..self }.with_lane(
            kind,
            self.lane(kind).push(e),
        )
    }

    /// An entity under way, raised to a lane if that is more urgent.
    pub open spec fn raised(self, e: EntityView, kind: LibraryEnrichmentAttemptKind) -> LanesView {
        if rank(kind) > rank(self.in_flight[e]) {
            LanesView { in_flight: self.in_flight.insert(e, kind), ..self }
        } else {
            self
        }
    }

    /// A prefetch lane with no room left.
    pub open spec fn full(self, kind: LibraryEnrichmentAttemptKind) -> bool {
        kind != LibraryEnrichmentAttemptKind::Detail && self.lane(kind).len()
            >= MAX_PENDING_PREFETCH_REQUESTS
    }

    /// What a request makes of the lanes: a request under way or queued is only ever raised
    /// to a more urgent lane, and a full prefetch lane takes no new one.
    pub open spec fn enqueued(self, e: EntityView, kind: LibraryEnrichmentAttemptKind) -> LanesView {
        let s = if kind == LibraryEnrichmentAttemptKind::Detail {
            LanesView { deferred: self.deferred.remove(e), ..self }
        } else {
            self
        };
        if s.in_flight.contains_key(e) {
            s.raised(e, kind)
        } else if s.queued.contains_key(e) {
            if rank(kind) > rank(s.queued[e]) {
                s.placed(e, kind)
            } else {
                s
            }
        } else if s.full(kind) {
            s
        } else {
            s.placed(e, kind)
        }
    }

    /// One wanted entity put into a prefetch lane, unless a more urgent request or one under
    /// way covers it.
    pub open spec fn offered(self, e: EntityView, lane: LibraryEnrichmentAttemptKind) -> LanesView {
        if self.queued.contains_key(e) && rank(self.queued[e]) > rank(lane) {
            self
        } else if self.in_flight.contains_key(e) {
            self.raised(e, lane)
        } else {
            self.placed(e, lane)
        }
    }

    /// Wanted entities put into a prefetch lane in order, as long as it has room.
    pub open spec fn filled(
        self,
        wanted: Seq<EntityView>,
        lane: LibraryEnrichmentAttemptKind,
    ) -> LanesView
        decreases wanted.len(),
    {
        if wanted.len() == 0 || self.full(lane) {
            self
        } else {
            self.offered(wanted[0], lane).filled(wanted.drop_first(), lane)
        }
    }

    /// The queued requests that stay when a prefetch lane is replaced.
    pub open spec fn kept_queued(
        self,
        wanted: Seq<EntityView>,
        lane: LibraryEnrichmentAttemptKind,
    ) -> Map<EntityView, LibraryEnrichmentAttemptKind> {
        self.queued.restrict(
            Set::new(|e: EntityView| self.queued[e] != lane || wanted.contains(e)),
        )
    }

    /// The deferrals that stay when a prefetch lane is replaced.
    pub open spec fn kept_deferred(
        self,
        wanted: Seq<EntityView>,
        lane: LibraryEnrichmentAttemptKind,
    ) -> Map<EntityView, u64> {
        let queued = self.kept_queued(wanted, lane);
        self.deferred.restrict(
            Set::new(
                |e: EntityView|
                    (queued.contains_key(e) && queued[e] != other_lane(lane)) || wanted.contains(e)
                        || self.in_flight.contains_key(e),
            ),
        )
    }

    /// What a new list of wanted entities makes of a prefetch lane.
    pub open spec fn replaced(
        self,
        wanted: Seq<EntityView>,
        lane: LibraryEnrichmentAttemptKind,
    ) -> LanesView {
        let emptied = LanesView {
            queued: self.kept_queued(wanted, lane),
            deferred: self.kept_deferred(wanted, lane),
            ..self
        }.with_lane(lane, Seq::empty());
        emptied.filled(distinct(wanted), lane)
    }

    /// An entity whose deferral has not ended.
    pub open spec fn waits(self, e: EntityView, now: u64) -> bool {
        self.deferred.contains_key(e) && now < self.deferred[e]
    }

    /// The lanes without a request that is handed out.
    pub open spec fn taken(self, e: EntityView) -> LanesView {
        LanesView { queued: self.queued.remove(e), deferred: self.deferred.remove(e), ..self }
    }

    /// The first detail request that is still queued as one; those before it are dropped.
    pub open spec fn detail_pick(self) -> (LanesView, Option<EntityView>)
        decreases self.detail.len(),
    {
        if self.detail.len() == 0 {
            (self, None)
        } else {
            let e = self.detail[0];
            let rest = LanesView { detail: self.detail.drop_first(), ..self };
            if self.queued.contains_key(e) && self.queued[e]
                == LibraryEnrichmentAttemptKind::Detail {
                (LanesView { queued: self.queued.remove(e), ..rest }, Some(e))
            } else {
                rest.detail_pick()
            }
        }
    }

    /// Looks at `n` entries of a prefetch lane from the front: an entry no longer queued is
    /// dropped, one that waits goes to the back, the first other one is handed out.
    pub open spec fn lane_pick(
        self,
        lane: LibraryEnrichmentAttemptKind,
        n: nat,
        now: u64,
    ) -> (LanesView, Option<(EntityView, LibraryEnrichmentAttemptKind)>)
        decreases n,
    {
        let entries = self.lane(lane);
        if n == 0 || entries.len() == 0 {
            (self, None)
        } else {
            let e = entries[0];
            let rest = self.with_lane(lane, entries.drop_first());
            if !self.queued.contains_key(e) {
                rest.lane_pick(lane, (n - 1) as nat, now)
            } else if self.waits(e, now) {
                self.with_lane(lane, entries.drop_first().push(e)).lane_pick(
                    lane,
                    (n - 1) as nat,
                    now,
                )
            } else {
                (rest.taken(e), Some((e, self.queued[e])))
            }
        }
    }

    /// A background lookup was handed out less than the interval ago.
    pub open spec fn background_rests(self, now: u64) -> bool {
        self.last_background matches Some(last) && now - last < BACKGROUND_WARM_INTERVAL_MS
    }

    /// The next request: details first, then what is visible, then, once per interval, the
    /// background.
    pub open spec fn dequeued(self, now: u64) -> (
        LanesView,
        Option<(EntityView, LibraryEnrichmentAttemptKind)>,
    ) {
        let (s1, detail) = self.detail_pick();
        if detail is Some {
            (s1, Some((detail->Some_0, LibraryEnrichmentAttemptKind::Detail)))
        } else {
            let (s2, visible) = s1.lane_pick(
                LibraryEnrichmentAttemptKind::VisiblePrefetch,
                s1.visible.len(),
                now,
            );
            if visible is Some || s2.background_rests(now) {
                (s2, visible)
            } else {
                let (s3, background) = s2.lane_pick(
                    LibraryEnrichmentAttemptKind::BackgroundWarm,
                    s2.background.len(),
                    now,
                );
                if background matches Some((_, kind)) && kind
                    == LibraryEnrichmentAttemptKind::BackgroundWarm {
                    (LanesView { last_background: Some(now), ..s3 }, background)
                } else {
                    (s3, background)
                }
            }
        }
    }
}

fn listed(list: &Vec<LibraryEnrichmentEntity>, e: &LibraryEnrichmentEntity) -> (r: bool)
    ensures
        r == entity_views(list@).contains(e@),
{
    let mut i: usize = 0;
    while i < list.len()
        invariant
            i <= list.len(),
            forall|k: int| 0 <= k < i ==> #[trigger] entity_views(list@)[k] != e@,
        decreases list.len() - i,
    {
        assert(entity_views(list@)[i as int] == list@[i as int]@);
        if list[i].same(e) {
            return true;
        }
        i += 1;
    }
    false
}

/// The entities of a list, each once, in order.
fn distinct_entities(list: &Vec<LibraryEnrichmentEntity>) -> (r: Vec<LibraryEnrichmentEntity>)
    ensures
        entity_views(r@) == distinct(entity_views(list@)),
{
    let mut out: Vec<LibraryEnrichmentEntity> = Vec::new();
    let mut i: usize = 0;
    assert(entity_views(out@) =~= distinct(entity_views(list@).take(0)));
    while i < list.len()
        invariant
            i <= list.len(),
            entity_views(out@) == distinct(entity_views(list@).take(i as int)),
        decreases list.len() - i,
    {
        let ghost all = entity_views(list@);
        proof {
            assert(all.take(i + 1).drop_last() =~= all.take(i as int));
            assert(all.take(i + 1).last() == list@[i as int]@);
        }
        if !listed(&out, &list[i]) {
            let copy = list[i].clone();
            proof {
                assert(entity_views(out@.push(copy)) =~= entity_views(out@).push(copy@));
            }
            out.push(copy);
        }
        i += 1;
    }
    assert(entity_views(list@).take(list.len() as int) =~= entity_views(list@));
    out
}

impl LibraryEnrichmentManager {
    pub open spec fn wf(self) -> bool {
        self.queued_attempts.wf() && self.in_flight_attempts.wf() && self.deferred_not_before.wf()
    }

    pub open spec fn lanes(self) -> LanesView {
        LanesView {
            queued: self.queued_attempts.map(),
            detail: entity_views(self.detail_queue@),
            visible: entity_views(self.visible_artist_queue@),
            background: entity_views(self.background_artist_queue@),
            in_flight: self.in_flight_attempts.map(),
            deferred: self.deferred_not_before.map(),
            last_background: self.last_background_dispatch_at,
        }
    }

    /// Everything but the requests.
    pub open spec fn same_settings(self, other: Self) -> bool {
        &&& self.online_metadata_enabled == other.online_metadata_enabled
        &&& self.artist_image_cache_ttl_days == other.artist_image_cache_ttl_days
        &&& self.artist_image_cache_max_size_mb == other.artist_image_cache_max_size_mb
    }

    pub fn new() -> (r: Self)
        ensures
            r.wf(),
            !r.online_metadata_enabled,
            r.artist_image_cache_ttl_days == 30,
            r.artist_image_cache_max_size_mb == 256,
            r.lanes() == (LanesView {
                queued: Map::empty(),
                detail: Seq::empty(),
                visible: Seq::empty(),
                background: Seq::empty(),
                in_flight: Map::empty(),
                deferred: Map::empty(),
                last_background: None,
            }),
    {
        let r = LibraryEnrichmentManager {
            online_metadata_enabled: false,
            artist_image_cache_ttl_days: 30,
            artist_image_cache_max_size_mb: 256,
            queued_attempts: EntityMap::new(),
            detail_queue: VecDeque::new(),
            visible_artist_queue: VecDeque::new(),
            background_artist_queue: VecDeque::new(),
            in_flight_attempts: EntityMap::new(),
            deferred_not_before: EntityMap::new(),
            last_background_dispatch_at: None,
        };
        assert(entity_views(Seq::empty()) =~= Seq::empty());
        r
    }

    pub fn lane_priority(kind: LibraryEnrichmentAttemptKind) -> (r: u8)
        ensures
            r == rank(kind),
    {
        match kind {
            LibraryEnrichmentAttemptKind::Detail => 3,
            LibraryEnrichmentAttemptKind::VisiblePrefetch => 2,
            LibraryEnrichmentAttemptKind::BackgroundWarm => 1,
        }
    }

    pub fn priority_for_attempt(kind: LibraryEnrichmentAttemptKind) -> (r:
        LibraryEnrichmentPriority)
        ensures
            r == (if kind == LibraryEnrichmentAttemptKind::Detail {
                LibraryEnrichmentPriority::Interactive
            } else {
                LibraryEnrichmentPriority::Prefetch
            }),
    {
        match kind {
            LibraryEnrichmentAttemptKind::Detail => LibraryEnrichmentPriority::Interactive,
            LibraryEnrichmentAttemptKind::VisiblePrefetch => LibraryEnrichmentPriority::Prefetch,
            LibraryEnrichmentAttemptKind::BackgroundWarm => LibraryEnrichmentPriority::Prefetch,
        }
    }

    fn lane_len(&self, kind: LibraryEnrichmentAttemptKind) -> (r: usize)
        ensures
            r == self.lanes().lane(kind).len(),
    {
        match kind {
            LibraryEnrichmentAttemptKind::Detail => self.detail_queue.len(),
            LibraryEnrichmentAttemptKind::VisiblePrefetch => self.visible_artist_queue.len(),
            LibraryEnrichmentAttemptKind::BackgroundWarm => self.background_artist_queue.len(),
        }
    }

    fn lane_is_full(&self, kind: LibraryEnrichmentAttemptKind) -> (r: bool)
        ensures
            r == self.lanes().full(kind),
    {
        match kind {
            LibraryEnrichmentAttemptKind::Detail => false,
            LibraryEnrichmentAttemptKind::VisiblePrefetch => {
                self.lane_len(kind) >= MAX_PENDING_PREFETCH_REQUESTS
            },
            LibraryEnrichmentAttemptKind::BackgroundWarm => {
                self.lane_len(kind) >= MAX_PENDING_PREFETCH_REQUESTS
            },
        }
    }

    fn place(&mut self, entity: LibraryEnrichmentEntity, kind: LibraryEnrichmentAttemptKind)
        requires
            old(self).wf(),
        ensures
            final(self).wf(),
            final(self).same_settings(*old(self)),
            final(self).lanes() == old(self).lanes().placed(entity@, kind),
    {
        let copy = entity.clone();
        self.queued_attempts.insert(copy, kind);
        match kind {
            LibraryEnrichmentAttemptKind::Detail => self.detail_queue.push_back(entity),
            LibraryEnrichmentAttemptKind::VisiblePrefetch => {
                self.visible_artist_queue.push_back(entity)
            },
            LibraryEnrichmentAttemptKind::BackgroundWarm => {
                self.background_artist_queue.push_back(entity)
            },
        }
        assert(self.lanes() =~= old(self).lanes().placed(entity@, kind));
    }

    /// Raises a request under way.
    fn raise(&mut self, entity: LibraryEnrichmentEntity, kind: LibraryEnrichmentAttemptKind)
        requires
            old(self).wf(),
            old(self).lanes().in_flight.contains_key(entity@),
        ensures
            final(self).wf(),
            final(self).same_settings(*old(self)),
            final(self).lanes() == old(self).lanes().raised(entity@, kind),
    {
        match self.in_flight_attempts.get(&entity) {
            Some(current) => {
                if Self::lane_priority(kind) > Self::lane_priority(current) {
                    self.in_flight_attempts.insert(entity, kind);
                }
            },
            None => {},
        }
    }

    /// Takes a request for an artist or album.
    pub fn enqueue_enrichment_request(
        &mut self,
        entity: LibraryEnrichmentEntity,
        attempt_kind: LibraryEnrichmentAttemptKind,
    )
        requires
            old(self).wf(),
        ensures
            final(self).wf(),
            final(self).same_settings(*old(self)),
            final(self).lanes() == old(self).lanes().enqueued(entity@, attempt_kind),
    {
        if attempt_kind == LibraryEnrichmentAttemptKind::Detail {
            self.deferred_not_before.remove(&entity);
        }
        if self.in_flight_attempts.contains_key(&entity) {
            self.raise(entity, attempt_kind);
            return;
        }
        match self.queued_attempts.get(&entity) {
            Some(existing) => {
                if Self::lane_priority(attempt_kind) > Self::lane_priority(existing) {
                    self.place(entity, attempt_kind);
                }
            },
            None => {
                if !self.lane_is_full(attempt_kind) {
                    self.place(entity, attempt_kind);
                }
            },
        }
    }

    fn kept_queued(
        &self,
        wanted: &Vec<LibraryEnrichmentEntity>,
        lane: LibraryEnrichmentAttemptKind,
    ) -> (r: EntityMap<LibraryEnrichmentAttemptKind>)
        requires
            self.wf(),
        ensures
            r.wf(),
            r.map() == self.lanes().kept_queued(entity_views(wanted@), lane),
    {
        let mut out: EntityMap<LibraryEnrichmentAttemptKind> = EntityMap::new();
        let ghost all = self.queued_attempts.entries@;
        let ghost map = self.queued_attempts.map();
        let ghost stays = |e: EntityView| map[e] != lane || entity_views(wanted@).contains(e);
        let mut i: usize = 0;
        while i < self.queued_attempts.entries.len()
            invariant
                self.wf(),
                out.wf(),
                i <= self.queued_attempts.entries.len(),
                all == self.queued_attempts.entries@,
                map == self.queued_attempts.map(),
                stays == (|e: EntityView|
                    map[e] != lane || entity_views(wanted@).contains(e)),
                out.map() == entry_map(all.take(i as int)).restrict(Set::new(stays)),
            decreases self.queued_attempts.entries.len() - i,
        {
            let kind = self.queued_attempts.entries[i].1;
            let keep = kind != lane || listed(wanted, &self.queued_attempts.entries[i].0);
            proof {
                self.queued_attempts.lemma_entry(i as int);
                lemma_entry_map_step(all, i as int);
            }
            if keep {
                let copy = self.queued_attempts.entries[i].0.clone();
                out.insert(copy, kind);
            }
            proof {
                assert(stays(key_at(all, i as int)) == keep);
                assert(out.map() =~= entry_map(all.take(i + 1)).restrict(Set::new(stays)));
            }
            i += 1;
        }
        proof {
            assert(all.take(all.len() as int) =~= all);
            assert(Set::new(stays) =~= Set::new(
                |e: EntityView|
                    self.lanes().queued[e] != lane || entity_views(wanted@).contains(e),
            ));
        }
        out
    }

    fn kept_deferred(
        &self,
        queued: &EntityMap<LibraryEnrichmentAttemptKind>,
        wanted: &Vec<LibraryEnrichmentEntity>,
        lane: LibraryEnrichmentAttemptKind,
    ) -> (r: EntityMap<u64>)
        requires
            self.wf(),
            queued.wf(),
            queued.map() == self.lanes().kept_queued(entity_views(wanted@), lane),
        ensures
            r.wf(),
            r.map() == self.lanes().kept_deferred(entity_views(wanted@), lane),
    {
        let mut out: EntityMap<u64> = EntityMap::new();
        let other = if lane == LibraryEnrichmentAttemptKind::VisiblePrefetch {
            LibraryEnrichmentAttemptKind::BackgroundWarm
        } else {
            LibraryEnrichmentAttemptKind::VisiblePrefetch
        };
        let ghost all = self.deferred_not_before.entries@;
        let ghost stays = |e: EntityView|
            (queued.map().contains_key(e) && queued.map()[e] != other) || entity_views(
                wanted@,
            ).contains(e) || self.in_flight_attempts.map().contains_key(e);
        let mut i: usize = 0;
        while i < self.deferred_not_before.entries.len()
            invariant
                self.wf(),
                queued.wf(),
                out.wf(),
                i <= self.deferred_not_before.entries.len(),
                all == self.deferred_not_before.entries@,
                stays == (|e: EntityView|
                    (queued.map().contains_key(e) && queued.map()[e] != other) || entity_views(
                        wanted@,
                    ).contains(e) || self.in_flight_attempts.map().contains_key(e)),
                out.map() == entry_map(all.take(i as int)).restrict(Set::new(stays)),
            decreases self.deferred_not_before.entries.len() - i,
        {
            let deadline: u64 = self.deferred_not_before.entries[i].1;
            let waits_in_lane = match queued.get(&self.deferred_not_before.entries[i].0) {
                Some(kind) => kind != other,
                None => false,
            };
            let keep = waits_in_lane || listed(wanted, &self.deferred_not_before.entries[i].0)
                || self.in_flight_attempts.contains_key(&self.deferred_not_before.entries[i].0);
            proof {
                self.deferred_not_before.lemma_entry(i as int);
                lemma_entry_map_step(all, i as int);
            }
            if keep {
                let copy = self.deferred_not_before.entries[i].0.clone();
                out.insert(copy, deadline);
            }
            proof {
                assert(stays(key_at(all, i as int)) == keep);
                assert(out.map() =~= entry_map(all.take(i + 1)).restrict(Set::new(stays)));
            }
            i += 1;
        }
        proof {
            assert(all.take(all.len() as int) =~= all);
            let kept = self.lanes().kept_queued(entity_views(wanted@), lane);
            assert(Set::new(stays) =~= Set::new(
                |e: EntityView|
                    (kept.contains_key(e) && kept[e] != other_lane(lane)) || entity_views(
                        wanted@,
                    ).contains(e) || self.lanes().in_flight.contains_key(e),
            ));
        }
        out
    }

    fn offer(&mut self, entity: LibraryEnrichmentEntity, lane: LibraryEnrichmentAttemptKind)
        requires
            old(self).wf(),
        ensures
            final(self).wf(),
            final(self).same_settings(*old(self)),
            final(self).lanes() == old(self).lanes().offered(entity@, lane),
    {
        let covered = match self.queued_attempts.get(&entity) {
            Some(kind) => Self::lane_priority(kind) > Self::lane_priority(lane),
            None => false,
        };
        if covered {
            return;
        }
        if self.in_flight_attempts.contains_key(&entity) {
            self.raise(entity, lane);
        } else {
            self.place(entity, lane);
        }
    }

    fn replace_lane(
        &mut self,
        entities: Vec<LibraryEnrichmentEntity>,
        lane: LibraryEnrichmentAttemptKind,
    )
        requires
            old(self).wf(),
            lane != LibraryEnrichmentAttemptKind::Detail,
        ensures
            final(self).wf(),
            final(self).same_settings(*old(self)),
            final(self).lanes() == old(self).lanes().replaced(entity_views(entities@), lane),
    {
        let ghost before = *self;
        let ghost wanted = entity_views(entities@);
        let ordered = distinct_entities(&entities);
        let queued = self.kept_queued(&entities, lane);
        let deferred = self.kept_deferred(&queued, &entities, lane);
        self.queued_attempts = queued;
        self.deferred_not_before = deferred;
        match lane {
            LibraryEnrichmentAttemptKind::Detail => {},
            LibraryEnrichmentAttemptKind::VisiblePrefetch => self.visible_artist_queue.clear(),
            LibraryEnrichmentAttemptKind::BackgroundWarm => self.background_artist_queue.clear(),
        }
        let ghost target = before.lanes().replaced(wanted, lane);
        proof {
            assert(entity_views(Seq::empty()) =~= Seq::empty());
            assert(self.lanes() =~= (LanesView {
                queued: before.lanes().kept_queued(wanted, lane),
                deferred: before.lanes().kept_deferred(wanted, lane),
                ..before.lanes()
            }).with_lane(lane, Seq::empty()));
            assert(entity_views(ordered@).skip(0) =~= entity_views(ordered@));
        }
        let mut i: usize = 0;
        while i < ordered.len() && !self.lane_is_full(lane)
            invariant
                self.wf(),
                i <= ordered.len(),
                self.same_settings(before),
                self.lanes().filled(entity_views(ordered@).skip(i as int), lane) == target,
            decreases ordered.len() - i,
        {
            let ghost rest = entity_views(ordered@).skip(i as int);
            proof {
                assert(rest.drop_first() =~= entity_views(ordered@).skip(i + 1));
                assert(rest[0] == ordered@[i as int]@);
            }
            let copy = ordered[i].clone();
            self.offer(copy, lane);
            i += 1;
        }
        assert(self.lanes() == target);
    }

    /// Replaces the artists that are wanted because they are visible.
    pub fn replace_prefetch_queue(&mut self, entities: Vec<LibraryEnrichmentEntity>)
        requires
            old(self).wf(),
        ensures
            final(self).wf(),
            final(self).same_settings(*old(self)),
            final(self).lanes() == old(self).lanes().replaced(
                entity_views(entities@),
                LibraryEnrichmentAttemptKind::VisiblePrefetch,
            ),
    {
        self.replace_lane(entities, LibraryEnrichmentAttemptKind::VisiblePrefetch);
    }

    /// Replaces the artists that are looked up in the background.
    pub fn replace_background_queue(&mut self, entities: Vec<LibraryEnrichmentEntity>)
        requires
            old(self).wf(),
        ensures
            final(self).wf(),
            final(self).same_settings(*old(self)),
            final(self).lanes() == old(self).lanes().replaced(
                entity_views(entities@),
                LibraryEnrichmentAttemptKind::BackgroundWarm,
            ),
    {
        self.replace_lane(entities, LibraryEnrichmentAttemptKind::BackgroundWarm);
    }
}

proof fn lemma_entry_map_step<V>(all: Seq<(LibraryEnrichmentEntity, V)>, i: int)
    requires
        0 <= i < all.len(),
        crate::library::entity_map::keys_distinct(all),
    ensures
        entry_map(all.take(i + 1)) == entry_map(all.take(i)).insert(key_at(all, i), all[i].1),
{
    let a = all.take(i);
    let b = all.take(i + 1);
    let k = key_at(all, i);
    assert forall|j: int| 0 <= j < a.len() implies #[trigger] key_at(a, j) == key_at(all, j) by {}
    assert forall|j: int| 0 <= j < b.len() implies #[trigger] key_at(b, j) == key_at(all, j) by {}
    assert(entry_map(b) =~= entry_map(a).insert(k, all[i].1)) by {
        assert forall|x: EntityView| entry_map(b).contains_key(x) <==> #[trigger] entry_map(
            a,
        ).insert(k, all[i].1).contains_key(x) by {
            if has_key(b, x) {
                let j = index_of_key(b, x);
                if j < i {
                    assert(key_at(a, j) == x);
                }
            }
            if has_key(a, x) {
                let j = index_of_key(a, x);
                assert(key_at(b, j) == x);
            }
            assert(key_at(b, i) == k);
        }
        assert forall|x: EntityView| #[trigger] entry_map(b).contains_key(x) implies entry_map(b)[x]
            == entry_map(a).insert(k, all[i].1)[x] by {
            let j = index_of_key(b, x);
            assert(key_at(all, j) == x);
            if j < i {
                assert(key_at(a, j) == x);
                let j2 = index_of_key(a, x);
                assert(key_at(all, j2) == x);
                assert(j == j2);
                assert(key_at(all, j) != key_at(all, i));
            }
        }
    }
}

impl LibraryEnrichmentManager {
    fn pop_lane(&mut self, lane: LibraryEnrichmentAttemptKind) -> (r: Option<LibraryEnrichmentEntity>)
        requires
            old(self).wf(),
        ensures
            final(self).wf(),
            final(self).same_settings(*old(self)),
            match r {
                Some(e) => old(self).lanes().lane(lane).len() > 0 && e@ == old(self).lanes().lane(
                    lane,
                )[0] && final(self).lanes() == old(self).lanes().with_lane(
                    lane,
                    old(self).lanes().lane(lane).drop_first(),
                ),
                None => old(self).lanes().lane(lane).len() == 0 && final(self).lanes() == old(
                    self,
                ).lanes(),
            },
    {
        let r = match lane {
            LibraryEnrichmentAttemptKind::Detail => self.detail_queue.pop_front(),
            LibraryEnrichmentAttemptKind::VisiblePrefetch => self.visible_artist_queue.pop_front(),
            LibraryEnrichmentAttemptKind::BackgroundWarm => {
                self.background_artist_queue.pop_front()
            },
        };
        proof {
            if r is Some {
                assert(self.lanes() =~= old(self).lanes().with_lane(
                    lane,
                    old(self).lanes().lane(lane).drop_first(),
                ));
            } else {
                assert(self.lanes() =~= old(self).lanes());
            }
        }
        r
    }

    fn push_lane(&mut self, lane: LibraryEnrichmentAttemptKind, entity: LibraryEnrichmentEntity)
        requires
            old(self).wf(),
        ensures
            final(self).wf(),
            final(self).same_settings(*old(self)),
            final(self).lanes() == old(self).lanes().with_lane(
                lane,
                old(self).lanes().lane(lane).push(entity@),
            ),
    {
        match lane {
            LibraryEnrichmentAttemptKind::Detail => self.detail_queue.push_back(entity),
            LibraryEnrichmentAttemptKind::VisiblePrefetch => {
                self.visible_artist_queue.push_back(entity)
            },
            LibraryEnrichmentAttemptKind::BackgroundWarm => {
                self.background_artist_queue.push_back(entity)
            },
        }
        assert(self.lanes() =~= old(self).lanes().with_lane(
            lane,
            old(self).lanes().lane(lane).push(entity@),
        ));
    }

    fn pick_detail(&mut self) -> (r: Option<LibraryEnrichmentEntity>)
        requires
            old(self).wf(),
        ensures
            final(self).wf(),
            final(self).same_settings(*old(self)),
            final(self).lanes() == old(self).lanes().detail_pick().0,
            (match r {
                Some(e) => Some(e@),
                None => None,
            }) == old(self).lanes().detail_pick().1,
    {
        let ghost target = self.lanes().detail_pick();
        loop
            invariant
                self.wf(),
                self.same_settings(*old(self)),
                self.lanes().detail_pick() == target,
                target == old(self).lanes().detail_pick(),
            decreases self.lanes().detail.len(),
        {
            let ghost s = self.lanes();
            match self.pop_lane(LibraryEnrichmentAttemptKind::Detail) {
                None => {
                    return None;
                },
                Some(entity) => {
                    let chosen = match self.queued_attempts.get(&entity) {
                        Some(kind) => kind == LibraryEnrichmentAttemptKind::Detail,
                        None => false,
                    };
                    if chosen {
                        self.queued_attempts.remove(&entity);
                        assert(self.lanes() =~= target.0);
                        return Some(entity);
                    }
                },
            }
        }
    }

    fn pick_from_lane(&mut self, lane: LibraryEnrichmentAttemptKind, now_ms: u64) -> (r: Option<
        (LibraryEnrichmentEntity, LibraryEnrichmentAttemptKind),
    >)
        requires
            old(self).wf(),
        ensures
            final(self).wf(),
            final(self).same_settings(*old(self)),
            final(self).lanes() == old(self).lanes().lane_pick(
                lane,
                old(self).lanes().lane(lane).len(),
                now_ms,
            ).0,
            pick_view(r) == old(self).lanes().lane_pick(
                lane,
                old(self).lanes().lane(lane).len(),
                now_ms,
            ).1,
    {
        let ghost target = self.lanes().lane_pick(lane, self.lanes().lane(lane).len(), now_ms);
        let mut n: usize = self.lane_len(lane);
        while n > 0
            invariant
                self.wf(),
                self.same_settings(*old(self)),
                self.lanes().lane_pick(lane, n as nat, now_ms) == target,
                target == old(self).lanes().lane_pick(
                    lane,
                    old(self).lanes().lane(lane).len(),
                    now_ms,
                ),
            decreases n,
        {
            let ghost s = self.lanes();
            n -= 1;
            match self.pop_lane(lane) {
                None => {
                    return None;
                },
                Some(entity) => {
                    let ghost e = entity@;
                    let ghost rest = s.with_lane(lane, s.lane(lane).drop_first());
                    assert(rest.queued == s.queued && rest.deferred == s.deferred);
                    assert(rest.lane(lane) == s.lane(lane).drop_first());
                    match self.queued_attempts.get(&entity) {
                        None => {},
                        Some(kind) => {
                            let waits = match self.deferred_not_before.get(&entity) {
                                Some(deadline) => now_ms < deadline,
                                None => false,
                            };
                            if waits {
                                self.push_lane(lane, entity);
                                proof {
                                    assert(self.lanes() =~= s.with_lane(
                                        lane,
                                        s.lane(lane).drop_first().push(e),
                                    ));
                                }
                            } else {
                                self.deferred_not_before.remove(&entity);
                                self.queued_attempts.remove(&entity);
                                assert(self.lanes() =~= rest.taken(e));
                                return Some((entity, kind));
                            }
                        },
                    }
                },
            }
        }
        None
    }

    /// Hands out the request to process next, if one is due at `now_ms`.
    pub fn dequeue_enrichment_request(&mut self, now_ms: u64) -> (r: Option<
        (LibraryEnrichmentEntity, LibraryEnrichmentAttemptKind),
    >)
        requires
            old(self).wf(),
        ensures
            final(self).wf(),
            final(self).same_settings(*old(self)),
            final(self).lanes() == old(self).lanes().dequeued(now_ms).0,
            pick_view(r) == old(self).lanes().dequeued(now_ms).1,
    {
        match self.pick_detail() {
            Some(entity) => {
                return Some((entity, LibraryEnrichmentAttemptKind::Detail));
            },
            None => {},
        }
        let visible = self.pick_from_lane(LibraryEnrichmentAttemptKind::VisiblePrefetch, now_ms);
        if visible.is_some() {
            return visible;
        }
        let rests = match self.last_background_dispatch_at {
            Some(last) => now_ms < last || now_ms - last < BACKGROUND_WARM_INTERVAL_MS,
            None => false,
        };
        if rests {
            return None;
        }
        let background = self.pick_from_lane(LibraryEnrichmentAttemptKind::BackgroundWarm, now_ms);
        if let Some((_, kind)) = &background {
            if *kind == LibraryEnrichmentAttemptKind::BackgroundWarm {
                self.last_background_dispatch_at = Some(now_ms);
            }
        }
        background
    }

    /// The lane in which a request under way runs now, which a later request may have raised.
    pub fn effective_attempt_for_entity(
        &self,
        entity: &LibraryEnrichmentEntity,
        default_attempt: LibraryEnrichmentAttemptKind,
    ) -> (r: LibraryEnrichmentAttemptKind)
        requires
            self.wf(),
        ensures
            r == (if self.lanes().in_flight.contains_key(entity@) {
                self.lanes().in_flight[entity@]
            } else {
                default_attempt
            }),
    {
        match self.in_flight_attempts.get(entity) {
            Some(kind) => kind,
            None => default_attempt,
        }
    }

    /// Marks a request as under way.
    pub fn begin_attempt(
        &mut self,
        entity: &LibraryEnrichmentEntity,
        kind: LibraryEnrichmentAttemptKind,
    )
        requires
            old(self).wf(),
        ensures
            final(self).wf(),
            final(self).same_settings(*old(self)),
            final(self).lanes() == (LanesView {
                in_flight: old(self).lanes().in_flight.insert(entity@, kind),
                ..old(self).lanes()
            }),
    {
        let copy = entity.clone();
        self.in_flight_attempts.insert(copy, kind);
    }

    /// Marks a request as no longer under way.
    pub fn end_attempt(&mut self, entity: &LibraryEnrichmentEntity)
        requires
            old(self).wf(),
        ensures
            final(self).wf(),
            final(self).same_settings(*old(self)),
            final(self).lanes() == (LanesView {
                in_flight: old(self).lanes().in_flight.remove(entity@),
                ..old(self).lanes()
            }),
    {
        self.in_flight_attempts.remove(entity);
    }

    /// Holds a request back until `not_before_ms` and queues it again.
    pub fn defer_attempt(
        &mut self,
        entity: LibraryEnrichmentEntity,
        kind: LibraryEnrichmentAttemptKind,
        not_before_ms: u64,
    )
        requires
            old(self).wf(),
        ensures
            final(self).wf(),
            final(self).same_settings(*old(self)),
            final(self).lanes() == (LanesView {
                deferred: old(self).lanes().deferred.insert(entity@, not_before_ms),
                ..old(self).lanes()
            }).enqueued(entity@, kind),
    {
        let copy = entity.clone();
        self.deferred_not_before.insert(copy, not_before_ms);
        self.enqueue_enrichment_request(entity, kind);
    }

    /// Forgets every request, as when the cache is cleared.
    pub fn clear_requests(&mut self)
        ensures
            final(self).wf(),
            final(self).same_settings(*old(self)),
            final(self).lanes() == (LanesView {
                queued: Map::empty(),
                detail: Seq::empty(),
                visible: Seq::empty(),
                background: Seq::empty(),
                in_flight: Map::empty(),
                deferred: Map::empty(),
                last_background: None,
            }),
    {
        self.queued_attempts.clear();
        self.detail_queue.clear();
        self.visible_artist_queue.clear();
        self.background_artist_queue.clear();
        self.in_flight_attempts.clear();
        self.deferred_not_before.clear();
        self.last_background_dispatch_at = None;
        assert(entity_views(Seq::empty()) =~= Seq::empty());
    }

    /// Takes over new library settings; without online metadata nothing stays queued.
    pub fn apply_library_config(&mut self, library: &LibraryConfig)
        requires
            old(self).wf(),
        ensures
            final(self).wf(),
            final(self).online_metadata_enabled == library.online_metadata_enabled,
            final(self).artist_image_cache_ttl_days == library.artist_image_cache_ttl_days,
            final(self).artist_image_cache_max_size_mb == library.artist_image_cache_max_size_mb,
            final(self).lanes() == (if library.online_metadata_enabled {
                old(self).lanes()
            } else {
                LanesView {
                    queued: Map::empty(),
                    detail: Seq::empty(),
                    visible: Seq::empty(),
                    background: Seq::empty(),
                    deferred: Map::empty(),
                    ..old(self).lanes()
                }
            }),
    {
        self.online_metadata_enabled = library.online_metadata_enabled;
        self.artist_image_cache_ttl_days = library.artist_image_cache_ttl_days;
        self.artist_image_cache_max_size_mb = library.artist_image_cache_max_size_mb;
        if !self.online_metadata_enabled {
            self.queued_attempts.clear();
            self.detail_queue.clear();
            self.visible_artist_queue.clear();
            self.background_artist_queue.clear();
            self.deferred_not_before.clear();
            assert(entity_views(Seq::empty()) =~= Seq::empty());
        }
    }

    /// The lane of a request that comes over the bus.
    pub fn attempt_for_priority(priority: LibraryEnrichmentPriority) -> (r:
        LibraryEnrichmentAttemptKind)
        ensures
            r == (match priority {
                LibraryEnrichmentPriority::Interactive => LibraryEnrichmentAttemptKind::Detail,
                LibraryEnrichmentPriority::Prefetch => {
                    LibraryEnrichmentAttemptKind::VisiblePrefetch
                },
            }),
    {
        match priority {
            LibraryEnrichmentPriority::Interactive => LibraryEnrichmentAttemptKind::Detail,
            LibraryEnrichmentPriority::Prefetch => LibraryEnrichmentAttemptKind::VisiblePrefetch,
        }
    }
}

pub open spec fn pick_view(
    r: Option<(LibraryEnrichmentEntity, LibraryEnrichmentAttemptKind)>,
) -> Option<(EntityView, LibraryEnrichmentAttemptKind)> {
    match r {
        Some((e, kind)) => Some((e@, kind)),
        None => None,
    }
}

/// No request is queued and under way at once.
pub open spec fn lanes_disjoint(s: LanesView) -> bool {
    forall|e: EntityView| !(s.queued.contains_key(e) && #[trigger] s.in_flight.contains_key(e))
}

/// Taking a request keeps queued requests and those under way apart.
pub proof fn enqueue_keeps_lanes_disjoint(
    s: LanesView,
    e: EntityView,
    kind: LibraryEnrichmentAttemptKind,
)
    requires
        lanes_disjoint(s),
    ensures
        lanes_disjoint(s.enqueued(e, kind)),
{
}

proof fn lemma_filled_disjoint(
    s: LanesView,
    wanted: Seq<EntityView>,
    lane: LibraryEnrichmentAttemptKind,
)
    requires
        lanes_disjoint(s),
    ensures
        lanes_disjoint(s.filled(wanted, lane)),
    decreases wanted.len(),
{
    if wanted.len() > 0 && !s.full(lane) {
        lemma_filled_disjoint(s.offered(wanted[0], lane), wanted.drop_first(), lane);
    }
}

/// Replacing a prefetch lane keeps queued requests and those under way apart.
pub proof fn replace_keeps_lanes_disjoint(
    s: LanesView,
    wanted: Seq<EntityView>,
    lane: LibraryEnrichmentAttemptKind,
)
    requires
        lanes_disjoint(s),
    ensures
        lanes_disjoint(s.replaced(wanted, lane)),
{
    let emptied = LanesView {
        queued: s.kept_queued(wanted, lane),
        deferred: s.kept_deferred(wanted, lane),
        ..s
    }.with_lane(lane, Seq::empty());
    assert(lanes_disjoint(emptied)) by {
        assert forall|e: EntityView|
            !(emptied.queued.contains_key(e) && #[trigger] emptied.in_flight.contains_key(e)) by {
            assert(s.in_flight.contains_key(e) == emptied.in_flight.contains_key(e));
        }
    }
    lemma_filled_disjoint(emptied, distinct(wanted), lane);
}

proof fn lemma_detail_pick(s: LanesView)
    ensures
        s.detail_pick().0.in_flight == s.in_flight,
        s.detail_pick().0.deferred == s.deferred,
        s.detail_pick().0.visible == s.visible,
        s.detail_pick().0.background == s.background,
        s.detail_pick().0.last_background == s.last_background,
        s.detail_pick().1 is None ==> s.detail_pick().0.queued == s.queued,
        s.detail_pick().1 matches Some(e) ==> s.queued.contains_key(e) && s.queued[e]
            == LibraryEnrichmentAttemptKind::Detail && s.detail_pick().0.queued == s.queued.remove(
            e,
        ),
        forall|i: int|
            0 <= i < s.detail.len() && s.queued.contains_key(#[trigger] s.detail[i])
                && s.queued[s.detail[i]] == LibraryEnrichmentAttemptKind::Detail
                ==> s.detail_pick().1 is Some,
    decreases s.detail.len(),
{
    if s.detail.len() > 0 {
        let e = s.detail[0];
        let rest = LanesView { detail: s.detail.drop_first(), ..s };
        lemma_detail_pick(rest);
        assert forall|i: int|
            0 <= i < s.detail.len() && s.queued.contains_key(#[trigger] s.detail[i])
                && s.queued[s.detail[i]]
                == LibraryEnrichmentAttemptKind::Detail implies s.detail_pick().1 is Some by {
            if i > 0 {
                assert(rest.detail[i - 1] == s.detail[i]);
            }
        }
    }
}

proof fn lemma_lane_pick(s: LanesView, lane: LibraryEnrichmentAttemptKind, n: nat, now: u64)
    ensures
        s.lane_pick(lane, n, now).0.in_flight == s.in_flight,
        s.lane_pick(lane, n, now).1 is None ==> s.lane_pick(lane, n, now).0.queued == s.queued
            && s.lane_pick(lane, n, now).0.deferred == s.deferred,
        s.lane_pick(lane, n, now).1 matches Some((e, kind)) ==> s.queued.contains_key(e)
            && s.queued[e] == kind && !s.waits(e, now) && s.lane_pick(lane, n, now).0.queued
            == s.queued.remove(e),
    decreases n,
{
    let entries = s.lane(lane);
    if n > 0 && entries.len() > 0 {
        let e = entries[0];
        if !s.queued.contains_key(e) {
            lemma_lane_pick(s.with_lane(lane, entries.drop_first()), lane, (n - 1) as nat, now);
        } else if s.waits(e, now) {
            lemma_lane_pick(
                s.with_lane(lane, entries.drop_first().push(e)),
                lane,
                (n - 1) as nat,
                now,
            );
        }
    }
}

/// What is handed out was queued in the lane it is handed out for, and is queued no more;
/// whatever else was queued still is.
pub proof fn dequeue_hands_out_a_queued_request(s: LanesView, now: u64)
    ensures
        s.dequeued(now).1 matches Some((e, kind)) ==> s.queued.contains_key(e) && s.queued[e]
            == kind && s.dequeued(now).0.queued == s.queued.remove(e),
        s.dequeued(now).1 is None ==> s.dequeued(now).0.queued == s.queued,
        s.dequeued(now).0.in_flight == s.in_flight,
{
    lemma_detail_pick(s);
    let s1 = s.detail_pick().0;
    lemma_lane_pick(s1, LibraryEnrichmentAttemptKind::VisiblePrefetch, s1.visible.len(), now);
    let s2 = s1.lane_pick(
        LibraryEnrichmentAttemptKind::VisiblePrefetch,
        s1.visible.len(),
        now,
    ).0;
    lemma_lane_pick(s2, LibraryEnrichmentAttemptKind::BackgroundWarm, s2.background.len(), now);
}

/// As long as a detail request waits in its lane, a detail request is handed out.
pub proof fn details_come_first(s: LanesView, now: u64, i: int)
    requires
        0 <= i < s.detail.len(),
        s.queued.contains_key(s.detail[i]),
        s.queued[s.detail[i]] == LibraryEnrichmentAttemptKind::Detail,
    ensures
        s.dequeued(now).1 matches Some((_, kind)) && kind == LibraryEnrichmentAttemptKind::Detail,
{
    lemma_detail_pick(s);
}

/// A prefetch request is not handed out before its deferral ends.
pub proof fn deferred_requests_wait(s: LanesView, now: u64)
    ensures
        s.dequeued(now).1 matches Some((e, kind)) ==> kind == LibraryEnrichmentAttemptKind::Detail
            || !s.waits(e, now),
{
    lemma_detail_pick(s);
    let s1 = s.detail_pick().0;
    lemma_lane_pick(s1, LibraryEnrichmentAttemptKind::VisiblePrefetch, s1.visible.len(), now);
    let s2 = s1.lane_pick(
        LibraryEnrichmentAttemptKind::VisiblePrefetch,
        s1.visible.len(),
        now,
    ).0;
    lemma_lane_pick(s2, LibraryEnrichmentAttemptKind::BackgroundWarm, s2.background.len(), now);
}

/// Handing out a request keeps queued requests and those under way apart, also once the
/// request is marked as under way.
pub proof fn dequeue_keeps_lanes_disjoint(s: LanesView, now: u64)
    requires
        lanes_disjoint(s),
    ensures
        lanes_disjoint(s.dequeued(now).0),
        s.dequeued(now).1 matches Some((e, kind)) ==> lanes_disjoint(
            LanesView {
                in_flight: s.dequeued(now).0.in_flight.insert(e, kind),
                ..s.dequeued(now).0
            },
        ),
{
    dequeue_hands_out_a_queued_request(s, now);
    let t = s.dequeued(now).0;
    assert forall|e: EntityView| !(t.queued.contains_key(e) && #[trigger] t.in_flight.contains_key(
        e,
    )) by {
        assert(s.in_flight.contains_key(e) == t.in_flight.contains_key(e));
    }
    if let Some((e, kind)) = s.dequeued(now).1 {
        let u = LanesView { in_flight: t.in_flight.insert(e, kind), ..t };
        assert forall|x: EntityView|
            !(u.queued.contains_key(x) && #[trigger] u.in_flight.contains_key(x)) by {
            assert(t.in_flight.contains_key(x) || x == e || !u.in_flight.contains_key(x));
        }
    }
}

/// A request is never moved to a less urgent lane by another request.
pub proof fn enqueue_never_lowers(
    s: LanesView,
    e: EntityView,
    kind: LibraryEnrichmentAttemptKind,
    other: EntityView,
)
    ensures
        s.queued.contains_key(other) ==> s.enqueued(e, kind).queued.contains_key(other) && rank(
            s.enqueued(e, kind).queued[other],
        ) >= rank(s.queued[other]),
        s.in_flight.contains_key(other) ==> s.enqueued(e, kind).in_flight.contains_key(other)
            && rank(s.enqueued(e, kind).in_flight[other]) >= rank(s.in_flight[other]),
{
}

} // verus!
