//! The course of an enrichment request: from the bus into the lanes, past the cache, through
//! the lookup, and back as an answer or into the queue.

use crate::config::LibraryConfig;
use crate::library::audiodb::THEAUDIODB_RATE_LIMIT_DEFERRED;
use crate::library::enrichment::{LanesView, LibraryEnrichmentManager};
use crate::library::entity_map::entity_views;
use crate::library::outcome::{
    cache_answers, entity_label, for_attempt, keep_ms, must_defer, saturating_sum, FetchOutcome,
    HttpFailureKind, OutcomeView, RETRY_REASON_HARD_PREFIX, RETRY_REASON_RATE_LIMIT_PREFIX,
    RETRY_REASON_TIMEOUT_PREFIX, THEAUDIODB_SOURCE_NAME,
};
use crate::protocol::{
    EntityView, LibraryEnrichmentAttemptKind, LibraryEnrichmentEntity, LibraryEnrichmentPayload,
    LibraryEnrichmentPriority, LibraryEnrichmentStatus, PayloadView,
};
use crate::text::{append, owned};
use vstd::prelude::*;

verus! {

/// Milliseconds for which a rate-limited prefetch is held back.
pub const REQUEUE_DELAY_MS: u64 = 2000;

/// Milliseconds for which a detail request waits for the rate limit at most.
pub const DETAIL_WAIT_LIMIT_MS: u64 = 800;

/// Milliseconds between two looks at the rate limit, or at the queue.
pub const POLL_INTERVAL_MS: u64 = 100;

/// What comes over the bus for the enrichment.
pub enum EnrichmentMessage {
    ConfigChanged(LibraryConfig),
    Request { entity: LibraryEnrichmentEntity, priority: LibraryEnrichmentPriority },
    ReplacePrefetchQueue(Vec<LibraryEnrichmentEntity>),
    ReplaceBackgroundQueue(Vec<LibraryEnrichmentEntity>),
    ClearCache,
}

/// What is left to do outside once a message is handled.
#[derive(Debug, Clone, Copy, PartialEq, Eq, Structural)]
pub enum EnrichmentChore {
    Nothing,
    /// Drop expired rows, and images over the size limit.
    PruneCaches,
    /// Drop every row and image, and report how many there were.
    ClearCaches,
}

/// What the event loop does next.
#[derive(Debug, PartialEq, Eq)]
pub enum NextStep {
    Process(LibraryEnrichmentEntity, LibraryEnrichmentAttemptKind),
    /// Look again after the poll interval.
    Poll,
    /// Block until a message comes.
    Await,
}

/// The next step in terms of [`LanesView::dequeued`].
pub open spec fn step_view(
    step: NextStep,
) -> Option<(EntityView, LibraryEnrichmentAttemptKind)> {
    match step {
        NextStep::Process(entity, kind) => Some((entity@, kind)),
        _ => None,
    }
}

/// How a request starts.
#[derive(Debug, PartialEq, Eq)]
pub enum RequestStart {
    /// It is dropped without an answer.
    Drop,
    /// It is answered at once.
    Answer(LibraryEnrichmentPayload),
    /// Prune and read the cache.
    ReadCache,
}

/// What the cache makes of a request.
#[derive(Debug, PartialEq, Eq)]
pub enum CacheVerdict {
    Answer(LibraryEnrichmentPayload),
    /// Look the entity up; the request is now under way.
    Fetch,
}

/// How a lookup ends.
#[derive(Debug, PartialEq, Eq)]
pub enum RequestEnd {
    /// The request is back in the queue.
    Requeued,
    /// Store the outcome until `expires_unix_ms`, prune the images and hand out its payload.
    Store { outcome: FetchOutcome, expires_unix_ms: i64 },
}

/// What a request does about the rate limit of the music database.
#[derive(Debug, Clone, Copy, PartialEq, Eq, Structural)]
pub enum SlotStep {
    Go,
    /// Look again after the poll interval.
    Wait,
    GiveUp,
}

/// The part of a fetch that failed.
#[derive(Debug, Clone, Copy, PartialEq, Eq, Structural)]
pub enum FetchPhase {
    Request,
    Response,
    ImageRequest,
    ImageResponse,
}

/// What a failure in a phase is reported as, before the error itself.
pub open spec fn phase_text(phase: FetchPhase) -> Seq<char> {
    match phase {
        FetchPhase::Request => "Request failed: "@,
        FetchPhase::Response => "Failed to read response: "@,
        FetchPhase::ImageRequest => "Image request failed: "@,
        FetchPhase::ImageResponse => "Image read failed: "@,
    }
}

/// The answer to a detail request while online metadata is switched off.
pub open spec fn disabled_payload(entity: EntityView) -> PayloadView {
    PayloadView {
        entity,
        status: LibraryEnrichmentStatus::Disabled,
        blurb: Seq::empty(),
        image_path: None,
        source_name: THEAUDIODB_SOURCE_NAME@,
        source_url: Seq::empty(),
        error_kind: None,
        attempt_kind: LibraryEnrichmentAttemptKind::Detail,
    }
}

/// The lanes without anything in them.
pub open spec fn no_requests() -> LanesView {
    LanesView {
        queued: Map::empty(),
        detail: Seq::empty(),
        visible: Seq::empty(),
        background: Seq::empty(),
        in_flight: Map::empty(),
        deferred: Map::empty(),
        last_background: None,
    }
}

/// The lanes once online metadata is switched off: only what is under way stays.
pub open spec fn switched_off(s: LanesView) -> LanesView {
    LanesView {
        queued: Map::empty(),
        detail: Seq::empty(),
        visible: Seq::empty(),
        background: Seq::empty(),
        deferred: Map::empty(),
        ..s
    }
}

/// What a message makes of the lanes.
pub open spec fn after_message(s: LanesView, message: EnrichmentMessage) -> LanesView {
    match message {
        EnrichmentMessage::ConfigChanged(library) => if library.online_metadata_enabled {
            s
        } else {
            switched_off(s)
        },
        EnrichmentMessage::Request { entity, priority } => s.enqueued(
            entity@,
            match priority {
                LibraryEnrichmentPriority::Interactive => LibraryEnrichmentAttemptKind::Detail,
                LibraryEnrichmentPriority::Prefetch => {
                    LibraryEnrichmentAttemptKind::VisiblePrefetch
                },
            },
        ),
        EnrichmentMessage::ReplacePrefetchQueue(entities) => s.replaced(
            entity_views(entities@),
            LibraryEnrichmentAttemptKind::VisiblePrefetch,
        ),
        EnrichmentMessage::ReplaceBackgroundQueue(entities) => s.replaced(
            entity_views(entities@),
            LibraryEnrichmentAttemptKind::BackgroundWarm,
        ),
        EnrichmentMessage::ClearCache => no_requests(),
    }
}

/// The lanes with a request under way.
pub open spec fn begun(
    s: LanesView,
    e: EntityView,
    kind: LibraryEnrichmentAttemptKind,
) -> LanesView {
    LanesView { in_flight: s.in_flight.insert(e, kind), ..s }
}

/// The lanes without a request under way.
pub open spec fn ended(s: LanesView, e: EntityView) -> LanesView {
    LanesView { in_flight: s.in_flight.remove(e), ..s }
}

/// The lanes with a request held back and queued again.
pub open spec fn requeued(
    s: LanesView,
    e: EntityView,
    kind: LibraryEnrichmentAttemptKind,
    now_ms: u64,
) -> LanesView {
    LanesView {
        deferred: s.deferred.insert(e, (now_ms + REQUEUE_DELAY_MS) as u64),
        ..s
    }.enqueued(e, kind)
}

/// What the cache makes of a request.
pub open spec fn cache_view(
    entity: EntityView,
    kind: LibraryEnrichmentAttemptKind,
    cached: Option<PayloadView>,
    image_usable: bool,
) -> Option<PayloadView> {
    match cached {
        Some(payload) => if cache_answers(entity, kind, payload) {
            Some(
                PayloadView {
                    attempt_kind: kind,
                    image_path: if image_usable {
                        payload.image_path
                    } else {
                        None
                    },
                    ..payload
                },
            )
        } else {
            None
        },
        None => None,
    }
}

pub open spec fn option_payload(payload: Option<LibraryEnrichmentPayload>) -> Option<PayloadView> {
    match payload {
        Some(p) => Some(p@),
        None => None,
    }
}

impl LibraryEnrichmentManager {
    /// Takes a message from the bus.
    pub fn handle_bus_message(&mut self, message: EnrichmentMessage) -> (r: EnrichmentChore)
        requires
            old(self).wf(),
        ensures
            final(self).wf(),
            final(self).lanes() == after_message(old(self).lanes(), message),
            match message {
                EnrichmentMessage::ConfigChanged(library) => {
                    &&& final(self).online_metadata_enabled == library.online_metadata_enabled
                    &&& final(self).artist_image_cache_ttl_days
                        == library.artist_image_cache_ttl_days
                    &&& final(self).artist_image_cache_max_size_mb
                        == library.artist_image_cache_max_size_mb
                    &&& r == EnrichmentChore::PruneCaches
                },
                EnrichmentMessage::ClearCache => {
                    &&& final(self).same_settings(*old(self))
                    &&& r == EnrichmentChore::ClearCaches
                },
                _ => {
                    &&& final(self).same_settings(*old(self))
                    &&& r == EnrichmentChore::Nothing
                },
            },
    {
        match message {
            EnrichmentMessage::ConfigChanged(library) => {
                self.apply_library_config(&library);
                EnrichmentChore::PruneCaches
            },
            EnrichmentMessage::Request { entity, priority } => {
                self.enqueue_enrichment_request(entity, Self::attempt_for_priority(priority));
                EnrichmentChore::Nothing
            },
            EnrichmentMessage::ReplacePrefetchQueue(entities) => {
                self.replace_prefetch_queue(entities);
                EnrichmentChore::Nothing
            },
            EnrichmentMessage::ReplaceBackgroundQueue(entities) => {
                self.replace_background_queue(entities);
                EnrichmentChore::Nothing
            },
            EnrichmentMessage::ClearCache => {
                self.clear_requests();
                EnrichmentChore::ClearCaches
            },
        }
    }

    /// What the event loop does once no message waits.
    pub fn next_step(&mut self, now_ms: u64) -> (r: NextStep)
        requires
            old(self).wf(),
        ensures
            final(self).wf(),
            final(self).same_settings(*old(self)),
            final(self).lanes() == old(self).lanes().dequeued(now_ms).0,
            step_view(r) == old(self).lanes().dequeued(now_ms).1,
            r is Poll <==> step_view(r) is None && final(self).lanes().queued != Map::<
                EntityView,
                LibraryEnrichmentAttemptKind,
            >::empty(),
    {
        match self.dequeue_enrichment_request(now_ms) {
            Some((entity, kind)) => NextStep::Process(entity, kind),
            None => if self.queued_attempts.is_empty() {
                NextStep::Await
            } else {
                NextStep::Poll
            },
        }
    }

    /// Starts on a request that was handed out.
    pub fn open_request(
        &self,
        entity: &LibraryEnrichmentEntity,
        attempt_kind: LibraryEnrichmentAttemptKind,
    ) -> (r: RequestStart)
        ensures
            r is ReadCache <==> self.online_metadata_enabled,
            r is Drop <==> !self.online_metadata_enabled && attempt_kind
                != LibraryEnrichmentAttemptKind::Detail,
            r matches RequestStart::Answer(payload) ==> payload@ == disabled_payload(entity@),
    {
        if self.online_metadata_enabled {
            return RequestStart::ReadCache;
        }
        match Self::disabled_answer(entity.clone(), attempt_kind) {
            Some(payload) => RequestStart::Answer(payload),
            None => RequestStart::Drop,
        }
    }

    /// Goes on with a request once the cache was read; where it does not answer the request,
    /// the request is marked as under way.
    pub fn cache_read(
        &mut self,
        entity: &LibraryEnrichmentEntity,
        attempt_kind: LibraryEnrichmentAttemptKind,
        cached: Option<LibraryEnrichmentPayload>,
        image_usable: bool,
    ) -> (r: CacheVerdict)
        requires
            old(self).wf(),
        ensures
            final(self).wf(),
            final(self).same_settings(*old(self)),
            match cache_view(entity@, attempt_kind, option_payload(cached), image_usable) {
                Some(answer) => {
                    &&& r matches CacheVerdict::Answer(payload) && payload@ == answer
                    &&& final(self).lanes() == old(self).lanes()
                },
                None => {
                    &&& r is Fetch
                    &&& final(self).lanes() == begun(old(self).lanes(), entity@, attempt_kind)
                },
            },
    {
        if let Some(payload) = cached {
            if Self::cached_outcome_answers(entity, attempt_kind, &payload) {
                return CacheVerdict::Answer(
                    Self::refresh_cached_payload(payload, attempt_kind, image_usable),
                );
            }
        }
        self.begin_attempt(entity, attempt_kind);
        CacheVerdict::Fetch
    }

    /// Ends a request whose lookup came back: a rate-limited prefetch goes back into the
    /// queue, any other outcome is stored and handed out.
    pub fn close_request(
        &mut self,
        entity: LibraryEnrichmentEntity,
        attempt_kind: LibraryEnrichmentAttemptKind,
        outcome: FetchOutcome,
        now_unix_ms: i64,
        now_ms: u64,
    ) -> (r: RequestEnd)
        requires
            old(self).wf(),
            now_ms + REQUEUE_DELAY_MS <= u64::MAX,
        ensures
            final(self).wf(),
            final(self).same_settings(*old(self)),
            r is Requeued <==> must_defer(outcome@, attempt_kind),
            final(self).lanes() == (if must_defer(outcome@, attempt_kind) {
                requeued(ended(old(self).lanes(), entity@), entity@, attempt_kind, now_ms)
            } else {
                ended(old(self).lanes(), entity@)
            }),
            r matches RequestEnd::Store { outcome: stored, expires_unix_ms } ==> stored@
                == for_attempt(outcome@, attempt_kind) && expires_unix_ms == saturating_sum(
                now_unix_ms as int,
                keep_ms(outcome@, old(self).artist_image_cache_ttl_days),
            ),
    {
        self.end_attempt(&entity);
        let mut outcome = outcome;
        let ghost before = outcome@;
        outcome.payload.attempt_kind = attempt_kind;
        assert(outcome@ =~= for_attempt(before, attempt_kind));
        if Self::outcome_is_deferred(&outcome, attempt_kind) {
            self.defer_attempt(entity, attempt_kind, now_ms + REQUEUE_DELAY_MS);
            return RequestEnd::Requeued;
        }
        let expires_unix_ms = self.cache_expiry_for_outcome_unix_ms(&outcome, now_unix_ms);
        RequestEnd::Store { outcome, expires_unix_ms }
    }

    /// What a request does about the rate limit: `free` tells whether the limit lets it
    /// through now, `waited_ms` for how long it has waited.
    pub fn slot_step(
        free: bool,
        effective_attempt: LibraryEnrichmentAttemptKind,
        waited_ms: u64,
    ) -> (r: SlotStep)
        ensures
            r == slot_choice(free, effective_attempt, waited_ms as nat),
            r is Go <==> free,
            r is Wait <==> !free && effective_attempt == LibraryEnrichmentAttemptKind::Detail
                && waited_ms < DETAIL_WAIT_LIMIT_MS,
    {
        if free {
            SlotStep::Go
        } else if effective_attempt == LibraryEnrichmentAttemptKind::Detail && waited_ms
            < DETAIL_WAIT_LIMIT_MS {
            SlotStep::Wait
        } else {
            SlotStep::GiveUp
        }
    }

    /// The reason that a request refused by the rate limit fails with.
    pub fn slot_refused() -> (r: String)
        ensures
            r@ == RETRY_REASON_RATE_LIMIT_PREFIX@ + THEAUDIODB_RATE_LIMIT_DEFERRED@,
    {
        Self::build_rate_limit_reason(THEAUDIODB_RATE_LIMIT_DEFERRED)
    }

    /// The reason that a fetch fails with.
    pub fn fetch_failure(phase: FetchPhase, kind: HttpFailureKind, error: &str) -> (r: String)
        ensures
            r@ == (match kind {
                HttpFailureKind::Timeout => RETRY_REASON_TIMEOUT_PREFIX@,
                HttpFailureKind::RateLimited => RETRY_REASON_RATE_LIMIT_PREFIX@,
                HttpFailureKind::Hard => RETRY_REASON_HARD_PREFIX@,
            }) + (phase_text(phase) + error@),
    {
        let mut message = owned(
            match phase {
                FetchPhase::Request => "Request failed: ",
                FetchPhase::Response => "Failed to read response: ",
                FetchPhase::ImageRequest => "Image request failed: ",
                FetchPhase::ImageResponse => "Image read failed: ",
            },
        );
        append(&mut message, error);
        Self::build_failure_reason(kind, &message)
    }

    /// The reason that an image without bytes is refused with.
    pub fn empty_image_failure(bytes: &[u8]) -> (r: Option<String>)
        ensures
            r is Some <==> bytes@.len() == 0,
            r matches Some(reason) ==> reason@ == RETRY_REASON_HARD_PREFIX@
                + "Image response was empty"@,
    {
        if bytes.len() == 0 {
            Some(Self::build_hard_reason("Image response was empty"))
        } else {
            None
        }
    }

    /// What a downloaded image is filed under.
    pub fn image_source_key(entity: &LibraryEnrichmentEntity, image_url: &str) -> (r: String)
        ensures
            r@ == entity_label(entity@) + "|"@ + image_url@,
    {
        let mut key = Self::source_entity_label(entity);
        append(&mut key, "|");
        append(&mut key, image_url);
        key
    }
}

/// What a request does about the rate limit.
pub open spec fn slot_choice(
    free: bool,
    kind: LibraryEnrichmentAttemptKind,
    waited_ms: nat,
) -> SlotStep {
    if free {
        SlotStep::Go
    } else if kind == LibraryEnrichmentAttemptKind::Detail && waited_ms < DETAIL_WAIT_LIMIT_MS {
        SlotStep::Wait
    } else {
        SlotStep::GiveUp
    }
}

/// A free slot is always taken. Otherwise a detail request waits for less than 800
/// milliseconds, and a prefetch not at all.
pub proof fn only_details_wait_for_a_slot(kind: LibraryEnrichmentAttemptKind, waited_ms: nat)
    ensures
        slot_choice(true, kind, waited_ms) == SlotStep::Go,
        kind != LibraryEnrichmentAttemptKind::Detail ==> slot_choice(false, kind, waited_ms)
            == SlotStep::GiveUp,
        kind == LibraryEnrichmentAttemptKind::Detail && waited_ms < 800 ==> slot_choice(
            false,
            kind,
            waited_ms,
        ) == SlotStep::Wait,
        waited_ms >= 800 ==> slot_choice(false, kind, waited_ms) == SlotStep::GiveUp,
{
}

/// A request that was looked up is no longer under way, whatever came of it; and one that
/// was sent back waits out its delay in the queue, unless its lane is full.
pub proof fn no_lookup_stays_under_way(
    s: LanesView,
    e: EntityView,
    kind: LibraryEnrichmentAttemptKind,
    now: u64,
    later: u64,
)
    requires
        kind != LibraryEnrichmentAttemptKind::Detail,
        now + REQUEUE_DELAY_MS <= u64::MAX,
        later < now + REQUEUE_DELAY_MS,
    ensures
        !ended(s, e).in_flight.contains_key(e),
        !requeued(ended(s, e), e, kind, now).in_flight.contains_key(e),
        requeued(ended(s, e), e, kind, now).waits(e, later),
        s.queued.contains_key(e) || !s.full(kind) ==> requeued(
            ended(s, e),
            e,
            kind,
            now,
        ).queued.contains_key(e),
{
}

/// Looking a request up and storing its outcome leaves every other request as it was.
pub proof fn lookups_touch_one_request(
    s: LanesView,
    e: EntityView,
    kind: LibraryEnrichmentAttemptKind,
)
    requires
        !s.in_flight.contains_key(e),
    ensures
        ended(begun(s, e, kind), e) == s,
{
    assert(s.in_flight.insert(e, kind).remove(e) =~= s.in_flight);
}

/// A detail request is always answered: nothing sends it back into the queue.
pub proof fn details_are_answered(outcome: OutcomeView)
    ensures
        !must_defer(outcome, LibraryEnrichmentAttemptKind::Detail),
{
}

/// Switching online metadata off leaves nothing to hand out.
pub proof fn switching_off_empties_the_lanes(s: LanesView, now: u64)
    ensures
        switched_off(s).dequeued(now).1 is None,
{
}

} // verus!
