//! What a lookup came to: reasons of failure, outcomes, and how long they are kept.

use crate::library::enrichment::LibraryEnrichmentManager;
use crate::protocol::{
    clone_option_text, EntityView, LibraryEnrichmentAttemptKind, LibraryEnrichmentEntity,
    LibraryEnrichmentErrorKind, LibraryEnrichmentPayload, LibraryEnrichmentPriority,
    LibraryEnrichmentStatus, PayloadView,
};
use crate::text::{
    append, chars_of, collapse, collapse_chars, copy_range, has_part, has_prefix, lower,
    lower_text, option_text, owned, string_of, text_has_part, text_has_prefix,
};
use vstd::prelude::*;

verus! {

pub const WIKIPEDIA_SOURCE_NAME: &'static str = "Wikipedia";

pub const THEAUDIODB_SOURCE_NAME: &'static str = "TheAudioDB";

pub const RETRY_REASON_TIMEOUT_PREFIX: &'static str = "timeout:";

pub const RETRY_REASON_HARD_PREFIX: &'static str = "hard:";

pub const RETRY_REASON_RATE_LIMIT_PREFIX: &'static str = "rate_limit:";

pub const RETRY_REASON_BUDGET_PREFIX: &'static str = "budget_exhausted:";

pub const RETRY_REASON_NOT_FOUND_PREFIX: &'static str = "not_found:";

pub const RETRYABLE_TIMEOUT_BLURB: &'static str = "Internet metadata request timed out.";

pub const RETRYABLE_RATE_LIMIT_BLURB: &'static str =
    "Internet metadata request hit a provider rate limit.";

pub const RETRYABLE_BUDGET_BLURB: &'static str = "Internet metadata lookup is still in progress.";

pub const HARD_ERROR_BLURB: &'static str = "Internet metadata provider returned an error.";

/// The longest blurb, in characters.
pub const MAX_BLURB_CHARS: usize = 360;

/// The source of an outcome.
#[derive(Debug, Clone, Copy, PartialEq, Eq, Structural)]
pub enum EnrichmentSource {
    TheAudioDB,
    Wikipedia,
}

pub open spec fn source_text(source: EnrichmentSource) -> Seq<char> {
    match source {
        EnrichmentSource::TheAudioDB => THEAUDIODB_SOURCE_NAME@,
        EnrichmentSource::Wikipedia => WIKIPEDIA_SOURCE_NAME@,
    }
}

impl EnrichmentSource {
    pub fn source_name(self) -> (r: &'static str)
        ensures
            r@ == source_text(self),
    {
        match self {
            EnrichmentSource::TheAudioDB => THEAUDIODB_SOURCE_NAME,
            EnrichmentSource::Wikipedia => WIKIPEDIA_SOURCE_NAME,
        }
    }
}

/// How a request to a server failed.
#[derive(Debug, Clone, Copy, PartialEq, Eq, Structural)]
pub enum HttpFailureKind {
    Timeout,
    RateLimited,
    Hard,
}

pub open spec fn status_failure(code: u16) -> HttpFailureKind {
    if code == 429 {
        HttpFailureKind::RateLimited
    } else if code == 408 || code == 500 || code == 502 || code == 503 || code == 504 {
        HttpFailureKind::Timeout
    } else {
        HttpFailureKind::Hard
    }
}

pub open spec fn transport_failure(message: Seq<char>) -> HttpFailureKind {
    if has_part(lower(message), "timed out"@) || has_part(lower(message), "timeout"@) {
        HttpFailureKind::Timeout
    } else {
        HttpFailureKind::Hard
    }
}

pub open spec fn is_timeout(reason: Seq<char>) -> bool {
    has_prefix(reason, RETRY_REASON_TIMEOUT_PREFIX@)
}

pub open spec fn is_hard(reason: Seq<char>) -> bool {
    has_prefix(reason, RETRY_REASON_HARD_PREFIX@)
}

pub open spec fn is_rate_limit(reason: Seq<char>) -> bool {
    has_prefix(reason, RETRY_REASON_RATE_LIMIT_PREFIX@)
}

pub open spec fn is_budget(reason: Seq<char>) -> bool {
    has_prefix(reason, RETRY_REASON_BUDGET_PREFIX@)
}

/// The kind of error that a reason stands for.
pub open spec fn error_kind_of(reason: Seq<char>) -> LibraryEnrichmentErrorKind {
    if is_timeout(reason) {
        LibraryEnrichmentErrorKind::Timeout
    } else if is_rate_limit(reason) {
        LibraryEnrichmentErrorKind::RateLimited
    } else if is_budget(reason) {
        LibraryEnrichmentErrorKind::BudgetExhausted
    } else {
        LibraryEnrichmentErrorKind::Hard
    }
}

pub open spec fn error_blurb(kind: LibraryEnrichmentErrorKind) -> Seq<char> {
    match kind {
        LibraryEnrichmentErrorKind::Timeout => RETRYABLE_TIMEOUT_BLURB@,
        LibraryEnrichmentErrorKind::RateLimited => RETRYABLE_RATE_LIMIT_BLURB@,
        LibraryEnrichmentErrorKind::BudgetExhausted => RETRYABLE_BUDGET_BLURB@,
        LibraryEnrichmentErrorKind::Hard => HARD_ERROR_BLURB@,
    }
}

/// The outcome of a lookup.
#[derive(Debug, PartialEq, Eq)]
pub struct FetchOutcome {
    pub payload: LibraryEnrichmentPayload,
    pub image_url: Option<String>,
    pub last_error: Option<String>,
    pub conclusive: bool,
}

/// The contents of a [`FetchOutcome`].
#[verifier::ext_equal]
pub struct OutcomeView {
    pub payload: PayloadView,
    pub image_url: Option<Seq<char>>,
    pub last_error: Option<Seq<char>>,
    pub conclusive: bool,
}

impl View for FetchOutcome {
    type V = OutcomeView;

    open spec fn view(&self) -> OutcomeView {
        OutcomeView {
            payload: self.payload@,
            image_url: option_text(self.image_url),
            last_error: option_text(self.last_error),
            conclusive: self.conclusive,
        }
    }
}

impl Clone for FetchOutcome {
    fn clone(&self) -> (r: Self)
        ensures
            r@ == self@,
    {
        FetchOutcome {
            payload: self.payload.clone(),
            image_url: clone_option_text(&self.image_url),
            last_error: clone_option_text(&self.last_error),
            conclusive: self.conclusive,
        }
    }
}

/// A conclusive outcome.
pub open spec fn outcome_of(
    entity: EntityView,
    status: LibraryEnrichmentStatus,
    blurb: Seq<char>,
    image_path: Option<Seq<char>>,
    image_url: Option<Seq<char>>,
    source: EnrichmentSource,
    source_url: Seq<char>,
    last_error: Option<Seq<char>>,
) -> OutcomeView {
    OutcomeView {
        payload: PayloadView {
            entity,
            status,
            blurb,
            image_path,
            source_name: source_text(source),
            source_url,
            error_kind: None,
            attempt_kind: LibraryEnrichmentAttemptKind::VisiblePrefetch,
        },
        image_url,
        last_error,
        conclusive: true,
    }
}

/// A conclusive outcome without a match.
pub open spec fn not_found(
    entity: EntityView,
    source: EnrichmentSource,
    source_url: Seq<char>,
    last_error: Option<Seq<char>>,
) -> OutcomeView {
    outcome_of(
        entity,
        LibraryEnrichmentStatus::NotFound,
        Seq::empty(),
        None,
        None,
        source,
        source_url,
        last_error,
    )
}

/// An outcome with a match.
pub open spec fn ready(
    entity: EntityView,
    blurb: Seq<char>,
    image_path: Option<Seq<char>>,
    image_url: Option<Seq<char>>,
    source: EnrichmentSource,
    source_url: Seq<char>,
) -> OutcomeView {
    outcome_of(
        entity,
        LibraryEnrichmentStatus::Ready,
        blurb,
        image_path,
        image_url,
        source,
        source_url,
        None,
    )
}

/// The outcome of a failure; only a hard error is conclusive.
pub open spec fn failed(
    entity: EntityView,
    source: EnrichmentSource,
    source_url: Seq<char>,
    reason: Seq<char>,
) -> OutcomeView {
    let kind = error_kind_of(reason);
    let base = outcome_of(
        entity,
        LibraryEnrichmentStatus::Error,
        error_blurb(kind),
        None,
        None,
        source,
        source_url,
        Some(reason),
    );
    OutcomeView {
        payload: PayloadView { error_kind: Some(kind), ..base.payload },
        conclusive: kind == LibraryEnrichmentErrorKind::Hard,
        ..base
    }
}

/// An outcome marked with the lane that it was fetched for.
pub open spec fn for_attempt(
    outcome: OutcomeView,
    kind: LibraryEnrichmentAttemptKind,
) -> OutcomeView {
    OutcomeView { payload: PayloadView { attempt_kind: kind, ..outcome.payload }, ..outcome }
}

/// Text cut to a number of characters, with an ellipsis where it was longer.
pub open spec fn shortened(s: Seq<char>, max: nat) -> Seq<char> {
    let flat = collapse(s);
    if flat.len() <= max {
        flat
    } else {
        flat.take(max as int).push('…')
    }
}

/// The result of both sources: a match of either, else an absence rather than a failure,
/// else the later failure. A rate limit ends a prefetch at once.
pub open spec fn combined(
    audiodb: OutcomeView,
    wikipedia: OutcomeView,
    kind: LibraryEnrichmentAttemptKind,
) -> OutcomeView {
    let chosen = if settles(audiodb, kind) {
        audiodb
    } else if wikipedia.payload.status == LibraryEnrichmentStatus::Ready {
        wikipedia
    } else if prefers_absence(audiodb, wikipedia) {
        audiodb
    } else if prefers_absence(wikipedia, audiodb) {
        wikipedia
    } else if wikipedia.payload.status == LibraryEnrichmentStatus::Error {
        wikipedia
    } else if audiodb.payload.status == LibraryEnrichmentStatus::Error {
        audiodb
    } else {
        wikipedia
    };
    for_attempt(chosen, kind)
}

/// The first source settles the lookup: with a match, or for a prefetch with a rate limit.
pub open spec fn settles(audiodb: OutcomeView, kind: LibraryEnrichmentAttemptKind) -> bool {
    audiodb.payload.status == LibraryEnrichmentStatus::Ready || (audiodb.payload.status
        == LibraryEnrichmentStatus::Error && kind != LibraryEnrichmentAttemptKind::Detail
        && audiodb.payload.error_kind == Some(LibraryEnrichmentErrorKind::RateLimited))
}

pub open spec fn prefers_absence(absent: OutcomeView, failure: OutcomeView) -> bool {
    absent.payload.status == LibraryEnrichmentStatus::NotFound && failure.payload.status
        == LibraryEnrichmentStatus::Error
}

/// Milliseconds for which an outcome is kept.
pub open spec fn keep_ms(outcome: OutcomeView, image_ttl_days: u32) -> int {
    if !outcome.conclusive {
        1
    } else {
        match outcome.payload.status {
            LibraryEnrichmentStatus::Ready => {
                let days = if outcome.payload.entity is Artist {
                    if image_ttl_days >= 1 {
                        image_ttl_days as int
                    } else {
                        1
                    }
                } else {
                    30
                };
                days * 86400000
            },
            LibraryEnrichmentStatus::NotFound => 604800000,
            LibraryEnrichmentStatus::Disabled => 60000,
            LibraryEnrichmentStatus::Error => {
                if outcome.payload.error_kind == Some(LibraryEnrichmentErrorKind::Hard) {
                    1800000
                } else {
                    1
                }
            },
        }
    }
}

/// The sum, or the largest `i64` where it is too large.
pub open spec fn saturating_sum(a: int, b: int) -> int {
    if a + b > i64::MAX {
        i64::MAX as int
    } else {
        a + b
    }
}

/// A rate limit of the music database, met while prefetching.
pub open spec fn must_defer(outcome: OutcomeView, kind: LibraryEnrichmentAttemptKind) -> bool {
    kind != LibraryEnrichmentAttemptKind::Detail && outcome.payload.status
        == LibraryEnrichmentStatus::Error && outcome.payload.error_kind == Some(
        LibraryEnrichmentErrorKind::RateLimited,
    ) && outcome.payload.source_name == THEAUDIODB_SOURCE_NAME@
}

fn with_prefix(prefix: &str, message: &str) -> (r: String)
    ensures
        r@ == prefix@ + message@,
{
    let mut out = owned(prefix);
    append(&mut out, message);
    out
}

impl LibraryEnrichmentManager {
    pub fn source_entity_label(entity: &LibraryEnrichmentEntity) -> (r: String)
        ensures
            r@ == entity_label(entity@),
    {
        match entity {
            LibraryEnrichmentEntity::Artist { artist } => with_prefix("artist:", artist),
            LibraryEnrichmentEntity::Album { album, album_artist } => {
                let mut out = with_prefix("album:", album);
                out.push('\u{1f}');
                append(&mut out, album_artist);
                assert(out@ =~= "album:"@ + album@ + seq!['\u{1f}'] + album_artist@);
                out
            },
        }
    }

    /// How often a request that times out is tried, and the first pause in milliseconds.
    pub fn timeout_retry_policy(priority: LibraryEnrichmentPriority) -> (r: (u32, u64))
        ensures
            r == (match priority {
                LibraryEnrichmentPriority::Interactive => (3u32, 320u64),
                LibraryEnrichmentPriority::Prefetch => (2u32, 650u64),
            }),
    {
        match priority {
            LibraryEnrichmentPriority::Interactive => (3, 320),
            LibraryEnrichmentPriority::Prefetch => (2, 650),
        }
    }

    /// The pause before the next try in milliseconds: doubled each time, at most four seconds.
    pub fn timeout_backoff_delay(base_delay_ms: u64, attempt: u32) -> (r: u64)
        ensures
            r == backoff_ms(base_delay_ms as nat, attempt as nat),
            r <= 4000,
    {
        let exponent: u32 = if attempt == 0 {
            0
        } else if attempt - 1 > 6 {
            6
        } else {
            attempt - 1
        };
        let mut factor: u64 = 1;
        let mut i: u32 = 0;
        proof {
            vstd::arithmetic::power2::lemma2_to64();
        }
        while i < exponent
            invariant
                i <= exponent <= 6,
                factor == vstd::arithmetic::power2::pow2(i as nat),
                1 <= factor <= 64,
            decreases exponent - i,
        {
            proof {
                vstd::arithmetic::power2::lemma_pow2_unfold((i + 1) as nat);
                vstd::arithmetic::power2::lemma2_to64();
            }
            factor = 2 * factor;
            i += 1;
        }
        if base_delay_ms > 4000 {
            assert(base_delay_ms * factor >= 4000) by (nonlinear_arith)
                requires
                    base_delay_ms > 4000,
                    factor >= 1,
            ;
            return 4000;
        }
        assert(base_delay_ms * factor <= 4000 * 64) by (nonlinear_arith)
            requires
                base_delay_ms <= 4000,
                factor <= 64,
        ;
        let delay: u64 = base_delay_ms * factor;
        if delay > 4000 {
            4000
        } else {
            delay
        }
    }

    pub fn build_timeout_reason(message: &str) -> (r: String)
        ensures
            r@ == RETRY_REASON_TIMEOUT_PREFIX@ + message@,
    {
        with_prefix(RETRY_REASON_TIMEOUT_PREFIX, message)
    }

    pub fn build_hard_reason(message: &str) -> (r: String)
        ensures
            r@ == RETRY_REASON_HARD_PREFIX@ + message@,
    {
        with_prefix(RETRY_REASON_HARD_PREFIX, message)
    }

    pub fn build_rate_limit_reason(message: &str) -> (r: String)
        ensures
            r@ == RETRY_REASON_RATE_LIMIT_PREFIX@ + message@,
    {
        with_prefix(RETRY_REASON_RATE_LIMIT_PREFIX, message)
    }

    pub fn build_budget_reason(message: &str) -> (r: String)
        ensures
            r@ == RETRY_REASON_BUDGET_PREFIX@ + message@,
    {
        with_prefix(RETRY_REASON_BUDGET_PREFIX, message)
    }

    pub fn build_not_found_reason(message: &str) -> (r: String)
        ensures
            r@ == RETRY_REASON_NOT_FOUND_PREFIX@ + message@,
    {
        with_prefix(RETRY_REASON_NOT_FOUND_PREFIX, message)
    }

    pub fn is_timeout_reason(reason: &str) -> (r: bool)
        ensures
            r == is_timeout(reason@),
    {
        text_has_prefix(reason, RETRY_REASON_TIMEOUT_PREFIX)
    }

    pub fn is_hard_reason(reason: &str) -> (r: bool)
        ensures
            r == is_hard(reason@),
    {
        text_has_prefix(reason, RETRY_REASON_HARD_PREFIX)
    }

    pub fn is_rate_limit_reason(reason: &str) -> (r: bool)
        ensures
            r == is_rate_limit(reason@),
    {
        text_has_prefix(reason, RETRY_REASON_RATE_LIMIT_PREFIX)
    }

    pub fn is_budget_reason(reason: &str) -> (r: bool)
        ensures
            r == is_budget(reason@),
    {
        text_has_prefix(reason, RETRY_REASON_BUDGET_PREFIX)
    }

    /// Classifies the status code of a refused request.
    pub fn classify_status_failure(code: u16) -> (r: HttpFailureKind)
        ensures
            r == status_failure(code),
    {
        if code == 429 {
            HttpFailureKind::RateLimited
        } else if code == 408 || code == 500 || code == 502 || code == 503 || code == 504 {
            HttpFailureKind::Timeout
        } else {
            HttpFailureKind::Hard
        }
    }

    /// Classifies the message of a broken connection.
    pub fn classify_transport_failure(message: &str) -> (r: HttpFailureKind)
        ensures
            r == transport_failure(message@),
    {
        let low = lower_text(message);
        if text_has_part(&low, "timed out") || text_has_part(&low, "timeout") {
            HttpFailureKind::Timeout
        } else {
            HttpFailureKind::Hard
        }
    }

    /// Whether a read error is a timeout; `timed_out_kind` tells that its kind says so.
    pub fn classify_io_timeout(timed_out_kind: bool, message: &str) -> (r: bool)
        ensures
            r == (timed_out_kind || has_part(lower(message@), "timed out"@)),
    {
        timed_out_kind || text_has_part(&lower_text(message), "timed out")
    }

    /// The reason of a failed request.
    pub fn build_failure_reason(kind: HttpFailureKind, message: &str) -> (r: String)
        ensures
            r@ == (match kind {
                HttpFailureKind::Timeout => RETRY_REASON_TIMEOUT_PREFIX@,
                HttpFailureKind::RateLimited => RETRY_REASON_RATE_LIMIT_PREFIX@,
                HttpFailureKind::Hard => RETRY_REASON_HARD_PREFIX@,
            }) + message@,
    {
        match kind {
            HttpFailureKind::Timeout => Self::build_timeout_reason(message),
            HttpFailureKind::RateLimited => Self::build_rate_limit_reason(message),
            HttpFailureKind::Hard => Self::build_hard_reason(message),
        }
    }

    /// Whether a request that failed on try number `attempt` is tried again.
    pub fn retries_after(
        reason: &str,
        attempt: u32,
        priority: LibraryEnrichmentPriority,
    ) -> (r: Option<u64>)
        ensures
            r == retry_wait(reason@, attempt as nat, priority),
            r == (if is_timeout(reason@) && attempt < (if priority
                == LibraryEnrichmentPriority::Interactive {
                3int
            } else {
                2
            }) {
                Some(
                    backoff_ms(
                        if priority == LibraryEnrichmentPriority::Interactive {
                            320
                        } else {
                            650
                        },
                        attempt as nat,
                    ) as u64,
                )
            } else {
                None
            }),
    {
        let (max_attempts, base_delay) = Self::timeout_retry_policy(priority);
        if Self::is_timeout_reason(reason) && attempt < max_attempts {
            Some(Self::timeout_backoff_delay(base_delay, attempt))
        } else {
            None
        }
    }

    /// Milliseconds that a lookup may take.
    pub fn lookup_budget_for_attempt(kind: LibraryEnrichmentAttemptKind) -> (r: u64)
        ensures
            r == lookup_budget_ms(kind),
    {
        match kind {
            LibraryEnrichmentAttemptKind::Detail => 6000,
            LibraryEnrichmentAttemptKind::VisiblePrefetch => 2500,
            LibraryEnrichmentAttemptKind::BackgroundWarm => 1200,
        }
    }

    /// Milliseconds that one request may take.
    pub fn request_timeout_for_attempt(kind: LibraryEnrichmentAttemptKind) -> (r: u64)
        ensures
            r == (match kind {
                LibraryEnrichmentAttemptKind::Detail => 2500u64,
                LibraryEnrichmentAttemptKind::VisiblePrefetch => 1200u64,
                LibraryEnrichmentAttemptKind::BackgroundWarm => 900u64,
            }),
    {
        match kind {
            LibraryEnrichmentAttemptKind::Detail => 2500,
            LibraryEnrichmentAttemptKind::VisiblePrefetch => 1200,
            LibraryEnrichmentAttemptKind::BackgroundWarm => 900,
        }
    }

    /// Whether a lookup has used up its time, in the lane in which it runs now.
    pub fn budget_exceeded(
        &self,
        entity: &LibraryEnrichmentEntity,
        elapsed_ms: u64,
        default_attempt: LibraryEnrichmentAttemptKind,
    ) -> (r: bool)
        requires
            self.wf(),
        ensures
            r == (elapsed_ms >= lookup_budget_ms(
                if self.lanes().in_flight.contains_key(entity@) {
                    self.lanes().in_flight[entity@]
                } else {
                    default_attempt
                },
            )),
    {
        elapsed_ms >= Self::lookup_budget_for_attempt(
            self.effective_attempt_for_entity(entity, default_attempt),
        )
    }

    pub fn truncate_blurb(value: &str, max_chars: usize) -> (r: String)
        ensures
            r@ == shortened(value@, max_chars as nat),
    {
        let flat = collapse_chars(&chars_of(value));
        if flat.len() <= max_chars {
            return string_of(&flat);
        }
        let mut head = copy_range(&flat, 0, max_chars);
        assert(head@ =~= flat@.take(max_chars as int));
        head.push('…');
        string_of(&head)
    }

    pub fn build_outcome(
        entity: &LibraryEnrichmentEntity,
        status: LibraryEnrichmentStatus,
        blurb: String,
        image_path: Option<String>,
        image_url: Option<String>,
        source: EnrichmentSource,
        source_url: String,
        last_error: Option<String>,
    ) -> (r: FetchOutcome)
        ensures
            r@ == outcome_of(
                entity@,
                status,
                blurb@,
                option_text(image_path),
                option_text(image_url),
                source,
                source_url@,
                option_text(last_error),
            ),
    {
        FetchOutcome {
            payload: LibraryEnrichmentPayload {
                entity: entity.clone(),
                status,
                blurb,
                image_path,
                source_name: owned(source.source_name()),
                source_url,
                error_kind: None,
                attempt_kind: LibraryEnrichmentAttemptKind::VisiblePrefetch,
            },
            image_url,
            last_error,
            conclusive: true,
        }
    }

    pub fn build_not_found_outcome(
        entity: &LibraryEnrichmentEntity,
        source: EnrichmentSource,
        source_url: String,
        last_error: Option<String>,
    ) -> (r: FetchOutcome)
        ensures
            r@ == not_found(entity@, source, source_url@, option_text(last_error)),
    {
        Self::build_outcome(
            entity,
            LibraryEnrichmentStatus::NotFound,
            String::new(),
            None,
            None,
            source,
            source_url,
            last_error,
        )
    }

    pub fn build_error_outcome(
        entity: &LibraryEnrichmentEntity,
        source: EnrichmentSource,
        source_url: String,
        reason: String,
    ) -> (r: FetchOutcome)
        ensures
            r@ == failed(entity@, source, source_url@, reason@),
    {
        let kind = if Self::is_timeout_reason(&reason) {
            LibraryEnrichmentErrorKind::Timeout
        } else if Self::is_rate_limit_reason(&reason) {
            LibraryEnrichmentErrorKind::RateLimited
        } else if Self::is_budget_reason(&reason) {
            LibraryEnrichmentErrorKind::BudgetExhausted
        } else {
            LibraryEnrichmentErrorKind::Hard
        };
        let blurb = match kind {
            LibraryEnrichmentErrorKind::Timeout => RETRYABLE_TIMEOUT_BLURB,
            LibraryEnrichmentErrorKind::RateLimited => RETRYABLE_RATE_LIMIT_BLURB,
            LibraryEnrichmentErrorKind::BudgetExhausted => RETRYABLE_BUDGET_BLURB,
            LibraryEnrichmentErrorKind::Hard => HARD_ERROR_BLURB,
        };
        let ghost reason_text = reason@;
        let mut outcome = Self::build_outcome(
            entity,
            LibraryEnrichmentStatus::Error,
            owned(blurb),
            None,
            None,
            source,
            source_url,
            Some(reason),
        );
        outcome.payload.error_kind = Some(kind);
        outcome.conclusive = kind == LibraryEnrichmentErrorKind::Hard;
        assert(outcome@ =~= failed(entity@, source, source_url@, reason_text));
        outcome
    }

    pub fn should_prefer_not_found_over_error(
        not_found_candidate: &FetchOutcome,
        error_candidate: &FetchOutcome,
    ) -> (r: bool)
        ensures
            r == prefers_absence(not_found_candidate@, error_candidate@),
    {
        not_found_candidate.payload.status == LibraryEnrichmentStatus::NotFound
            && error_candidate.payload.status == LibraryEnrichmentStatus::Error
    }

    /// Whether the music database alone settles a lookup.
    pub fn audiodb_settles(outcome: &FetchOutcome, kind: LibraryEnrichmentAttemptKind) -> (r: bool)
        ensures
            r == settles(outcome@, kind),
    {
        if outcome.payload.status == LibraryEnrichmentStatus::Ready {
            return true;
        }
        let limited = match outcome.payload.error_kind {
            Some(error_kind) => error_kind == LibraryEnrichmentErrorKind::RateLimited,
            None => false,
        };
        outcome.payload.status == LibraryEnrichmentStatus::Error && kind
            != LibraryEnrichmentAttemptKind::Detail && limited
    }

    /// Chooses between the outcomes of both sources.
    pub fn combine_outcomes(
        audiodb: FetchOutcome,
        wikipedia: FetchOutcome,
        kind: LibraryEnrichmentAttemptKind,
    ) -> (r: FetchOutcome)
        ensures
            r@ == combined(audiodb@, wikipedia@, kind),
    {
        let mut chosen = if Self::audiodb_settles(&audiodb, kind) {
            audiodb
        } else if wikipedia.payload.status == LibraryEnrichmentStatus::Ready {
            wikipedia
        } else if Self::should_prefer_not_found_over_error(&audiodb, &wikipedia) {
            audiodb
        } else if Self::should_prefer_not_found_over_error(&wikipedia, &audiodb) {
            wikipedia
        } else if wikipedia.payload.status == LibraryEnrichmentStatus::Error {
            wikipedia
        } else if audiodb.payload.status == LibraryEnrichmentStatus::Error {
            audiodb
        } else {
            wikipedia
        };
        chosen.payload.attempt_kind = kind;
        assert(chosen@ =~= combined(audiodb@, wikipedia@, kind));
        chosen
    }

    /// The moment at which a stored outcome expires.
    pub fn cache_expiry_for_outcome_unix_ms(
        &self,
        outcome: &FetchOutcome,
        now_unix_ms: i64,
    ) -> (r: i64)
        ensures
            r == saturating_sum(
                now_unix_ms as int,
                keep_ms(outcome@, self.artist_image_cache_ttl_days),
            ),
    {
        let keep: i64 = if !outcome.conclusive {
            1
        } else {
            match outcome.payload.status {
                LibraryEnrichmentStatus::Ready => match outcome.payload.entity {
                    LibraryEnrichmentEntity::Artist { .. } => {
                        let days: i64 = if self.artist_image_cache_ttl_days >= 1 {
                            self.artist_image_cache_ttl_days as i64
                        } else {
                            1
                        };
                        days * 86_400_000
                    },
                    LibraryEnrichmentEntity::Album { .. } => 30 * 86_400_000,
                },
                LibraryEnrichmentStatus::NotFound => 7 * 86_400_000,
                LibraryEnrichmentStatus::Disabled => 60_000,
                LibraryEnrichmentStatus::Error => match outcome.payload.error_kind {
                    Some(kind) => if kind == LibraryEnrichmentErrorKind::Hard {
                        30 * 60_000
                    } else {
                        1
                    },
                    None => 1,
                },
            }
        };
        if now_unix_ms > i64::MAX - keep {
            i64::MAX
        } else {
            now_unix_ms + keep
        }
    }

    /// Whether a cached outcome answers a request; a detail request looks again where the
    /// lookup was disabled, or where a one-word artist was found in the encyclopedia.
    pub fn cached_outcome_answers(
        entity: &LibraryEnrichmentEntity,
        attempt_kind: LibraryEnrichmentAttemptKind,
        cached: &LibraryEnrichmentPayload,
    ) -> (r: bool)
        ensures
            r == cache_answers(entity@, attempt_kind, cached@),
    {
        if attempt_kind != LibraryEnrichmentAttemptKind::Detail {
            return true;
        }
        if cached.status == LibraryEnrichmentStatus::Disabled {
            return false;
        }
        !(cached.status == LibraryEnrichmentStatus::Ready && crate::text::text_equal(
            &cached.source_name,
            WIKIPEDIA_SOURCE_NAME,
        ) && Self::is_single_token_artist_entity(entity))
    }

    /// A cached outcome as it is handed out again; `image_usable` tells whether its image
    /// file is still there and holds an image.
    pub fn refresh_cached_payload(
        cached: LibraryEnrichmentPayload,
        attempt_kind: LibraryEnrichmentAttemptKind,
        image_usable: bool,
    ) -> (r: LibraryEnrichmentPayload)
        ensures
            r@ == (PayloadView {
                attempt_kind,
                image_path: if image_usable {
                    cached@.image_path
                } else {
                    None
                },
                ..cached@
            }),
    {
        let mut payload = cached;
        if !image_usable {
            payload.image_path = None;
        }
        payload.attempt_kind = attempt_kind;
        payload
    }

    /// What a detail request is answered while online metadata is switched off; a prefetch
    /// is not answered.
    pub fn disabled_answer(
        entity: LibraryEnrichmentEntity,
        attempt_kind: LibraryEnrichmentAttemptKind,
    ) -> (r: Option<LibraryEnrichmentPayload>)
        ensures
            r is Some <==> attempt_kind == LibraryEnrichmentAttemptKind::Detail,
            r matches Some(payload) ==> payload@ == (PayloadView {
                entity: entity@,
                status: LibraryEnrichmentStatus::Disabled,
                blurb: Seq::empty(),
                image_path: None,
                source_name: THEAUDIODB_SOURCE_NAME@,
                source_url: Seq::empty(),
                error_kind: None,
                attempt_kind,
            }),
    {
        if attempt_kind == LibraryEnrichmentAttemptKind::Detail {
            Some(
                LibraryEnrichmentPayload {
                    entity,
                    status: LibraryEnrichmentStatus::Disabled,
                    blurb: String::new(),
                    image_path: None,
                    source_name: owned(THEAUDIODB_SOURCE_NAME),
                    source_url: String::new(),
                    error_kind: None,
                    attempt_kind,
                },
            )
        } else {
            None
        }
    }

    /// Whether an outcome sends its request back into the queue.
    pub fn outcome_is_deferred(
        outcome: &FetchOutcome,
        attempt_kind: LibraryEnrichmentAttemptKind,
    ) -> (r: bool)
        ensures
            r == must_defer(outcome@, attempt_kind),
    {
        let limited = match outcome.payload.error_kind {
            Some(kind) => kind == LibraryEnrichmentErrorKind::RateLimited,
            None => false,
        };
        attempt_kind != LibraryEnrichmentAttemptKind::Detail && outcome.payload.status
            == LibraryEnrichmentStatus::Error && limited && crate::text::text_equal(
            &outcome.payload.source_name,
            THEAUDIODB_SOURCE_NAME,
        )
    }
}

pub open spec fn entity_label(entity: EntityView) -> Seq<char> {
    match entity {
        EntityView::Artist { artist } => "artist:"@ + artist,
        EntityView::Album { album, album_artist } => "album:"@ + album + seq!['\u{1f}']
            + album_artist,
    }
}

pub open spec fn lookup_budget_ms(kind: LibraryEnrichmentAttemptKind) -> u64 {
    match kind {
        LibraryEnrichmentAttemptKind::Detail => 6000,
        LibraryEnrichmentAttemptKind::VisiblePrefetch => 2500,
        LibraryEnrichmentAttemptKind::BackgroundWarm => 1200,
    }
}

/// `base` doubled with each try, at most six times, and at most four seconds.
pub open spec fn backoff_ms(base: nat, attempt: nat) -> nat {
    let exponent = if attempt == 0 {
        0nat
    } else if attempt - 1 > 6 {
        6
    } else {
        (attempt - 1) as nat
    };
    let delay = base * vstd::arithmetic::power2::pow2(exponent);
    if delay > 4000 {
        4000
    } else {
        delay
    }
}

/// After how many milliseconds a request that failed is tried again, if it is.
pub open spec fn retry_wait(
    reason: Seq<char>,
    attempt: nat,
    priority: LibraryEnrichmentPriority,
) -> Option<u64> {
    if is_timeout(reason) && attempt < (if priority == LibraryEnrichmentPriority::Interactive {
        3int
    } else {
        2
    }) {
        Some(
            backoff_ms(
                if priority == LibraryEnrichmentPriority::Interactive {
                    320
                } else {
                    650
                },
                attempt,
            ) as u64,
        )
    } else {
        None
    }
}

/// A cached payload that answers a request.
pub open spec fn cache_answers(
    entity: EntityView,
    kind: LibraryEnrichmentAttemptKind,
    cached: PayloadView,
) -> bool {
    kind != LibraryEnrichmentAttemptKind::Detail || !(cached.status
        == LibraryEnrichmentStatus::Disabled || (cached.status == LibraryEnrichmentStatus::Ready
        && cached.source_name == WIKIPEDIA_SOURCE_NAME@ && (entity matches EntityView::Artist {
        artist,
    } && crate::text::words(crate::library::matching::normalized(artist)).len() == 1)))
}

/// A match of either source is the result; an absence is preferred to a failure; and the
/// result carries the lane that it was fetched for.
pub proof fn a_match_wins_and_absence_beats_failure(
    audiodb: OutcomeView,
    wikipedia: OutcomeView,
    kind: LibraryEnrichmentAttemptKind,
)
    ensures
        combined(audiodb, wikipedia, kind).payload.attempt_kind == kind,
        audiodb.payload.status == LibraryEnrichmentStatus::Ready ==> combined(
            audiodb,
            wikipedia,
            kind,
        ) == for_attempt(audiodb, kind),
        !settles(audiodb, kind) && wikipedia.payload.status == LibraryEnrichmentStatus::Ready
            ==> combined(audiodb, wikipedia, kind) == for_attempt(wikipedia, kind),
        !settles(audiodb, kind) && prefers_absence(audiodb, wikipedia) ==> combined(
            audiodb,
            wikipedia,
            kind,
        ).payload.status == LibraryEnrichmentStatus::NotFound,
        !settles(audiodb, kind) && prefers_absence(wikipedia, audiodb) ==> combined(
            audiodb,
            wikipedia,
            kind,
        ).payload.status == LibraryEnrichmentStatus::NotFound,
{
}

/// A failure that may be retried is kept for a millisecond; a hard one for half an hour.
pub proof fn retryable_failures_expire_at_once(
    entity: EntityView,
    source: EnrichmentSource,
    url: Seq<char>,
    reason: Seq<char>,
    days: u32,
)
    ensures
        error_kind_of(reason) != LibraryEnrichmentErrorKind::Hard ==> keep_ms(
            failed(entity, source, url, reason),
            days,
        ) == 1,
        error_kind_of(reason) == LibraryEnrichmentErrorKind::Hard ==> keep_ms(
            failed(entity, source, url, reason),
            days,
        ) == 1800000,
{
}

} // verus!
