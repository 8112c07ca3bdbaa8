//! Laws of lookup outcomes: what each tells, which one counts, and how long it is kept.

use crate::library::outcome::{
    backoff_ms, cache_answers, combined, entity_label, error_kind_of, failed, is_hard, is_rate_limit,
    is_timeout, keep_ms, lookup_budget_ms, must_defer, not_found, ready, retry_wait, saturating_sum, shortened,
    status_failure, transport_failure, EnrichmentSource, HttpFailureKind, OutcomeView,
};
use crate::protocol::{
    EntityView, LibraryEnrichmentAttemptKind, LibraryEnrichmentErrorKind,
    LibraryEnrichmentPriority, LibraryEnrichmentStatus, PayloadView,
};
use crate::text::{collapse, has_part, has_prefix, lower};
use vstd::arithmetic::power2::{lemma2_to64, lemma_pow2_unfold, pow2};
use vstd::prelude::*;

verus! {

proof fn lemma_prefix_of_sum(prefix: Seq<char>, text: Seq<char>)
    ensures
        has_prefix(prefix + text, prefix),
{
    assert((prefix + text).subrange(0, prefix.len() as int) =~= prefix);
}

proof fn lemma_other_prefix(s: Seq<char>, prefix: Seq<char>)
    requires
        s.len() > 0,
        prefix.len() > 0,
        s[0] != prefix[0],
    ensures
        !has_prefix(s, prefix),
{
    if has_prefix(s, prefix) {
        assert(s.subrange(0, prefix.len() as int)[0] == s[0]);
    }
}

/// A reason tells its kind by what it begins with, whatever follows.
pub proof fn reasons_tell_their_kind(text: Seq<char>)
    ensures
        error_kind_of("timeout:"@ + text) == LibraryEnrichmentErrorKind::Timeout,
        error_kind_of("rate_limit:"@ + text) == LibraryEnrichmentErrorKind::RateLimited,
        error_kind_of("budget_exhausted:"@ + text) == LibraryEnrichmentErrorKind::BudgetExhausted,
        error_kind_of("hard:"@ + text) == LibraryEnrichmentErrorKind::Hard,
        error_kind_of("not_found:"@ + text) == LibraryEnrichmentErrorKind::Hard,
        is_timeout("timeout:"@ + text),
        !is_timeout("hard:"@ + text),
        is_hard("hard:"@ + text),
        !is_hard("timeout:"@ + text),
        is_rate_limit("rate_limit:"@ + text),
        !is_rate_limit("hard:"@ + text),
        !is_rate_limit("timeout:"@ + text),
{
    reveal_strlit("timeout:");
    reveal_strlit("rate_limit:");
    reveal_strlit("budget_exhausted:");
    reveal_strlit("hard:");
    reveal_strlit("not_found:");
    lemma_prefix_of_sum("timeout:"@, text);
    lemma_prefix_of_sum("rate_limit:"@, text);
    lemma_prefix_of_sum("budget_exhausted:"@, text);
    lemma_prefix_of_sum("hard:"@, text);
    lemma_other_prefix("rate_limit:"@ + text, "timeout:"@);
    lemma_other_prefix("budget_exhausted:"@ + text, "timeout:"@);
    lemma_other_prefix("budget_exhausted:"@ + text, "rate_limit:"@);
    lemma_other_prefix("hard:"@ + text, "timeout:"@);
    lemma_other_prefix("hard:"@ + text, "rate_limit:"@);
    lemma_other_prefix("hard:"@ + text, "budget_exhausted:"@);
    lemma_other_prefix("timeout:"@ + text, "hard:"@);
    lemma_other_prefix("timeout:"@ + text, "rate_limit:"@);
    lemma_other_prefix("not_found:"@ + text, "timeout:"@);
    lemma_other_prefix("not_found:"@ + text, "rate_limit:"@);
    lemma_other_prefix("not_found:"@ + text, "budget_exhausted:"@);
}

/// A match shows the text, picture and address that were found, with no error; an absence
/// shows no text; a failure shows its kind and keeps its reason. All name their source.
pub proof fn outcomes_show_what_was_found(
    entity: EntityView,
    blurb: Seq<char>,
    image_path: Option<Seq<char>>,
    image_url: Option<Seq<char>>,
    source: EnrichmentSource,
    url: Seq<char>,
    last_error: Option<Seq<char>>,
    reason: Seq<char>,
)
    ensures
        ({
            let o = ready(entity, blurb, image_path, image_url, source, url);
            &&& o.payload.status == LibraryEnrichmentStatus::Ready
            &&& o.payload.entity == entity
            &&& o.payload.blurb == blurb
            &&& o.payload.image_path == image_path
            &&& o.payload.source_url == url
            &&& o.payload.error_kind is None
            &&& o.image_url == image_url
            &&& o.last_error is None
            &&& o.conclusive
            &&& source == EnrichmentSource::Wikipedia ==> o.payload.source_name == "Wikipedia"@
            &&& source == EnrichmentSource::TheAudioDB ==> o.payload.source_name
                == "TheAudioDB"@
        }),
        ({
            let o = not_found(entity, source, url, last_error);
            &&& o.payload.status == LibraryEnrichmentStatus::NotFound
            &&& o.payload.entity == entity
            &&& o.payload.blurb.len() == 0
            &&& o.payload.image_path is None
            &&& o.payload.source_url == url
            &&& o.payload.error_kind is None
            &&& o.image_url is None
            &&& o.last_error == last_error
            &&& o.conclusive
            &&& source == EnrichmentSource::Wikipedia ==> o.payload.source_name == "Wikipedia"@
            &&& source == EnrichmentSource::TheAudioDB ==> o.payload.source_name
                == "TheAudioDB"@
        }),
        ({
            let o = failed(entity, source, url, reason);
            &&& o.payload.status == LibraryEnrichmentStatus::Error
            &&& o.payload.entity == entity
            &&& o.payload.image_path is None
            &&& o.payload.source_url == url
            &&& o.payload.error_kind == Some(error_kind_of(reason))
            &&& o.image_url is None
            &&& o.last_error == Some(reason)
            &&& o.conclusive <==> o.payload.error_kind == Some(LibraryEnrichmentErrorKind::Hard)
            &&& o.payload.error_kind == Some(LibraryEnrichmentErrorKind::Timeout)
                ==> o.payload.blurb == "Internet metadata request timed out."@
            &&& o.payload.error_kind == Some(LibraryEnrichmentErrorKind::BudgetExhausted)
                ==> o.payload.blurb == "Internet metadata lookup is still in progress."@
            &&& o.payload.error_kind == Some(LibraryEnrichmentErrorKind::Hard)
                ==> o.payload.blurb == "Internet metadata provider returned an error."@
            &&& source == EnrichmentSource::Wikipedia ==> o.payload.source_name == "Wikipedia"@
            &&& source == EnrichmentSource::TheAudioDB ==> o.payload.source_name
                == "TheAudioDB"@
        }),
{
}

/// The result of two lookups is one of theirs, with the lane filled in. A match of the music
/// database always counts. Otherwise one of the encyclopedia counts, unless a prefetch was
/// held back by the database's rate limit: that failure then stands. Where neither matched,
/// one that found nothing counts before one that failed, and of two failures or two absences
/// the encyclopedia's counts.
pub proof fn one_of_two_outcomes_counts(
    a: OutcomeView,
    w: OutcomeView,
    kind: LibraryEnrichmentAttemptKind,
)
    requires
        a.payload.status != LibraryEnrichmentStatus::Disabled,
        w.payload.status != LibraryEnrichmentStatus::Disabled,
    ensures
        ({
            let r = combined(a, w, kind);
            let held_back = a.payload.status == LibraryEnrichmentStatus::Error
                && a.payload.error_kind == Some(LibraryEnrichmentErrorKind::RateLimited) && kind
                != LibraryEnrichmentAttemptKind::Detail;
            let of_audiodb = a.payload.status == LibraryEnrichmentStatus::Ready || held_back || (
            w.payload.status == LibraryEnrichmentStatus::Error && a.payload.status
                == LibraryEnrichmentStatus::NotFound);
            let from = if of_audiodb {
                a
            } else {
                w
            };
            &&& r.payload.attempt_kind == kind
            &&& r.payload.status == from.payload.status
            &&& r.payload.blurb == from.payload.blurb
            &&& r.payload.image_path == from.payload.image_path
            &&& r.payload.source_name == from.payload.source_name
            &&& r.payload.source_url == from.payload.source_url
            &&& r.payload.error_kind == from.payload.error_kind
            &&& r.payload.entity == from.payload.entity
            &&& r.image_url == from.image_url
            &&& r.last_error == from.last_error
            &&& r.conclusive == from.conclusive
        }),
{
}

/// How long an outcome is kept: an artist's match for as many days as images are, but at least
/// one; an album's match for thirty days; an absence for a week; a hard error for half an hour;
/// and what is not conclusive for a millisecond.
pub proof fn outcomes_are_kept_for_days(o: OutcomeView, image_ttl_days: u32)
    ensures
        !o.conclusive ==> keep_ms(o, image_ttl_days) == 1,
        o.conclusive && o.payload.status == LibraryEnrichmentStatus::Ready && o.payload.entity
            is Artist && image_ttl_days >= 1 ==> keep_ms(o, image_ttl_days) == image_ttl_days * (24
            * 60 * 60 * 1000),
        o.conclusive && o.payload.status == LibraryEnrichmentStatus::Ready && o.payload.entity
            is Artist && image_ttl_days == 0 ==> keep_ms(o, image_ttl_days) == 24 * 60 * 60 * 1000,
        o.conclusive && o.payload.status == LibraryEnrichmentStatus::Ready && o.payload.entity
            is Album ==> keep_ms(o, image_ttl_days) == 30 * (24 * 60 * 60 * 1000),
        o.conclusive && o.payload.status == LibraryEnrichmentStatus::NotFound ==> keep_ms(
            o,
            image_ttl_days,
        ) == 7 * (24 * 60 * 60 * 1000),
        o.conclusive && o.payload.status == LibraryEnrichmentStatus::Disabled ==> keep_ms(
            o,
            image_ttl_days,
        ) == 60 * 1000,
        o.conclusive && o.payload.status == LibraryEnrichmentStatus::Error && o.payload.error_kind
            == Some(LibraryEnrichmentErrorKind::Hard) ==> keep_ms(o, image_ttl_days) == 30 * 60
            * 1000,
        o.payload.status == LibraryEnrichmentStatus::Error && o.payload.error_kind != Some(
            LibraryEnrichmentErrorKind::Hard,
        ) ==> keep_ms(o, image_ttl_days) == 1,
{
}

/// A request is sent back exactly where it is a prefetch that the music database's rate limit
/// held back.
pub proof fn held_back_prefetches_are_sent_back(o: OutcomeView, kind: LibraryEnrichmentAttemptKind)
    ensures
        must_defer(o, kind) <==> kind != LibraryEnrichmentAttemptKind::Detail && o.payload.status
            == LibraryEnrichmentStatus::Error && o.payload.error_kind == Some(
            LibraryEnrichmentErrorKind::RateLimited,
        ) && o.payload.source_name == "TheAudioDB"@,
{
}

/// The first try waits the base; each further one twice as long, up to the seventh; and none
/// longer than four seconds.
pub proof fn waits_double_up_to_four_seconds(base: nat, attempt: nat)
    ensures
        backoff_ms(base, 0) == backoff_ms(base, 1),
        backoff_ms(base, 1) == (if base <= 4000 {
            base
        } else {
            4000
        }),
        1 <= attempt < 7 && 2 * backoff_ms(base, attempt) <= 4000 ==> backoff_ms(base, attempt + 1)
            == 2 * backoff_ms(base, attempt),
        1 <= attempt < 7 && 2 * backoff_ms(base, attempt) > 4000 ==> backoff_ms(base, attempt + 1)
            == 4000,
        attempt >= 7 ==> backoff_ms(base, attempt + 1) == backoff_ms(base, attempt),
        backoff_ms(base, attempt) <= 4000,
{
    lemma2_to64();
    assert(base * pow2(0) == base) by (nonlinear_arith)
        requires
            pow2(0) == 1,
    ;
    if 1 <= attempt < 7 {
        lemma_pow2_unfold(attempt);
        let p = pow2((attempt - 1) as nat);
        assert(pow2(attempt) == 2 * p);
        assert(base * (2 * p) == 2 * (base * p)) by (nonlinear_arith);
    }
}

/// A text that fits is told whole; a longer one by its beginning, with an ellipsis behind it.
pub proof fn long_texts_are_cut(s: Seq<char>, max: nat)
    ensures
        collapse(s).len() <= max ==> shortened(s, max) == collapse(s),
        collapse(s).len() > max ==> shortened(s, max).len() == max + 1 && shortened(s, max).last()
            == '…' && shortened(s, max).drop_last() == collapse(s).take(max as int),
{
    if collapse(s).len() > max {
        assert(shortened(s, max).drop_last() =~= collapse(s).take(max as int));
    }
}

/// Too many requests is told apart from a server that is slow or down for a while, and both
/// from every other answer.
pub proof fn answers_tell_their_failure(code: u16)
    ensures
        status_failure(code) == HttpFailureKind::RateLimited <==> code == 429,
        status_failure(code) == HttpFailureKind::Timeout <==> (code == 408 || code == 500 || code
            == 502 || code == 503 || code == 504),
{
}

/// A failed transport is a timeout exactly where it says so, in any case.
pub proof fn timeouts_say_so(message: Seq<char>)
    ensures
        transport_failure(message) == HttpFailureKind::Timeout <==> has_part(
            lower(message),
            "timed out"@,
        ) || has_part(lower(message), "timeout"@),
        transport_failure(message) != HttpFailureKind::RateLimited,
        transport_failure(message) == transport_failure(lower(message)),
{
    assert(lower(lower(message)) =~= lower(message));
}

/// More urgent lookups get more time.
pub proof fn urgent_lookups_get_more_time()
    ensures
        lookup_budget_ms(LibraryEnrichmentAttemptKind::Detail) == 6000,
        lookup_budget_ms(LibraryEnrichmentAttemptKind::VisiblePrefetch) == 2500,
        lookup_budget_ms(LibraryEnrichmentAttemptKind::BackgroundWarm) == 1200,
{
}

/// What is cached answers every prefetch. It answers a detail request too, unless lookups were
/// switched off when it was cached, or it is an encyclopedia page for an artist of one word.
pub proof fn cached_payloads_answer(
    entity: EntityView,
    kind: LibraryEnrichmentAttemptKind,
    cached: PayloadView,
)
    ensures
        kind != LibraryEnrichmentAttemptKind::Detail ==> cache_answers(entity, kind, cached),
        kind == LibraryEnrichmentAttemptKind::Detail && cached.status
            == LibraryEnrichmentStatus::Disabled ==> !cache_answers(entity, kind, cached),
        kind == LibraryEnrichmentAttemptKind::Detail && (cached.status
            == LibraryEnrichmentStatus::NotFound || cached.status
            == LibraryEnrichmentStatus::Error) ==> cache_answers(entity, kind, cached),
        kind == LibraryEnrichmentAttemptKind::Detail && cached.status
            == LibraryEnrichmentStatus::Ready && entity is Album ==> cache_answers(
            entity,
            kind,
            cached,
        ),
        kind == LibraryEnrichmentAttemptKind::Detail && cached.status
            == LibraryEnrichmentStatus::Ready && cached.source_name != "Wikipedia"@
            ==> cache_answers(entity, kind, cached),
{
}

/// Only a timeout is tried again: for one who waits after 320 and 640 milliseconds, for a
/// prefetch once, after 650.
pub proof fn timeouts_are_tried_again(reason: Seq<char>, attempt: nat)
    ensures
        !is_timeout(reason) ==> retry_wait(reason, attempt, LibraryEnrichmentPriority::Interactive)
            is None && retry_wait(reason, attempt, LibraryEnrichmentPriority::Prefetch) is None,
        is_timeout(reason) ==> {
            &&& retry_wait(reason, 1, LibraryEnrichmentPriority::Interactive) == Some(320u64)
            &&& retry_wait(reason, 2, LibraryEnrichmentPriority::Interactive) == Some(640u64)
            &&& attempt >= 3 ==> retry_wait(
                reason,
                attempt,
                LibraryEnrichmentPriority::Interactive,
            ) is None
            &&& retry_wait(reason, 1, LibraryEnrichmentPriority::Prefetch) == Some(650u64)
            &&& attempt >= 2 ==> retry_wait(reason, attempt, LibraryEnrichmentPriority::Prefetch)
                is None
        },
{
    lemma2_to64();
    waits_double_up_to_four_seconds(320, 1);
    waits_double_up_to_four_seconds(650, 1);
}

/// An outcome expires after the time it is kept, but never beyond what a clock can tell.
pub proof fn expiry_is_a_sum(now: i64, keep: u32)
    ensures
        now + keep <= i64::MAX ==> saturating_sum(now as int, keep as int) == now + keep,
        now + keep > i64::MAX ==> saturating_sum(now as int, keep as int) == i64::MAX,
{
}

/// Entities of different kinds, names or artists are filed apart, as long as no name holds the
/// mark between them.
pub proof fn entities_are_filed_apart(
    artist: Seq<char>,
    other: Seq<char>,
    album: Seq<char>,
    other_album: Seq<char>,
)
    requires
        !album.contains('\u{1f}'),
        !other_album.contains('\u{1f}'),
    ensures
        artist != other ==> entity_label(EntityView::Artist { artist }) != entity_label(
            EntityView::Artist { artist: other },
        ),
        entity_label(EntityView::Artist { artist }) != entity_label(
            EntityView::Album { album, album_artist: other },
        ),
        album != other_album || artist != other ==> entity_label(
            EntityView::Album { album, album_artist: artist },
        ) != entity_label(EntityView::Album { album: other_album, album_artist: other }),
{
    reveal_strlit("artist:");
    reveal_strlit("album:");
    let a = "artist:"@ + artist;
    let b = "artist:"@ + other;
    if a == b {
        assert(a.skip(7) =~= artist);
        assert(b.skip(7) =~= other);
    }
    let c = "album:"@ + album + seq!['\u{1f}'] + other;
    assert(a[1] == 'r');
    assert(c[1] == 'l');
    let x = "album:"@ + album + seq!['\u{1f}'] + artist;
    let y = "album:"@ + other_album + seq!['\u{1f}'] + other;
    if x == y {
        let xs = album + seq!['\u{1f}'] + artist;
        let ys = other_album + seq!['\u{1f}'] + other;
        assert(x.skip(6) =~= xs);
        assert(y.skip(6) =~= ys);
        crate::text::lemma_first_of_concat(album, artist, '\u{1f}');
        crate::text::lemma_first_of_concat(other_album, other, '\u{1f}');
        assert(album.len() == other_album.len());
        assert(xs.take(album.len() as int) =~= album);
        assert(ys.take(other_album.len() as int) =~= other_album);
        assert(xs.skip(album.len() as int + 1) =~= artist);
        assert(ys.skip(other_album.len() as int + 1) =~= other);
    }
}

} // verus!
