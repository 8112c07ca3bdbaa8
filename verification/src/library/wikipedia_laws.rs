//! Laws of the encyclopedia lookup: which page is shown, and what is shown of it.

use crate::library::outcome::{shortened, OutcomeView};
use crate::library::scoring::{
    album_score, artist_score, entity_name, names_guests, rejection, worth_fetching, SummaryView,
};
use crate::library::titles::{direct_titles, SearchView};
use crate::library::wikipedia::{
    declined, new_lookup, page_score, ActionView, LookupPhase, LookupView,
};
use crate::protocol::{
    EntityView, LibraryEnrichmentAttemptKind, LibraryEnrichmentErrorKind, LibraryEnrichmentStatus,
};
use crate::text::blank;
use vstd::prelude::*;

verus! {

/// A lookup after a series of replies.
pub open spec fn told_all(
    s: LookupView,
    replies: Seq<Result<SummaryView, Seq<char>>>,
) -> LookupView
    decreases replies.len(),
{
    if replies.len() == 0 {
        s
    } else {
        told_all(s, replies.drop_last()).told_summary(replies.last())
    }
}

/// The score of a reply that brought a page.
pub open spec fn reply_score(entity: EntityView, reply: Result<SummaryView, Seq<char>>) -> int {
    page_score(entity, reply->Ok_0)
}

/// After any series of summaries in the scored phase, the remembered page is one of those
/// received, or the one remembered before. Its score is at least that of every summary
/// received, and above that of every one received before it. Nothing is remembered only where
/// no summary came, and the lookup stays in its phase.
pub proof fn the_best_page_is_remembered(
    s: LookupView,
    replies: Seq<Result<SummaryView, Seq<char>>>,
)
    requires
        s.phase == LookupPhase::Scored,
    ensures
        told_all(s, replies).phase == LookupPhase::Scored,
        told_all(s, replies).entity == s.entity,
        forall|i: int|
            0 <= i < replies.len() && (#[trigger] replies[i]) is Ok ==> told_all(
                s,
                replies,
            ).best is Some && told_all(s, replies).best->Some_0.0 >= reply_score(
                s.entity,
                replies[i],
            ),
        s.best is Some ==> told_all(s, replies).best is Some && told_all(
            s,
            replies,
        ).best->Some_0.0 >= s.best->Some_0.0,
        told_all(s, replies).best != s.best ==> exists|i: int|
            0 <= i < replies.len() && (#[trigger] replies[i]) is Ok && told_all(s, replies).best
                == Some((reply_score(s.entity, replies[i]), replies[i]->Ok_0)) && (s.best is Some
                ==> s.best->Some_0.0 < reply_score(s.entity, replies[i])) && (forall|j: int|
                0 <= j < i && (#[trigger] replies[j]) is Ok ==> reply_score(s.entity, replies[j])
                    < reply_score(s.entity, replies[i])),
    decreases replies.len(),
{
    if replies.len() > 0 {
        let before = replies.drop_last();
        the_best_page_is_remembered(s, before);
        let n = replies.len() - 1;
        let t = told_all(s, before);
        let u = told_all(s, replies);
        assert(u == t.told_summary(replies[n]));
        assert forall|i: int| 0 <= i < replies.len() && (#[trigger] replies[i]) is Ok implies
            u.best is Some && u.best->Some_0.0 >= reply_score(s.entity, replies[i]) by {
            if i < n {
                assert(before[i] == replies[i]);
            }
        }
        if u.best != s.best {
            if u.best == t.best {
                let k = choose|i: int|
                    0 <= i < before.len() && (#[trigger] before[i]) is Ok && t.best == Some(
                        (reply_score(s.entity, before[i]), before[i]->Ok_0),
                    ) && (s.best is Some ==> s.best->Some_0.0 < reply_score(s.entity, before[i]))
                        && (forall|j: int|
                        0 <= j < i && (#[trigger] before[j]) is Ok ==> reply_score(
                            s.entity,
                            before[j],
                        ) < reply_score(s.entity, before[i]));
                assert(replies[k] == before[k]);
                assert forall|j: int| 0 <= j < k && (#[trigger] replies[j]) is Ok implies
                    reply_score(s.entity, replies[j]) < reply_score(s.entity, replies[k]) by {
                    assert(before[j] == replies[j]);
                }
            } else {
                assert forall|j: int| 0 <= j < n && (#[trigger] replies[j]) is Ok implies
                    reply_score(s.entity, replies[j]) < reply_score(s.entity, replies[n]) by {
                    assert(before[j] == replies[j]);
                }
                assert(replies[n] is Ok);
            }
        }
    }
}

/// A page found under a title of the entity itself is taken exactly where nothing speaks
/// against it and it has a blurb; then it is the very page that came.
pub proof fn direct_pages_are_taken_as_they_come(s: LookupView, page: SummaryView)
    requires
        s.phase == LookupPhase::Direct,
    ensures
        s.told_summary(Ok(page)).phase == LookupPhase::Accepted <==> rejection(s.entity, page)
            is None && !blank(shortened(page.extract, 360)),
        s.told_summary(Ok(page)).phase == LookupPhase::Accepted ==> s.told_summary(
            Ok(page),
        ).chosen == Some(page),
        s.told_summary(Ok(page)).phase != LookupPhase::Accepted ==> s.told_summary(Ok(page)) == s,
{
}

/// A failed fetch changes nothing but what is remembered of failures.
pub proof fn failures_leave_the_pages(s: LookupView, reason: Seq<char>)
    ensures
        s.told_summary(Err(reason)).phase == s.phase,
        s.told_summary(Err(reason)).best == s.best,
        s.told_summary(Err(reason)).chosen == s.chosen,
        s.told_summary(Err(reason)).titles == s.titles,
        s.told_summary(Err(reason)).title_at == s.title_at,
        s.told_summary(Err(reason)).direct_at == s.direct_at,
        s.told_summary(Err(reason)).saw_timeout == s.saw_timeout || s.told_summary(
            Err(reason),
        ).saw_timeout == Some(reason),
        s.told_summary(Err(reason)).saw_hard_error == s.saw_hard_error || s.told_summary(
            Err(reason),
        ).saw_hard_error == Some(reason),
{
}

/// What is shown of a page: its own text as the blurb, its own picture and its own address,
/// under the name of the encyclopedia.
pub open spec fn shows(outcome: OutcomeView, page: SummaryView) -> bool {
    &&& outcome.payload.status == LibraryEnrichmentStatus::Ready
    &&& outcome.payload.blurb == shortened(page.extract, 360)
    &&& outcome.payload.source_url == page.canonical_url
    &&& outcome.payload.source_name == "Wikipedia"@
    &&& outcome.image_url == page.image_url
    &&& outcome.payload.error_kind is None
}

/// A taken page is the page that is shown. The picture is only asked for where an artist's
/// page has one, from the page's own address, and once.
pub proof fn taken_pages_are_shown(s: LookupView, budget_exceeded: bool)
    requires
        s.phase == LookupPhase::Accepted,
        s.chosen is Some,
    ensures
        match s.next(budget_exceeded).1 {
            ActionView::DownloadImage { url } => {
                &&& s.chosen->Some_0.image_url == Some(url)
                &&& s.entity is Artist
                &&& !s.image_asked
                &&& s.next(budget_exceeded).0.image_asked
                &&& s.next(budget_exceeded).0.chosen == s.chosen
                &&& s.next(budget_exceeded).0.phase == LookupPhase::Accepted
            },
            ActionView::Finish { outcome } => {
                &&& shows(outcome, s.chosen->Some_0)
                &&& outcome.payload.entity == s.entity
                &&& outcome.payload.image_path == s.image_path
                &&& s.image_asked || s.entity is Album || s.chosen->Some_0.image_url is None
            },
            _ => false,
        },
{
}

/// Once the titles are used up, the remembered page is shown if an artist's page scored at
/// least 92, or an album's at least 88, and it has a blurb. Otherwise nothing was found; and
/// without any page, what went wrong is told: first that time ran out, then a timeout, then a
/// hard error.
pub proof fn the_best_page_is_shown(s: LookupView, budget_exceeded: bool)
    requires
        s.phase == LookupPhase::Scored,
        s.title_at >= s.titles.len(),
        !s.image_asked,
    ensures
        ({
            let good = s.best matches Some((score, page)) && score >= (if s.entity is Artist {
                92int
            } else {
                88int
            }) && !blank(shortened(page.extract, 360));
            match s.next(budget_exceeded).1 {
                ActionView::DownloadImage { url } => {
                    &&& good
                    &&& s.entity is Artist
                    &&& s.best->Some_0.1.image_url == Some(url)
                    &&& s.next(budget_exceeded).0.chosen == Some(s.best->Some_0.1)
                    &&& s.next(budget_exceeded).0.phase == LookupPhase::Accepted
                },
                ActionView::Finish { outcome } => {
                    &&& good ==> shows(outcome, s.best->Some_0.1)
                    &&& good ==> s.entity is Album || s.best->Some_0.1.image_url is None
                    &&& !good && s.best is Some ==> outcome.payload.status
                        == LibraryEnrichmentStatus::NotFound && outcome.payload.source_url
                        == s.best->Some_0.1.canonical_url && outcome.last_error is None
                    &&& s.best is None && s.saw_budget ==> outcome.payload.status
                        == LibraryEnrichmentStatus::Error && outcome.payload.error_kind
                        == Some(LibraryEnrichmentErrorKind::BudgetExhausted)
                    &&& s.best is None && !s.saw_budget && s.saw_timeout is Some
                        ==> outcome.payload.status == LibraryEnrichmentStatus::Error
                        && outcome.last_error == s.saw_timeout
                    &&& s.best is None && !s.saw_budget && s.saw_timeout is None
                        && s.saw_hard_error is Some ==> outcome.payload.status
                        == LibraryEnrichmentStatus::Error && outcome.last_error
                        == s.saw_hard_error
                    &&& s.best is None && !s.saw_budget && s.saw_timeout is None
                        && s.saw_hard_error is None ==> outcome.payload.status
                        == LibraryEnrichmentStatus::NotFound
                },
                _ => false,
            }
        }),
{
    crate::library::outcome_laws::reasons_tell_their_kind("Wikipedia lookup budget exhausted"@);
}

/// Pages are fetched under the entity's own titles first, in their order, six at most, as long
/// as time remains. After them a prefetch ends.
pub proof fn direct_titles_come_first(s: LookupView)
    requires
        s.phase == LookupPhase::Direct,
    ensures
        s.direct_at < s.direct.len() && s.direct_at < 6 ==> s.next(false).1
            == (ActionView::FetchSummary { title: s.direct[s.direct_at as int] })
            && s.next(false).0.direct_at == s.direct_at + 1 && s.next(false).0.phase
            == LookupPhase::Direct,
        s.attempt_kind != LibraryEnrichmentAttemptKind::Detail && (s.direct_at >= s.direct.len()
            || s.direct_at >= 6) ==> s.next(false).1 is Finish,
        s.attempt_kind != LibraryEnrichmentAttemptKind::Detail ==> s.next(true).1 is Finish,
{
}

/// In the scored phase, pages are fetched under the titles found, in their order, of the first
/// ten; a title is passed over only where it is not worth fetching.
pub proof fn found_titles_are_fetched_in_order(s: LookupView, budget_exceeded: bool)
    ensures
        s.scored_next(budget_exceeded).1 matches ActionView::FetchSummary { title } ==> {
            let at = s.scored_next(budget_exceeded).0.title_at - 1;
            &&& !budget_exceeded
            &&& s.title_at <= at < s.titles.len()
            &&& at < 10
            &&& s.titles[at] == title
            &&& worth_fetching(entity_name(s.entity), title)
            &&& s.scored_next(budget_exceeded).0.best == s.best
            &&& forall|k: int|
                s.title_at <= k < at ==> !worth_fetching(
                    entity_name(s.entity),
                    #[trigger] s.titles[k],
                )
        },
        !budget_exceeded && (exists|k: int|
            s.title_at <= k < s.titles.len() && k < 10 && worth_fetching(
                entity_name(s.entity),
                #[trigger] s.titles[k],
            )) ==> s.scored_next(budget_exceeded).1 is FetchSummary,
    decreases s.titles.len() - s.title_at,
{
    if s.title_at < s.title_limit() && !budget_exceeded {
        let later = LookupView { title_at: s.title_at + 1, ..s };
        if !worth_fetching(entity_name(s.entity), s.titles[s.title_at as int]) {
            found_titles_are_fetched_in_order(later, budget_exceeded);
        }
    }
}

/// A page counts for an artist by how it suits the artist, and for an album by how it suits
/// the album and its artist.
pub proof fn pages_are_scored_for_their_entity(
    artist: Seq<char>,
    album: Seq<char>,
    page: SummaryView,
)
    ensures
        page_score(EntityView::Artist { artist }, page) == artist_score(artist, page),
        page_score(EntityView::Album { album, album_artist: artist }, page) == album_score(
            album,
            artist,
            page,
        ),
{
}

/// A lookup starts with the entity's own titles, and with nothing found. For an artist with
/// guests it is declined, unless it is asked for in detail.
pub proof fn lookups_start_with_nothing(entity: EntityView, kind: LibraryEnrichmentAttemptKind)
    ensures
        ({
            let s = new_lookup(entity, kind);
            &&& s.entity == entity
            &&& s.attempt_kind == kind
            &&& s.phase == LookupPhase::Direct
            &&& s.direct == direct_titles(entity)
            &&& s.direct_at == 0
            &&& s.titles.len() == 0
            &&& s.best is None
            &&& s.chosen is None
            &&& s.saw_timeout is None
            &&& s.saw_hard_error is None
            &&& !s.saw_budget
            &&& !s.image_asked
            &&& s.image_path is None
        }),
        kind == LibraryEnrichmentAttemptKind::Detail ==> !declined(entity, kind),
        entity is Album ==> !declined(entity, kind),
        entity matches EntityView::Artist { artist } ==> (kind
            != LibraryEnrichmentAttemptKind::Detail ==> (declined(entity, kind) <==> names_guests(
            artist,
        ))),
{
}

/// While a search has something to ask, it is asked. After it, the pages under the titles that
/// it found are scored, and what failed on the way is remembered.
pub proof fn searches_come_before_scores(s: LookupView, budget_exceeded: bool)
    requires
        s.phase == LookupPhase::Search,
        s.title_at == 0,
    ensures
        s.search.next(budget_exceeded).1 matches Some((kind, query)) ==> s.next(budget_exceeded).1
            == (ActionView::SearchTitles { kind, query }) && s.next(budget_exceeded).0.search
            == s.search.next(budget_exceeded).0 && s.next(budget_exceeded).0.phase
            == LookupPhase::Search,
        s.search.next(budget_exceeded).1 is None ==> {
            let done = s.search.next(budget_exceeded).0;
            let scored = LookupView {
                phase: LookupPhase::Scored,
                titles: done.kept(),
                saw_budget: s.saw_budget || done.saw_budget,
                saw_timeout: if s.saw_timeout is Some {
                    s.saw_timeout
                } else {
                    done.saw_timeout
                },
                saw_hard_error: if s.saw_hard_error is Some {
                    s.saw_hard_error
                } else {
                    done.saw_hard_error
                },
                search: s.next(budget_exceeded).0.search,
                ..s
            };
            &&& done.kept().len() > 0 ==> s.next(budget_exceeded).1 == scored.scored_next(
                budget_exceeded,
            ).1
            &&& done.kept().len() == 0 ==> s.next(budget_exceeded).1 is Finish
        },
{
    let done = s.search.next(budget_exceeded).0;
    if s.search.next(budget_exceeded).1 is None && done.kept().len() > 0 {
        let w = LookupView {
            search: SearchView { titles: Seq::empty(), ..done },
            phase: LookupPhase::Scored,
            titles: done.kept(),
            saw_budget: s.saw_budget || done.saw_budget,
            saw_timeout: if s.saw_timeout is None {
                done.saw_timeout
            } else {
                s.saw_timeout
            },
            saw_hard_error: if s.saw_hard_error is None {
                done.saw_hard_error
            } else {
                s.saw_hard_error
            },
            ..s
        };
        lemma_scored_keeps_search(w, budget_exceeded);
    }
}

proof fn lemma_scored_keeps_search(s: LookupView, budget_exceeded: bool)
    ensures
        s.scored_next(budget_exceeded).0.search == s.search,
    decreases s.titles.len() - s.title_at,
{
    if s.title_at < s.title_limit() && !budget_exceeded {
        let later = LookupView { title_at: s.title_at + 1, ..s };
        lemma_scored_keeps_search(later, budget_exceeded);
    }
}

} // verus!
