//! Laws of the music database lookup: which record is shown, and what is shown of it.

use crate::json::JsonView;
use crate::library::audiodb::{
    album_key, answered_at_once, best_album, best_artist, new_audiodb_lookup, requests_for,
    AudioDbActionView, AudioDbView, ChosenView,
};
use crate::library::outcome::shortened;
use crate::library::replies::{album_records, artist_records};
use crate::library::scoring::{
    album_record_score, artist_record_score, entity_name, names_guests, AlbumCandidateView,
    ArtistCandidateView,
};
use crate::protocol::{
    EntityView, LibraryEnrichmentAttemptKind, LibraryEnrichmentErrorKind, LibraryEnrichmentStatus,
};
use crate::text::{blank, collapse};
use vstd::prelude::*;

verus! {

/// The remembered record of an artist is one of those received, or the one remembered before.
/// It scores at least as high as each of them, and it carries its own biography, picture and
/// address.
pub proof fn the_best_artist_is_remembered(
    best: Option<(int, ChosenView)>,
    artist: Seq<char>,
    records: Seq<ArtistCandidateView>,
)
    ensures
        forall|i: int|
            0 <= i < records.len() ==> best_artist(best, artist, records) is Some && best_artist(
                best,
                artist,
                records,
            )->Some_0.0 >= artist_record_score(artist, #[trigger] records[i]),
        best is Some ==> best_artist(best, artist, records) is Some && best_artist(
            best,
            artist,
            records,
        )->Some_0.0 >= best->Some_0.0,
        best_artist(best, artist, records) != best ==> exists|i: int|
            {
                &&& 0 <= i < records.len()
                &&& best_artist(best, artist, records)->Some_0.0 == artist_record_score(
                    artist,
                    #[trigger] records[i],
                )
                &&& best_artist(best, artist, records)->Some_0.1.text == records[i].biography
                &&& best_artist(best, artist, records)->Some_0.1.image_url == records[i].image_url
                &&& best_artist(best, artist, records)->Some_0.1.source_url
                    == records[i].source_url
                &&& best is Some ==> best->Some_0.0 < artist_record_score(artist, records[i])
            },
    decreases records.len(),
{
    if records.len() > 0 {
        let before = records.drop_last();
        the_best_artist_is_remembered(best, artist, before);
        let n = records.len() - 1;
        let t = best_artist(best, artist, before);
        let u = best_artist(best, artist, records);
        assert forall|i: int| 0 <= i < records.len() implies u is Some && u->Some_0.0
            >= artist_record_score(artist, #[trigger] records[i]) by {
            if i < n {
                assert(before[i] == records[i]);
            }
        }
        if u != best {
            if u == t {
                let k = choose|i: int|
                    {
                        &&& 0 <= i < before.len()
                        &&& t->Some_0.0 == artist_record_score(artist, #[trigger] before[i])
                        &&& t->Some_0.1.text == before[i].biography
                        &&& t->Some_0.1.image_url == before[i].image_url
                        &&& t->Some_0.1.source_url == before[i].source_url
                        &&& best is Some ==> best->Some_0.0 < artist_record_score(
                            artist,
                            before[i],
                        )
                    };
                assert(records[k] == before[k]);
            } else {
                assert(records[n] == records.last());
            }
        }
    }
}

/// The remembered record of an album is one of those received, or the one remembered before.
/// It scores at least as high as each new one received, and it carries its own description
/// and address, and no picture.
pub proof fn the_best_album_is_remembered(
    state: (Option<(int, ChosenView)>, Seq<Seq<char>>),
    album: Seq<char>,
    album_artist: Seq<char>,
    records: Seq<AlbumCandidateView>,
)
    ensures
        forall|i: int|
            0 <= i < records.len() && !state.1.contains(
                album_key(#[trigger] records[i]),
            ) && (forall|j: int|
                0 <= j < i ==> album_key(#[trigger] records[j])
                    != album_key(records[i])) ==> best_album(
                state,
                album,
                album_artist,
                records,
            ).0 is Some && best_album(state, album, album_artist, records).0->Some_0.0
                >= album_record_score(album, album_artist, records[i]),
        forall|k: Seq<char>|
            best_album(state, album, album_artist, records).1.contains(k) ==> state.1.contains(k)
                || exists|j: int|
                0 <= j < records.len() && album_key(
                    #[trigger] records[j],
                ) == k,
        state.0 is Some ==> best_album(state, album, album_artist, records).0 is Some
            && best_album(state, album, album_artist, records).0->Some_0.0
            >= state.0->Some_0.0,
        best_album(state, album, album_artist, records).0 != state.0 ==> exists|i: int|
            {
                let u = best_album(state, album, album_artist, records).0;
                &&& 0 <= i < records.len()
                &&& u->Some_0.0 == album_record_score(album, album_artist, #[trigger] records[i])
                &&& u->Some_0.1.text == records[i].description
                &&& u->Some_0.1.image_url is None
                &&& u->Some_0.1.source_url == records[i].source_url
                &&& state.0 is Some ==> state.0->Some_0.0 < album_record_score(
                    album,
                    album_artist,
                    records[i],
                )
            },
    decreases records.len(),
{
    if records.len() > 0 {
        let before = records.drop_last();
        the_best_album_is_remembered(state, album, album_artist, before);
        let n = records.len() - 1;
        let t = best_album(state, album, album_artist, before);
        let u = best_album(state, album, album_artist, records);
        assert forall|k: Seq<char>| u.1.contains(k) implies state.1.contains(k) || exists|j: int|
            0 <= j < records.len() && album_key(#[trigger] records[j])
                == k by {
            if t.1.contains(k) {
                if !state.1.contains(k) {
                    let j = choose|j: int|
                        0 <= j < before.len() && album_key(
                            #[trigger] before[j],
                        ) == k;
                    assert(records[j] == before[j]);
                }
            } else {
                let at = choose|at: int| 0 <= at < u.1.len() && u.1[at] == k;
                if at < t.1.len() {
                    assert(t.1[at] == k);
                }
                assert(album_key(records[n]) == k);
            }
        }
        assert forall|i: int|
            0 <= i < records.len() && !state.1.contains(
                album_key(#[trigger] records[i]),
            ) && (forall|j: int|
                0 <= j < i ==> album_key(#[trigger] records[j])
                    != album_key(records[i])) implies u.0 is Some
            && u.0->Some_0.0 >= album_record_score(album, album_artist, records[i]) by {
            if i < n {
                assert(before[i] == records[i]);
                assert forall|j: int| 0 <= j < i implies album_key(
                    #[trigger] before[j],
                ) != album_key(before[i]) by {
                    assert(before[j] == records[j]);
                }
            } else {
                assert(records.last() == records[n]);
                if t.1.contains(album_key(records[n])) {
                    let j = choose|j: int|
                        0 <= j < before.len() && album_key(
                            #[trigger] before[j],
                        ) == album_key(records[n]);
                    assert(records[j] == before[j]);
                }
            }
        }
        if u.0 != state.0 {
            if u.0 == t.0 {
                let k = choose|i: int|
                    {
                        &&& 0 <= i < before.len()
                        &&& t.0->Some_0.0 == album_record_score(
                            album,
                            album_artist,
                            #[trigger] before[i],
                        )
                        &&& t.0->Some_0.1.text == before[i].description
                        &&& t.0->Some_0.1.image_url is None
                        &&& t.0->Some_0.1.source_url == before[i].source_url
                        &&& state.0 is Some ==> state.0->Some_0.0 < album_record_score(
                            album,
                            album_artist,
                            before[i],
                        )
                    };
                assert(records[k] == before[k]);
            } else {
                assert(records[n] == records.last());
            }
        }
    }
}

/// A reply about an artist leaves a record remembered that scores at least as high as every
/// record in it and as the one remembered before.
pub proof fn replies_never_lower_the_best(s: AudioDbView, value: JsonView, url: Seq<char>)
    ensures
        s.best is Some ==> s.told(Ok(value), url).best is Some && s.told(
            Ok(value),
            url,
        ).best->Some_0.0 >= s.best->Some_0.0,
        s.entity matches EntityView::Artist { artist } ==> forall|i: int|
            0 <= i < artist_records(value, url).len() ==> s.told(Ok(value), url).best is Some
                && s.told(Ok(value), url).best->Some_0.0 >= artist_record_score(
                artist,
                #[trigger] artist_records(value, url)[i],
            ),
        s.told(Ok(value), url).request_at == s.request_at,
        s.told(Ok(value), url).stopped == s.stopped,
        s.told(Ok(value), url).saw_timeout == s.saw_timeout,
        s.told(Ok(value), url).saw_hard_error == s.saw_hard_error,
        s.told(Ok(value), url).saw_rate_limit == s.saw_rate_limit,
{
    match s.entity {
        EntityView::Artist { artist } => {
            the_best_artist_is_remembered(s.best, artist, artist_records(value, url));
        },
        EntityView::Album { album, album_artist } => {
            the_best_album_is_remembered(
                (s.best, s.seen_albums),
                album,
                album_artist,
                album_records(value, url),
            );
        },
    }
}

/// A failed request keeps the record that is remembered, and a rate limit ends the requests.
pub proof fn failures_keep_the_best(s: AudioDbView, reason: Seq<char>, url: Seq<char>)
    ensures
        s.told(Err(reason), url).best == s.best,
        s.told(Err(reason), url).request_at == s.request_at,
        s.told(Err(reason), url).requests == s.requests,
        s.told(Err("timeout:"@ + reason), url).saw_timeout == Some("timeout:"@ + reason)
            || s.told(Err("timeout:"@ + reason), url).saw_rate_limit == Some(
            "timeout:"@ + reason,
        ),
        s.told(Err("rate_limit:"@ + reason), url).saw_rate_limit == Some(
            "rate_limit:"@ + reason,
        ),
        s.told(Err("rate_limit:"@ + reason), url).stopped,
        s.told(Err("hard:"@ + reason), url).saw_hard_error == Some("hard:"@ + reason) || s.told(
            Err("hard:"@ + reason),
            url,
        ).saw_rate_limit == Some("hard:"@ + reason),
{
    crate::library::outcome_laws::reasons_tell_their_kind(reason);
}

/// As long as requests are left and time remains, they are sent in their order.
pub proof fn requests_go_out_in_order(s: AudioDbView)
    ensures
        !s.stopped && s.request_at < s.requests.len() ==> s.next(false).1
            == (AudioDbActionView::Request { params: s.requests[s.request_at as int] })
            && s.next(false).0.request_at == s.request_at + 1 && s.next(false).0.best == s.best,
        !s.stopped && s.request_at < s.requests.len() ==> !(s.next(true).1 is Request),
{
}

/// After the requests, the remembered record is shown if an artist's record scored at least
/// 96, or an album's at least 90, and it has a blurb: first its picture is fetched, then its
/// text, picture and address are shown. Otherwise nothing was found; and without any record,
/// what went wrong is told: that time ran out, a rate limit, a timeout, a hard error.
pub proof fn the_best_record_is_shown(s: AudioDbView, budget_exceeded: bool)
    requires
        s.stopped || s.request_at >= s.requests.len(),
    ensures
        ({
            let good = s.best matches Some((score, record)) && score >= (if s.entity is Artist {
                96int
            } else {
                90int
            }) && !blank(shortened(record.text, 360));
            let record = s.best->Some_0.1;
            match s.next(budget_exceeded).1 {
                AudioDbActionView::DownloadImage { url } => {
                    &&& good
                    &&& !s.image_asked
                    &&& record.image_url == Some(url)
                    &&& s.next(budget_exceeded).0.image_asked
                    &&& s.next(budget_exceeded).0.best == s.best
                },
                AudioDbActionView::Finish { outcome } => {
                    &&& outcome.payload.entity == s.entity
                    &&& outcome.payload.source_name == "TheAudioDB"@
                    &&& good ==> s.image_asked || record.image_url is None
                    &&& good ==> outcome.payload.status == LibraryEnrichmentStatus::Ready
                        && outcome.payload.blurb == shortened(record.text, 360) && outcome.image_url
                        == record.image_url && outcome.payload.image_path == s.image_path
                        && outcome.payload.source_url == record.source_url
                    &&& !good && s.best is Some ==> outcome.payload.status
                        == LibraryEnrichmentStatus::NotFound && outcome.payload.source_url
                        == record.source_url
                    &&& s.best is None && s.saw_budget ==> outcome.payload.error_kind == Some(
                        LibraryEnrichmentErrorKind::BudgetExhausted,
                    )
                    &&& s.best is None && !s.saw_budget && s.saw_rate_limit is Some
                        ==> outcome.last_error == s.saw_rate_limit
                    &&& s.best is None && !s.saw_budget && s.saw_rate_limit is None
                        && s.saw_timeout is Some ==> outcome.last_error == s.saw_timeout
                    &&& s.best is None && !s.saw_budget && s.saw_rate_limit is None
                        && s.saw_timeout is None && s.saw_hard_error is Some
                        ==> outcome.last_error == s.saw_hard_error
                    &&& s.best is None && !s.saw_budget && s.saw_rate_limit is None
                        && s.saw_timeout is None && s.saw_hard_error is None
                        ==> outcome.payload.status == LibraryEnrichmentStatus::NotFound
                },
                _ => false,
            }
        }),
{
    crate::library::outcome_laws::reasons_tell_their_kind("TheAudioDB artist budget exhausted"@);
    crate::library::outcome_laws::reasons_tell_their_kind("TheAudioDB album budget exhausted"@);
}

/// An album is asked for by artist and title together, then by each alone; without an artist,
/// by its title only. An artist is asked for by name.
pub proof fn entities_are_asked_for_by_name(
    artist: Seq<char>,
    album: Seq<char>,
    kind: LibraryEnrichmentAttemptKind,
)
    ensures
        ({
            let asked = requests_for(EntityView::Album { album, album_artist: artist }, kind);
            &&& collapse(artist).len() > 0 ==> asked.len() == 3 && asked[0].contains(
                ("s"@, collapse(artist)),
            ) && asked[0].contains(("a"@, collapse(album))) && asked[1].contains(
                ("s"@, collapse(artist)),
            ) && asked[2].contains(("a"@, collapse(album)))
            &&& collapse(artist).len() == 0 ==> asked.len() == 1 && asked[0].contains(
                ("a"@, collapse(album)),
            )
        }),
        ({
            let asked = requests_for(EntityView::Artist { artist }, kind);
            !blank(collapse(artist)) ==> asked.len() >= 1 && asked[0].contains(
                ("s"@, collapse(artist)),
            ) && (kind != LibraryEnrichmentAttemptKind::Detail ==> asked.len() == 1)
        }),
{
    let asked = requests_for(EntityView::Album { album, album_artist: artist }, kind);
    if collapse(artist).len() > 0 {
        assert(asked[0][0] == ("s"@, collapse(artist)));
        assert(asked[0][1] == ("a"@, collapse(album)));
        assert(asked[1][0] == ("s"@, collapse(artist)));
        assert(asked[2][0] == ("a"@, collapse(album)));
    } else {
        assert(asked[0][0] == ("a"@, collapse(album)));
    }
    let by_name = requests_for(EntityView::Artist { artist }, kind);
    if !blank(collapse(artist)) {
        assert(by_name[0][0] == ("s"@, collapse(artist)));
    }
}

/// A lookup starts with its requests and with nothing found. An entity without a name is not
/// found at once, nor is, in a prefetch, an artist with guests; every other one is looked up.
pub proof fn lookups_start_with_nothing(entity: EntityView, kind: LibraryEnrichmentAttemptKind)
    ensures
        ({
            let s = new_audiodb_lookup(entity, kind);
            &&& s.entity == entity
            &&& s.requests == requests_for(entity, kind)
            &&& s.request_at == 0
            &&& !s.stopped
            &&& s.best is None
            &&& s.seen_albums.len() == 0
            &&& s.saw_timeout is None
            &&& s.saw_hard_error is None
            &&& s.saw_rate_limit is None
            &&& !s.saw_budget
            &&& !s.image_asked
            &&& s.image_path is None
        }),
        ({
            let name = collapse(entity_name(entity));
            let guests = entity is Artist && kind != LibraryEnrichmentAttemptKind::Detail
                && names_guests(name);
            &&& answered_at_once(entity, kind) is Some <==> name.len() == 0 || guests
            &&& answered_at_once(entity, kind) matches Some(outcome) ==> outcome.payload.status
                == LibraryEnrichmentStatus::NotFound && outcome.payload.entity == entity
                && outcome.payload.source_name == "TheAudioDB"@
        }),
{
}

} // verus!
