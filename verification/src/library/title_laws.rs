//! Laws of titles: under which an entity is looked up, and in which order.

use crate::library::matching::title_cased;
use crate::library::scoring::entity_name;
use crate::library::titles::{
    direct_candidates, direct_titles, new_search, search_candidates, search_queries, search_url,
    summary_url, with_new_titles, with_titles, SearchKind, SearchView,
};
use crate::percent::{percent_decoding_inverts_encoding, percent_encoded};
use crate::protocol::EntityView;
use crate::text::{blank, collapse, lower, trim};
use vstd::prelude::*;

verus! {

proof fn lemma_with_titles(titles: Seq<Seq<char>>, more: Seq<Seq<char>>)
    requires
        titles.no_duplicates(),
    ensures
        with_titles(titles, more).no_duplicates(),
        with_titles(titles, more).len() >= titles.len(),
        with_titles(titles, more).take(titles.len() as int) == titles,
        forall|i: int|
            0 <= i < more.len() && !blank(#[trigger] more[i]) ==> with_titles(
                titles,
                more,
            ).contains(trim(more[i])),
        forall|t: Seq<char>|
            #[trigger] with_titles(titles, more).contains(t) ==> titles.contains(t) || exists|i: int|
                0 <= i < more.len() && trim(#[trigger] more[i]) == t,
    decreases more.len(),
{
    if more.len() == 0 {
        assert(titles.take(titles.len() as int) =~= titles);
    } else {
        let before = more.drop_last();
        lemma_with_titles(titles, before);
        let old_titles = with_titles(titles, before);
        let all = with_titles(titles, more);
        let t = trim(more.last());
        assert(all.take(titles.len() as int) =~= titles);
        assert forall|i: int| 0 <= i < more.len() && !blank(#[trigger] more[i]) implies all.contains(
            trim(more[i]),
        ) by {
            if i < before.len() {
                assert(before[i] == more[i]);
                let k = choose|k: int| 0 <= k < old_titles.len() && old_titles[k] == trim(more[i]);
                assert(all[k] == trim(more[i]));
            } else if !old_titles.contains(t) {
                assert(all[old_titles.len() as int] == t);
            }
        }
        assert forall|x: Seq<char>| #[trigger] all.contains(x) implies titles.contains(x)
            || exists|i: int| 0 <= i < more.len() && trim(#[trigger] more[i]) == x by {
            let k = choose|k: int| 0 <= k < all.len() && all[k] == x;
            if k < old_titles.len() {
                assert(old_titles[k] == x);
                assert(old_titles.contains(x));
                if !titles.contains(x) {
                    let i = choose|i: int| 0 <= i < before.len() && trim(#[trigger] before[i]) == x;
                    assert(more[i] == before[i]);
                }
            } else {
                assert(trim(more[more.len() - 1]) == x);
            }
        }
    }
}

/// An entity is first looked up under its own name, as it is written; then under other ways to
/// write it. No title is tried twice, and each comes from the name.
pub proof fn entities_are_looked_up_by_name(entity: EntityView)
    requires
        !blank(collapse(entity_name(entity))),
    ensures
        direct_titles(entity).len() > 0,
        direct_titles(entity)[0] == trim(collapse(entity_name(entity))),
        direct_titles(entity).no_duplicates(),
        !blank(title_cased(collapse(entity_name(entity)))) ==> direct_titles(entity).contains(
            trim(title_cased(collapse(entity_name(entity)))),
        ),
        entity matches EntityView::Album { album, album_artist } ==> (!blank(
            collapse(album) + " (album)"@,
        ) ==> direct_titles(entity).contains(trim(collapse(album) + " (album)"@))) && (!blank(
            album_artist,
        ) && !blank(collapse(album) + " ("@ + collapse(album_artist) + " album)"@)
            ==> direct_titles(entity).contains(
            trim(collapse(album) + " ("@ + collapse(album_artist) + " album)"@),
        )),
        forall|t: Seq<char>|
            #[trigger] direct_titles(entity).contains(t) ==> exists|i: int|
                0 <= i < direct_candidates(entity).len() && trim(
                    #[trigger] direct_candidates(entity)[i],
                ) == t,
{
    let more = direct_candidates(entity);
    let empty = Seq::<Seq<char>>::empty();
    lemma_with_titles(empty, more);
    assert(more[0] == collapse(entity_name(entity)));
    assert(more[1] == title_cased(collapse(entity_name(entity))));
    lemma_first_title(more);
    match entity {
        EntityView::Album { album, album_artist } => {
            let n = more.len() - 1;
            assert(more[n] == collapse(album) + " (album)"@);
            if !blank(album_artist) {
                assert(more[n - 1] == collapse(album) + " ("@ + collapse(album_artist)
                    + " album)"@);
            }
        },
        _ => {},
    }
}

proof fn lemma_first_title(more: Seq<Seq<char>>)
    requires
        more.len() > 0,
        !blank(more[0]),
    ensures
        with_titles(Seq::empty(), more).len() > 0,
        with_titles(Seq::empty(), more)[0] == trim(more[0]),
    decreases more.len(),
{
    let empty = Seq::<Seq<char>>::empty();
    if more.len() == 1 {
        assert(more.drop_last() =~= empty);
        assert(with_titles(empty, empty) == empty);
        assert(more.last() == more[0]);
    } else {
        lemma_first_title(more.drop_last());
    }
}

proof fn lemma_with_new_titles(titles: Seq<Seq<char>>, more: Seq<Seq<char>>)
    ensures
        with_new_titles(titles, more).len() >= titles.len(),
        with_new_titles(titles, more).take(titles.len() as int) == titles,
        forall|i: int|
            0 <= i < more.len() && !blank(#[trigger] more[i]) ==> exists|k: int|
                0 <= k < with_new_titles(titles, more).len() && lower(
                    #[trigger] with_new_titles(titles, more)[k],
                ) == lower(trim(more[i])),
    decreases more.len(),
{
    if more.len() == 0 {
        assert(titles.take(titles.len() as int) =~= titles);
    } else {
        let before = more.drop_last();
        lemma_with_new_titles(titles, before);
        let old_titles = with_new_titles(titles, before);
        let all = with_new_titles(titles, more);
        assert(all.take(titles.len() as int) =~= titles);
        assert forall|i: int| 0 <= i < more.len() && !blank(#[trigger] more[i]) implies exists|k: int|
            0 <= k < all.len() && lower(#[trigger] all[k]) == lower(trim(more[i])) by {
            if i < before.len() {
                assert(before[i] == more[i]);
                let k = choose|k: int|
                    0 <= k < old_titles.len() && lower(#[trigger] old_titles[k]) == lower(
                        trim(before[i]),
                    );
                assert(all[k] == old_titles[k]);
            } else if all.len() > old_titles.len() {
                assert(all[old_titles.len() as int] == trim(more[i]));
            } else {
                let k = choose|k: int|
                    0 <= k < old_titles.len() && lower(#[trigger] old_titles[k]) == lower(
                        trim(more[i]),
                    );
                assert(all[k] == old_titles[k]);
            }
        }
    }
}

/// Found titles are added behind those known already, which stay; each that is not blank is
/// then known, in some case. A failed search finds none.
pub proof fn found_titles_are_added(
    s: SearchView,
    found: Seq<Seq<char>>,
    reason: Seq<char>,
    i: int,
)
    ensures
        s.told(Ok(found)).titles.len() >= s.titles.len(),
        s.told(Ok(found)).titles.take(s.titles.len() as int) == s.titles,
        0 <= i < found.len() && !blank(found[i]) ==> exists|k: int|
            0 <= k < s.told(Ok(found)).titles.len() && lower(
                #[trigger] s.told(Ok(found)).titles[k],
            ) == lower(trim(found[i])),
        s.told(Ok(found)).next_query == s.next_query,
        s.told(Ok(found)).next_step == s.next_step,
        s.told(Err(reason)).titles == s.titles,
        s.told(Err(reason)).next_query == s.next_query,
        s.told(Err(reason)).next_step == s.next_step,
        s.saw_timeout is Some ==> s.told(Err(reason)).saw_timeout == s.saw_timeout,
        s.saw_hard_error is Some ==> s.told(Err(reason)).saw_hard_error == s.saw_hard_error,
{
    lemma_with_new_titles(s.titles, found);
    if 0 <= i < found.len() && !blank(found[i]) {
        let all = with_new_titles(s.titles, found);
        let k = choose|k: int|
            0 <= k < all.len() && lower(#[trigger] all[k]) == lower(trim(found[i]));
        assert(s.told(Ok(found)).titles[k] == all[k]);
    }
}

/// Of the titles that a search found, the first 48 are used, in their order.
pub proof fn the_first_titles_are_used(s: SearchView)
    ensures
        s.titles.len() <= 48 ==> s.kept() == s.titles,
        s.titles.len() > 48 ==> s.kept() == s.titles.take(48),
{
}

/// Each query is asked in three ways, one after the other: for a near match, for a title, and
/// as titles are completed; then the next query follows. Without time left nothing more is
/// asked.
pub proof fn queries_are_asked_in_three_ways(s: SearchView)
    requires
        !s.saw_budget,
        s.next_query < s.queries.len(),
        !blank(s.queries[s.next_query as int]),
    ensures
        s.next_step == 0 ==> s.next(false).1 == Some(
            (SearchKind::NearMatch, s.queries[s.next_query as int]),
        ),
        s.next_step == 1 ==> s.next(false).1 == Some(
            (SearchKind::Title, s.queries[s.next_query as int]),
        ),
        s.next_step == 2 ==> s.next(false).1 == Some(
            (SearchKind::RestTitle, s.queries[s.next_query as int]),
        ),
        s.next_step < 3 ==> s.next(false).0 == (SearchView { next_step: s.next_step + 1, ..s }),
        s.next_step == 3 ==> s.next(false) == (SearchView {
            next_query: s.next_query + 1,
            next_step: 0,
            ..s
        }).next(false),
        s.next(true).1 is None,
        s.next(true).0.saw_budget,
{
}

/// A search starts with the entity's own names as titles, and asks for the name in quotes
/// first.
pub proof fn searches_start_from_the_name(entity: EntityView)
    requires
        !blank(collapse(entity_name(entity))),
    ensures
        new_search(entity).next_query == 0,
        new_search(entity).next_step == 0,
        new_search(entity).queries.len() > 0,
        exists|k: int|
            0 <= k < new_search(entity).titles.len() && lower(
                #[trigger] new_search(entity).titles[k],
            ) == lower(trim(collapse(entity_name(entity)))),
        entity matches EntityView::Artist { artist } ==> new_search(entity).queries[0] == "\""@
            + collapse(artist) + "\""@ && new_search(entity).queries.contains(
            collapse(artist) + " musician"@,
        ) && new_search(entity).queries.contains(collapse(artist)),
        entity matches EntityView::Album { album, album_artist } ==> {
            &&& collapse(album_artist).len() > 0 ==> new_search(entity).queries[0] == "\""@
                + collapse(album) + "\""@ + " "@ + ("\""@ + collapse(album_artist) + "\""@)
                + " album"@
            &&& collapse(album_artist).len() == 0 ==> new_search(entity).queries[0] == "\""@
                + collapse(album) + "\""@ + " album"@
            &&& new_search(entity).queries.contains(collapse(album))
        },
{
    let more = search_candidates(entity);
    let empty = Seq::<Seq<char>>::empty();
    let name = collapse(entity_name(entity));
    assert(name.len() > 0) by {
        if name.len() == 0 {
            assert(name =~= Seq::<char>::empty());
        }
    }
    lemma_with_new_titles(empty, more);
    assert(more[0] == name);
    let k = choose|k: int|
        0 <= k < with_new_titles(empty, more).len() && lower(
            #[trigger] with_new_titles(empty, more)[k],
        ) == lower(trim(more[0]));
    assert(new_search(entity).titles[k] == with_new_titles(empty, more)[k]);
    let asked = search_queries(entity);
    match entity {
        EntityView::Artist { artist } => {
            assert(asked[2] == collapse(artist) + " musician"@);
            assert(asked[7] == collapse(artist));
        },
        EntityView::Album { album, album_artist } => {
            if collapse(album_artist).len() == 0 {
                assert(asked[2] == collapse(album));
            } else {
                assert(asked[4] == collapse(album));
            }
        },
    }
}

/// Pages are fetched under the encoded title, so different titles have different addresses.
pub proof fn titles_have_their_own_address(a: Seq<char>, b: Seq<char>)
    ensures
        a != b ==> summary_url(a) != summary_url(b),
        a != b ==> search_url(SearchKind::NearMatch, a) != search_url(SearchKind::NearMatch, b),
        a != b ==> search_url(SearchKind::Title, a) != search_url(SearchKind::Title, b),
        a != b ==> search_url(SearchKind::RestTitle, a) != search_url(SearchKind::RestTitle, b),
        search_url(SearchKind::NearMatch, a)
            == "https://en.wikipedia.org/w/api.php?action=query&list=search&srsearch="@
            + percent_encoded(a) + "&srwhat=nearmatch&srlimit=12&format=json&utf8=1&maxlag=5"@,
        search_url(SearchKind::Title, a)
            == "https://en.wikipedia.org/w/api.php?action=query&list=search&srsearch="@
            + percent_encoded(a) + "&srwhat=title&srlimit=12&format=json&utf8=1&maxlag=5"@,
        search_url(SearchKind::RestTitle, a)
            == "https://en.wikipedia.org/w/rest.php/v1/search/title?q="@ + percent_encoded(a)
            + "&limit=12"@,
{
    percent_decoding_inverts_encoding(a);
    percent_decoding_inverts_encoding(b);
    let x = percent_encoded(a);
    let y = percent_encoded(b);
    if a != b {
        lemma_middle(
            "https://en.wikipedia.org/w/api.php?action=query&prop=extracts|pageimages|description|pageprops|info|categories&inprop=url&redirects=1&exintro=1&explaintext=1&pithumbsize=640&titles="@,
            x,
            y,
            "&clshow=!hidden&cllimit=50&format=json&utf8=1&maxlag=5"@,
        );
        lemma_middle(
            "https://en.wikipedia.org/w/api.php?action=query&list=search&srsearch="@,
            x,
            y,
            "&srwhat=nearmatch&srlimit=12&format=json&utf8=1&maxlag=5"@,
        );
        lemma_middle(
            "https://en.wikipedia.org/w/api.php?action=query&list=search&srsearch="@,
            x,
            y,
            "&srwhat=title&srlimit=12&format=json&utf8=1&maxlag=5"@,
        );
        lemma_middle(
            "https://en.wikipedia.org/w/rest.php/v1/search/title?q="@,
            x,
            y,
            "&limit=12"@,
        );
    }
}

proof fn lemma_middle(front: Seq<char>, x: Seq<char>, y: Seq<char>, back: Seq<char>)
    requires
        x != y,
    ensures
        front + x + back != front + y + back,
{
    let a = front + x + back;
    let b = front + y + back;
    if a == b {
        assert(a.len() == front.len() + x.len() + back.len());
        assert(b.len() == front.len() + y.len() + back.len());
        assert(x =~= a.subrange(front.len() as int, (front.len() + x.len()) as int));
        assert(y =~= b.subrange(front.len() as int, (front.len() + y.len()) as int));
    }
}

} // verus!
