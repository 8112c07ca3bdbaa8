//! What holds of the lists of the library as a whole.

use crate::library::catalog::{
    album_entry, album_list, album_of, album_tracks, artist_entry, artist_list, artist_of,
    artist_tracks, capped, decade_entry, decade_list, decade_of, decade_tracks, firsts, genre_entry,
    genre_list, genre_of, genre_tracks, lemma_firsts, occurrences, of_album, of_artist, of_decade,
    of_genre, sorted_by, track_keys, TrackOrder,
};
use crate::library::order::{ascending, picked, slot, sorted_indices, sorting_is_stable};
use crate::library::pages::{
    library_tracks, lists_path, new_paths, page, with_new_tracks,
};
use crate::library::paths::path_identity;
use crate::protocol::TrackView;
use vstd::prelude::*;

verus! {

/// A sorted list holds the same items as the list it was made from, as often as that one, and its
/// keys ascend.
pub proof fn sorting_keeps_the_items<A>(items: Seq<A>, key: spec_fn(A) -> Seq<Seq<u32>>)
    ensures
        sorted_by(items, key).to_multiset() == items.to_multiset(),
        sorted_by(items, key).len() == items.len(),
        ascending(sorted_by(items, key).map_values(key)),
    decreases items.len(),
{
    broadcast use vstd::seq_lib::group_to_multiset_ensures;

    let keys = items.map_values(key);
    sorting_is_stable(keys);
    let order = sorted_indices(keys);
    assert(sorted_by(items, key).map_values(key) =~= picked(keys, order));
    if items.len() == 0 {
        assert(sorted_by(items, key) =~= items);
    } else {
        let before = items.drop_last();
        sorting_keeps_the_items(before, key);
        assert(keys.drop_last() =~= before.map_values(key));
        sorting_is_stable(before.map_values(key));
        let rest = sorted_indices(before.map_values(key));
        let at = slot(picked(keys, rest), keys.last()) as int;
        lemma_slot(picked(keys, rest), keys.last());
        assert(order == rest.insert(at, keys.len() - 1));
        assert(picked(items, rest) =~= sorted_by(before, key));
        assert(sorted_by(items, key) =~= sorted_by(before, key).insert(at, items.last()));
        vstd::seq_lib::to_multiset_insert(sorted_by(before, key), at, items.last());
        assert(items =~= before.push(items.last()));
    }
}

proof fn lemma_slot(keys: Seq<Seq<Seq<u32>>>, key: Seq<Seq<u32>>)
    ensures
        slot(keys, key) <= keys.len(),
    decreases keys.len(),
{
    if keys.len() > 0 {
        lemma_slot(keys.drop_last(), key);
    }
}

/// As many items pass a test as have the label for which it tests.
pub proof fn lemma_counted<L>(
    tracks: Seq<TrackView>,
    label: spec_fn(TrackView) -> L,
    wanted: L,
    test: spec_fn(TrackView) -> bool,
)
    requires
        forall|t: TrackView| #[trigger] test(t) <==> label(t) == wanted,
    ensures
        occurrences(tracks.map_values(label), wanted) == tracks.filter(test).len(),
    decreases tracks.len(),
{
    reveal(Seq::filter);
    if tracks.len() > 0 {
        let rest = tracks.drop_last();
        assert(tracks.map_values(label).drop_last() =~= rest.map_values(label));
        lemma_counted(rest, label, wanted, test);
        assert(test(tracks.last()) <==> label(tracks.last()) == wanted);
    }
}

/// The number of tracks that is listed for a genre is the number of tracks that the genre's own
/// list shows.
pub proof fn genre_counts_match_their_lists(tracks: Seq<TrackView>, genre: Seq<char>)
    ensures
        genre_entry(tracks)(genre).track_count == capped(genre_tracks(tracks, genre).len()),
{
    lemma_counted(tracks, genre_of(), genre, of_genre(genre));
    sorting_keeps_the_items(tracks.filter(of_genre(genre)), track_keys(TrackOrder::GenreDetail));
}

/// The same of decades.
pub proof fn decade_counts_match_their_lists(tracks: Seq<TrackView>, decade: Seq<char>)
    ensures
        decade_entry(tracks)(decade).track_count == capped(decade_tracks(tracks, decade).len()),
{
    lemma_counted(tracks, decade_of(), decade, of_decade(decade));
    sorting_keeps_the_items(tracks.filter(of_decade(decade)), track_keys(TrackOrder::DecadeDetail));
}

/// The same of albums.
pub proof fn album_counts_match_their_lists(
    tracks: Seq<TrackView>,
    album: Seq<char>,
    album_artist: Seq<char>,
)
    ensures
        album_entry(tracks)((album, album_artist)).track_count == capped(
            album_tracks(tracks, album, album_artist).len(),
        ),
{
    lemma_counted(tracks, album_of(), (album, album_artist), of_album(album, album_artist));
    sorting_keeps_the_items(
        tracks.filter(of_album(album, album_artist)),
        track_keys(TrackOrder::AlbumDetail),
    );
}

/// An artist's own list shows at least the tracks that are counted for the artist: besides them
/// it shows those of the artist's albums.
pub proof fn artist_counts_do_not_exceed_their_lists(tracks: Seq<TrackView>, artist: Seq<char>)
    ensures
        artist_entry(tracks)(artist).track_count <= capped(artist_tracks(tracks, artist).len()),
{
    lemma_artist_counted(tracks, artist);
    sorting_keeps_the_items(
        tracks.filter(of_artist(artist)),
        track_keys(TrackOrder::ArtistDetail),
    );
}

proof fn lemma_artist_counted(tracks: Seq<TrackView>, artist: Seq<char>)
    ensures
        occurrences(tracks.map_values(artist_of()), artist) <= tracks.filter(
            of_artist(artist),
        ).len(),
    decreases tracks.len(),
{
    reveal(Seq::filter);
    if tracks.len() > 0 {
        let rest = tracks.drop_last();
        assert(tracks.map_values(artist_of()).drop_last() =~= rest.map_values(artist_of()));
        lemma_artist_counted(rest, artist);
    }
}

pub proof fn lemma_sorted_contains<A>(items: Seq<A>, key: spec_fn(A) -> Seq<Seq<u32>>, a: A)
    ensures
        sorted_by(items, key).contains(a) <==> items.contains(a),
{
    broadcast use vstd::seq_lib::group_to_multiset_ensures;

    sorting_keeps_the_items(items, key);
    assert(sorted_by(items, key).contains(a) <==> sorted_by(items, key).to_multiset().count(a) > 0);
    assert(items.contains(a) <==> items.to_multiset().count(a) > 0);
}

/// Every track's artist, album, genre and decade is listed.
pub proof fn every_track_is_listed(tracks: Seq<TrackView>, i: int)
    requires
        0 <= i < tracks.len(),
    ensures
        artist_list(tracks).contains(artist_entry(tracks)(tracks[i].artist)),
        album_list(tracks).contains(
            album_entry(tracks)((tracks[i].album, tracks[i].album_artist)),
        ),
        genre_list(tracks).contains(genre_entry(tracks)(genre_of()(tracks[i]))),
        decade_list(tracks).contains(decade_entry(tracks)(decade_of()(tracks[i]))),
{
    lemma_entry_listed(tracks, artist_of(), artist_entry(tracks), i);
    lemma_entry_listed(tracks, album_of(), album_entry(tracks), i);
    lemma_entry_listed(tracks, genre_of(), genre_entry(tracks), i);
    lemma_entry_listed(tracks, decade_of(), decade_entry(tracks), i);
    lemma_sorted_contains(
        firsts(tracks.map_values(artist_of())).map_values(artist_entry(tracks)),
        crate::library::catalog::artist_keys(),
        artist_entry(tracks)(tracks[i].artist),
    );
    lemma_sorted_contains(
        firsts(tracks.map_values(album_of())).map_values(album_entry(tracks)),
        crate::library::catalog::album_keys(),
        album_entry(tracks)((tracks[i].album, tracks[i].album_artist)),
    );
    lemma_sorted_contains(
        firsts(tracks.map_values(genre_of())).map_values(genre_entry(tracks)),
        crate::library::catalog::genre_keys(),
        genre_entry(tracks)(genre_of()(tracks[i])),
    );
    lemma_sorted_contains(
        firsts(tracks.map_values(decade_of())).map_values(decade_entry(tracks)),
        crate::library::catalog::decade_keys(),
        decade_entry(tracks)(decade_of()(tracks[i])),
    );
}

proof fn lemma_entry_listed<L, E>(
    tracks: Seq<TrackView>,
    label: spec_fn(TrackView) -> L,
    entry: spec_fn(L) -> E,
    i: int,
)
    requires
        0 <= i < tracks.len(),
    ensures
        firsts(tracks.map_values(label)).map_values(entry).contains(entry(label(tracks[i]))),
{
    let labels = tracks.map_values(label);
    lemma_firsts(labels);
    assert(labels[i] == label(tracks[i]));
    assert(labels.contains(label(tracks[i])));
    let j = firsts(labels).index_of(label(tracks[i]));
    assert(firsts(labels).map_values(entry)[j] == entry(label(tracks[i])));
}

/// No two tracks of a list have the same path.
pub open spec fn paths_differ(tracks: Seq<TrackView>) -> bool {
    forall|i: int, j: int|
        0 <= i < j < tracks.len() ==> path_identity((#[trigger] tracks[i]).path) != path_identity(
            (#[trigger] tracks[j]).path,
        )
}

proof fn lemma_with_new(tracks: Seq<TrackView>, more: Seq<TrackView>)
    ensures
        with_new_tracks(tracks, more).len() >= tracks.len(),
        with_new_tracks(tracks, more).take(tracks.len() as int) == tracks,
        forall|i: int|
            0 <= i < more.len() ==> lists_path(
                with_new_tracks(tracks, more),
                (#[trigger] more[i]).path,
            ),
        paths_differ(tracks) ==> paths_differ(with_new_tracks(tracks, more)),
    decreases more.len(),
{
    let all = with_new_tracks(tracks, more);
    if more.len() == 0 {
        assert(tracks.take(tracks.len() as int) =~= tracks);
    } else {
        let rest = with_new_tracks(tracks, more.drop_last());
        lemma_with_new(tracks, more.drop_last());
        assert(all.take(tracks.len() as int) =~= rest.take(tracks.len() as int));
        assert forall|i: int| 0 <= i < more.len() implies lists_path(
            all,
            (#[trigger] more[i]).path,
        ) by {
            if i < more.len() - 1 {
                assert(more.drop_last()[i] == more[i]);
                assert(lists_path(rest, more[i].path));
                let k = choose|k: int|
                    0 <= k < rest.len() && path_identity((#[trigger] rest[k]).path)
                        == path_identity(more[i].path);
                assert(all[k] == rest[k]);
            } else if !lists_path(rest, more.last().path) {
                assert(all[rest.len() as int] == more.last());
            }
        }
        if paths_differ(tracks) {
            assert forall|i: int, j: int| 0 <= i < j < all.len() implies path_identity(
                (#[trigger] all[i]).path,
            ) != path_identity((#[trigger] all[j]).path) by {
                assert(all[i] == rest[i]);
                if j < rest.len() {
                    assert(all[j] == rest[j]);
                }
            }
        }
    }
}

/// The library shows every indexed track, and every path of a server's tracks and of the
/// playlists' tracks.
pub proof fn no_path_is_left_out(
    indexed: Seq<TrackView>,
    remote: Seq<TrackView>,
    playlists: Seq<TrackView>,
)
    ensures
        forall|i: int|
            0 <= i < indexed.len() ==> library_tracks(indexed, remote, playlists).contains(
                #[trigger] indexed[i],
            ),
        forall|i: int|
            0 <= i < remote.len() ==> lists_path(
                library_tracks(indexed, remote, playlists),
                (#[trigger] remote[i]).path,
            ),
        forall|i: int|
            0 <= i < playlists.len() ==> lists_path(
                library_tracks(indexed, remote, playlists),
                (#[trigger] playlists[i]).path,
            ),
{
    let own = with_new_tracks(indexed, remote);
    let all = with_new_tracks(own, playlists);
    let shown = library_tracks(indexed, remote, playlists);
    let key = track_keys(TrackOrder::All);
    lemma_with_new(indexed, remote);
    lemma_with_new(own, playlists);
    assert forall|t: TrackView| all.contains(t) implies #[trigger] shown.contains(t) by {
        lemma_sorted_contains(all, key, t);
    }
    assert forall|path: Seq<char>| lists_path(all, path) implies #[trigger] lists_path(
        shown,
        path,
    ) by {
        let k = choose|k: int|
            0 <= k < all.len() && path_identity((#[trigger] all[k]).path) == path_identity(path);
        assert(all.contains(all[k]));
        assert(shown.contains(all[k]));
        let j = shown.index_of(all[k]);
        assert(shown[j] == all[k]);
    }
    assert forall|i: int| 0 <= i < indexed.len() implies shown.contains(#[trigger] indexed[i]) by {
        assert(own.take(indexed.len() as int)[i] == own[i]);
        assert(all.take(own.len() as int)[i] == all[i]);
        assert(all[i] == indexed[i]);
        assert(all.contains(indexed[i]));
    }
    assert forall|i: int| 0 <= i < remote.len() implies lists_path(
        shown,
        (#[trigger] remote[i]).path,
    ) by {
        assert(lists_path(own, remote[i].path));
        let k = choose|k: int|
            0 <= k < own.len() && path_identity((#[trigger] own[k]).path) == path_identity(
                remote[i].path,
            );
        assert(all.take(own.len() as int)[k] == all[k]);
        assert(lists_path(all, remote[i].path));
    }
    assert forall|i: int| 0 <= i < playlists.len() implies lists_path(
        shown,
        (#[trigger] playlists[i]).path,
    ) by {
        assert(lists_path(all, playlists[i].path));
    }
}

/// Where the index has every path once, the library shows every path once.
pub proof fn no_path_is_shown_twice(
    indexed: Seq<TrackView>,
    remote: Seq<TrackView>,
    playlists: Seq<TrackView>,
)
    requires
        paths_differ(indexed),
    ensures
        paths_differ(library_tracks(indexed, remote, playlists)),
{
    let own = with_new_tracks(indexed, remote);
    let all = with_new_tracks(own, playlists);
    let shown = library_tracks(indexed, remote, playlists);
    lemma_with_new(indexed, remote);
    lemma_with_new(own, playlists);
    let keys = all.map_values(track_keys(TrackOrder::All));
    sorting_is_stable(keys);
    let order = sorted_indices(keys);
    assert forall|i: int, j: int| 0 <= i < j < shown.len() implies path_identity(
        (#[trigger] shown[i]).path,
    ) != path_identity((#[trigger] shown[j]).path) by {
        assert(order[i] != order[j]);
        assert(shown[i] == all[order[i]]);
        assert(shown[j] == all[order[j]]);
    }
}

proof fn lemma_new_paths_are_new(
    tracks: Seq<TrackView>,
    paths: Seq<Seq<char>>,
    read: spec_fn(Seq<char>) -> TrackView,
)
    requires
        forall|p: Seq<char>| (#[trigger] read(p)).path == p,
    ensures
        with_new_tracks(tracks, paths.map_values(read)) == tracks + new_paths(
            tracks,
            paths,
        ).map_values(read),
    decreases paths.len(),
{
    let all = paths.map_values(read);
    if paths.len() == 0 {
        assert(tracks + new_paths(tracks, paths).map_values(read) =~= tracks);
    } else {
        let before = paths.drop_last();
        lemma_new_paths_are_new(tracks, before, read);
        assert(all.drop_last() =~= before.map_values(read));
        let fresh = new_paths(tracks, before);
        let rest = tracks + fresh.map_values(read);
        let path = paths.last();
        assert(read(path).path == path);
        assert(lists_path(rest, path) == (lists_path(tracks, path) || exists|i: int|
            0 <= i < fresh.len() && path_identity(#[trigger] fresh[i]) == path_identity(path))) by {
            if lists_path(tracks, path) {
                let k = choose|k: int|
                    0 <= k < tracks.len() && path_identity((#[trigger] tracks[k]).path)
                        == path_identity(path);
                assert(rest[k] == tracks[k]);
            }
            if exists|i: int|
                0 <= i < fresh.len() && path_identity(#[trigger] fresh[i]) == path_identity(path) {
                let k = choose|k: int|
                    0 <= k < fresh.len() && path_identity(#[trigger] fresh[k]) == path_identity(
                        path,
                    );
                assert(rest[tracks.len() + k] == read(fresh[k]));
                assert(read(fresh[k]).path == fresh[k]);
            }
            if lists_path(rest, path) {
                let k = choose|k: int|
                    0 <= k < rest.len() && path_identity((#[trigger] rest[k]).path)
                        == path_identity(path);
                if k < tracks.len() {
                    assert(tracks[k] == rest[k]);
                } else {
                    let f = fresh[k - tracks.len()];
                    assert(rest[k] == read(f));
                    assert(read(f).path == f);
                }
            }
        }
        assert(rest.push(read(path)) =~= tracks + fresh.push(path).map_values(read));
    }
}

proof fn lemma_new_paths_again(tracks: Seq<TrackView>, paths: Seq<Seq<char>>)
    ensures
        new_paths(tracks, new_paths(tracks, paths)) == new_paths(tracks, paths),
    decreases paths.len(),
{
    if paths.len() > 0 {
        let rest = new_paths(tracks, paths.drop_last());
        lemma_new_paths_again(tracks, paths.drop_last());
        let all = new_paths(tracks, paths);
        if all != rest {
            assert(all.drop_last() =~= rest);
        }
    }
}

/// It is enough to read the tags of those playlist paths for which the library has no track:
/// reading all of them shows the same tracks.
pub proof fn reading_unlisted_paths_suffices(
    indexed: Seq<TrackView>,
    remote: Seq<TrackView>,
    paths: Seq<Seq<char>>,
    read: spec_fn(Seq<char>) -> TrackView,
)
    requires
        forall|p: Seq<char>| (#[trigger] read(p)).path == p,
    ensures
        library_tracks(
            indexed,
            remote,
            new_paths(with_new_tracks(indexed, remote), paths).map_values(read),
        ) == library_tracks(indexed, remote, paths.map_values(read)),
{
    let own = with_new_tracks(indexed, remote);
    lemma_new_paths_are_new(own, paths, read);
    lemma_new_paths_are_new(own, new_paths(own, paths), read);
    lemma_new_paths_again(own, paths);
}

/// Two pages that follow each other show what one page of their common length shows.
pub proof fn pages_follow_each_other<A>(rows: Seq<A>, offset: nat, first: nat, second: nat)
    requires
        first > 0,
        second > 0,
    ensures
        page(rows, offset, first) + page(rows, offset + first, second) == page(
            rows,
            offset,
            first + second,
        ),
{
    assert(page(rows, offset, first) + page(rows, offset + first, second) =~= page(
        rows,
        offset,
        first + second,
    ));
}

} // verus!
