//! Laws of browsing: what each list shows, in which order, and what a selection gives.

use crate::library::catalog::{
    album_entry, album_list, album_of, album_tracks, albums_of, artist_entry, artist_list,
    artist_of, artist_tracks, capped, decade_entry, decade_label, decade_list, decade_of,
    decade_tracks, firsts, genre_entry, genre_label, genre_list, genre_of, genre_tracks,
    least_path, lemma_firsts, of_album, of_artist, of_decade, of_genre, sorted_by, sung_by,
    track_keys, track_position, TrackOrder,
};
use crate::library::catalog_laws::{lemma_counted, lemma_sorted_contains, sorting_keeps_the_items};
use crate::library::order::{
    key_less, keys_are_totally_ordered, picked, sorted_indices, sorting_is_stable, text_part,
};
use crate::library::pages::{
    album_rows, artist_rows, effective_tracks, library_tracks, page, rows_of, search_rows, source_of, track_page,
    track_rows, with_new_tracks, PageSource,
};
use crate::library::paths::path_key;
use crate::library::selection::{
    addition_outcome, all_item_paths, item_paths, selected_paths, selection_outcome,
};
use crate::protocol::{
    FavoriteEntityKind, LibrarySelectionSpec, LibraryViewQuery, RowView, TrackView,
};
use crate::text::{
    all_digits, ascii_digit, blank, decimal, digit_run, lemma_digit_run, lower, trim,
};
use crate::text_laws::decimals_read_back;
use vstd::prelude::*;

verus! {

proof fn lemma_filtered(
    tracks: Seq<TrackView>,
    test: spec_fn(TrackView) -> bool,
    order: TrackOrder,
    t: TrackView,
)
    ensures
        sorted_by(tracks.filter(test), track_keys(order)).contains(t) <==> tracks.contains(t)
            && test(t),
{
    broadcast use {
        vstd::seq::Seq::lemma_filter_pred,
        vstd::seq::Seq::lemma_filter_contains,
        vstd::seq::Seq::lemma_filter_contains_rev,
    };

    let kept = tracks.filter(test);
    lemma_sorted_contains(kept, track_keys(order), t);
    if kept.contains(t) {
        let i = choose|i: int| 0 <= i < kept.len() && kept[i] == t;
        assert(test(kept[i]));
    }
    if tracks.contains(t) && test(t) {
        let i = choose|i: int| 0 <= i < tracks.len() && tracks[i] == t;
        assert(kept.contains(tracks[i]));
    }
}

/// The list of an artist shows the tracks that the artist sings and those on the artist's
/// albums; the list of an album those with the album's name and artist; those of a genre and
/// of a decade the tracks that count to them. None shows anything else.
pub proof fn lists_show_their_tracks(
    tracks: Seq<TrackView>,
    name: Seq<char>,
    album_artist: Seq<char>,
    t: TrackView,
)
    ensures
        artist_tracks(tracks, name).contains(t) <==> tracks.contains(t) && (t.artist == name
            || t.album_artist == name),
        album_tracks(tracks, name, album_artist).contains(t) <==> tracks.contains(t) && t.album
            == name && t.album_artist == album_artist,
        genre_tracks(tracks, name).contains(t) <==> tracks.contains(t) && name == (if blank(
            t.genre,
        ) {
            "Unknown Genre"@
        } else {
            trim(t.genre)
        }),
        decade_tracks(tracks, name).contains(t) <==> tracks.contains(t) && decade_label(t.year)
            == name,
{
    lemma_filtered(tracks, of_artist(name), TrackOrder::ArtistDetail, t);
    lemma_filtered(tracks, of_album(name, album_artist), TrackOrder::AlbumDetail, t);
    lemma_filtered(tracks, of_genre(name), TrackOrder::GenreDetail, t);
    lemma_filtered(tracks, of_decade(name), TrackOrder::DecadeDetail, t);
}

/// A year of at least three digits counts to the decade of its first three; any other to none
/// that is known.
pub proof fn years_count_to_their_decade(year: Seq<char>)
    ensures
        trim(year).len() >= 3 && all_digits(trim(year).take(3)) ==> decade_label(year) == trim(
            year,
        ).take(3) + "0s"@,
        trim(year).len() < 3 ==> decade_label(year) == "Unknown Decade"@,
        trim(year).len() >= 3 && !all_digits(trim(year).take(3)) ==> decade_label(year)
            == "Unknown Decade"@,
        genre_label(year) == (if blank(year) {
            "Unknown Genre"@
        } else {
            trim(year)
        }),
{
    let t = trim(year);
    if t.len() >= 3 {
        let head = t.take(3);
        assert(head[0] == t[0] && head[1] == t[1] && head[2] == t[2]);
        if ascii_digit(t[0]) && ascii_digit(t[1]) && ascii_digit(t[2]) {
            assert(all_digits(head));
        }
    }
}

proof fn lemma_sorted<A>(items: Seq<A>, key: spec_fn(A) -> Seq<Seq<u32>>, i: int, j: int)
    requires
        0 <= i < j < sorted_by(items, key).len(),
    ensures
        !key_less(key(sorted_by(items, key)[j]), key(sorted_by(items, key)[i])),
{
    sorting_keeps_the_items(items, key);
    let keys = sorted_by(items, key).map_values(key);
    assert(!key_less(keys[j], keys[i]));
}

/// The tracks of an artist are ordered by album, number on it and title; those of an album by
/// number and title; those of a genre by artist, album, number and title; those of a decade by
/// year first. Case does not count, and equal ones are ordered by path.
pub proof fn lists_are_in_order(
    tracks: Seq<TrackView>,
    name: Seq<char>,
    album_artist: Seq<char>,
    i: int,
    j: int,
)
    requires
        0 <= i < j,
    ensures
        j < artist_tracks(tracks, name).len() ==> {
            let a = artist_tracks(tracks, name)[i];
            let b = artist_tracks(tracks, name)[j];
            !key_less(
                seq![
                    text_part(lower(b.album)),
                    seq![track_position(b.track_number) as u32],
                    text_part(lower(b.title)),
                ] + path_key(b.path),
                seq![
                    text_part(lower(a.album)),
                    seq![track_position(a.track_number) as u32],
                    text_part(lower(a.title)),
                ] + path_key(a.path),
            )
        },
        j < album_tracks(tracks, name, album_artist).len() ==> {
            let a = album_tracks(tracks, name, album_artist)[i];
            let b = album_tracks(tracks, name, album_artist)[j];
            !key_less(
                seq![seq![track_position(b.track_number) as u32], text_part(lower(b.title))]
                    + path_key(b.path),
                seq![seq![track_position(a.track_number) as u32], text_part(lower(a.title))]
                    + path_key(a.path),
            )
        },
        j < genre_tracks(tracks, name).len() ==> {
            let a = genre_tracks(tracks, name)[i];
            let b = genre_tracks(tracks, name)[j];
            !key_less(
                seq![
                    text_part(lower(b.artist)),
                    text_part(lower(b.album)),
                    seq![track_position(b.track_number) as u32],
                    text_part(lower(b.title)),
                ] + path_key(b.path),
                seq![
                    text_part(lower(a.artist)),
                    text_part(lower(a.album)),
                    seq![track_position(a.track_number) as u32],
                    text_part(lower(a.title)),
                ] + path_key(a.path),
            )
        },
        j < decade_tracks(tracks, name).len() ==> {
            let a = decade_tracks(tracks, name)[i];
            let b = decade_tracks(tracks, name)[j];
            !key_less(
                seq![
                    text_part(b.year),
                    text_part(lower(b.artist)),
                    text_part(lower(b.album)),
                    seq![track_position(b.track_number) as u32],
                    text_part(lower(b.title)),
                ] + path_key(b.path),
                seq![
                    text_part(a.year),
                    text_part(lower(a.artist)),
                    text_part(lower(a.album)),
                    seq![track_position(a.track_number) as u32],
                    text_part(lower(a.title)),
                ] + path_key(a.path),
            )
        },
{
    if j < artist_tracks(tracks, name).len() {
        lemma_sorted(
            tracks.filter(of_artist(name)),
            track_keys(TrackOrder::ArtistDetail),
            i,
            j,
        );
    }
    if j < album_tracks(tracks, name, album_artist).len() {
        lemma_sorted(
            tracks.filter(of_album(name, album_artist)),
            track_keys(TrackOrder::AlbumDetail),
            i,
            j,
        );
    }
    if j < genre_tracks(tracks, name).len() {
        lemma_sorted(tracks.filter(of_genre(name)), track_keys(TrackOrder::GenreDetail), i, j);
    }
    if j < decade_tracks(tracks, name).len() {
        lemma_sorted(tracks.filter(of_decade(name)), track_keys(TrackOrder::DecadeDetail), i, j);
    }
}

/// The library is ordered by title, artist and album, without regard to case, and shows every
/// track that was gathered.
pub proof fn the_library_is_in_order(
    indexed: Seq<TrackView>,
    remote: Seq<TrackView>,
    playlists: Seq<TrackView>,
    i: int,
    j: int,
)
    requires
        0 <= i < j < library_tracks(indexed, remote, playlists).len(),
    ensures
        ({
            let a = library_tracks(indexed, remote, playlists)[i];
            let b = library_tracks(indexed, remote, playlists)[j];
            !key_less(
                seq![
                    text_part(lower(b.title)),
                    text_part(lower(b.artist)),
                    text_part(lower(b.album)),
                ] + path_key(b.path),
                seq![
                    text_part(lower(a.title)),
                    text_part(lower(a.artist)),
                    text_part(lower(a.album)),
                ] + path_key(a.path),
            )
        }),
{
    lemma_sorted(
        with_new_tracks(with_new_tracks(indexed, remote), playlists),
        track_keys(TrackOrder::All),
        i,
        j,
    );
}

/// A track's number is what its tag begins with, where that is a number of at most 31 bits;
/// otherwise it is zero.
pub proof fn track_numbers_are_read(n: nat, rest: Seq<char>)
    requires
        rest.len() == 0 || !ascii_digit(rest[0]),
    ensures
        n <= i32::MAX ==> track_position(decimal(n) + rest) == n,
        n > i32::MAX ==> track_position(decimal(n) + rest) == 0,
        track_position(rest) == 0,
{
    decimals_read_back(n);
    let s = decimal(n) + rest;
    lemma_digit_run(s);
    let run = digit_run(s) as int;
    let len = decimal(n).len() as int;
    if run < len {
        assert(s[run] == decimal(n)[run]);
        assert(ascii_digit(decimal(n)[run]));
    } else if run > len {
        assert(s[len] == rest[0]);
        assert(ascii_digit(s[len]));
    }
    assert(s.take(run) =~= decimal(n));
    assert(digit_run(rest) == 0);
    assert(rest.take(0) =~= Seq::<char>::empty());
}

proof fn lemma_listed<L, E>(
    tracks: Seq<TrackView>,
    label: spec_fn(TrackView) -> L,
    entry: spec_fn(L) -> E,
    key: spec_fn(E) -> Seq<Seq<u32>>,
    i: int,
)
    requires
        0 <= i < sorted_by(firsts(tracks.map_values(label)).map_values(entry), key).len(),
    ensures
        exists|k: int|
            0 <= k < tracks.len() && sorted_by(
                firsts(tracks.map_values(label)).map_values(entry),
                key,
            )[i] == entry(label(#[trigger] tracks[k])),
{
    let labels = tracks.map_values(label);
    let entries = firsts(labels).map_values(entry);
    let e = sorted_by(entries, key)[i];
    assert(sorted_by(entries, key).contains(e));
    lemma_sorted_contains(entries, key, e);
    let at = choose|at: int| 0 <= at < entries.len() && entries[at] == e;
    lemma_firsts(labels);
    assert(firsts(labels).contains(firsts(labels)[at]));
    let k = choose|k: int| 0 <= k < labels.len() && labels[k] == firsts(labels)[at];
    assert(e == entry(label(tracks[k])));
}

proof fn lemma_entries_differ<L, E>(
    tracks: Seq<TrackView>,
    label: spec_fn(TrackView) -> L,
    entry: spec_fn(L) -> E,
    key: spec_fn(E) -> Seq<Seq<u32>>,
    i: int,
    j: int,
)
    requires
        0 <= i < j < sorted_by(firsts(tracks.map_values(label)).map_values(entry), key).len(),
        forall|a: L, b: L| a != b ==> #[trigger] entry(a) != #[trigger] entry(b),
    ensures
        sorted_by(firsts(tracks.map_values(label)).map_values(entry), key)[i] != sorted_by(
            firsts(tracks.map_values(label)).map_values(entry),
            key,
        )[j],
{
    let labels = tracks.map_values(label);
    let entries = firsts(labels).map_values(entry);
    lemma_firsts(labels);
    let keys = entries.map_values(key);
    sorting_is_stable(keys);
    let order = sorted_indices(keys);
    assert(sorted_by(entries, key) == picked(entries, order));
    assert(order[i] != order[j]);
    assert(entries[order[i]] == entry(firsts(labels)[order[i]]));
    assert(entries[order[j]] == entry(firsts(labels)[order[j]]));
}

/// Every artist that sings a track is listed once, in the order of names without regard to
/// case, with the number of tracks that the artist sings and of albums they stand on.
pub proof fn artists_are_listed_once(tracks: Seq<TrackView>, i: int, j: int)
    requires
        0 <= i < artist_list(tracks).len(),
        0 <= j < artist_list(tracks).len(),
    ensures
        exists|k: int|
            0 <= k < tracks.len() && artist_list(tracks)[i].artist == (#[trigger] tracks[k]).artist,
        i != j ==> artist_list(tracks)[i].artist != artist_list(tracks)[j].artist,
        i < j ==> !key_less(
            seq![
                text_part(lower(artist_list(tracks)[j].artist)),
                text_part(artist_list(tracks)[j].artist),
            ],
            seq![
                text_part(lower(artist_list(tracks)[i].artist)),
                text_part(artist_list(tracks)[i].artist),
            ],
        ),
        artist_list(tracks)[i].track_count == capped(
            tracks.filter(sung_by(artist_list(tracks)[i].artist)).len(),
        ),
        artist_list(tracks)[i].album_count == capped(
            albums_of(tracks, artist_list(tracks)[i].artist).len(),
        ),
{
    let key = crate::library::catalog::artist_keys();
    let entry = artist_entry(tracks);
    lemma_listed(tracks, artist_of(), entry, key, i);
    lemma_listed(tracks, artist_of(), entry, key, j);
    let a = artist_list(tracks)[i].artist;
    lemma_counted(tracks, artist_of(), a, sung_by(a));
    if i != j {
        let low = if i < j {
            i
        } else {
            j
        };
        let high = if i < j {
            j
        } else {
            i
        };
        assert forall|x: Seq<char>, y: Seq<char>| x != y implies #[trigger] entry(x)
            != #[trigger] entry(y) by {
            assert(entry(x).artist == x && entry(y).artist == y);
        }
        lemma_entries_differ(tracks, artist_of(), entry, key, low, high);
    }
    if i < j {
        lemma_sorted(firsts(tracks.map_values(artist_of())).map_values(entry), key, i, j);
    }
}

/// The tracks that an artist sings, and the albums that they stand on, each once.
pub proof fn artists_sing_their_tracks(
    tracks: Seq<TrackView>,
    artist: Seq<char>,
    album: (Seq<char>, Seq<char>),
    t: TrackView,
)
    ensures
        tracks.filter(sung_by(artist)).contains(t) <==> tracks.contains(t) && t.artist == artist,
        albums_of(tracks, artist).no_duplicates(),
        albums_of(tracks, artist).contains(album) <==> exists|k: int|
            0 <= k < tracks.len() && (#[trigger] tracks[k]).artist == artist && tracks[k].album
                == album.0 && tracks[k].album_artist == album.1,
{
    broadcast use {
        vstd::seq::Seq::lemma_filter_pred,
        vstd::seq::Seq::lemma_filter_contains,
        vstd::seq::Seq::lemma_filter_contains_rev,
    };

    let kept = tracks.filter(sung_by(artist));
    if kept.contains(t) {
        let i = choose|i: int| 0 <= i < kept.len() && kept[i] == t;
        assert(sung_by(artist)(kept[i]));
    }
    if tracks.contains(t) && t.artist == artist {
        let i = choose|i: int| 0 <= i < tracks.len() && tracks[i] == t;
        assert(kept.contains(tracks[i]));
    }
    let names = kept.map_values(album_of());
    lemma_firsts(names);
    if names.contains(album) {
        let i = choose|i: int| 0 <= i < names.len() && names[i] == album;
        assert(sung_by(artist)(kept[i]));
        assert(kept.contains(kept[i]));
        let k = choose|k: int| 0 <= k < tracks.len() && tracks[k] == kept[i];
        assert(tracks[k].artist == artist && tracks[k].album == album.0 && tracks[k].album_artist
            == album.1);
    }
    if exists|k: int|
        0 <= k < tracks.len() && (#[trigger] tracks[k]).artist == artist && tracks[k].album
            == album.0 && tracks[k].album_artist == album.1 {
        let k = choose|k: int|
            0 <= k < tracks.len() && (#[trigger] tracks[k]).artist == artist && tracks[k].album
                == album.0 && tracks[k].album_artist == album.1;
        assert(kept.contains(tracks[k]));
        let i = choose|i: int| 0 <= i < kept.len() && kept[i] == tracks[k];
        assert(names[i] == album);
    }
}

/// The path that stands for an album is the first of its tracks' paths in the order of paths.
pub proof fn albums_show_their_first_path(tracks: Seq<TrackView>, album: (Seq<char>, Seq<char>))
    ensures
        least_path(tracks, album) is None <==> forall|k: int|
            0 <= k < tracks.len() ==> ((#[trigger] tracks[k]).album, tracks[k].album_artist)
                != album,
        least_path(tracks, album) matches Some(path) ==> {
            &&& exists|k: int|
                0 <= k < tracks.len() && (#[trigger] tracks[k]).path == path && tracks[k].album
                    == album.0 && tracks[k].album_artist == album.1
            &&& forall|k: int|
                0 <= k < tracks.len() && (#[trigger] tracks[k]).album == album.0
                    && tracks[k].album_artist == album.1 ==> !key_less(
                    path_key(tracks[k].path),
                    path_key(path),
                )
        },
    decreases tracks.len(),
{
    if tracks.len() > 0 {
        let before = tracks.drop_last();
        albums_show_their_first_path(before, album);
        let n = tracks.len() - 1;
        let last = tracks[n];
        let old_least = least_path(before, album);
        let least = least_path(tracks, album);
        assert forall|k: int| 0 <= k < n implies #[trigger] tracks[k] == before[k] by {}
        if (last.album, last.album_artist) == album {
            match old_least {
                None => {
                    keys_are_totally_ordered(
                        path_key(last.path),
                        path_key(last.path),
                        path_key(last.path),
                    );
                    assert(tracks[n].path == least->Some_0);
                },
                Some(path) => {
                    assert forall|k: int|
                        0 <= k < tracks.len() && (#[trigger] tracks[k]).album == album.0
                            && tracks[k].album_artist == album.1 implies !key_less(
                        path_key(tracks[k].path),
                        path_key(least->Some_0),
                    ) by {
                        keys_are_totally_ordered(
                            path_key(tracks[k].path),
                            path_key(last.path),
                            path_key(path),
                        );
                        keys_are_totally_ordered(
                            path_key(last.path),
                            path_key(last.path),
                            path_key(last.path),
                        );
                        if k < n {
                            assert(before[k] == tracks[k]);
                        }
                    }
                    if least == old_least {
                        let k = choose|k: int|
                            0 <= k < before.len() && (#[trigger] before[k]).path == path
                                && before[k].album == album.0 && before[k].album_artist
                                == album.1;
                        assert(tracks[k] == before[k]);
                    } else {
                        assert(tracks[n].path == least->Some_0);
                    }
                },
            }
        } else if old_least is Some {
            let path = old_least->Some_0;
            let k = choose|k: int|
                0 <= k < before.len() && (#[trigger] before[k]).path == path && before[k].album
                    == album.0 && before[k].album_artist == album.1;
            assert(tracks[k] == before[k]);
            assert forall|k: int|
                0 <= k < tracks.len() && (#[trigger] tracks[k]).album == album.0
                    && tracks[k].album_artist == album.1 implies !key_less(
                path_key(tracks[k].path),
                path_key(path),
            ) by {
                assert(before[k] == tracks[k]);
            }
        } else {
            assert forall|k: int| 0 <= k < tracks.len() implies ((#[trigger] tracks[k]).album,
                tracks[k].album_artist) != album by {
                if k < n {
                    assert(before[k] == tracks[k]);
                }
            }
        }
    }
}

/// Every album of a track is listed once, in the order of names and then of artists without
/// regard to case, with its number of tracks and the path that stands for it.
pub proof fn albums_are_listed_once(tracks: Seq<TrackView>, i: int, j: int)
    requires
        0 <= i < album_list(tracks).len(),
        0 <= j < album_list(tracks).len(),
    ensures
        exists|k: int|
            0 <= k < tracks.len() && album_list(tracks)[i].album == (#[trigger] tracks[k]).album
                && album_list(tracks)[i].album_artist == tracks[k].album_artist,
        i != j ==> album_list(tracks)[i].album != album_list(tracks)[j].album || album_list(
            tracks,
        )[i].album_artist != album_list(tracks)[j].album_artist,
        i < j ==> !key_less(
            seq![
                text_part(lower(album_list(tracks)[j].album)),
                text_part(lower(album_list(tracks)[j].album_artist)),
                text_part(album_list(tracks)[j].album),
                text_part(album_list(tracks)[j].album_artist),
            ],
            seq![
                text_part(lower(album_list(tracks)[i].album)),
                text_part(lower(album_list(tracks)[i].album_artist)),
                text_part(album_list(tracks)[i].album),
                text_part(album_list(tracks)[i].album_artist),
            ],
        ),
        album_list(tracks)[i].track_count == capped(
            album_tracks(
                tracks,
                album_list(tracks)[i].album,
                album_list(tracks)[i].album_artist,
            ).len(),
        ),
        album_list(tracks)[i].representative_track_path == least_path(
            tracks,
            (album_list(tracks)[i].album, album_list(tracks)[i].album_artist),
        ),
{
    let key = crate::library::catalog::album_keys();
    let entry = album_entry(tracks);
    lemma_listed(tracks, album_of(), entry, key, i);
    lemma_listed(tracks, album_of(), entry, key, j);
    let a = album_list(tracks)[i];
    crate::library::catalog_laws::album_counts_match_their_lists(tracks, a.album, a.album_artist);
    let k = choose|k: int|
        0 <= k < tracks.len() && album_list(tracks)[i] == entry(album_of()(#[trigger] tracks[k]));
    assert(album_of()(tracks[k]) == (a.album, a.album_artist));
    if i != j {
        let low = if i < j {
            i
        } else {
            j
        };
        let high = if i < j {
            j
        } else {
            i
        };
        assert forall|x: (Seq<char>, Seq<char>), y: (Seq<char>, Seq<char>)|
            x != y implies #[trigger] entry(x) != #[trigger] entry(y) by {
            assert(entry(x).album == x.0 && entry(y).album == y.0);
            assert(entry(x).album_artist == x.1 && entry(y).album_artist == y.1);
        }
        lemma_entries_differ(tracks, album_of(), entry, key, low, high);
        let h = choose|h: int|
            0 <= h < tracks.len() && album_list(tracks)[j] == entry(
                album_of()(#[trigger] tracks[h]),
            );
        assert(album_list(tracks)[j] == entry((tracks[h].album, tracks[h].album_artist)));
        assert(album_list(tracks)[i] == entry((tracks[k].album, tracks[k].album_artist)));
    }
    if i < j {
        lemma_sorted(firsts(tracks.map_values(album_of())).map_values(entry), key, i, j);
    }
}

/// Every genre and every decade of a track is listed once, in order, with its number of
/// tracks.
pub proof fn genres_and_decades_are_listed_once(tracks: Seq<TrackView>, i: int, j: int)
    requires
        0 <= i < j,
    ensures
        j < genre_list(tracks).len() ==> {
            let a = genre_list(tracks)[i];
            let b = genre_list(tracks)[j];
            &&& a.genre != b.genre
            &&& !key_less(
                seq![text_part(lower(b.genre)), text_part(b.genre)],
                seq![text_part(lower(a.genre)), text_part(a.genre)],
            )
            &&& a.track_count == capped(genre_tracks(tracks, a.genre).len())
            &&& b.track_count == capped(genre_tracks(tracks, b.genre).len())
        },
        j < decade_list(tracks).len() ==> {
            let a = decade_list(tracks)[i];
            let b = decade_list(tracks)[j];
            &&& a.decade != b.decade
            &&& !key_less(seq![text_part(b.decade)], seq![text_part(a.decade)])
            &&& a.track_count == capped(decade_tracks(tracks, a.decade).len())
            &&& b.track_count == capped(decade_tracks(tracks, b.decade).len())
        },
{
    if j < genre_list(tracks).len() {
        let key = crate::library::catalog::genre_keys();
        let entry = genre_entry(tracks);
        let a = genre_list(tracks)[i];
        let b = genre_list(tracks)[j];
        lemma_listed(tracks, genre_of(), entry, key, i);
        lemma_listed(tracks, genre_of(), entry, key, j);
        assert(a == entry(a.genre) && b == entry(b.genre));
        assert forall|x: Seq<char>, y: Seq<char>| x != y implies #[trigger] entry(x)
            != #[trigger] entry(y) by {
            assert(entry(x).genre == x && entry(y).genre == y);
        }
        lemma_entries_differ(tracks, genre_of(), entry, key, i, j);
        lemma_sorted(firsts(tracks.map_values(genre_of())).map_values(entry), key, i, j);
        crate::library::catalog_laws::genre_counts_match_their_lists(tracks, a.genre);
        crate::library::catalog_laws::genre_counts_match_their_lists(tracks, b.genre);
    }
    if j < decade_list(tracks).len() {
        let key = crate::library::catalog::decade_keys();
        let entry = decade_entry(tracks);
        let a = decade_list(tracks)[i];
        let b = decade_list(tracks)[j];
        lemma_listed(tracks, decade_of(), entry, key, i);
        lemma_listed(tracks, decade_of(), entry, key, j);
        assert(a == entry(a.decade) && b == entry(b.decade));
        assert forall|x: Seq<char>, y: Seq<char>| x != y implies #[trigger] entry(x)
            != #[trigger] entry(y) by {
            assert(entry(x).decade == x && entry(y).decade == y);
        }
        lemma_entries_differ(tracks, decade_of(), entry, key, i, j);
        lemma_sorted(firsts(tracks.map_values(decade_of())).map_values(entry), key, i, j);
        crate::library::catalog_laws::decade_counts_match_their_lists(tracks, a.decade);
        crate::library::catalog_laws::decade_counts_match_their_lists(tracks, b.decade);
    }
}

/// A page shows the rows from its offset on, in their order, as many as asked for or as there
/// are; asked for none, it shows one.
pub proof fn pages_show_their_rows<A>(rows: Seq<A>, offset: nat, limit: nat, i: int)
    requires
        0 <= i < page(rows, offset, limit).len(),
    ensures
        page(rows, offset, limit)[i] == rows[offset + i],
        page(rows, offset, limit).len() <= limit || limit == 0,
        limit > 0 && offset + limit <= rows.len() ==> page(rows, offset, limit).len() == limit,
        limit > 0 && offset + limit > rows.len() ==> page(rows, offset, limit).len() + offset
            == rows.len(),
        limit == 0 ==> page(rows, offset, limit).len() == 1,
        offset < rows.len(),
{
}

/// What each view shows: tracks, artists, albums, genres or decades, one row for each, in the
/// order of their list; a detail view the tracks of its subject.
pub proof fn views_show_their_lists(view: LibraryViewQuery, tracks: Seq<TrackView>, i: int)
    requires
        0 <= i < rows_of(view, tracks).len(),
    ensures
        match view {
            LibraryViewQuery::Tracks => rows_of(view, tracks).len() == tracks.len() && rows_of(
                view,
                tracks,
            )[i] == RowView::Track(tracks[i]),
            LibraryViewQuery::Artists => rows_of(view, tracks).len() == artist_list(tracks).len()
                && rows_of(view, tracks)[i] == RowView::Artist(artist_list(tracks)[i]),
            LibraryViewQuery::Albums => rows_of(view, tracks).len() == album_list(tracks).len()
                && rows_of(view, tracks)[i] == RowView::Album(album_list(tracks)[i]),
            LibraryViewQuery::Genres => rows_of(view, tracks).len() == genre_list(tracks).len()
                && rows_of(view, tracks)[i] == RowView::Genre(genre_list(tracks)[i]),
            LibraryViewQuery::Decades => rows_of(view, tracks).len() == decade_list(tracks).len()
                && rows_of(view, tracks)[i] == RowView::Decade(decade_list(tracks)[i]),
            LibraryViewQuery::GlobalSearch => true,
            LibraryViewQuery::ArtistDetail { artist } => rows_of(view, tracks).len()
                == artist_tracks(tracks, artist@).len() && rows_of(view, tracks)[i]
                == RowView::Track(artist_tracks(tracks, artist@)[i]),
            LibraryViewQuery::AlbumDetail { album, album_artist } => rows_of(view, tracks).len()
                == album_tracks(tracks, album@, album_artist@).len() && rows_of(view, tracks)[i]
                == RowView::Track(album_tracks(tracks, album@, album_artist@)[i]),
            LibraryViewQuery::GenreDetail { genre } => rows_of(view, tracks).len()
                == genre_tracks(tracks, genre@).len() && rows_of(view, tracks)[i]
                == RowView::Track(genre_tracks(tracks, genre@)[i]),
            LibraryViewQuery::DecadeDetail { decade } => rows_of(view, tracks).len()
                == decade_tracks(tracks, decade@).len() && rows_of(view, tracks)[i]
                == RowView::Track(decade_tracks(tracks, decade@)[i]),
            _ => false,
        },
{
}

/// The search shows every track, every artist and every album, in the order of their names
/// without regard to case; of the same name an artist before an album before a track.
pub proof fn the_search_shows_everything(tracks: Seq<TrackView>, row: RowView, i: int, j: int)
    ensures
        search_rows(tracks).contains(row) <==> match row {
            RowView::Track(t) => tracks.contains(t),
            RowView::Artist(a) => artist_list(tracks).contains(a),
            RowView::Album(a) => album_list(tracks).contains(a),
            _ => false,
        },
        search_rows(tracks).len() == tracks.len() + artist_list(tracks).len() + album_list(
            tracks,
        ).len(),
        0 <= i < j < search_rows(tracks).len() ==> !key_less(
            search_key(search_rows(tracks)[j]),
            search_key(search_rows(tracks)[i]),
        ),
{
    let artists = artist_list(tracks);
    let albums = album_list(tracks);
    let all = track_rows(tracks) + artist_rows(artists) + album_rows(albums);
    let keys = crate::library::pages::row_keys();
    lemma_sorted_contains(all, keys, row);
    sorting_keeps_the_items(all, keys);
    match row {
        RowView::Track(t) => {
            if tracks.contains(t) {
                let k = choose|k: int| 0 <= k < tracks.len() && tracks[k] == t;
                assert(all[k] == row);
            }
        },
        RowView::Artist(a) => {
            if artists.contains(a) {
                let k = choose|k: int| 0 <= k < artists.len() && artists[k] == a;
                assert(all[tracks.len() + k] == row);
            }
        },
        RowView::Album(a) => {
            if albums.contains(a) {
                let k = choose|k: int| 0 <= k < albums.len() && albums[k] == a;
                assert(all[tracks.len() + artists.len() + k] == row);
            }
        },
        _ => {},
    }
    if all.contains(row) {
        let k = choose|k: int| 0 <= k < all.len() && all[k] == row;
        if k < tracks.len() {
            assert(tracks.contains(tracks[k]));
        } else if k < tracks.len() + artists.len() {
            assert(artists.contains(artists[k - tracks.len()]));
        } else {
            assert(albums.contains(albums[k - tracks.len() - artists.len()]));
        }
    }
    if 0 <= i < j < search_rows(tracks).len() {
        lemma_sorted(all, keys, i, j);
    }
}

/// By what the rows of a search are ordered.
pub open spec fn search_key(row: RowView) -> Seq<Seq<u32>> {
    match row {
        RowView::Track(t) => seq![text_part(lower(t.title)), seq![2u32]],
        RowView::Artist(a) => seq![text_part(lower(a.artist)), seq![0u32]],
        RowView::Album(a) => seq![text_part(lower(a.album)), seq![1u32]],
        RowView::Genre(g) => seq![text_part(lower(g.genre)), seq![3u32]],
        RowView::Decade(d) => seq![text_part(lower(d.decade)), seq![4u32]],
        RowView::FavoriteCategory(c) => seq![text_part(lower(c.title)), seq![5u32]],
    }
}

/// A page of a view tells how many rows the view has in all. Where the tracks could not be
/// loaded, it fails.
pub proof fn pages_tell_the_total(
    view: LibraryViewQuery,
    tracks: Seq<TrackView>,
    offset: nat,
    limit: nat,
    error: Seq<char>,
)
    ensures
        track_page(view, Ok(tracks), offset, limit) == Ok::<(nat, Seq<RowView>), Seq<char>>(
            (rows_of(view, tracks).len(), page(rows_of(view, tracks), offset, limit)),
        ),
        track_page(view, Err(error), offset, limit) is Err,
        view is GlobalSearch ==> track_page(view, Err(error), offset, limit) == Err::<
            (nat, Seq<RowView>),
            Seq<char>,
        >("Failed to load global search page: "@ + error),
        !(view is GlobalSearch) ==> track_page(view, Err(error), offset, limit) == Err::<
            (nat, Seq<RowView>),
            Seq<char>,
        >(error),
{
}

/// Favorites are shown from what is marked, everything else from the tracks.
pub proof fn views_have_their_source(view: LibraryViewQuery)
    ensures
        source_of(view) == PageSource::FavoriteCounts <==> view is FavoritesRoot,
        source_of(view) == PageSource::Favorites(FavoriteEntityKind::Track) <==> view
            is FavoriteTracks,
        source_of(view) == PageSource::Favorites(FavoriteEntityKind::Artist) <==> view
            is FavoriteArtists,
        source_of(view) == PageSource::Favorites(FavoriteEntityKind::Album) <==> view
            is FavoriteAlbums,
{
}

/// A selected track gives its path; a selected artist, album, genre or decade the paths of the
/// tracks of its list, in the order of the list.
pub proof fn selected_items_give_their_paths(
    item: LibrarySelectionSpec,
    tracks: Seq<TrackView>,
    i: int,
)
    requires
        0 <= i < item_paths(item, tracks).len(),
    ensures
        match item {
            LibrarySelectionSpec::Track { path } => item_paths(item, tracks).len() == 1
                && item_paths(item, tracks)[i] == path@,
            LibrarySelectionSpec::Artist { artist } => item_paths(item, tracks).len()
                == artist_tracks(tracks, artist@).len() && item_paths(item, tracks)[i]
                == artist_tracks(tracks, artist@)[i].path,
            LibrarySelectionSpec::Album { album, album_artist } => item_paths(item, tracks).len()
                == album_tracks(tracks, album@, album_artist@).len() && item_paths(
                item,
                tracks,
            )[i] == album_tracks(tracks, album@, album_artist@)[i].path,
            LibrarySelectionSpec::Genre { genre } => item_paths(item, tracks).len()
                == genre_tracks(tracks, genre@).len() && item_paths(item, tracks)[i]
                == genre_tracks(tracks, genre@)[i].path,
            LibrarySelectionSpec::Decade { decade } => item_paths(item, tracks).len()
                == decade_tracks(tracks, decade@).len() && item_paths(item, tracks)[i]
                == decade_tracks(tracks, decade@)[i].path,
        },
{
}

/// What is taken from a list, each once, begins with what is taken from its beginning: the
/// first of equal items counts.
pub proof fn the_first_of_equals_counts<A>(a: Seq<A>, b: Seq<A>)
    ensures
        firsts(a + b).len() >= firsts(a).len(),
        firsts(a + b).take(firsts(a).len() as int) == firsts(a),
    decreases b.len(),
{
    if b.len() == 0 {
        assert(a + b =~= a);
        assert(firsts(a).take(firsts(a).len() as int) =~= firsts(a));
    } else {
        the_first_of_equals_counts(a, b.drop_last());
        assert((a + b).drop_last() =~= a + b.drop_last());
        assert(firsts(a + b).take(firsts(a).len() as int) =~= firsts(a));
    }
}

/// A selection gives the paths of its items, in the order of the items, each path once: a
/// path is given exactly where an item gives it. A longer selection begins with what its
/// beginning gives.
pub proof fn selections_give_the_paths_of_their_items(
    items: Seq<LibrarySelectionSpec>,
    item: LibrarySelectionSpec,
    tracks: Seq<TrackView>,
    path: Seq<char>,
)
    ensures
        selected_paths(items.push(item), tracks).contains(path) <==> selected_paths(
            items,
            tracks,
        ).contains(path) || item_paths(item, tracks).contains(path),
        selected_paths(items.push(item), tracks).len() >= selected_paths(items, tracks).len(),
        selected_paths(items.push(item), tracks).take(selected_paths(items, tracks).len() as int)
            == selected_paths(items, tracks),
        selected_paths(items, tracks).no_duplicates(),
        selected_paths(Seq::empty(), tracks).len() == 0,
{
    let all = all_item_paths(items, tracks);
    let more = item_paths(item, tracks);
    assert(items.push(item).drop_last() =~= items);
    assert(all_item_paths(items.push(item), tracks) == all + more);
    lemma_firsts(all);
    lemma_firsts(all + more);
    the_first_of_equals_counts(all, more);
    assert((all + more).contains(path) <==> all.contains(path) || more.contains(path)) by {
        if all.contains(path) {
            let i = choose|i: int| 0 <= i < all.len() && all[i] == path;
            assert((all + more)[i] == path);
        }
        if more.contains(path) {
            let i = choose|i: int| 0 <= i < more.len() && more[i] == path;
            assert((all + more)[all.len() + i] == path);
        }
    }
}

/// A selection fails where nothing is selected, where the tracks could not be loaded, or where
/// it gives no path; adding it to playlists also where none is chosen. Otherwise it gives its
/// paths.
pub proof fn empty_selections_fail(
    items: Seq<LibrarySelectionSpec>,
    playlists: nat,
    tracks: Seq<TrackView>,
    error: Seq<char>,
)
    ensures
        selection_outcome(Seq::empty(), Ok(tracks)) == Err::<Seq<Seq<char>>, Seq<char>>(
            "No library items selected"@,
        ),
        items.len() > 0 ==> selection_outcome(items, Err(error)) == Err::<
            Seq<Seq<char>>,
            Seq<char>,
        >(error),
        items.len() > 0 && selected_paths(items, tracks).len() > 0 ==> selection_outcome(
            items,
            Ok(tracks),
        ) == Ok::<Seq<Seq<char>>, Seq<char>>(selected_paths(items, tracks)),
        items.len() > 0 && selected_paths(items, tracks).len() == 0 ==> selection_outcome(
            items,
            Ok(tracks),
        ) == Err::<Seq<Seq<char>>, Seq<char>>("No tracks matched the selected library items"@),
        items.len() > 0 && playlists == 0 ==> addition_outcome(items, playlists, Ok(tracks))
            == Err::<Seq<Seq<char>>, Seq<char>>("No target playlists selected"@),
        playlists > 0 ==> addition_outcome(items, playlists, Ok(tracks)) == selection_outcome(
            items,
            Ok(tracks),
        ),
{
}

/// The artists of some tracks.
pub open spec fn artists_in(tracks: Seq<TrackView>) -> Set<Seq<char>> {
    Set::new(|name: Seq<char>| exists|k: int| 0 <= k < tracks.len() && (#[trigger] tracks[k]).artist == name)
}

/// The albums of some tracks.
pub open spec fn albums_in(tracks: Seq<TrackView>) -> Set<(Seq<char>, Seq<char>)> {
    Set::new(
        |album: (Seq<char>, Seq<char>)|
            exists|k: int|
                0 <= k < tracks.len() && (#[trigger] tracks[k]).album == album.0
                    && tracks[k].album_artist == album.1,
    )
}

proof fn lemma_firsts_counted<L>(items: Seq<L>)
    ensures
        firsts(items).len() == items.to_set().len(),
{
    lemma_firsts(items);
    firsts(items).unique_seq_to_set();
    assert(firsts(items).to_set() =~= items.to_set()) by {
        assert forall|a: L| firsts(items).to_set().contains(a) <==> items.to_set().contains(a) by {
            assert(firsts(items).contains(a) <==> items.contains(a));
        }
    }
}

/// As many artists and albums are listed as the tracks have.
pub proof fn lists_count_their_names(tracks: Seq<TrackView>)
    ensures
        artist_list(tracks).len() == artists_in(tracks).len(),
        album_list(tracks).len() == albums_in(tracks).len(),
{
    let artists = tracks.map_values(artist_of());
    let albums = tracks.map_values(album_of());
    lemma_firsts_counted(artists);
    lemma_firsts_counted(albums);
    sorting_keeps_the_items(
        firsts(artists).map_values(artist_entry(tracks)),
        crate::library::catalog::artist_keys(),
    );
    sorting_keeps_the_items(
        firsts(albums).map_values(album_entry(tracks)),
        crate::library::catalog::album_keys(),
    );
    assert(artists.to_set() =~= artists_in(tracks)) by {
        assert forall|n: Seq<char>| artists.to_set().contains(n) <==> artists_in(tracks).contains(
            n,
        ) by {
            if artists.contains(n) {
                let k = choose|k: int| 0 <= k < artists.len() && artists[k] == n;
                assert(tracks[k].artist == n);
            }
            if artists_in(tracks).contains(n) {
                let k = choose|k: int|
                    0 <= k < tracks.len() && (#[trigger] tracks[k]).artist == n;
                assert(artists[k] == n);
            }
        }
    }
    assert(albums.to_set() =~= albums_in(tracks)) by {
        assert forall|n: (Seq<char>, Seq<char>)| albums.to_set().contains(n) <==> albums_in(
            tracks,
        ).contains(n) by {
            if albums.contains(n) {
                let k = choose|k: int| 0 <= k < albums.len() && albums[k] == n;
                assert(tracks[k].album == n.0 && tracks[k].album_artist == n.1);
            }
            if albums_in(tracks).contains(n) {
                let k = choose|k: int|
                    0 <= k < tracks.len() && (#[trigger] tracks[k]).album == n.0
                        && tracks[k].album_artist == n.1;
                assert(albums[k] == n);
            }
        }
    }
}

/// The library is made of the indexed tracks, those of servers and, where they are wanted, those
/// of playlists; where one of these could not be loaded, it fails and says which.
pub proof fn the_library_is_made_of_its_sources(
    indexed: Seq<TrackView>,
    remote: Seq<TrackView>,
    playlists: Seq<TrackView>,
    error: Seq<char>,
)
    ensures
        effective_tracks(Ok(indexed), remote, None) == Ok::<Seq<TrackView>, Seq<char>>(
            library_tracks(indexed, remote, Seq::empty()),
        ),
        effective_tracks(Ok(indexed), remote, Some(Ok(playlists))) == Ok::<
            Seq<TrackView>,
            Seq<char>,
        >(library_tracks(indexed, remote, playlists)),
        effective_tracks(Err(error), remote, Some(Ok(playlists))) == Err::<
            Seq<TrackView>,
            Seq<char>,
        >("Failed to load tracks: "@ + error),
        effective_tracks(Ok(indexed), remote, Some(Err(error))) == Err::<
            Seq<TrackView>,
            Seq<char>,
        >("Failed to load playlist tracks: "@ + error),
{
}

} // verus!
