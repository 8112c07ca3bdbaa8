//! The tracks that the library shows, and the pages of its lists.

use crate::library::catalog::{
    album_list, album_tracks, artist_list, artist_tracks, decade_list, decade_tracks,
    effective_albums_from_tracks, effective_artists_from_tracks, effective_decades_from_tracks,
    effective_genres_from_tracks, genre_list, genre_tracks, lower_part, lower_part_of, sort_by_keys,
    sort_tracks, sorted_by, sorted_tracks, tracks_for_album_detail, tracks_for_artist_detail,
    tracks_for_decade_detail, tracks_for_genre_detail, TrackOrder,
};
use crate::library::order::key_view;
use crate::library::paths::{path_identity, path_identity_of};
use crate::protocol::{
    views, AlbumView, ArtistView, DecadeView, Duplicate, FavoriteEntityKind, GenreView,
    LibraryAlbum, LibraryArtist, LibraryDecade, LibraryEntryPayload, LibraryGenre, LibraryTrack,
    LibraryViewQuery, RowView, TrackView,
};
use crate::text::{append, owned, texts};
use vstd::hash_set::StringHashSet;
use vstd::prelude::*;

verus! {

/// A track of the list has the path.
pub open spec fn lists_path(tracks: Seq<TrackView>, path: Seq<char>) -> bool {
    exists|i: int|
        0 <= i < tracks.len() && path_identity((#[trigger] tracks[i]).path) == path_identity(path)
}

/// A list of tracks with those of another one whose paths it does not have yet.
pub open spec fn with_new_tracks(tracks: Seq<TrackView>, more: Seq<TrackView>) -> Seq<TrackView>
    decreases more.len(),
{
    if more.len() == 0 {
        tracks
    } else {
        let rest = with_new_tracks(tracks, more.drop_last());
        if lists_path(rest, more.last().path) {
            rest
        } else {
            rest.push(more.last())
        }
    }
}

/// The set holds the paths of the tracks, and no others.
spec fn knows_paths(seen: Set<Seq<char>>, tracks: Seq<TrackView>) -> bool {
    forall|p: Seq<char>| #[trigger]
        seen.contains(p) <==> exists|i: int|
            0 <= i < tracks.len() && path_identity((#[trigger] tracks[i]).path) == p
}

proof fn lemma_knows_push(seen: Set<Seq<char>>, tracks: Seq<TrackView>, t: TrackView)
    requires
        knows_paths(seen, tracks),
    ensures
        knows_paths(seen.insert(path_identity(t.path)), tracks.push(t)),
{
    let next = tracks.push(t);
    assert forall|p: Seq<char>| #[trigger]
        seen.insert(path_identity(t.path)).contains(p) <==> exists|i: int|
            0 <= i < next.len() && path_identity((#[trigger] next[i]).path) == p by {
        if seen.contains(p) {
            let i = choose|i: int|
                0 <= i < tracks.len() && path_identity((#[trigger] tracks[i]).path) == p;
            assert(next[i] == tracks[i]);
        }
        if p == path_identity(t.path) {
            assert(next[tracks.len() as int] == t);
        }
        if exists|i: int| 0 <= i < next.len() && path_identity((#[trigger] next[i]).path) == p {
            let i = choose|i: int|
                0 <= i < next.len() && path_identity((#[trigger] next[i]).path) == p;
            if i < tracks.len() {
                assert(tracks[i] == next[i]);
            }
        }
    }
}

fn paths_of(tracks: &Vec<LibraryTrack>) -> (r: StringHashSet)
    ensures
        knows_paths(r@, views(tracks@)),
{
    let ghost all = views(tracks@);
    let mut seen = StringHashSet::new();
    let mut i: usize = 0;
    while i < tracks.len()
        invariant
            i <= tracks.len(),
            all == views(tracks@),
            knows_paths(seen@, all.take(i as int)),
        decreases tracks.len() - i,
    {
        proof {
            lemma_knows_push(seen@, all.take(i as int), all[i as int]);
            assert(all.take(i + 1) =~= all.take(i as int).push(all[i as int]));
        }
        let _ = seen.insert(path_identity_of(tracks[i].path.as_str()));
        i += 1;
    }
    assert(all.take(i as int) =~= all);
    seen
}

fn add_new_tracks(tracks: &mut Vec<LibraryTrack>, seen: &mut StringHashSet, more: &Vec<LibraryTrack>)
    requires
        knows_paths(old(seen)@, views(old(tracks)@)),
    ensures
        knows_paths(final(seen)@, views(final(tracks)@)),
        views(final(tracks)@) == with_new_tracks(views(old(tracks)@), views(more@)),
{
    let ghost base = views(tracks@);
    let ghost all = views(more@);
    let mut i: usize = 0;
    assert(all.take(0) =~= Seq::empty());
    while i < more.len()
        invariant
            i <= more.len(),
            all == views(more@),
            knows_paths(seen@, views(tracks@)),
            views(tracks@) == with_new_tracks(base, all.take(i as int)),
        decreases more.len() - i,
    {
        let ghost before = views(tracks@);
        let ghost known = seen@;
        let ghost track = more@[i as int]@;
        let identity = path_identity_of(more[i].path.as_str());
        let fresh = seen.insert(identity);
        proof {
            assert(all.take(i + 1).drop_last() =~= all.take(i as int));
            assert(all.take(i + 1).last() == track);
            assert(fresh == !lists_path(before, track.path));
        }
        if fresh {
            tracks.push(more[i].clone());
            proof {
                assert(views(tracks@) =~= before.push(track));
                lemma_knows_push(known, before, track);
            }
        } else {
            assert(seen@ =~= known);
        }
        i += 1;
    }
    assert(all.take(i as int) =~= all);
}

/// The tracks that the library shows: the indexed ones, those of connected servers and those of
/// the playlists, each path once.
pub open spec fn library_tracks(
    indexed: Seq<TrackView>,
    remote: Seq<TrackView>,
    playlists: Seq<TrackView>,
) -> Seq<TrackView> {
    sorted_tracks(
        TrackOrder::All,
        with_new_tracks(with_new_tracks(indexed, remote), playlists),
    )
}

/// Of a list of paths, those that no track has; each of them once.
pub open spec fn new_paths(tracks: Seq<TrackView>, paths: Seq<Seq<char>>) -> Seq<Seq<char>>
    decreases paths.len(),
{
    if paths.len() == 0 {
        Seq::empty()
    } else {
        let rest = new_paths(tracks, paths.drop_last());
        let path = paths.last();
        if lists_path(tracks, path) || exists|i: int|
            0 <= i < rest.len() && path_identity(#[trigger] rest[i]) == path_identity(path) {
            rest
        } else {
            rest.push(path)
        }
    }
}

/// The playlist paths for which the library has no track of its own and of which it therefore
/// reads the tags.
pub fn unlisted_playlist_paths(
    indexed: &Vec<LibraryTrack>,
    remote: &Vec<LibraryTrack>,
    paths: &Vec<String>,
) -> (r: Vec<String>)
    ensures
        texts(r@) == new_paths(with_new_tracks(views(indexed@), views(remote@)), texts(paths@)),
{
    let mut tracks: Vec<LibraryTrack> = duplicates(indexed);
    let mut seen = paths_of(&tracks);
    add_new_tracks(&mut tracks, &mut seen, remote);
    let ghost known = views(tracks@);
    let ghost all = texts(paths@);
    let mut out: Vec<String> = Vec::new();
    let mut i: usize = 0;
    assert(all.take(0) =~= Seq::empty());
    assert(texts(out@) =~= Seq::empty());
    while i < paths.len()
        invariant
            i <= paths.len(),
            all == texts(paths@),
            texts(out@) == new_paths(known, all.take(i as int)),
            forall|p: Seq<char>| #[trigger]
                seen@.contains(p) <==> ((exists|k: int|
                    0 <= k < known.len() && path_identity((#[trigger] known[k]).path) == p) || (
                exists|k: int|
                    0 <= k < texts(out@).len() && path_identity(#[trigger] texts(out@)[k]) == p)),
        decreases paths.len() - i,
    {
        let ghost before = texts(out@);
        let ghost path = paths@[i as int]@;
        let ghost old_seen = seen@;
        proof {
            assert(all.take(i + 1).drop_last() =~= all.take(i as int));
            assert(all.take(i + 1).last() == path);
        }
        let identity = path_identity_of(paths[i].as_str());
        let fresh = seen.insert(identity);
        assert(fresh == !(lists_path(known, path) || exists|k: int|
            0 <= k < before.len() && path_identity(#[trigger] before[k]) == path_identity(path)));
        if fresh {
            out.push(paths[i].clone());
            proof {
                let now = texts(out@);
                assert(now =~= before.push(path));
                assert forall|p: Seq<char>| #[trigger]
                    seen@.contains(p) <==> ((exists|k: int|
                        0 <= k < known.len() && path_identity((#[trigger] known[k]).path) == p)
                        || (exists|k: int|
                        0 <= k < now.len() && path_identity(#[trigger] now[k]) == p)) by {
                    if p == path_identity(path) {
                        assert(now[before.len() as int] == path);
                    } else {
                        assert(seen@.contains(p) == old_seen.contains(p));
                        if exists|k: int|
                            0 <= k < before.len() && path_identity(#[trigger] before[k]) == p {
                            let k = choose|k: int|
                                0 <= k < before.len() && path_identity(#[trigger] before[k]) == p;
                            assert(now[k] == before[k]);
                        }
                        if exists|k: int|
                            0 <= k < now.len() && path_identity(#[trigger] now[k]) == p {
                            let k = choose|k: int|
                                0 <= k < now.len() && path_identity(#[trigger] now[k]) == p;
                            assert(before[k] == now[k]);
                        }
                    }
                }
            }
        } else {
            assert(seen@ =~= old_seen);
        }
        i += 1;
    }
    assert(all.take(i as int) =~= all);
    out
}

/// A copy of a list.
pub fn duplicates<T: Duplicate>(items: &Vec<T>) -> (r: Vec<T>)
    ensures
        views(r@) == views(items@),
{
    let mut out: Vec<T> = Vec::new();
    let mut i: usize = 0;
    while i < items.len()
        invariant
            i <= items.len(),
            out.len() == i,
            forall|k: int| 0 <= k < i ==> (#[trigger] out@[k])@ == items@[k]@,
        decreases items.len() - i,
    {
        out.push(items[i].duplicate());
        i += 1;
    }
    assert(views(out@) =~= views(items@));
    out
}

/// The contents of a list of tracks, or why it could not be loaded.
pub open spec fn tracks_or_error(r: Result<Vec<LibraryTrack>, String>) -> Result<
    Seq<TrackView>,
    Seq<char>,
> {
    match r {
        Ok(v) => Ok(views(v@)),
        Err(e) => Err(e@),
    }
}

/// The tracks that the library shows, or why they could not be loaded.
pub open spec fn effective_tracks(
    indexed: Result<Seq<TrackView>, Seq<char>>,
    remote: Seq<TrackView>,
    playlists: Option<Result<Seq<TrackView>, Seq<char>>>,
) -> Result<Seq<TrackView>, Seq<char>> {
    match indexed {
        Err(e) => Err("Failed to load tracks: "@ + e),
        Ok(own) => match playlists {
            None => Ok(library_tracks(own, remote, Seq::empty())),
            Some(Ok(listed)) => Ok(library_tracks(own, remote, listed)),
            Some(Err(e)) => Err("Failed to load playlist tracks: "@ + e),
        },
    }
}

/// The tracks that the library shows. The tracks of playlists are given where the library
/// includes them.
pub fn effective_library_tracks(
    indexed: Result<Vec<LibraryTrack>, String>,
    remote: &Vec<LibraryTrack>,
    playlists: Option<Result<Vec<LibraryTrack>, String>>,
) -> (r: Result<Vec<LibraryTrack>, String>)
    ensures
        tracks_or_error(r) == effective_tracks(
            tracks_or_error(indexed),
            views(remote@),
            match playlists {
                Some(p) => Some(tracks_or_error(p)),
                None => None,
            },
        ),
{
    match indexed {
        Err(error) => {
            let mut message = owned("Failed to load tracks: ");
            append(&mut message, error.as_str());
            Err(message)
        },
        Ok(own) => {
            let mut tracks = own;
            let mut seen = paths_of(&tracks);
            add_new_tracks(&mut tracks, &mut seen, remote);
            match playlists {
                None => {
                    assert(with_new_tracks(views(tracks@), Seq::empty()) =~= views(tracks@));
                    Ok(sort_tracks(TrackOrder::All, &tracks))
                },
                Some(Ok(listed)) => {
                    add_new_tracks(&mut tracks, &mut seen, &listed);
                    Ok(sort_tracks(TrackOrder::All, &tracks))
                },
                Some(Err(error)) => {
                    let mut message = owned("Failed to load playlist tracks: ");
                    append(&mut message, error.as_str());
                    Err(message)
                },
            }
        },
    }
}

/// The part of a list that a page shows: at most `limit` rows, but at least one, from `offset` on.
pub open spec fn page<A>(rows: Seq<A>, offset: nat, limit: nat) -> Seq<A> {
    let from = if offset <= rows.len() {
        offset
    } else {
        rows.len()
    };
    let length = if limit == 0 {
        1nat
    } else {
        limit
    };
    let to = if from + length <= rows.len() {
        from + length
    } else {
        rows.len()
    };
    rows.subrange(from as int, to as int)
}

/// Cuts a page out of a list.
pub fn page_of<T: Duplicate>(rows: &Vec<T>, offset: usize, limit: usize) -> (r: Vec<T>)
    ensures
        views(r@) == page(views(rows@), offset as nat, limit as nat),
{
    let from: usize = if offset <= rows.len() {
        offset
    } else {
        rows.len()
    };
    let length: usize = if limit == 0 {
        1
    } else {
        limit
    };
    let to: usize = if length <= rows.len() - from {
        from + length
    } else {
        rows.len()
    };
    let mut out: Vec<T> = Vec::new();
    let mut i: usize = from;
    while i < to
        invariant
            from <= i <= to <= rows.len(),
            out.len() == i - from,
            forall|k: int| 0 <= k < i - from ==> (#[trigger] out@[k])@ == rows@[from + k]@,
        decreases to - i,
    {
        out.push(rows[i].duplicate());
        i += 1;
    }
    assert(views(out@) =~= page(views(rows@), offset as nat, limit as nat));
    out
}

pub open spec fn track_rows(items: Seq<TrackView>) -> Seq<RowView> {
    items.map_values(|item: TrackView| RowView::Track(item))
}

fn push_track_rows(rows: &mut Vec<LibraryEntryPayload>, items: &Vec<LibraryTrack>)
    ensures
        views(final(rows)@) == views(old(rows)@) + track_rows(views(items@)),
{
    let ghost start = views(rows@);
    let ghost all = track_rows(views(items@));
    let mut i: usize = 0;
    assert(start + all.take(0) =~= start);
    while i < items.len()
        invariant
            i <= items.len(),
            all == track_rows(views(items@)),
            views(rows@) == start + all.take(i as int),
        decreases items.len() - i,
    {
        let ghost before = views(rows@);
        rows.push(LibraryEntryPayload::Track(items[i].clone()));
        proof {
            assert(views(rows@) =~= before.push(all[i as int]));
            assert(start + all.take(i + 1) =~= (start + all.take(i as int)).push(all[i as int]));
        }
        i += 1;
    }
    assert(all.take(i as int) =~= all);
}

pub open spec fn artist_rows(items: Seq<ArtistView>) -> Seq<RowView> {
    items.map_values(|item: ArtistView| RowView::Artist(item))
}

fn push_artist_rows(rows: &mut Vec<LibraryEntryPayload>, items: &Vec<LibraryArtist>)
    ensures
        views(final(rows)@) == views(old(rows)@) + artist_rows(views(items@)),
{
    let ghost start = views(rows@);
    let ghost all = artist_rows(views(items@));
    let mut i: usize = 0;
    assert(start + all.take(0) =~= start);
    while i < items.len()
        invariant
            i <= items.len(),
            all == artist_rows(views(items@)),
            views(rows@) == start + all.take(i as int),
        decreases items.len() - i,
    {
        let ghost before = views(rows@);
        rows.push(LibraryEntryPayload::Artist(items[i].clone()));
        proof {
            assert(views(rows@) =~= before.push(all[i as int]));
            assert(start + all.take(i + 1) =~= (start + all.take(i as int)).push(all[i as int]));
        }
        i += 1;
    }
    assert(all.take(i as int) =~= all);
}

pub open spec fn album_rows(items: Seq<AlbumView>) -> Seq<RowView> {
    items.map_values(|item: AlbumView| RowView::Album(item))
}

fn push_album_rows(rows: &mut Vec<LibraryEntryPayload>, items: &Vec<LibraryAlbum>)
    ensures
        views(final(rows)@) == views(old(rows)@) + album_rows(views(items@)),
{
    let ghost start = views(rows@);
    let ghost all = album_rows(views(items@));
    let mut i: usize = 0;
    assert(start + all.take(0) =~= start);
    while i < items.len()
        invariant
            i <= items.len(),
            all == album_rows(views(items@)),
            views(rows@) == start + all.take(i as int),
        decreases items.len() - i,
    {
        let ghost before = views(rows@);
        rows.push(LibraryEntryPayload::Album(items[i].clone()));
        proof {
            assert(views(rows@) =~= before.push(all[i as int]));
            assert(start + all.take(i + 1) =~= (start + all.take(i as int)).push(all[i as int]));
        }
        i += 1;
    }
    assert(all.take(i as int) =~= all);
}

pub open spec fn genre_rows(items: Seq<GenreView>) -> Seq<RowView> {
    items.map_values(|item: GenreView| RowView::Genre(item))
}

fn push_genre_rows(rows: &mut Vec<LibraryEntryPayload>, items: &Vec<LibraryGenre>)
    ensures
        views(final(rows)@) == views(old(rows)@) + genre_rows(views(items@)),
{
    let ghost start = views(rows@);
    let ghost all = genre_rows(views(items@));
    let mut i: usize = 0;
    assert(start + all.take(0) =~= start);
    while i < items.len()
        invariant
            i <= items.len(),
            all == genre_rows(views(items@)),
            views(rows@) == start + all.take(i as int),
        decreases items.len() - i,
    {
        let ghost before = views(rows@);
        rows.push(LibraryEntryPayload::Genre(items[i].clone()));
        proof {
            assert(views(rows@) =~= before.push(all[i as int]));
            assert(start + all.take(i + 1) =~= (start + all.take(i as int)).push(all[i as int]));
        }
        i += 1;
    }
    assert(all.take(i as int) =~= all);
}

pub open spec fn decade_rows(items: Seq<DecadeView>) -> Seq<RowView> {
    items.map_values(|item: DecadeView| RowView::Decade(item))
}

fn push_decade_rows(rows: &mut Vec<LibraryEntryPayload>, items: &Vec<LibraryDecade>)
    ensures
        views(final(rows)@) == views(old(rows)@) + decade_rows(views(items@)),
{
    let ghost start = views(rows@);
    let ghost all = decade_rows(views(items@));
    let mut i: usize = 0;
    assert(start + all.take(0) =~= start);
    while i < items.len()
        invariant
            i <= items.len(),
            all == decade_rows(views(items@)),
            views(rows@) == start + all.take(i as int),
        decreases items.len() - i,
    {
        let ghost before = views(rows@);
        rows.push(LibraryEntryPayload::Decade(items[i].clone()));
        proof {
            assert(views(rows@) =~= before.push(all[i as int]));
            assert(start + all.take(i + 1) =~= (start + all.take(i as int)).push(all[i as int]));
        }
        i += 1;
    }
    assert(all.take(i as int) =~= all);
}

/// The text by which a row is found.
pub open spec fn row_label(row: RowView) -> Seq<char> {
    match row {
        RowView::Track(t) => t.title,
        RowView::Artist(a) => a.artist,
        RowView::Album(a) => a.album,
        RowView::Genre(g) => g.genre,
        RowView::Decade(d) => d.decade,
        RowView::FavoriteCategory(c) => c.title,
    }
}

/// The place of a row among rows with the same text.
pub open spec fn row_rank(row: RowView) -> u32 {
    match row {
        RowView::Artist(_) => 0,
        RowView::Album(_) => 1,
        RowView::Track(_) => 2,
        RowView::Genre(_) => 3,
        RowView::Decade(_) => 4,
        RowView::FavoriteCategory(_) => 5,
    }
}

pub open spec fn row_keys() -> spec_fn(RowView) -> Seq<Seq<u32>> {
    |row: RowView| seq![lower_part(row_label(row)), seq![row_rank(row)]]
}

/// All tracks, artists and albums in one list.
pub open spec fn search_rows(tracks: Seq<TrackView>) -> Seq<RowView> {
    sorted_by(
        track_rows(tracks) + artist_rows(artist_list(tracks)) + album_rows(album_list(tracks)),
        row_keys(),
    )
}

fn row_key_of(row: &LibraryEntryPayload) -> (r: Vec<Vec<u32>>)
    ensures
        key_view(r@) == row_keys()(row@),
{
    let label: &str;
    let rank: u32;
    match row {
        LibraryEntryPayload::Track(t) => {
            label = t.title.as_str();
            rank = 2;
        },
        LibraryEntryPayload::Artist(a) => {
            label = a.artist.as_str();
            rank = 0;
        },
        LibraryEntryPayload::Album(a) => {
            label = a.album.as_str();
            rank = 1;
        },
        LibraryEntryPayload::Genre(g) => {
            label = g.genre.as_str();
            rank = 3;
        },
        LibraryEntryPayload::Decade(d) => {
            label = d.decade.as_str();
            rank = 4;
        },
        LibraryEntryPayload::FavoriteCategory(c) => {
            label = c.title.as_str();
            rank = 5;
        },
    }
    let mut last: Vec<u32> = Vec::new();
    last.push(rank);
    let mut key: Vec<Vec<u32>> = Vec::new();
    key.push(lower_part_of(label));
    key.push(last);
    assert(last@ =~= seq![rank]);
    assert(key_view(key@) =~= seq![lower_part(label@), seq![rank]]);
    key
}

/// The rows of the list in which tracks, artists and albums are searched together.
pub fn global_search_rows(tracks: &Vec<LibraryTrack>) -> (r: Vec<LibraryEntryPayload>)
    ensures
        views(r@) == search_rows(views(tracks@)),
{
    let artists = effective_artists_from_tracks(tracks);
    let albums = effective_albums_from_tracks(tracks);
    let mut rows: Vec<LibraryEntryPayload> = Vec::new();
    assert(views(rows@) =~= Seq::empty());
    push_track_rows(&mut rows, tracks);
    push_artist_rows(&mut rows, &artists);
    push_album_rows(&mut rows, &albums);
    let ghost all = track_rows(views(tracks@)) + artist_rows(artist_list(views(tracks@)))
        + album_rows(album_list(views(tracks@)));
    assert(views(rows@) =~= all);
    let mut keys: Vec<Vec<Vec<u32>>> = Vec::new();
    let mut i: usize = 0;
    while i < rows.len()
        invariant
            i <= rows.len(),
            keys.len() == i,
            forall|k: int| 0 <= k < i ==> key_view((#[trigger] keys@[k])@) == row_keys()(rows@[k]@),
        decreases rows.len() - i,
    {
        keys.push(row_key_of(&rows[i]));
        i += 1;
    }
    sort_by_keys(&rows, &keys, Ghost(row_keys()))
}

/// Where the rows of a list come from.
#[derive(Debug, Clone, Copy, PartialEq, Eq, Structural)]
pub enum PageSource {
    /// From the tracks of the library.
    Tracks,
    /// From the numbers of favorites.
    FavoriteCounts,
    /// From the favorites of one kind.
    Favorites(FavoriteEntityKind),
}

pub open spec fn source_of(view: LibraryViewQuery) -> PageSource {
    match view {
        LibraryViewQuery::FavoritesRoot => PageSource::FavoriteCounts,
        LibraryViewQuery::FavoriteTracks => PageSource::Favorites(FavoriteEntityKind::Track),
        LibraryViewQuery::FavoriteArtists => PageSource::Favorites(FavoriteEntityKind::Artist),
        LibraryViewQuery::FavoriteAlbums => PageSource::Favorites(FavoriteEntityKind::Album),
        _ => PageSource::Tracks,
    }
}

/// Where the rows of a list come from.
pub fn page_source(view: &LibraryViewQuery) -> (r: PageSource)
    ensures
        r == source_of(*view),
{
    match view {
        LibraryViewQuery::FavoritesRoot => PageSource::FavoriteCounts,
        LibraryViewQuery::FavoriteTracks => PageSource::Favorites(FavoriteEntityKind::Track),
        LibraryViewQuery::FavoriteArtists => PageSource::Favorites(FavoriteEntityKind::Artist),
        LibraryViewQuery::FavoriteAlbums => PageSource::Favorites(FavoriteEntityKind::Album),
        _ => PageSource::Tracks,
    }
}

/// The rows of a list that is made from the tracks of the library.
pub open spec fn rows_of(view: LibraryViewQuery, tracks: Seq<TrackView>) -> Seq<RowView> {
    match view {
        LibraryViewQuery::Tracks => track_rows(tracks),
        LibraryViewQuery::Artists => artist_rows(artist_list(tracks)),
        LibraryViewQuery::Albums => album_rows(album_list(tracks)),
        LibraryViewQuery::Genres => genre_rows(genre_list(tracks)),
        LibraryViewQuery::Decades => decade_rows(decade_list(tracks)),
        LibraryViewQuery::GlobalSearch => search_rows(tracks),
        LibraryViewQuery::ArtistDetail { artist } => track_rows(artist_tracks(tracks, artist@)),
        LibraryViewQuery::AlbumDetail { album, album_artist } => track_rows(
            album_tracks(tracks, album@, album_artist@),
        ),
        LibraryViewQuery::GenreDetail { genre } => track_rows(genre_tracks(tracks, genre@)),
        LibraryViewQuery::DecadeDetail { decade } => track_rows(decade_tracks(tracks, decade@)),
        _ => Seq::empty(),
    }
}

fn view_rows(view: &LibraryViewQuery, tracks: &Vec<LibraryTrack>) -> (r: Vec<LibraryEntryPayload>)
    ensures
        views(r@) == rows_of(*view, views(tracks@)),
{
    let mut rows: Vec<LibraryEntryPayload> = Vec::new();
    assert(views(rows@) =~= Seq::empty());
    match view {
        LibraryViewQuery::Tracks => {
            push_track_rows(&mut rows, tracks);
        },
        LibraryViewQuery::Artists => {
            push_artist_rows(&mut rows, &effective_artists_from_tracks(tracks));
        },
        LibraryViewQuery::Albums => {
            push_album_rows(&mut rows, &effective_albums_from_tracks(tracks));
        },
        LibraryViewQuery::Genres => {
            push_genre_rows(&mut rows, &effective_genres_from_tracks(tracks));
        },
        LibraryViewQuery::Decades => {
            push_decade_rows(&mut rows, &effective_decades_from_tracks(tracks));
        },
        LibraryViewQuery::GlobalSearch => {
            return global_search_rows(tracks);
        },
        LibraryViewQuery::ArtistDetail { artist } => {
            push_track_rows(&mut rows, &tracks_for_artist_detail(tracks, artist.as_str()));
        },
        LibraryViewQuery::AlbumDetail { album, album_artist } => {
            push_track_rows(
                &mut rows,
                &tracks_for_album_detail(tracks, album.as_str(), album_artist.as_str()),
            );
        },
        LibraryViewQuery::GenreDetail { genre } => {
            push_track_rows(&mut rows, &tracks_for_genre_detail(tracks, genre.as_str()));
        },
        LibraryViewQuery::DecadeDetail { decade } => {
            push_track_rows(&mut rows, &tracks_for_decade_detail(tracks, decade.as_str()));
        },
        _ => {},
    }
    assert(views(rows@) =~= rows_of(*view, views(tracks@)));
    rows
}

/// A page of a list: how many rows the list has and those that the page shows.
pub open spec fn page_or_error(r: Result<(usize, Vec<LibraryEntryPayload>), String>) -> Result<
    (nat, Seq<RowView>),
    Seq<char>,
> {
    match r {
        Ok((total, rows)) => Ok((total as nat, views(rows@))),
        Err(e) => Err(e@),
    }
}

/// A page of a list that is made from the tracks of the library, or why there is none.
pub open spec fn track_page(
    view: LibraryViewQuery,
    tracks: Result<Seq<TrackView>, Seq<char>>,
    offset: nat,
    limit: nat,
) -> Result<(nat, Seq<RowView>), Seq<char>> {
    match tracks {
        Ok(t) => Ok((rows_of(view, t).len(), page(rows_of(view, t), offset, limit))),
        Err(e) => if view is GlobalSearch {
            Err("Failed to load global search page: "@ + e)
        } else {
            Err(e)
        },
    }
}

/// A page of a list that is made from the tracks of the library.
pub fn library_page(
    view: &LibraryViewQuery,
    tracks: Result<Vec<LibraryTrack>, String>,
    offset: usize,
    limit: usize,
) -> (r: Result<(usize, Vec<LibraryEntryPayload>), String>)
    requires
        source_of(*view) is Tracks,
    ensures
        page_or_error(r) == track_page(
            *view,
            tracks_or_error(tracks),
            offset as nat,
            limit as nat,
        ),
{
    match tracks {
        Ok(all) => {
            let rows = view_rows(view, &all);
            let shown = page_of(&rows, offset, limit);
            assert(views(rows@).len() == rows.len());
            Ok((rows.len(), shown))
        },
        Err(error) => match view {
            LibraryViewQuery::GlobalSearch => {
                let mut message = owned("Failed to load global search page: ");
                append(&mut message, error.as_str());
                Err(message)
            },
            _ => Err(error),
        },
    }
}

} // verus!
