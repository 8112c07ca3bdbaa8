//! Laws of favorites: what is kept of a track, what is shown of a favorite, and what servers
//! are told.

use crate::integration::uri::located;
use crate::library::favorites::{
    category_rows, entry_key, entry_sync, favorite_row, is_track_entry,
    known_count, next_state, sync_of, track_entries, track_favorite, track_favorite_key,
    track_subtitle, FavoriteDetail, QueueEntryView, SyncView,
};
use crate::library::paths::rooted;
use crate::protocol::{FavoriteEntityKind, FavoriteView, RowView, TrackView};
use crate::text::{blank, trim};
use vstd::prelude::*;

verus! {

/// A favorite track keeps the track's own title and path, under its artist and album. One of a
/// server is known by its profile and song and says which they are; one of the disk or the
/// net by its path.
pub proof fn favorites_keep_their_track(t: TrackView)
    ensures
        ({
            let f = track_favorite(t);
            &&& f.kind == FavoriteEntityKind::Track
            &&& f.display_primary == t.title
            &&& f.track_path == Some(t.path)
            &&& !blank(t.artist) && !blank(t.album) ==> f.display_secondary == trim(t.artist)
                + " · "@ + trim(t.album)
            &&& !blank(t.artist) && blank(t.album) ==> f.display_secondary == trim(t.artist)
            &&& blank(t.artist) ==> f.display_secondary == trim(t.album)
            &&& located(t.path) matches Some(place) ==> {
                &&& f.remote_profile_id == Some(place.profile_id)
                &&& f.remote_item_id == Some(place.song_id)
                &&& f.entity_key == "os:"@ + place.profile_id + ":song:"@ + place.song_id
            }
            &&& located(t.path) is None ==> {
                &&& f.remote_profile_id is None
                &&& f.remote_item_id is None
                &&& rooted(t.path) ==> f.entity_key == "file:"@ + t.path
                &&& !rooted(t.path) ==> f.entity_key == "uri:"@ + t.path
            }
        }),
{
}

/// A favorite track marked from a track is shown with the track's title and path.
pub proof fn favorite_tracks_show_their_track(t: TrackView, detail: Option<FavoriteDetail>)
    ensures
        ({
            &&& favorite_row(track_favorite(t), detail) matches RowView::Track(shown)
            &&& shown.title == t.title
            &&& shown.path == t.path
            &&& shown.artist == track_subtitle(t)
            &&& shown.id == track_favorite_key(t.path)
        }),
{
}

/// What is shown of a favorite: an artist with the numbers of albums and tracks, an album with
/// its artist, its number of tracks and its first path. Without details the numbers are zero.
pub proof fn favorites_show_their_names(f: FavoriteView, d: FavoriteDetail)
    requires
        d.album_count <= u32::MAX,
        d.track_paths@.len() <= u32::MAX,
    ensures
        f.kind == FavoriteEntityKind::Artist ==> {
            &&& favorite_row(f, Some(d)) matches RowView::Artist(a)
            &&& a.artist == f.display_primary
            &&& a.album_count == d.album_count
            &&& a.track_count == d.track_paths@.len()
        },
        f.kind == FavoriteEntityKind::Artist ==> {
            &&& favorite_row(f, None) matches RowView::Artist(a)
            &&& a.artist == f.display_primary
            &&& a.album_count == 0
            &&& a.track_count == 0
        },
        f.kind == FavoriteEntityKind::Album ==> {
            &&& favorite_row(f, Some(d)) matches RowView::Album(a)
            &&& a.album == f.display_primary
            &&& a.album_artist == f.display_secondary
            &&& a.track_count == d.track_paths@.len()
            &&& d.track_paths@.len() > 0 ==> a.representative_track_path == Some(
                d.track_paths@[0]@,
            )
            &&& d.track_paths@.len() == 0 ==> a.representative_track_path is None
        },
        f.kind == FavoriteEntityKind::Album ==> {
            &&& favorite_row(f, None) matches RowView::Album(a)
            &&& a.album == f.display_primary
            &&& a.album_artist == f.display_secondary
            &&& a.track_count == 0
            &&& a.representative_track_path is None
        },
        f.kind == FavoriteEntityKind::Track ==> {
            &&& favorite_row(f, None) matches RowView::Track(t)
            &&& t.title == f.display_primary
            &&& t.artist == f.display_secondary
            &&& t.id == f.entity_key
            &&& f.track_path matches Some(path) ==> t.path == path
        },
{
    vstd::arithmetic::div_mod::lemma_small_mod(d.album_count as nat, 0x1_0000_0000);
    vstd::arithmetic::div_mod::lemma_small_mod(d.track_paths@.len(), 0x1_0000_0000);
}

/// The favorites are shown in three categories: tracks, artists and albums, each with its own
/// number; an unknown number is shown as zero.
pub proof fn favorites_have_three_categories(tracks: usize, artists: usize, albums: usize)
    ensures
        category_rows(tracks, artists, albums).len() == 3,
        ({
            let rows = category_rows(tracks, artists, albums);
            &&& rows[0] matches RowView::FavoriteCategory(a)
            &&& a.kind == FavoriteEntityKind::Track
            &&& a.title == "Favorite Tracks"@
            &&& a.count == tracks
            &&& rows[1] matches RowView::FavoriteCategory(b)
            &&& b.kind == FavoriteEntityKind::Artist
            &&& b.title == "Favorite Artists"@
            &&& b.count == artists
            &&& rows[2] matches RowView::FavoriteCategory(c)
            &&& c.kind == FavoriteEntityKind::Album
            &&& c.title == "Favorite Albums"@
            &&& c.count == albums
        }),
        known_count(Some(tracks)) == tracks,
        known_count(None) == 0,
{
}

/// A favorite becomes what is asked for; where nothing is asked for, what it is not.
pub proof fn favorites_become_what_is_asked(state: bool, wanted: bool)
    ensures
        next_state(Some(wanted), state) == wanted,
        next_state(None, state) != state,
{
}

/// A server is told of a favorite exactly where it is a track of that server: the song, the
/// profile, and whether it is a favorite now.
pub proof fn servers_are_told_of_their_tracks(f: FavoriteView, favorited: bool)
    ensures
        sync_of(f, favorited) is Some <==> f.kind == FavoriteEntityKind::Track
            && f.remote_profile_id is Some && f.remote_item_id is Some,
        sync_of(f, favorited) matches Some(sync) ==> {
            &&& Some(sync.profile_id) == f.remote_profile_id
            &&& Some(sync.song_id) == f.remote_item_id
            &&& sync.favorited == favorited
            &&& sync.entity_key == f.entity_key
        },
{
}

/// What waits to be told to a server: one message for each waiting track, in their order, with
/// the wanted state; and the tracks that wait are those kept from being overwritten.
pub proof fn waiting_tracks_are_told(queue: Seq<QueueEntryView>, e: QueueEntryView, i: int)
    ensures
        track_entries(queue).contains(e) <==> queue.contains(e) && e.entity_kind
            == FavoriteEntityKind::Track,
        0 <= i < track_entries(queue).len() ==> {
            let one = track_entries(queue)[i];
            &&& one.entity_kind == FavoriteEntityKind::Track
            &&& track_entries(queue).map_values(entry_sync())[i] == (SyncView {
                profile_id: one.remote_profile_id,
                song_id: one.remote_item_id,
                favorited: one.desired_favorited,
                entity_key: one.entity_key,
            })
            &&& track_entries(queue).map_values(entry_key())[i] == one.entity_key
        },
        track_entries(queue.push(e)) == (if e.entity_kind == FavoriteEntityKind::Track {
            track_entries(queue).push(e)
        } else {
            track_entries(queue)
        }),
{
    broadcast use {
        vstd::seq::Seq::lemma_filter_pred,
        vstd::seq::Seq::lemma_filter_contains,
        vstd::seq::Seq::lemma_filter_contains_rev,
    };

    let kept = track_entries(queue);
    if kept.contains(e) {
        let k = choose|k: int| 0 <= k < kept.len() && kept[k] == e;
        assert(is_track_entry()(kept[k]));
    }
    if queue.contains(e) && e.entity_kind == FavoriteEntityKind::Track {
        let k = choose|k: int| 0 <= k < queue.len() && queue[k] == e;
        assert(kept.contains(queue[k]));
    }
    if 0 <= i < kept.len() {
        assert(is_track_entry()(kept[i]));
    }
    assert(queue.push(e).drop_last() =~= queue);
    reveal(Seq::filter);
}

} // verus!
