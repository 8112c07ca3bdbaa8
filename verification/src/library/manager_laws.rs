//! Laws of the library manager: what each event changes, and what it asks for.

use crate::library::manager::{
    after_deltas, all_tracks, reaction, ConfigDelta, LibraryAction, LibraryEvent, ManagerView,
};
use crate::protocol::{views, LibraryTrack};
use crate::text::texts;
use vstd::prelude::*;

verus! {

/// Playback is on after a track was asked for or started, off after a pause or a stop, and as
/// the playlist says; nothing else changes by it, and nothing is published.
pub proof fn playback_follows_the_player(s: ManagerView, is_playing: bool)
    ensures
        reaction(s, LibraryEvent::Play).0 == (ManagerView { playback: true, ..s }),
        reaction(s, LibraryEvent::TrackStarted).0 == (ManagerView { playback: true, ..s }),
        reaction(s, LibraryEvent::Pause).0 == (ManagerView { playback: false, ..s }),
        reaction(s, LibraryEvent::Stop).0 == (ManagerView { playback: false, ..s }),
        reaction(s, LibraryEvent::PlaylistIndicesChanged { is_playing }).0 == (ManagerView {
            playback: is_playing,
            ..s
        }),
        reaction(s, LibraryEvent::Play).1.len() == 0,
        reaction(s, LibraryEvent::TrackStarted).1.len() == 0,
        reaction(s, LibraryEvent::Pause).1.len() == 0,
        reaction(s, LibraryEvent::Stop).1.len() == 0,
        reaction(s, LibraryEvent::PlaylistIndicesChanged { is_playing }).1.len() == 0,
{
}

/// Only a change of the settings, of playback or of a server's tracks changes the manager; a
/// request leaves it as it is.
pub proof fn requests_change_nothing(s: ManagerView, event: LibraryEvent)
    requires
        !(event is ConfigChanged),
        !(event is PlaylistIndicesChanged),
        !(event is Play),
        !(event is TrackStarted),
        !(event is Pause),
        !(event is Stop),
        !(event is RemoteTracksUpdated),
    ensures
        reaction(s, event).0 == s,
        reaction(s, event).1.len() == 0 <==> event is Other,
        event is RemoteFavoritesUpdated ==> reaction(s, event).1.len() == 2,
        !(event is RemoteFavoritesUpdated) ==> reaction(s, event).1.len() <= 1,
{
}

/// Each request is answered by what it asks for, with its own arguments.
pub proof fn requests_are_answered(s: ManagerView, event: LibraryEvent)
    ensures
        match event {
            LibraryEvent::RequestScan => reaction(s, event).1[0] == LibraryAction::Scan,
            LibraryEvent::RequestRootCounts => reaction(s, event).1[0]
                == LibraryAction::PublishRootCounts,
            LibraryEvent::RequestFavoritesSnapshot => reaction(s, event).1[0]
                == LibraryAction::PublishFavoritesSnapshot,
            LibraryEvent::RequestTracks => reaction(s, event).1[0] == LibraryAction::PublishTracks,
            LibraryEvent::RequestArtists => reaction(s, event).1[0]
                == LibraryAction::PublishArtists,
            LibraryEvent::RequestAlbums => reaction(s, event).1[0] == LibraryAction::PublishAlbums,
            LibraryEvent::RequestGenres => reaction(s, event).1[0] == LibraryAction::PublishGenres,
            LibraryEvent::RequestDecades => reaction(s, event).1[0]
                == LibraryAction::PublishDecades,
            LibraryEvent::RequestGlobalSearchData => reaction(s, event).1[0]
                == LibraryAction::PublishGlobalSearchData,
            LibraryEvent::RequestArtistDetail { artist } => reaction(s, event).1[0]
                == (LibraryAction::PublishArtistDetail { artist }),
            LibraryEvent::RequestAlbumTracks { album, album_artist } => reaction(s, event).1[0]
                == (LibraryAction::PublishAlbumTracks { album, album_artist }),
            LibraryEvent::RequestGenreTracks { genre } => reaction(s, event).1[0]
                == (LibraryAction::PublishGenreTracks { genre }),
            LibraryEvent::RequestDecadeTracks { decade } => reaction(s, event).1[0]
                == (LibraryAction::PublishDecadeTracks { decade }),
            LibraryEvent::RequestLibraryPage { request_id, view, offset, limit } => reaction(
                s,
                event,
            ).1[0] == (LibraryAction::PublishPage { request_id, view, offset, limit }),
            LibraryEvent::RemoteFavoritesUpdated { profile_id, tracks } => reaction(s, event).1[0]
                == (LibraryAction::MergeRemoteFavorites { profile_id, tracks }) && reaction(
                s,
                event,
            ).1[1] == (LibraryAction::PushPendingFavorites { profile_id }),
            LibraryEvent::FavoriteUpdateResult { profile_id, entity_key, success, error } =>
            reaction(s, event).1[0] == (LibraryAction::RecordSyncResult {
                profile_id,
                entity_key,
                success,
                error,
            }),
            LibraryEvent::ConnectBackendProfile { profile_id } => reaction(s, event).1[0]
                == (LibraryAction::PushPendingFavorites { profile_id }),
            LibraryEvent::SyncBackendProfile { profile_id } => reaction(s, event).1[0]
                == (LibraryAction::PushPendingFavorites { profile_id }),
            LibraryEvent::AddSelectionToPlaylists { selections, playlist_ids } => reaction(
                s,
                event,
            ).1[0] == (LibraryAction::AddSelection { selections, playlist_ids }),
            LibraryEvent::PasteSelectionToActivePlaylist { selections } => reaction(
                s,
                event,
            ).1[0] == (LibraryAction::PasteSelection { selections }),
            LibraryEvent::RemoveSelectionFromLibrary { selections } => reaction(s, event).1[0]
                == (LibraryAction::RemoveSelection { selections }),
            LibraryEvent::ToggleFavorite { entity, desired } => reaction(s, event).1[0]
                == (LibraryAction::ToggleFavorite { entity, desired }),
            _ => true,
        },
{
}

/// New tracks of a server publish the counts, the tracks and the search anew, and change
/// nothing but the remembered tracks.
pub proof fn remote_tracks_are_published(
    s: ManagerView,
    profile_id: String,
    tracks: Vec<LibraryTrack>,
)
    ensures
        ({
            let (after, actions) = reaction(
                s,
                LibraryEvent::RemoteTracksUpdated { profile_id, tracks },
            );
            &&& after.folders == s.folders
            &&& after.playback == s.playback
            &&& after.with_playlists == s.with_playlists
            &&& actions.len() == 3
            &&& actions[0] == LibraryAction::PublishRootCounts
            &&& actions[1] == LibraryAction::PublishTracks
            &&& actions[2] == LibraryAction::PublishGlobalSearchData
        }),
{
}

/// The settings that were last changed hold. The library is published anew exactly where a
/// change switched the tracks of playlists in or out.
pub proof fn the_last_settings_hold(s: ManagerView, deltas: Vec<ConfigDelta>)
    ensures
        ({
            let (after, actions) = reaction(s, LibraryEvent::ConfigChanged(deltas));
            &&& after.playback == s.playback
            &&& after.remote == s.remote
            &&& deltas@.len() == 0 ==> after == s && actions.len() == 0
            &&& deltas@.len() > 0 ==> (deltas@.last() matches ConfigDelta::Library(change) ==> {
                &&& change.folders matches Some(folders) ==> after.folders == texts(folders@)
                &&& change.include_playlist_tracks_in_library matches Some(flag)
                    ==> after.with_playlists == flag
            })
            &&& after.with_playlists != s.with_playlists ==> actions.len() == 3
            &&& actions.len() > 0 ==> actions.len() == 3 && actions[0]
                == LibraryAction::PublishRootCounts && actions[1] == LibraryAction::PublishTracks
                && actions[2] == LibraryAction::PublishGlobalSearchData
            &&& (forall|k: int|
                0 <= k < deltas@.len() ==> ((#[trigger] deltas@[k]) matches ConfigDelta::Library(
                    change,
                ) ==> change.include_playlist_tracks_in_library is None)) ==> actions.len() == 0
                && after.with_playlists == s.with_playlists
            &&& (forall|k: int|
                0 <= k < deltas@.len() ==> ((#[trigger] deltas@[k]) matches ConfigDelta::Library(
                    change,
                ) ==> change.folders is None)) ==> after.folders == s.folders
        }),
{
    lemma_deltas(s, deltas@);
}

proof fn lemma_deltas(s: ManagerView, deltas: Seq<ConfigDelta>)
    ensures
        after_deltas(s, deltas).0.playback == s.playback,
        after_deltas(s, deltas).0.remote == s.remote,
        after_deltas(s, deltas).0.with_playlists != s.with_playlists ==> after_deltas(
            s,
            deltas,
        ).1,
        (forall|k: int|
            0 <= k < deltas.len() ==> ((#[trigger] deltas[k]) matches ConfigDelta::Library(change)
                ==> change.include_playlist_tracks_in_library is None)) ==> !after_deltas(
            s,
            deltas,
        ).1 && after_deltas(s, deltas).0.with_playlists == s.with_playlists,
        (forall|k: int|
            0 <= k < deltas.len() ==> ((#[trigger] deltas[k]) matches ConfigDelta::Library(change)
                ==> change.folders is None)) ==> after_deltas(s, deltas).0.folders == s.folders,
    decreases deltas.len(),
{
    if deltas.len() > 0 {
        let before = deltas.drop_last();
        lemma_deltas(s, before);
        assert(deltas[deltas.len() - 1] == deltas.last());
        assert forall|k: int| 0 <= k < before.len() implies #[trigger] before[k] == deltas[k] by {}
    }
}

/// The tracks of all servers are those of each, one server after the other.
pub proof fn all_servers_tracks_are_gathered(
    remote: Seq<(Seq<char>, Vec<LibraryTrack>)>,
    id: Seq<char>,
    tracks: Vec<LibraryTrack>,
)
    ensures
        all_tracks(remote.push((id, tracks))) == all_tracks(remote) + views(tracks@),
        all_tracks(Seq::empty()).len() == 0,
{
    assert(remote.push((id, tracks)).drop_last() =~= remote);
}

} // verus!
