//! The library component: what it remembers, and what it does when a message arrives.

use crate::config::{clone_strings, LibraryConfig};
use crate::library::catalog::{
    album_list, artist_list, artist_tracks, decade_list, effective_albums_from_tracks,
    effective_artists_from_tracks, effective_decades_from_tracks, effective_genres_from_tracks,
    genre_list, tracks_for_artist_detail,
};
use crate::library::pages::duplicates;
use crate::protocol::{
    views, FavoriteEntityRef, LibraryAlbum, LibrarySelectionSpec, LibraryTrack, LibraryViewQuery,
    TrackView,
};
use crate::text::{append, owned, texts};
use vstd::prelude::*;

verus! {

/// A change of the library's settings; what is not given stays.
#[derive(Debug, PartialEq, Eq)]
pub struct LibraryConfigDelta {
    pub folders: Option<Vec<String>>,
    pub include_playlist_tracks_in_library: Option<bool>,
}

/// A change of the settings.
#[derive(Debug, PartialEq, Eq)]
pub enum ConfigDelta {
    Library(LibraryConfigDelta),
    /// A change that does not concern the library.
    Other,
}

/// A message to the library component.
#[derive(Debug, PartialEq, Eq)]
pub enum LibraryEvent {
    ConfigChanged(Vec<ConfigDelta>),
    PlaylistIndicesChanged { is_playing: bool },
    Play,
    TrackStarted,
    Pause,
    Stop,
    RequestScan,
    RequestRootCounts,
    RequestFavoritesSnapshot,
    RequestTracks,
    RequestArtists,
    RequestAlbums,
    RequestGenres,
    RequestDecades,
    RequestGlobalSearchData,
    RequestArtistDetail { artist: String },
    RequestAlbumTracks { album: String, album_artist: String },
    RequestGenreTracks { genre: String },
    RequestDecadeTracks { decade: String },
    RequestLibraryPage { request_id: u64, view: LibraryViewQuery, offset: usize, limit: usize },
    RemoteTracksUpdated { profile_id: String, tracks: Vec<LibraryTrack> },
    RemoteFavoritesUpdated { profile_id: String, tracks: Vec<LibraryTrack> },
    FavoriteUpdateResult {
        profile_id: String,
        entity_key: String,
        success: bool,
        error: Option<String>,
    },
    ConnectBackendProfile { profile_id: String },
    SyncBackendProfile { profile_id: String },
    AddSelectionToPlaylists { selections: Vec<LibrarySelectionSpec>, playlist_ids: Vec<String> },
    PasteSelectionToActivePlaylist { selections: Vec<LibrarySelectionSpec> },
    RemoveSelectionFromLibrary { selections: Vec<LibrarySelectionSpec> },
    ToggleFavorite { entity: FavoriteEntityRef, desired: Option<bool> },
    /// A message that does not concern the library.
    Other,
}

/// Something that the library component does.
#[derive(Debug, PartialEq, Eq)]
pub enum LibraryAction {
    Scan,
    PublishRootCounts,
    PublishFavoritesSnapshot,
    PublishTracks,
    PublishArtists,
    PublishAlbums,
    PublishGenres,
    PublishDecades,
    PublishGlobalSearchData,
    PublishArtistDetail { artist: String },
    PublishAlbumTracks { album: String, album_artist: String },
    PublishGenreTracks { genre: String },
    PublishDecadeTracks { decade: String },
    PublishPage { request_id: u64, view: LibraryViewQuery, offset: usize, limit: usize },
    MergeRemoteFavorites { profile_id: String, tracks: Vec<LibraryTrack> },
    PushPendingFavorites { profile_id: String },
    RecordSyncResult {
        profile_id: String,
        entity_key: String,
        success: bool,
        error: Option<String>,
    },
    AddSelection { selections: Vec<LibrarySelectionSpec>, playlist_ids: Vec<String> },
    PasteSelection { selections: Vec<LibrarySelectionSpec> },
    RemoveSelection { selections: Vec<LibrarySelectionSpec> },
    ToggleFavorite { entity: FavoriteEntityRef, desired: Option<bool> },
}

/// What the library component remembers.
#[derive(Debug, PartialEq, Eq)]
pub struct LibraryManager {
    pub library_folders: Vec<String>,
    pub playback_active: bool,
    pub include_playlist_tracks_in_library: bool,
    /// The tracks of the connected servers.
    pub remote_tracks: Vec<(String, Vec<LibraryTrack>)>,
}

/// The contents of a [`LibraryManager`].
#[verifier::ext_equal]
pub struct ManagerView {
    pub folders: Seq<Seq<char>>,
    pub playback: bool,
    pub with_playlists: bool,
    pub remote: Seq<(Seq<char>, Vec<LibraryTrack>)>,
}

pub open spec fn remote_view(v: Seq<(String, Vec<LibraryTrack>)>) -> Seq<
    (Seq<char>, Vec<LibraryTrack>),
> {
    v.map_values(|p: (String, Vec<LibraryTrack>)| (p.0@, p.1))
}

impl View for LibraryManager {
    type V = ManagerView;

    open spec fn view(&self) -> ManagerView {
        ManagerView {
            folders: texts(self.library_folders@),
            playback: self.playback_active,
            with_playlists: self.include_playlist_tracks_in_library,
            remote: remote_view(self.remote_tracks@),
        }
    }
}

/// Where a server's tracks stand, or how many servers there are.
pub open spec fn profile_slot(remote: Seq<(Seq<char>, Vec<LibraryTrack>)>, id: Seq<char>) -> nat
    decreases remote.len(),
{
    if remote.len() == 0 || remote[0].0 == id {
        0
    } else {
        1 + profile_slot(remote.skip(1), id)
    }
}

/// The servers' tracks after one server has told its tracks. A server without tracks is
/// forgotten.
pub open spec fn with_profile(
    remote: Seq<(Seq<char>, Vec<LibraryTrack>)>,
    id: Seq<char>,
    tracks: Vec<LibraryTrack>,
) -> Seq<(Seq<char>, Vec<LibraryTrack>)> {
    let slot = profile_slot(remote, id) as int;
    if tracks@.len() == 0 {
        if slot < remote.len() {
            remote.remove(slot)
        } else {
            remote
        }
    } else if slot < remote.len() {
        remote.update(slot, (id, tracks))
    } else {
        remote.push((id, tracks))
    }
}

/// The settings after a change, and whether other tracks are shown than before.
pub open spec fn after_delta(s: ManagerView, delta: ConfigDelta) -> (ManagerView, bool) {
    match delta {
        ConfigDelta::Other => (s, false),
        ConfigDelta::Library(change) => {
            let with_playlists = match change.include_playlist_tracks_in_library {
                Some(with_playlists) => with_playlists,
                None => s.with_playlists,
            };
            (
                ManagerView {
                    folders: match change.folders {
                        Some(folders) => texts(folders@),
                        None => s.folders,
                    },
                    with_playlists,
                    ..s
                },
                with_playlists != s.with_playlists,
            )
        },
    }
}

/// The settings after a list of changes, and whether one of them showed other tracks.
pub open spec fn after_deltas(s: ManagerView, deltas: Seq<ConfigDelta>) -> (ManagerView, bool)
    decreases deltas.len(),
{
    if deltas.len() == 0 {
        (s, false)
    } else {
        let (before, changed) = after_deltas(s, deltas.drop_last());
        let (after, now) = after_delta(before, deltas.last());
        (after, changed || now)
    }
}

/// What is published when other tracks are shown.
pub open spec fn refresh() -> Seq<LibraryAction> {
    seq![
        LibraryAction::PublishRootCounts,
        LibraryAction::PublishTracks,
        LibraryAction::PublishGlobalSearchData,
    ]
}

/// What the library component remembers and does after a message.
pub open spec fn reaction(s: ManagerView, event: LibraryEvent) -> (
    ManagerView,
    Seq<LibraryAction>,
) {
    match event {
        LibraryEvent::ConfigChanged(deltas) => {
            let (after, changed) = after_deltas(s, deltas@);
            (
                after,
                if changed {
                    refresh()
                } else {
                    Seq::empty()
                },
            )
        },
        LibraryEvent::PlaylistIndicesChanged { is_playing } => (
            ManagerView { playback: is_playing, ..s },
            Seq::empty(),
        ),
        LibraryEvent::Play => (ManagerView { playback: true, ..s }, Seq::empty()),
        LibraryEvent::TrackStarted => (ManagerView { playback: true, ..s }, Seq::empty()),
        LibraryEvent::Pause => (ManagerView { playback: false, ..s }, Seq::empty()),
        LibraryEvent::Stop => (ManagerView { playback: false, ..s }, Seq::empty()),
        LibraryEvent::RemoteTracksUpdated { profile_id, tracks } => (
            ManagerView { remote: with_profile(s.remote, profile_id@, tracks), ..s },
            refresh(),
        ),
        LibraryEvent::RequestScan => (s, seq![LibraryAction::Scan]),
        LibraryEvent::RequestRootCounts => (s, seq![LibraryAction::PublishRootCounts]),
        LibraryEvent::RequestFavoritesSnapshot => (
            s,
            seq![LibraryAction::PublishFavoritesSnapshot],
        ),
        LibraryEvent::RequestTracks => (s, seq![LibraryAction::PublishTracks]),
        LibraryEvent::RequestArtists => (s, seq![LibraryAction::PublishArtists]),
        LibraryEvent::RequestAlbums => (s, seq![LibraryAction::PublishAlbums]),
        LibraryEvent::RequestGenres => (s, seq![LibraryAction::PublishGenres]),
        LibraryEvent::RequestDecades => (s, seq![LibraryAction::PublishDecades]),
        LibraryEvent::RequestGlobalSearchData => (s, seq![LibraryAction::PublishGlobalSearchData]),
        LibraryEvent::RequestArtistDetail { artist } => (
            s,
            seq![LibraryAction::PublishArtistDetail { artist }],
        ),
        LibraryEvent::RequestAlbumTracks { album, album_artist } => (
            s,
            seq![LibraryAction::PublishAlbumTracks { album, album_artist }],
        ),
        LibraryEvent::RequestGenreTracks { genre } => (
            s,
            seq![LibraryAction::PublishGenreTracks { genre }],
        ),
        LibraryEvent::RequestDecadeTracks { decade } => (
            s,
            seq![LibraryAction::PublishDecadeTracks { decade }],
        ),
        LibraryEvent::RequestLibraryPage { request_id, view, offset, limit } => (
            s,
            seq![LibraryAction::PublishPage { request_id, view, offset, limit }],
        ),
        LibraryEvent::RemoteFavoritesUpdated { profile_id, tracks } => (
            s,
            seq![
                LibraryAction::MergeRemoteFavorites { profile_id, tracks },
                LibraryAction::PushPendingFavorites { profile_id },
            ],
        ),
        LibraryEvent::FavoriteUpdateResult { profile_id, entity_key, success, error } => (
            s,
            seq![LibraryAction::RecordSyncResult { profile_id, entity_key, success, error }],
        ),
        LibraryEvent::ConnectBackendProfile { profile_id } => (
            s,
            seq![LibraryAction::PushPendingFavorites { profile_id }],
        ),
        LibraryEvent::SyncBackendProfile { profile_id } => (
            s,
            seq![LibraryAction::PushPendingFavorites { profile_id }],
        ),
        LibraryEvent::AddSelectionToPlaylists { selections, playlist_ids } => (
            s,
            seq![LibraryAction::AddSelection { selections, playlist_ids }],
        ),
        LibraryEvent::PasteSelectionToActivePlaylist { selections } => (
            s,
            seq![LibraryAction::PasteSelection { selections }],
        ),
        LibraryEvent::RemoveSelectionFromLibrary { selections } => (
            s,
            seq![LibraryAction::RemoveSelection { selections }],
        ),
        LibraryEvent::ToggleFavorite { entity, desired } => (
            s,
            seq![LibraryAction::ToggleFavorite { entity, desired }],
        ),
        LibraryEvent::Other => (s, Seq::empty()),
    }
}

fn one(action: LibraryAction) -> (r: Vec<LibraryAction>)
    ensures
        r@ == seq![action],
{
    let mut out: Vec<LibraryAction> = Vec::new();
    out.push(action);
    assert(out@ =~= seq![action]);
    out
}

fn refresh_actions() -> (r: Vec<LibraryAction>)
    ensures
        r@ == refresh(),
{
    let mut out: Vec<LibraryAction> = Vec::new();
    out.push(LibraryAction::PublishRootCounts);
    out.push(LibraryAction::PublishTracks);
    out.push(LibraryAction::PublishGlobalSearchData);
    assert(out@ =~= refresh());
    out
}

proof fn lemma_profile_slot(remote: Seq<(Seq<char>, Vec<LibraryTrack>)>, id: Seq<char>, i: int)
    requires
        0 <= i <= remote.len(),
        forall|k: int| 0 <= k < i ==> (#[trigger] remote[k]).0 != id,
        i < remote.len() ==> remote[i].0 == id,
    ensures
        profile_slot(remote, id) == i,
    decreases remote.len(),
{
    if i > 0 {
        assert(remote[0].0 != id);
        let rest = remote.skip(1);
        assert forall|k: int| 0 <= k < i - 1 implies (#[trigger] rest[k]).0 != id by {
            assert(remote[k + 1].0 != id);
        }
        if i < remote.len() {
            assert(rest[i - 1] == remote[i]);
        }
        lemma_profile_slot(rest, id, i - 1);
    }
}

impl LibraryManager {
    /// The library component as it starts.
    pub fn new(config: LibraryConfig) -> (r: LibraryManager)
        ensures
            r@ == (ManagerView {
                folders: texts(config.folders@),
                playback: false,
                with_playlists: config.include_playlist_tracks_in_library,
                remote: Seq::empty(),
            }),
    {
        let r = LibraryManager {
            library_folders: config.folders,
            playback_active: false,
            include_playlist_tracks_in_library: config.include_playlist_tracks_in_library,
            remote_tracks: Vec::new(),
        };
        assert(r@.remote =~= Seq::empty());
        r
    }

    fn change_settings(&mut self, deltas: &Vec<ConfigDelta>) -> (r: bool)
        ensures
            (final(self)@, r) == after_deltas(old(self)@, deltas@),
    {
        let ghost start = self@;
        let mut changed = false;
        let mut n: usize = 0;
        assert(deltas@.take(0) =~= Seq::empty());
        while n < deltas.len()
            invariant
                n <= deltas.len(),
                (self@, changed) == after_deltas(start, deltas@.take(n as int)),
            decreases deltas.len() - n,
        {
            proof {
                assert(deltas@.take(n + 1).drop_last() =~= deltas@.take(n as int));
                assert(deltas@.take(n + 1).last() == deltas@[n as int]);
            }
            match &deltas[n] {
                ConfigDelta::Other => {},
                ConfigDelta::Library(change) => {
                    match &change.folders {
                        Some(folders) => {
                            self.library_folders = clone_strings(folders);
                        },
                        None => {},
                    }
                    match change.include_playlist_tracks_in_library {
                        Some(with_playlists) => {
                            if self.include_playlist_tracks_in_library != with_playlists {
                                changed = true;
                            }
                            self.include_playlist_tracks_in_library = with_playlists;
                        },
                        None => {},
                    }
                },
            }
            n += 1;
        }
        assert(deltas@.take(n as int) =~= deltas@);
        changed
    }

    fn put_profile(&mut self, profile_id: String, tracks: Vec<LibraryTrack>)
        ensures
            final(self)@ == (ManagerView {
                remote: with_profile(old(self)@.remote, profile_id@, tracks),
                ..old(self)@
            }),
    {
        let ghost start = self@.remote;
        let mut slot: usize = 0;
        while slot < self.remote_tracks.len()
            invariant
                slot <= self.remote_tracks.len(),
                slot == self.remote_tracks.len() ==> slot == profile_slot(start, profile_id@),
                *self == *old(self),
                start == remote_view(self.remote_tracks@),
                forall|k: int| 0 <= k < slot ==> (#[trigger] start[k]).0 != profile_id@,
            ensures
                slot <= self.remote_tracks.len(),
                slot == profile_slot(start, profile_id@),
                *self == *old(self),
                start == remote_view(self.remote_tracks@),
            decreases self.remote_tracks.len() - slot,
        {
            assert(start[slot as int].0 == self.remote_tracks@[slot as int].0@);
            if self.remote_tracks[slot].0 == profile_id {
                proof {
                    lemma_profile_slot(start, profile_id@, slot as int);
                }
                break;
            }
            slot += 1;
            proof {
                if slot == self.remote_tracks.len() {
                    lemma_profile_slot(start, profile_id@, slot as int);
                }
            }
        }
        if tracks.len() == 0 {
            if slot < self.remote_tracks.len() {
                let _ = self.remote_tracks.remove(slot);
                assert(remote_view(self.remote_tracks@) =~= start.remove(slot as int));
            }
        } else if slot < self.remote_tracks.len() {
            self.remote_tracks.set(slot, (profile_id, tracks));
            assert(remote_view(self.remote_tracks@) =~= start.update(
                slot as int,
                (profile_id@, tracks),
            ));
        } else {
            self.remote_tracks.push((profile_id, tracks));
            assert(remote_view(self.remote_tracks@) =~= start.push((profile_id@, tracks)));
        }
    }

    /// Takes up a message and says what is to be done.
    pub fn handle(&mut self, event: LibraryEvent) -> (r: Vec<LibraryAction>)
        ensures
            (final(self)@, r@) == reaction(old(self)@, event),
    {
        let nothing: Vec<LibraryAction> = Vec::new();
        assert(nothing@ =~= Seq::empty());
        match event {
            LibraryEvent::ConfigChanged(deltas) => {
                if self.change_settings(&deltas) {
                    refresh_actions()
                } else {
                    nothing
                }
            },
            LibraryEvent::PlaylistIndicesChanged { is_playing } => {
                self.playback_active = is_playing;
                nothing
            },
            LibraryEvent::Play | LibraryEvent::TrackStarted => {
                self.playback_active = true;
                nothing
            },
            LibraryEvent::Pause | LibraryEvent::Stop => {
                self.playback_active = false;
                nothing
            },
            LibraryEvent::RemoteTracksUpdated { profile_id, tracks } => {
                self.put_profile(profile_id, tracks);
                refresh_actions()
            },
            LibraryEvent::RequestScan => one(LibraryAction::Scan),
            LibraryEvent::RequestRootCounts => one(LibraryAction::PublishRootCounts),
            LibraryEvent::RequestFavoritesSnapshot => one(LibraryAction::PublishFavoritesSnapshot),
            LibraryEvent::RequestTracks => one(LibraryAction::PublishTracks),
            LibraryEvent::RequestArtists => one(LibraryAction::PublishArtists),
            LibraryEvent::RequestAlbums => one(LibraryAction::PublishAlbums),
            LibraryEvent::RequestGenres => one(LibraryAction::PublishGenres),
            LibraryEvent::RequestDecades => one(LibraryAction::PublishDecades),
            LibraryEvent::RequestGlobalSearchData => one(LibraryAction::PublishGlobalSearchData),
            LibraryEvent::RequestArtistDetail { artist } => one(
                LibraryAction::PublishArtistDetail { artist },
            ),
            LibraryEvent::RequestAlbumTracks { album, album_artist } => one(
                LibraryAction::PublishAlbumTracks { album, album_artist },
            ),
            LibraryEvent::RequestGenreTracks { genre } => one(
                LibraryAction::PublishGenreTracks { genre },
            ),
            LibraryEvent::RequestDecadeTracks { decade } => one(
                LibraryAction::PublishDecadeTracks { decade },
            ),
            LibraryEvent::RequestLibraryPage { request_id, view, offset, limit } => one(
                LibraryAction::PublishPage { request_id, view, offset, limit },
            ),
            LibraryEvent::RemoteFavoritesUpdated { profile_id, tracks } => {
                let mut out = one(
                    LibraryAction::MergeRemoteFavorites { profile_id: profile_id.clone(), tracks },
                );
                out.push(LibraryAction::PushPendingFavorites { profile_id });
                assert(out@ =~= seq![
                    LibraryAction::MergeRemoteFavorites { profile_id, tracks },
                    LibraryAction::PushPendingFavorites { profile_id },
                ]);
                out
            },
            LibraryEvent::FavoriteUpdateResult { profile_id, entity_key, success, error } => one(
                LibraryAction::RecordSyncResult { profile_id, entity_key, success, error },
            ),
            LibraryEvent::ConnectBackendProfile { profile_id } => one(
                LibraryAction::PushPendingFavorites { profile_id },
            ),
            LibraryEvent::SyncBackendProfile { profile_id } => one(
                LibraryAction::PushPendingFavorites { profile_id },
            ),
            LibraryEvent::AddSelectionToPlaylists { selections, playlist_ids } => one(
                LibraryAction::AddSelection { selections, playlist_ids },
            ),
            LibraryEvent::PasteSelectionToActivePlaylist { selections } => one(
                LibraryAction::PasteSelection { selections },
            ),
            LibraryEvent::RemoveSelectionFromLibrary { selections } => one(
                LibraryAction::RemoveSelection { selections },
            ),
            LibraryEvent::ToggleFavorite { entity, desired } => one(
                LibraryAction::ToggleFavorite { entity, desired },
            ),
            LibraryEvent::Other => nothing,
        }
    }

    /// The tracks of all connected servers.
    pub fn all_remote_tracks(&self) -> (r: Vec<LibraryTrack>)
        ensures
            views(r@) == all_tracks(self@.remote),
    {
        let ghost remote = self@.remote;
        let mut out: Vec<LibraryTrack> = Vec::new();
        let mut i: usize = 0;
        assert(remote.take(0) =~= Seq::empty());
        assert(views(out@) =~= Seq::empty());
        while i < self.remote_tracks.len()
            invariant
                i <= self.remote_tracks.len(),
                remote == remote_view(self.remote_tracks@),
                views(out@) == all_tracks(remote.take(i as int)),
            decreases self.remote_tracks.len() - i,
        {
            let ghost before = views(out@);
            let copy = duplicates(&self.remote_tracks[i].1);
            let mut more = copy;
            out.append(&mut more);
            proof {
                assert(remote.take(i + 1).drop_last() =~= remote.take(i as int));
                assert(remote.take(i + 1).last() == remote[i as int]);
                assert(views(out@) =~= before + views(copy@));
                assert(remote[i as int].1 == self.remote_tracks@[i as int].1);
            }
            i += 1;
        }
        assert(remote.take(i as int) =~= remote);
        out
    }
}

/// The tracks of all connected servers, server by server.
pub open spec fn all_tracks(remote: Seq<(Seq<char>, Vec<LibraryTrack>)>) -> Seq<TrackView>
    decreases remote.len(),
{
    if remote.len() == 0 {
        Seq::empty()
    } else {
        all_tracks(remote.drop_last()) + views(remote.last().1@)
    }
}

/// How many entries the lists of the library have.
#[derive(Debug, Clone, Copy, PartialEq, Eq, Structural)]
pub struct RootCounts {
    pub tracks: usize,
    pub artists: usize,
    pub albums: usize,
    pub genres: usize,
    pub decades: usize,
    pub favorites: usize,
}

/// How many entries the lists of the library have.
pub fn root_counts(tracks: &Vec<LibraryTrack>, favorites: usize) -> (r: RootCounts)
    ensures
        r.tracks == tracks.len(),
        r.artists == artist_list(views(tracks@)).len(),
        r.albums == album_list(views(tracks@)).len(),
        r.genres == genre_list(views(tracks@)).len(),
        r.decades == decade_list(views(tracks@)).len(),
        r.favorites == favorites,
{
    let artists = effective_artists_from_tracks(tracks);
    let albums = effective_albums_from_tracks(tracks);
    let genres = effective_genres_from_tracks(tracks);
    let decades = effective_decades_from_tracks(tracks);
    assert(views(artists@).len() == artists.len());
    assert(views(albums@).len() == albums.len());
    assert(views(genres@).len() == genres.len());
    assert(views(decades@).len() == decades.len());
    RootCounts {
        tracks: tracks.len(),
        artists: artists.len(),
        albums: albums.len(),
        genres: genres.len(),
        decades: decades.len(),
        favorites,
    }
}

/// An artist's albums and tracks.
pub fn artist_detail(tracks: &Vec<LibraryTrack>, artist: &str) -> (r: (
    Vec<LibraryAlbum>,
    Vec<LibraryTrack>,
))
    ensures
        views(r.1@) == artist_tracks(views(tracks@), artist@),
        views(r.0@) == album_list(artist_tracks(views(tracks@), artist@)),
{
    let detail_tracks = tracks_for_artist_detail(tracks, artist);
    let albums = effective_albums_from_tracks(&detail_tracks);
    (albums, detail_tracks)
}

/// What is said where the favorites could not be loaded.
pub fn favorites_snapshot_failure(error: &str) -> (r: String)
    ensures
        r@ == "Failed to load favorites snapshot: "@ + error@,
{
    let mut message = owned("Failed to load favorites snapshot: ");
    append(&mut message, error);
    message
}

/// What is said where a page of favorites could not be loaded.
pub fn favorites_page_failure(error: &str) -> (r: String)
    ensures
        r@ == "Failed to load favorites page: "@ + error@,
{
    let mut message = owned("Failed to load favorites page: ");
    append(&mut message, error);
    message
}

/// No server is listed twice.
pub open spec fn profiles_differ(remote: Seq<(Seq<char>, Vec<LibraryTrack>)>) -> bool {
    forall|i: int, j: int| 0 <= i < j < remote.len() ==> (#[trigger] remote[i]).0 != (#[trigger] remote[j]).0
}

proof fn lemma_slot_is_first(remote: Seq<(Seq<char>, Vec<LibraryTrack>)>, id: Seq<char>)
    ensures
        profile_slot(remote, id) <= remote.len(),
        profile_slot(remote, id) < remote.len() ==> remote[profile_slot(remote, id) as int].0 == id,
        forall|k: int| 0 <= k < profile_slot(remote, id) ==> (#[trigger] remote[k]).0 != id,
    decreases remote.len(),
{
    if remote.len() > 0 && remote[0].0 != id {
        let rest = remote.skip(1);
        lemma_slot_is_first(rest, id);
        assert forall|k: int| 0 <= k < profile_slot(remote, id) implies (#[trigger] remote[k]).0
            != id by {
            if k > 0 {
                assert(rest[k - 1] == remote[k]);
            }
        }
        if profile_slot(remote, id) < remote.len() {
            assert(remote[profile_slot(remote, id) as int] == rest[profile_slot(rest, id) as int]);
        }
    }
}

/// What a server told last is what is remembered of it; a server that told no tracks is
/// forgotten; and the tracks of the other servers stay.
pub proof fn remote_tracks_are_remembered(
    remote: Seq<(Seq<char>, Vec<LibraryTrack>)>,
    id: Seq<char>,
    tracks: Vec<LibraryTrack>,
    other: Seq<char>,
)
    requires
        profiles_differ(remote),
        other != id,
    ensures
        profiles_differ(with_profile(remote, id, tracks)),
        tracks@.len() > 0 ==> with_profile(remote, id, tracks).contains((id, tracks)),
        tracks@.len() == 0 ==> forall|k: int|
            0 <= k < with_profile(remote, id, tracks).len() ==> (#[trigger] with_profile(
                remote,
                id,
                tracks,
            )[k]).0 != id,
        forall|v: Vec<LibraryTrack>|
            with_profile(remote, id, tracks).contains((other, v)) <==> #[trigger] remote.contains(
                (other, v),
            ),
{
    lemma_slot_is_first(remote, id);
    let slot = profile_slot(remote, id) as int;
    let after = with_profile(remote, id, tracks);
    if tracks@.len() > 0 {
        assert(after[slot] == (id, tracks));
    }
    assert forall|v: Vec<LibraryTrack>| after.contains((other, v)) <==> #[trigger] remote.contains(
        (other, v),
    ) by {
        if remote.contains((other, v)) {
            let k = remote.index_of((other, v));
            assert(k != slot || slot >= remote.len());
            if tracks@.len() == 0 && slot < remote.len() && k > slot {
                assert(after[k - 1] == (other, v));
            } else {
                assert(after[k] == (other, v));
            }
        }
        if after.contains((other, v)) {
            let k = after.index_of((other, v));
            if tracks@.len() == 0 && slot < remote.len() && k >= slot {
                assert(remote[k + 1] == (other, v));
            } else {
                assert(k != slot || tracks@.len() == 0);
                assert(remote[k] == (other, v));
            }
        }
    }
}

} // verus!
