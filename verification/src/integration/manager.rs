//! The component that keeps the profiles of music servers and exchanges tracks and playlists
//! with them.

use crate::integration::uri::{address, encode_opensubsonic_track_uri};
use crate::library::catalog::{sort_by_keys, sorted_by};
use crate::library::order::{key_view, text_part, text_part_of};
use crate::protocol::{clone_option_text, unit_result, views, Duplicate, LibraryTrack, TrackView};
use crate::text::{append, chars_of, option_text, owned, text_equal, texts};
use vstd::hash_map::StringHashMap;
use vstd::prelude::*;

verus! {

/// What a profile stands for.
#[derive(Debug, Clone, Copy, PartialEq, Eq, Structural)]
pub enum BackendKind {
    OpenSubsonic,
    LocalFs,
}

/// Whether a server can be reached.
#[derive(Debug, Clone, Copy, PartialEq, Eq, Structural)]
pub enum BackendConnectionState {
    Disconnected,
    Connecting,
    Connected,
    Error,
}

/// The profile of a server.
#[derive(Debug, PartialEq, Eq)]
pub struct BackendProfileSnapshot {
    pub profile_id: String,
    pub backend_kind: BackendKind,
    pub display_name: String,
    pub endpoint: String,
    pub username: String,
    pub configured: bool,
    pub connection_state: BackendConnectionState,
    pub status_text: Option<String>,
}

/// The contents of a [`BackendProfileSnapshot`].
#[verifier::ext_equal]
pub struct ProfileView {
    pub profile_id: Seq<char>,
    pub backend_kind: BackendKind,
    pub display_name: Seq<char>,
    pub endpoint: Seq<char>,
    pub username: Seq<char>,
    pub configured: bool,
    pub connection_state: BackendConnectionState,
    pub status_text: Option<Seq<char>>,
}

impl View for BackendProfileSnapshot {
    type V = ProfileView;

    open spec fn view(&self) -> ProfileView {
        ProfileView {
            profile_id: self.profile_id@,
            backend_kind: self.backend_kind,
            display_name: self.display_name@,
            endpoint: self.endpoint@,
            username: self.username@,
            configured: self.configured,
            connection_state: self.connection_state,
            status_text: option_text(self.status_text),
        }
    }
}

impl Clone for BackendProfileSnapshot {
    fn clone(&self) -> (r: Self)
        ensures
            r@ == self@,
    {
        BackendProfileSnapshot {
            profile_id: self.profile_id.clone(),
            backend_kind: self.backend_kind,
            display_name: self.display_name.clone(),
            endpoint: self.endpoint.clone(),
            username: self.username.clone(),
            configured: self.configured,
            connection_state: self.connection_state,
            status_text: clone_option_text(&self.status_text),
        }
    }
}

impl Duplicate for BackendProfileSnapshot {
    fn duplicate(&self) -> (r: Self) {
        self.clone()
    }
}

/// What a server is asked with.
#[derive(Debug, PartialEq, Eq)]
pub struct BackendProfileAuth {
    pub profile_id: String,
    pub endpoint: String,
    pub username: String,
    pub password: String,
}

/// The contents of a [`BackendProfileAuth`].
#[verifier::ext_equal]
pub struct AuthView {
    pub profile_id: Seq<char>,
    pub endpoint: Seq<char>,
    pub username: Seq<char>,
    pub password: Seq<char>,
}

impl View for BackendProfileAuth {
    type V = AuthView;

    open spec fn view(&self) -> AuthView {
        AuthView {
            profile_id: self.profile_id@,
            endpoint: self.endpoint@,
            username: self.username@,
            password: self.password@,
        }
    }
}

impl Clone for BackendProfileAuth {
    fn clone(&self) -> (r: Self)
        ensures
            r@ == self@,
    {
        BackendProfileAuth {
            profile_id: self.profile_id.clone(),
            endpoint: self.endpoint.clone(),
            username: self.username.clone(),
            password: self.password.clone(),
        }
    }
}

/// A track as a server describes it.
#[derive(Debug, PartialEq, Eq)]
pub struct BackendTrack {
    pub item_id: String,
    pub title: String,
    pub artist: String,
    pub album: String,
    pub genre: String,
    pub year: String,
    pub track_number: String,
    pub format_hint: Option<String>,
}

/// The contents of a [`BackendTrack`].
#[verifier::ext_equal]
pub struct BackendTrackView {
    pub item_id: Seq<char>,
    pub title: Seq<char>,
    pub artist: Seq<char>,
    pub album: Seq<char>,
    pub genre: Seq<char>,
    pub year: Seq<char>,
    pub track_number: Seq<char>,
    pub format_hint: Option<Seq<char>>,
}

impl View for BackendTrack {
    type V = BackendTrackView;

    open spec fn view(&self) -> BackendTrackView {
        BackendTrackView {
            item_id: self.item_id@,
            title: self.title@,
            artist: self.artist@,
            album: self.album@,
            genre: self.genre@,
            year: self.year@,
            track_number: self.track_number@,
            format_hint: option_text(self.format_hint),
        }
    }
}

/// A playlist as a server describes it.
#[derive(Debug, PartialEq, Eq)]
pub struct BackendPlaylist {
    pub remote_playlist_id: String,
    pub name: String,
    pub tracks: Vec<BackendTrack>,
}

/// The contents of a [`BackendPlaylist`].
#[verifier::ext_equal]
pub struct BackendPlaylistView {
    pub remote_playlist_id: Seq<char>,
    pub name: Seq<char>,
    pub tracks: Seq<BackendTrackView>,
}

impl View for BackendPlaylist {
    type V = BackendPlaylistView;

    open spec fn view(&self) -> BackendPlaylistView {
        BackendPlaylistView {
            remote_playlist_id: self.remote_playlist_id@,
            name: self.name@,
            tracks: views(self.tracks@),
        }
    }
}

/// What is shown of a track of a playlist.
#[derive(Clone, Debug, PartialEq, Eq)]
pub struct TrackMetadataSummary {
    pub title: String,
    pub artist: String,
    pub album: String,
    pub album_artist: String,
    pub date: String,
    pub genre: String,
    pub year: String,
    pub track_number: String,
}

/// The contents of a [`TrackMetadataSummary`].
#[verifier::ext_equal]
pub struct SummaryView {
    pub title: Seq<char>,
    pub artist: Seq<char>,
    pub album: Seq<char>,
    pub album_artist: Seq<char>,
    pub date: Seq<char>,
    pub genre: Seq<char>,
    pub year: Seq<char>,
    pub track_number: Seq<char>,
}

impl View for TrackMetadataSummary {
    type V = SummaryView;

    open spec fn view(&self) -> SummaryView {
        SummaryView {
            title: self.title@,
            artist: self.artist@,
            album: self.album@,
            album_artist: self.album_artist@,
            date: self.date@,
            genre: self.genre@,
            year: self.year@,
            track_number: self.track_number@,
        }
    }
}

/// A track of a server's playlist as the player knows it.
#[derive(Clone, Debug, PartialEq, Eq)]
pub struct RemotePlaylistTrackSnapshot {
    pub item_id: String,
    pub path: String,
    pub summary: TrackMetadataSummary,
}

/// The contents of a [`RemotePlaylistTrackSnapshot`].
#[verifier::ext_equal]
pub struct RemoteTrackView {
    pub item_id: Seq<char>,
    pub path: Seq<char>,
    pub summary: SummaryView,
}

impl View for RemotePlaylistTrackSnapshot {
    type V = RemoteTrackView;

    open spec fn view(&self) -> RemoteTrackView {
        RemoteTrackView { item_id: self.item_id@, path: self.path@, summary: self.summary@ }
    }
}

/// A server's playlist as the player knows it.
#[derive(Clone, Debug, PartialEq, Eq)]
pub struct RemotePlaylistSnapshot {
    pub remote_playlist_id: String,
    pub name: String,
    pub tracks: Vec<RemotePlaylistTrackSnapshot>,
}

/// The contents of a [`RemotePlaylistSnapshot`].
#[verifier::ext_equal]
pub struct RemotePlaylistView {
    pub remote_playlist_id: Seq<char>,
    pub name: Seq<char>,
    pub tracks: Seq<RemoteTrackView>,
}

impl View for RemotePlaylistSnapshot {
    type V = RemotePlaylistView;

    open spec fn view(&self) -> RemotePlaylistView {
        RemotePlaylistView {
            remote_playlist_id: self.remote_playlist_id@,
            name: self.name@,
            tracks: views(self.tracks@),
        }
    }
}

/// What the component tells the rest of the player.
#[allow(inconsistent_fields)]
#[derive(Debug, PartialEq, Eq)]
pub enum IntegrationNotice {
    Snapshot { version: u64, profiles: Vec<BackendProfileSnapshot> },
    OperationFailed { profile_id: String, action: String, error: String },
    TracksUpdated { profile_id: String, tracks: Vec<LibraryTrack> },
    PlaylistsUpdated { profile_id: String, playlists: Vec<RemotePlaylistSnapshot> },
    WritebackResult { local_playlist_id: String, success: bool, error: Option<String> },
}

/// The contents of an [`IntegrationNotice`].
#[allow(inconsistent_fields)]
#[verifier::ext_equal]
pub enum NoticeView {
    Snapshot { version: u64, profiles: Seq<ProfileView> },
    OperationFailed { profile_id: Seq<char>, action: Seq<char>, error: Seq<char> },
    TracksUpdated { profile_id: Seq<char>, tracks: Seq<TrackView> },
    PlaylistsUpdated { profile_id: Seq<char>, playlists: Seq<RemotePlaylistView> },
    WritebackResult { local_playlist_id: Seq<char>, success: bool, error: Option<Seq<char>> },
}

impl View for IntegrationNotice {
    type V = NoticeView;

    open spec fn view(&self) -> NoticeView {
        match self {
            IntegrationNotice::Snapshot { version, profiles } => NoticeView::Snapshot {
                version: *version,
                profiles: views(profiles@),
            },
            IntegrationNotice::OperationFailed { profile_id, action, error } =>
                NoticeView::OperationFailed {
                profile_id: profile_id@,
                action: action@,
                error: error@,
            },
            IntegrationNotice::TracksUpdated { profile_id, tracks } => NoticeView::TracksUpdated {
                profile_id: profile_id@,
                tracks: views(tracks@),
            },
            IntegrationNotice::PlaylistsUpdated { profile_id, playlists } =>
                NoticeView::PlaylistsUpdated {
                profile_id: profile_id@,
                playlists: views(playlists@),
            },
            IntegrationNotice::WritebackResult { local_playlist_id, success, error } =>
                NoticeView::WritebackResult {
                local_playlist_id: local_playlist_id@,
                success: *success,
                error: option_text(*error),
            },
        }
    }
}

/// Why a server is asked for its tracks and playlists.
#[derive(Debug, Clone, Copy, PartialEq, Eq, Structural)]
pub enum SyncPurpose {
    Connect,
    Sync,
}

/// Why a connection is tried.
#[derive(Debug, Clone, Copy, PartialEq, Eq, Structural)]
pub enum TestPurpose {
    Connect,
    Test,
}

/// What a server is to be asked next.
#[derive(Debug, PartialEq, Eq)]
pub enum IntegrationNext {
    Wait,
    TestConnection { auth: BackendProfileAuth, test: TestPurpose },
    FetchTracks { auth: BackendProfileAuth, purpose: SyncPurpose },
    FetchPlaylists { auth: BackendProfileAuth, purpose: SyncPurpose },
    ReplacePlaylist {
        auth: BackendProfileAuth,
        remote_playlist_id: String,
        local_playlist_id: String,
        song_ids: Vec<String>,
    },
}

/// The contents of an [`IntegrationNext`].
#[verifier::ext_equal]
pub enum NextView {
    Wait,
    TestConnection { auth: AuthView, test: TestPurpose },
    FetchTracks { auth: AuthView, purpose: SyncPurpose },
    FetchPlaylists { auth: AuthView, purpose: SyncPurpose },
    ReplacePlaylist {
        auth: AuthView,
        remote_playlist_id: Seq<char>,
        local_playlist_id: Seq<char>,
        song_ids: Seq<Seq<char>>,
    },
}

impl View for IntegrationNext {
    type V = NextView;

    open spec fn view(&self) -> NextView {
        match self {
            IntegrationNext::Wait => NextView::Wait,
            IntegrationNext::TestConnection { auth, test } => NextView::TestConnection {
                auth: auth@,
                test: *test,
            },
            IntegrationNext::FetchTracks { auth, purpose } => NextView::FetchTracks {
                auth: auth@,
                purpose: *purpose,
            },
            IntegrationNext::FetchPlaylists { auth, purpose } => NextView::FetchPlaylists {
                auth: auth@,
                purpose: *purpose,
            },
            IntegrationNext::ReplacePlaylist {
                auth,
                remote_playlist_id,
                local_playlist_id,
                song_ids,
            } => NextView::ReplacePlaylist {
                auth: auth@,
                remote_playlist_id: remote_playlist_id@,
                local_playlist_id: local_playlist_id@,
                song_ids: texts(song_ids@),
            },
        }
    }
}

/// What the component remembers.
pub struct IntegrationManager {
    profiles: Vec<BackendProfileSnapshot>,
    passwords: StringHashMap<String>,
    snapshot_version: u64,
}

/// The contents of an [`IntegrationManager`].
#[verifier::ext_equal]
pub struct IntegrationView {
    pub profiles: Seq<ProfileView>,
    pub passwords: Map<Seq<char>, String>,
    pub version: u64,
}

impl View for IntegrationManager {
    type V = IntegrationView;

    closed spec fn view(&self) -> IntegrationView {
        IntegrationView {
            profiles: views(self.profiles@),
            passwords: self.passwords@,
            version: self.snapshot_version,
        }
    }
}

/// What the component remembers, and what it has told on the way there.
#[verifier::ext_equal]
pub struct Course {
    pub state: IntegrationView,
    pub told: Seq<NoticeView>,
}

/// Where a profile stands, or how many profiles there are.
pub open spec fn profile_slot(profiles: Seq<ProfileView>, id: Seq<char>) -> nat
    decreases profiles.len(),
{
    if profiles.len() == 0 || profiles[0].profile_id == id {
        0
    } else {
        1 + profile_slot(profiles.skip(1), id)
    }
}

/// The profile with an id.
pub open spec fn profile_of(profiles: Seq<ProfileView>, id: Seq<char>) -> Option<ProfileView> {
    let slot = profile_slot(profiles, id) as int;
    if slot < profiles.len() {
        Some(profiles[slot])
    } else {
        None
    }
}

pub open spec fn id_keys() -> spec_fn(ProfileView) -> Seq<Seq<u32>> {
    |p: ProfileView| seq![text_part(p.profile_id)]
}

/// The profiles are told, by their ids, under a new number.
pub open spec fn snapshot(c: Course) -> Course {
    let version = if c.state.version < u64::MAX {
        (c.state.version + 1) as u64
    } else {
        u64::MAX
    };
    Course {
        state: IntegrationView { version, ..c.state },
        told: c.told.push(
            NoticeView::Snapshot { version, profiles: sorted_by(c.state.profiles, id_keys()) },
        ),
    }
}

/// The connection of a profile changes, if there is such a profile.
pub open spec fn with_state(
    c: Course,
    id: Seq<char>,
    connection_state: BackendConnectionState,
    status_text: Option<Seq<char>>,
) -> Course {
    let slot = profile_slot(c.state.profiles, id) as int;
    if slot < c.state.profiles.len() {
        let changed = ProfileView { connection_state, status_text, ..c.state.profiles[slot] };
        snapshot(
            Course {
                state: IntegrationView {
                    profiles: c.state.profiles.update(slot, changed),
                    ..c.state
                },
                ..c
            },
        )
    } else {
        c
    }
}

/// A failed operation is told.
pub open spec fn with_failure(c: Course, id: Seq<char>, action: Seq<char>, error: Seq<char>) -> Course {
    Course {
        told: c.told.push(NoticeView::OperationFailed { profile_id: id, action, error }),
        ..c
    }
}

/// The tracks and playlists of a server are forgotten.
pub open spec fn without_contents(c: Course, id: Seq<char>) -> Course {
    Course {
        told: c.told.push(
            NoticeView::TracksUpdated { profile_id: id, tracks: Seq::empty() },
        ).push(NoticeView::PlaylistsUpdated { profile_id: id, playlists: Seq::empty() }),
        ..c
    }
}

/// What a server is asked with, or what is missing.
pub open spec fn auth_of(s: IntegrationView, id: Seq<char>) -> Result<AuthView, Seq<char>> {
    match profile_of(s.profiles, id) {
        None => Err("unknown profile: "@ + id),
        Some(profile) => if s.passwords.contains_key(id) {
            Ok(
                AuthView {
                    profile_id: profile.profile_id,
                    endpoint: profile.endpoint,
                    username: profile.username,
                    password: s.passwords[id]@,
                },
            )
        } else {
            Err(
                "missing cached OpenSubsonic credential for profile '"@ + id
                    + "'. Save credentials in Settings and reconnect."@,
            )
        },
    }
}

/// A connection fails: the profile shows the error, and then the failure is told.
pub open spec fn shown_failure(c: Course, id: Seq<char>, action: Seq<char>, error: Seq<char>) -> Course {
    with_failure(
        with_state(c, id, BackendConnectionState::Error, Some(error)),
        id,
        action,
        error,
    )
}

/// An exchange fails: the failure is told, and then the profile shows the error.
pub open spec fn told_failure(c: Course, id: Seq<char>, action: Seq<char>, error: Seq<char>) -> Course {
    with_state(
        with_failure(c, id, action, error),
        id,
        BackendConnectionState::Error,
        Some(error),
    )
}

/// The component is asked to connect with a server.
pub open spec fn on_connect(c: Course, id: Seq<char>) -> (Course, NextView) {
    match profile_of(c.state.profiles, id) {
        None => (c, NextView::Wait),
        Some(profile) => if profile.backend_kind == BackendKind::OpenSubsonic {
            let connecting = with_state(
                c,
                id,
                BackendConnectionState::Connecting,
                Some("Connecting..."@),
            );
            match auth_of(connecting.state, id) {
                Ok(auth) => (
                    connecting,
                    NextView::TestConnection { auth, test: TestPurpose::Connect },
                ),
                Err(e) => (shown_failure(connecting, id, "connect"@, e), NextView::Wait),
            }
        } else {
            (c, NextView::Wait)
        },
    }
}

/// A profile is stored.
pub open spec fn with_profile(s: IntegrationView, profile: ProfileView) -> IntegrationView {
    let slot = profile_slot(s.profiles, profile.profile_id) as int;
    IntegrationView {
        profiles: if slot < s.profiles.len() {
            s.profiles.update(slot, profile)
        } else {
            s.profiles.push(profile)
        },
        ..s
    }
}

/// The component is given a profile, and perhaps a password.
pub open spec fn on_upsert(
    c: Course,
    profile: ProfileView,
    password: Option<String>,
    connect_now: bool,
) -> (Course, NextView) {
    let known = match password {
        Some(password) => IntegrationView {
            passwords: c.state.passwords.insert(profile.profile_id, password),
            ..c.state
        },
        None => c.state,
    };
    let stored = snapshot(Course { state: with_profile(known, profile), ..c });
    if connect_now {
        on_connect(stored, profile.profile_id)
    } else {
        (stored, NextView::Wait)
    }
}

/// The component is asked to forget a profile.
pub open spec fn on_remove(c: Course, id: Seq<char>) -> Course {
    let slot = profile_slot(c.state.profiles, id) as int;
    let forgotten = IntegrationView { passwords: c.state.passwords.remove(id), ..c.state };
    if slot < c.state.profiles.len() {
        let profile = c.state.profiles[slot];
        let rest = Course {
            state: IntegrationView {
                profiles: c.state.profiles.remove(slot),
                ..forgotten
            },
            ..c
        };
        snapshot(
            if profile.backend_kind == BackendKind::OpenSubsonic {
                without_contents(rest, id)
            } else {
                rest
            },
        )
    } else {
        Course { state: forgotten, ..c }
    }
}

/// A connection was tried.
pub open spec fn on_tested(
    c: Course,
    auth: AuthView,
    purpose: TestPurpose,
    id: Seq<char>,
    result: Result<(), Seq<char>>,
) -> (Course, NextView) {
    match purpose {
        TestPurpose::Connect => match result {
            Ok(_) => (
                with_state(c, id, BackendConnectionState::Connected, Some("Connected"@)),
                NextView::FetchTracks { auth, purpose: SyncPurpose::Connect },
            ),
            Err(e) => (shown_failure(c, id, "connect"@, e), NextView::Wait),
        },
        TestPurpose::Test => match result {
            Ok(_) => (
                with_state(
                    c,
                    id,
                    BackendConnectionState::Connected,
                    Some("Connection test succeeded"@),
                ),
                NextView::Wait,
            ),
            Err(e) => (shown_failure(c, id, "test"@, e), NextView::Wait),
        },
    }
}

/// The component is asked to try a connection.
pub open spec fn on_test(c: Course, id: Seq<char>) -> (Course, NextView) {
    match auth_of(c.state, id) {
        Ok(auth) => (c, NextView::TestConnection { auth, test: TestPurpose::Test }),
        Err(e) => (shown_failure(c, id, "test"@, e), NextView::Wait),
    }
}

/// The component is asked to end a connection.
pub open spec fn on_disconnect(c: Course, id: Seq<char>) -> Course {
    let ended = with_state(
        c,
        id,
        BackendConnectionState::Disconnected,
        Some("Disconnected"@),
    );
    match profile_of(c.state.profiles, id) {
        Some(profile) => if profile.backend_kind == BackendKind::OpenSubsonic {
            without_contents(ended, id)
        } else {
            ended
        },
        None => ended,
    }
}

/// The component is asked to exchange tracks and playlists.
pub open spec fn on_sync(c: Course, id: Seq<char>) -> (Course, NextView) {
    match auth_of(c.state, id) {
        Ok(auth) => (c, NextView::FetchTracks { auth, purpose: SyncPurpose::Sync }),
        Err(e) => (told_failure(c, id, "sync"@, e), NextView::Wait),
    }
}

/// An exchange fails.
pub open spec fn sync_failure(c: Course, purpose: SyncPurpose, id: Seq<char>, error: Seq<char>) -> Course {
    match purpose {
        SyncPurpose::Connect => shown_failure(c, id, "sync"@, error),
        SyncPurpose::Sync => told_failure(c, id, "sync"@, error),
    }
}

/// The address under which the player knows a server's track.
pub open spec fn track_address(auth: AuthView, track: BackendTrackView) -> Seq<char> {
    address(auth.profile_id, track.item_id, auth.endpoint, auth.username, track.format_hint)
}

/// A server's track in the library.
pub open spec fn library_track(auth: AuthView, id: Seq<char>, track: BackendTrackView) -> TrackView {
    TrackView {
        id: "subsonic:"@ + id + ":"@ + track.item_id,
        path: track_address(auth, track),
        title: track.title,
        artist: track.artist,
        album: track.album,
        album_artist: track.artist,
        genre: track.genre,
        year: track.year,
        track_number: track.track_number,
    }
}

pub open spec fn library_tracks_of(auth: AuthView, id: Seq<char>) -> spec_fn(
    BackendTrackView,
) -> TrackView {
    |track: BackendTrackView| library_track(auth, id, track)
}

/// A server's track in a playlist.
pub open spec fn playlist_track(auth: AuthView, track: BackendTrackView) -> RemoteTrackView {
    RemoteTrackView {
        item_id: track.item_id,
        path: track_address(auth, track),
        summary: SummaryView {
            title: track.title,
            artist: track.artist,
            album: track.album,
            album_artist: track.artist,
            date: track.year,
            genre: track.genre,
            year: track.year,
            track_number: track.track_number,
        },
    }
}

pub open spec fn playlist_tracks_of(auth: AuthView) -> spec_fn(BackendTrackView) -> RemoteTrackView {
    |track: BackendTrackView| playlist_track(auth, track)
}

/// A server's playlist.
pub open spec fn playlist_of(auth: AuthView, playlist: BackendPlaylistView) -> RemotePlaylistView {
    RemotePlaylistView {
        remote_playlist_id: playlist.remote_playlist_id,
        name: playlist.name,
        tracks: playlist.tracks.map_values(playlist_tracks_of(auth)),
    }
}

pub open spec fn playlists_of(auth: AuthView) -> spec_fn(
    BackendPlaylistView,
) -> RemotePlaylistView {
    |playlist: BackendPlaylistView| playlist_of(auth, playlist)
}

/// A server has told its tracks, or not.
pub open spec fn on_tracks(
    c: Course,
    auth: AuthView,
    purpose: SyncPurpose,
    id: Seq<char>,
    result: Result<Seq<BackendTrackView>, Seq<char>>,
) -> (Course, NextView) {
    match result {
        Ok(tracks) => (
            Course {
                told: c.told.push(
                    NoticeView::TracksUpdated {
                        profile_id: id,
                        tracks: tracks.map_values(library_tracks_of(auth, id)),
                    },
                ),
                ..c
            },
            NextView::FetchPlaylists { auth, purpose },
        ),
        Err(e) => (sync_failure(c, purpose, id, e), NextView::Wait),
    }
}

/// A server has told its playlists, or not.
pub open spec fn on_playlists(
    c: Course,
    auth: AuthView,
    purpose: SyncPurpose,
    id: Seq<char>,
    result: Result<Seq<BackendPlaylistView>, Seq<char>>,
) -> Course {
    match result {
        Ok(playlists) => {
            let told = Course {
                told: c.told.push(
                    NoticeView::PlaylistsUpdated {
                        profile_id: id,
                        playlists: playlists.map_values(playlists_of(auth)),
                    },
                ),
                ..c
            };
            match purpose {
                SyncPurpose::Connect => told,
                SyncPurpose::Sync => with_state(
                    told,
                    id,
                    BackendConnectionState::Connected,
                    Some("Synced"@),
                ),
            }
        },
        Err(e) => sync_failure(c, purpose, id, e),
    }
}

pub open spec fn with_writeback(
    c: Course,
    local_playlist_id: Seq<char>,
    success: bool,
    error: Option<Seq<char>>,
) -> Course {
    Course {
        told: c.told.push(NoticeView::WritebackResult { local_playlist_id, success, error }),
        ..c
    }
}

/// The component is asked to store a playlist on its server.
pub open spec fn on_push(
    c: Course,
    id: Seq<char>,
    remote_playlist_id: Seq<char>,
    local_playlist_id: Seq<char>,
    song_ids: Seq<Seq<char>>,
) -> (Course, NextView) {
    match auth_of(c.state, id) {
        Ok(auth) => (
            c,
            NextView::ReplacePlaylist { auth, remote_playlist_id, local_playlist_id, song_ids },
        ),
        Err(e) => (with_writeback(c, local_playlist_id, false, Some(e)), NextView::Wait),
    }
}

/// A playlist was stored on its server, or not.
pub open spec fn on_pushed(
    c: Course,
    id: Seq<char>,
    local_playlist_id: Seq<char>,
    result: Result<(), Seq<char>>,
) -> Course {
    match result {
        Ok(_) => with_writeback(c, local_playlist_id, true, None),
        Err(e) => with_writeback(
            with_failure(c, id, "playlist_writeback"@, e),
            local_playlist_id,
            false,
            Some(e),
        ),
    }
}

proof fn lemma_profile_slot(profiles: Seq<ProfileView>, id: Seq<char>, i: int)
    requires
        0 <= i <= profiles.len(),
        forall|k: int| 0 <= k < i ==> (#[trigger] profiles[k]).profile_id != id,
        i < profiles.len() ==> profiles[i].profile_id == id,
    ensures
        profile_slot(profiles, id) == i,
    decreases profiles.len(),
{
    if i > 0 {
        assert(profiles[0].profile_id != id);
        let rest = profiles.skip(1);
        assert forall|k: int| 0 <= k < i - 1 implies (#[trigger] rest[k]).profile_id != id by {
            assert(profiles[k + 1].profile_id != id);
        }
        if i < profiles.len() {
            assert(rest[i - 1] == profiles[i]);
        }
        lemma_profile_slot(rest, id, i - 1);
    }
}

/// What the component remembers and has told.
pub open spec fn course(state: IntegrationView, told: Seq<IntegrationNotice>) -> Course {
    Course { state, told: views(told) }
}

fn tell(told: &mut Vec<IntegrationNotice>, notice: IntegrationNotice)
    ensures
        views(final(told)@) == views(old(told)@).push(notice@),
{
    let ghost before = views(told@);
    told.push(notice);
    assert(views(told@) =~= before.push(notice@));
}

/// The address under which the player knows a server's track.
pub fn remote_track_path(auth: &BackendProfileAuth, track: &BackendTrack) -> (r: String)
    ensures
        r@ == track_address(auth@, track@),
{
    let hint: Option<&str> = match &track.format_hint {
        Some(hint) => Some(hint.as_str()),
        None => None,
    };
    encode_opensubsonic_track_uri(
        auth.profile_id.as_str(),
        track.item_id.as_str(),
        auth.endpoint.as_str(),
        auth.username.as_str(),
        hint,
    )
}

/// The server's tracks in the library.
pub fn remote_library_tracks(
    auth: &BackendProfileAuth,
    profile_id: &str,
    tracks: &Vec<BackendTrack>,
) -> (r: Vec<LibraryTrack>)
    ensures
        views(r@) == views(tracks@).map_values(library_tracks_of(auth@, profile_id@)),
{
    let mut out: Vec<LibraryTrack> = Vec::new();
    let mut i: usize = 0;
    while i < tracks.len()
        invariant
            i <= tracks.len(),
            out.len() == i,
            forall|k: int|
                0 <= k < i ==> (#[trigger] out@[k])@ == library_track(
                    auth@,
                    profile_id@,
                    tracks@[k]@,
                ),
        decreases tracks.len() - i,
    {
        let track = &tracks[i];
        let mut id = owned("subsonic:");
        append(&mut id, profile_id);
        append(&mut id, ":");
        append(&mut id, track.item_id.as_str());
        out.push(
            LibraryTrack {
                id,
                path: remote_track_path(auth, track),
                title: track.title.clone(),
                artist: track.artist.clone(),
                album: track.album.clone(),
                album_artist: track.artist.clone(),
                genre: track.genre.clone(),
                year: track.year.clone(),
                track_number: track.track_number.clone(),
            },
        );
        i += 1;
    }
    assert(views(out@) =~= views(tracks@).map_values(library_tracks_of(auth@, profile_id@)));
    out
}

fn remote_playlist(auth: &BackendProfileAuth, playlist: &BackendPlaylist) -> (r:
    RemotePlaylistSnapshot)
    ensures
        r@ == playlist_of(auth@, playlist@),
{
    let mut out: Vec<RemotePlaylistTrackSnapshot> = Vec::new();
    let mut i: usize = 0;
    while i < playlist.tracks.len()
        invariant
            i <= playlist.tracks.len(),
            out.len() == i,
            forall|k: int|
                0 <= k < i ==> (#[trigger] out@[k])@ == playlist_track(
                    auth@,
                    playlist.tracks@[k]@,
                ),
        decreases playlist.tracks.len() - i,
    {
        let track = &playlist.tracks[i];
        out.push(
            RemotePlaylistTrackSnapshot {
                item_id: track.item_id.clone(),
                path: remote_track_path(auth, track),
                summary: TrackMetadataSummary {
                    title: track.title.clone(),
                    artist: track.artist.clone(),
                    album: track.album.clone(),
                    album_artist: track.artist.clone(),
                    date: track.year.clone(),
                    genre: track.genre.clone(),
                    year: track.year.clone(),
                    track_number: track.track_number.clone(),
                },
            },
        );
        i += 1;
    }
    assert(views(out@) =~= views(playlist.tracks@).map_values(playlist_tracks_of(auth@)));
    RemotePlaylistSnapshot {
        remote_playlist_id: playlist.remote_playlist_id.clone(),
        name: playlist.name.clone(),
        tracks: out,
    }
}

/// The server's playlists.
pub fn remote_playlists(auth: &BackendProfileAuth, playlists: &Vec<BackendPlaylist>) -> (r: Vec<
    RemotePlaylistSnapshot,
>)
    ensures
        views(r@) == views(playlists@).map_values(playlists_of(auth@)),
{
    let mut out: Vec<RemotePlaylistSnapshot> = Vec::new();
    let mut i: usize = 0;
    while i < playlists.len()
        invariant
            i <= playlists.len(),
            out.len() == i,
            forall|k: int|
                0 <= k < i ==> (#[trigger] out@[k])@ == playlist_of(auth@, playlists@[k]@),
        decreases playlists.len() - i,
    {
        out.push(remote_playlist(auth, &playlists[i]));
        i += 1;
    }
    assert(views(out@) =~= views(playlists@).map_values(playlists_of(auth@)));
    out
}

impl IntegrationManager {
    /// The component as it starts.
    pub fn new() -> (r: IntegrationManager)
        ensures
            r@ == (IntegrationView {
                profiles: Seq::empty(),
                passwords: Map::empty(),
                version: 0,
            }),
    {
        let r = IntegrationManager {
            profiles: Vec::new(),
            passwords: StringHashMap::new(),
            snapshot_version: 0,
        };
        assert(r@.profiles =~= Seq::empty());
        r
    }

    fn slot_of(&self, id: &str) -> (r: usize)
        ensures
            r == profile_slot(self@.profiles, id@),
            r <= self.profiles.len(),
    {
        let ghost all = self@.profiles;
        let mut i: usize = 0;
        while i < self.profiles.len()
            invariant
                i <= self.profiles.len(),
                all == views(self.profiles@),
                forall|k: int| 0 <= k < i ==> (#[trigger] all[k]).profile_id != id@,
            decreases self.profiles.len() - i,
        {
            assert(all[i as int] == self.profiles@[i as int]@);
            if text_equal(self.profiles[i].profile_id.as_str(), id) {
                proof {
                    lemma_profile_slot(all, id@, i as int);
                }
                return i;
            }
            i += 1;
        }
        proof {
            lemma_profile_slot(all, id@, i as int);
        }
        i
    }

    fn sorted_profiles(&self) -> (r: Vec<BackendProfileSnapshot>)
        ensures
            views(r@) == sorted_by(self@.profiles, id_keys()),
    {
        let mut keys: Vec<Vec<Vec<u32>>> = Vec::new();
        let mut i: usize = 0;
        while i < self.profiles.len()
            invariant
                i <= self.profiles.len(),
                keys.len() == i,
                forall|k: int|
                    0 <= k < i ==> key_view((#[trigger] keys@[k])@) == id_keys()(
                        self.profiles@[k]@,
                    ),
            decreases self.profiles.len() - i,
        {
            let mut key: Vec<Vec<u32>> = Vec::new();
            key.push(text_part_of(&chars_of(self.profiles[i].profile_id.as_str())));
            assert(key_view(key@) =~= seq![text_part(self.profiles@[i as int]@.profile_id)]);
            keys.push(key);
            i += 1;
        }
        sort_by_keys(&self.profiles, &keys, Ghost(id_keys()))
    }

    fn emit_snapshot(&mut self, told: &mut Vec<IntegrationNotice>)
        ensures
            course(final(self)@, final(told)@) == snapshot(course(old(self)@, old(told)@)),
    {
        if self.snapshot_version < u64::MAX {
            self.snapshot_version = self.snapshot_version + 1;
        }
        let profiles = self.sorted_profiles();
        tell(told, IntegrationNotice::Snapshot { version: self.snapshot_version, profiles });
    }

    fn set_state(
        &mut self,
        told: &mut Vec<IntegrationNotice>,
        id: &str,
        state: BackendConnectionState,
        status_text: Option<String>,
    )
        ensures
            course(final(self)@, final(told)@) == with_state(
                course(old(self)@, old(told)@),
                id@,
                state,
                option_text(status_text),
            ),
    {
        let slot: usize = self.slot_of(id);
        if slot < self.profiles.len() {
            let ghost before = self@.profiles;
            let mut profile = self.profiles[slot].clone();
            assert(before[slot as int] == self.profiles@[slot as int]@);
            profile.connection_state = state;
            profile.status_text = status_text;
            self.profiles.set(slot, profile);
            assert(views(self.profiles@) =~= before.update(slot as int, profile@));
            self.emit_snapshot(told);
        }
    }

    fn tell_failure(told: &mut Vec<IntegrationNotice>, id: &str, action: &str, error: &str)
        ensures
            views(final(told)@) == views(old(told)@).push(
                NoticeView::OperationFailed {
                    profile_id: id@,
                    action: action@,
                    error: error@,
                },
            ),
    {
        tell(
            told,
            IntegrationNotice::OperationFailed {
                profile_id: owned(id),
                action: owned(action),
                error: owned(error),
            },
        );
    }

    fn show_failure(
        &mut self,
        told: &mut Vec<IntegrationNotice>,
        id: &str,
        action: &str,
        error: &str,
    )
        ensures
            course(final(self)@, final(told)@) == shown_failure(
                course(old(self)@, old(told)@),
                id@,
                action@,
                error@,
            ),
    {
        self.set_state(told, id, BackendConnectionState::Error, Some(owned(error)));
        Self::tell_failure(told, id, action, error);
    }

    fn report_failure(
        &mut self,
        told: &mut Vec<IntegrationNotice>,
        id: &str,
        action: &str,
        error: &str,
    )
        ensures
            course(final(self)@, final(told)@) == told_failure(
                course(old(self)@, old(told)@),
                id@,
                action@,
                error@,
            ),
    {
        Self::tell_failure(told, id, action, error);
        self.set_state(told, id, BackendConnectionState::Error, Some(owned(error)));
    }

    fn tell_no_contents(told: &mut Vec<IntegrationNotice>, id: &str)
        ensures
            views(final(told)@) == views(old(told)@).push(
                NoticeView::TracksUpdated { profile_id: id@, tracks: Seq::empty() },
            ).push(NoticeView::PlaylistsUpdated { profile_id: id@, playlists: Seq::empty() }),
    {
        let tracks: Vec<LibraryTrack> = Vec::new();
        assert(views(tracks@) =~= Seq::empty());
        tell(told, IntegrationNotice::TracksUpdated { profile_id: owned(id), tracks });
        let playlists: Vec<RemotePlaylistSnapshot> = Vec::new();
        assert(views(playlists@) =~= Seq::empty());
        tell(told, IntegrationNotice::PlaylistsUpdated { profile_id: owned(id), playlists });
    }

    /// What a server is asked with, or what is missing.
    pub fn profile_auth(&self, profile_id: &str) -> (r: Result<BackendProfileAuth, String>)
        ensures
            (match r {
                Ok(auth) => Ok(auth@),
                Err(e) => Err(e@),
            }) == auth_of(self@, profile_id@),
    {
        let slot: usize = self.slot_of(profile_id);
        if slot >= self.profiles.len() {
            let mut message = owned("unknown profile: ");
            append(&mut message, profile_id);
            return Err(message);
        }
        let profile = &self.profiles[slot];
        assert(self@.profiles[slot as int] == profile@);
        match self.passwords.get(profile_id) {
            Some(password) => Ok(
                BackendProfileAuth {
                    profile_id: profile.profile_id.clone(),
                    endpoint: profile.endpoint.clone(),
                    username: profile.username.clone(),
                    password: password.clone(),
                },
            ),
            None => {
                let mut message = owned("missing cached OpenSubsonic credential for profile '");
                append(&mut message, profile_id);
                append(&mut message, "'. Save credentials in Settings and reconnect.");
                Err(message)
            },
        }
    }

    /// The profiles are asked for.
    pub fn request_snapshot(&mut self, told: &mut Vec<IntegrationNotice>)
        ensures
            course(final(self)@, final(told)@) == snapshot(course(old(self)@, old(told)@)),
    {
        self.emit_snapshot(told);
    }

    /// The connection of a profile changes, if there is such a profile.
    pub fn set_profile_connection_state(
        &mut self,
        told: &mut Vec<IntegrationNotice>,
        profile_id: &str,
        state: BackendConnectionState,
        status_text: Option<String>,
    )
        ensures
            course(final(self)@, final(told)@) == with_state(
                course(old(self)@, old(told)@),
                profile_id@,
                state,
                option_text(status_text),
            ),
    {
        self.set_state(told, profile_id, state, status_text);
    }

    /// The component is asked to connect with a server.
    pub fn connect_profile(&mut self, told: &mut Vec<IntegrationNotice>, profile_id: &str) -> (r:
        IntegrationNext)
        ensures
            (course(final(self)@, final(told)@), r@) == on_connect(
                course(old(self)@, old(told)@),
                profile_id@,
            ),
    {
        let slot: usize = self.slot_of(profile_id);
        if slot >= self.profiles.len() {
            return IntegrationNext::Wait;
        }
        assert(self@.profiles[slot as int] == self.profiles@[slot as int]@);
        if self.profiles[slot].backend_kind != BackendKind::OpenSubsonic {
            return IntegrationNext::Wait;
        }
        self.set_state(
            told,
            profile_id,
            BackendConnectionState::Connecting,
            Some(owned("Connecting...")),
        );
        match self.profile_auth(profile_id) {
            Ok(auth) => IntegrationNext::TestConnection { auth, test: TestPurpose::Connect },
            Err(error) => {
                self.show_failure(told, profile_id, "connect", error.as_str());
                IntegrationNext::Wait
            },
        }
    }

    /// The component is given a profile, and perhaps a password.
    pub fn upsert_profile(
        &mut self,
        told: &mut Vec<IntegrationNotice>,
        profile: BackendProfileSnapshot,
        password: Option<String>,
        connect_now: bool,
    ) -> (r: IntegrationNext)
        ensures
            (course(final(self)@, final(told)@), r@) == on_upsert(
                course(old(self)@, old(told)@),
                profile@,
                password,
                connect_now,
            ),
    {
        let ghost start = self@;
        let id = profile.profile_id.clone();
        match password {
            Some(password) => {
                self.passwords.insert(id.clone(), password);
            },
            None => {},
        }
        let slot: usize = self.slot_of(id.as_str());
        if slot < self.profiles.len() {
            self.profiles.set(slot, profile);
            assert(views(self.profiles@) =~= start.profiles.update(slot as int, profile@));
        } else {
            self.profiles.push(profile);
            assert(views(self.profiles@) =~= start.profiles.push(profile@));
        }
        self.emit_snapshot(told);
        if connect_now {
            self.connect_profile(told, id.as_str())
        } else {
            IntegrationNext::Wait
        }
    }

    /// The component is asked to forget a profile.
    pub fn remove_profile(&mut self, told: &mut Vec<IntegrationNotice>, profile_id: &str)
        ensures
            course(final(self)@, final(told)@) == on_remove(
                course(old(self)@, old(told)@),
                profile_id@,
            ),
    {
        let ghost start = self@.profiles;
        let slot: usize = self.slot_of(profile_id);
        self.passwords.remove(profile_id);
        if slot < self.profiles.len() {
            assert(start[slot as int] == self.profiles@[slot as int]@);
            let profile = self.profiles.remove(slot);
            assert(views(self.profiles@) =~= start.remove(slot as int));
            if profile.backend_kind == BackendKind::OpenSubsonic {
                Self::tell_no_contents(told, profile_id);
            }
            self.emit_snapshot(told);
        }
    }

    /// The component is asked to try a connection.
    pub fn test_profile_connection(&mut self, told: &mut Vec<IntegrationNotice>, profile_id: &str)
        -> (r: IntegrationNext)
        ensures
            (course(final(self)@, final(told)@), r@) == on_test(
                course(old(self)@, old(told)@),
                profile_id@,
            ),
    {
        match self.profile_auth(profile_id) {
            Ok(auth) => IntegrationNext::TestConnection { auth, test: TestPurpose::Test },
            Err(error) => {
                self.show_failure(told, profile_id, "test", error.as_str());
                IntegrationNext::Wait
            },
        }
    }

    /// A connection was tried.
    pub fn connection_tested(
        &mut self,
        told: &mut Vec<IntegrationNotice>,
        auth: BackendProfileAuth,
        purpose: TestPurpose,
        profile_id: &str,
        result: Result<(), String>,
    ) -> (r: IntegrationNext)
        ensures
            (course(final(self)@, final(told)@), r@) == on_tested(
                course(old(self)@, old(told)@),
                auth@,
                purpose,
                profile_id@,
                unit_result(result),
            ),
    {
        match purpose {
            TestPurpose::Connect => match result {
                Ok(_) => {
                    self.set_state(
                        told,
                        profile_id,
                        BackendConnectionState::Connected,
                        Some(owned("Connected")),
                    );
                    IntegrationNext::FetchTracks { auth, purpose: SyncPurpose::Connect }
                },
                Err(error) => {
                    self.show_failure(told, profile_id, "connect", error.as_str());
                    IntegrationNext::Wait
                },
            },
            TestPurpose::Test => match result {
                Ok(_) => {
                    self.set_state(
                        told,
                        profile_id,
                        BackendConnectionState::Connected,
                        Some(owned("Connection test succeeded")),
                    );
                    IntegrationNext::Wait
                },
                Err(error) => {
                    self.show_failure(told, profile_id, "test", error.as_str());
                    IntegrationNext::Wait
                },
            },
        }
    }

    /// The component is asked to end a connection.
    pub fn disconnect_profile(&mut self, told: &mut Vec<IntegrationNotice>, profile_id: &str)
        ensures
            course(final(self)@, final(told)@) == on_disconnect(
                course(old(self)@, old(told)@),
                profile_id@,
            ),
    {
        let slot: usize = self.slot_of(profile_id);
        let mut is_server = false;
        if slot < self.profiles.len() {
            assert(self@.profiles[slot as int] == self.profiles@[slot as int]@);
            is_server = self.profiles[slot].backend_kind == BackendKind::OpenSubsonic;
        }
        self.set_state(
            told,
            profile_id,
            BackendConnectionState::Disconnected,
            Some(owned("Disconnected")),
        );
        if is_server {
            Self::tell_no_contents(told, profile_id);
        }
    }

    /// The component is asked to exchange tracks and playlists.
    pub fn sync_profile(&mut self, told: &mut Vec<IntegrationNotice>, profile_id: &str) -> (r:
        IntegrationNext)
        ensures
            (course(final(self)@, final(told)@), r@) == on_sync(
                course(old(self)@, old(told)@),
                profile_id@,
            ),
    {
        match self.profile_auth(profile_id) {
            Ok(auth) => IntegrationNext::FetchTracks { auth, purpose: SyncPurpose::Sync },
            Err(error) => {
                self.report_failure(told, profile_id, "sync", error.as_str());
                IntegrationNext::Wait
            },
        }
    }

    fn sync_failed(
        &mut self,
        told: &mut Vec<IntegrationNotice>,
        purpose: SyncPurpose,
        profile_id: &str,
        error: &str,
    )
        ensures
            course(final(self)@, final(told)@) == sync_failure(
                course(old(self)@, old(told)@),
                purpose,
                profile_id@,
                error@,
            ),
    {
        match purpose {
            SyncPurpose::Connect => {
                self.show_failure(told, profile_id, "sync", error);
            },
            SyncPurpose::Sync => {
                self.report_failure(told, profile_id, "sync", error);
            },
        }
    }

    /// A server has told its tracks, or not.
    pub fn tracks_fetched(
        &mut self,
        told: &mut Vec<IntegrationNotice>,
        auth: BackendProfileAuth,
        purpose: SyncPurpose,
        profile_id: &str,
        result: Result<Vec<BackendTrack>, String>,
    ) -> (r: IntegrationNext)
        ensures
            (course(final(self)@, final(told)@), r@) == on_tracks(
                course(old(self)@, old(told)@),
                auth@,
                purpose,
                profile_id@,
                match result {
                    Ok(tracks) => Ok(views(tracks@)),
                    Err(e) => Err(e@),
                },
            ),
    {
        match result {
            Ok(tracks) => {
                let library_tracks = remote_library_tracks(&auth, profile_id, &tracks);
                tell(
                    told,
                    IntegrationNotice::TracksUpdated {
                        profile_id: owned(profile_id),
                        tracks: library_tracks,
                    },
                );
                IntegrationNext::FetchPlaylists { auth, purpose }
            },
            Err(error) => {
                self.sync_failed(told, purpose, profile_id, error.as_str());
                IntegrationNext::Wait
            },
        }
    }

    /// A server has told its playlists, or not.
    pub fn playlists_fetched(
        &mut self,
        told: &mut Vec<IntegrationNotice>,
        auth: &BackendProfileAuth,
        purpose: SyncPurpose,
        profile_id: &str,
        result: Result<Vec<BackendPlaylist>, String>,
    )
        ensures
            course(final(self)@, final(told)@) == on_playlists(
                course(old(self)@, old(told)@),
                auth@,
                purpose,
                profile_id@,
                match result {
                    Ok(playlists) => Ok(views(playlists@)),
                    Err(e) => Err(e@),
                },
            ),
    {
        match result {
            Ok(playlists) => {
                let snapshots = remote_playlists(auth, &playlists);
                tell(
                    told,
                    IntegrationNotice::PlaylistsUpdated {
                        profile_id: owned(profile_id),
                        playlists: snapshots,
                    },
                );
                match purpose {
                    SyncPurpose::Connect => {},
                    SyncPurpose::Sync => {
                        self.set_state(
                            told,
                            profile_id,
                            BackendConnectionState::Connected,
                            Some(owned("Synced")),
                        );
                    },
                }
            },
            Err(error) => {
                self.sync_failed(told, purpose, profile_id, error.as_str());
            },
        }
    }

    /// The component is asked to store a playlist on its server.
    pub fn push_playlist_update(
        &self,
        told: &mut Vec<IntegrationNotice>,
        profile_id: &str,
        remote_playlist_id: String,
        local_playlist_id: String,
        song_ids: Vec<String>,
    ) -> (r: IntegrationNext)
        ensures
            (course(self@, final(told)@), r@) == on_push(
                course(self@, old(told)@),
                profile_id@,
                remote_playlist_id@,
                local_playlist_id@,
                texts(song_ids@),
            ),
    {
        match self.profile_auth(profile_id) {
            Ok(auth) => IntegrationNext::ReplacePlaylist {
                auth,
                remote_playlist_id,
                local_playlist_id,
                song_ids,
            },
            Err(error) => {
                tell(
                    told,
                    IntegrationNotice::WritebackResult {
                        local_playlist_id,
                        success: false,
                        error: Some(error),
                    },
                );
                IntegrationNext::Wait
            },
        }
    }

    /// A playlist was stored on its server, or not.
    pub fn playlist_pushed(
        &self,
        told: &mut Vec<IntegrationNotice>,
        profile_id: &str,
        local_playlist_id: &str,
        result: Result<(), String>,
    )
        ensures
            course(self@, final(told)@) == on_pushed(
                course(self@, old(told)@),
                profile_id@,
                local_playlist_id@,
                unit_result(result),
            ),
    {
        match result {
            Ok(_) => {
                tell(
                    told,
                    IntegrationNotice::WritebackResult {
                        local_playlist_id: owned(local_playlist_id),
                        success: true,
                        error: None,
                    },
                );
            },
            Err(error) => {
                Self::tell_failure(told, profile_id, "playlist_writeback", error.as_str());
                tell(
                    told,
                    IntegrationNotice::WritebackResult {
                        local_playlist_id: owned(local_playlist_id),
                        success: false,
                        error: Some(error),
                    },
                );
            },
        }
    }
}

/// No profile is listed twice.
pub open spec fn profiles_differ(profiles: Seq<ProfileView>) -> bool {
    forall|i: int, j: int|
        0 <= i < j < profiles.len() ==> (#[trigger] profiles[i]).profile_id != (
        #[trigger] profiles[j]).profile_id
}

proof fn lemma_slot_is_first(profiles: Seq<ProfileView>, id: Seq<char>)
    ensures
        profile_slot(profiles, id) <= profiles.len(),
        profile_slot(profiles, id) < profiles.len() ==> profiles[profile_slot(
            profiles,
            id,
        ) as int].profile_id == id,
        forall|k: int|
            0 <= k < profile_slot(profiles, id) ==> (#[trigger] profiles[k]).profile_id != id,
    decreases profiles.len(),
{
    if profiles.len() > 0 && profiles[0].profile_id != id {
        let rest = profiles.skip(1);
        lemma_slot_is_first(rest, id);
        assert forall|k: int| 0 <= k < profile_slot(profiles, id) implies (
        #[trigger] profiles[k]).profile_id != id by {
            if k > 0 {
                assert(rest[k - 1] == profiles[k]);
            }
        }
    }
}

/// Where every profile of one list but that with an id stands in another list too, and in the
/// same order, the other profiles are found alike.
proof fn lemma_found_alike(
    before: Seq<ProfileView>,
    after: Seq<ProfileView>,
    slot: int,
    other: Seq<char>,
)
    requires
        0 <= slot < before.len(),
        before[slot].profile_id != other,
        (after.len() == before.len() && after[slot].profile_id != other && forall|k: int|
            0 <= k < before.len() && k != slot ==> after[k] == #[trigger] before[k]) || after
            == before.remove(slot),
    ensures
        profile_of(after, other) == profile_of(before, other),
{
    lemma_slot_is_first(before, other);
    let place = profile_slot(before, other) as int;
    if after.len() == before.len() {
        assert forall|k: int| 0 <= k < place implies (#[trigger] after[k]).profile_id != other by {
            assert(before[k].profile_id != other);
        }
        if place < before.len() {
            assert(after[place] == before[place]);
        }
        lemma_profile_slot(after, other, place);
    } else {
        let moved = if place > slot {
            place - 1
        } else {
            place
        };
        assert forall|k: int| 0 <= k < moved implies (#[trigger] after[k]).profile_id != other by {
            if k < slot {
                assert(after[k] == before[k]);
            } else {
                assert(after[k] == before[k + 1]);
            }
        }
        if place < before.len() {
            assert(after[moved] == before[place]);
        }
        lemma_profile_slot(after, other, moved);
    }
}

/// A stored profile is found as it was given, the other profiles stay, and no profile is listed
/// twice.
pub proof fn stored_profiles_are_found(
    s: IntegrationView,
    profile: ProfileView,
    other: Seq<char>,
)
    requires
        other != profile.profile_id,
    ensures
        profile_of(with_profile(s, profile).profiles, profile.profile_id) == Some(profile),
        profile_of(with_profile(s, profile).profiles, other) == profile_of(s.profiles, other),
        profiles_differ(s.profiles) ==> profiles_differ(with_profile(s, profile).profiles),
{
    let before = s.profiles;
    let after = with_profile(s, profile).profiles;
    let id = profile.profile_id;
    lemma_slot_is_first(before, id);
    lemma_slot_is_first(before, other);
    let slot = profile_slot(before, id) as int;
    assert forall|k: int| 0 <= k < slot implies (#[trigger] after[k]).profile_id != id by {
        assert(after[k] == before[k]);
    }
    lemma_profile_slot(after, id, slot);
    if slot < before.len() {
        lemma_found_alike(before, after, slot, other);
    } else {
        let place = profile_slot(before, other) as int;
        if place < before.len() {
            assert forall|k: int| 0 <= k < place implies (#[trigger] after[k]).profile_id
                != other by {
                assert(after[k] == before[k]);
            }
            lemma_profile_slot(after, other, place);
        } else {
            assert forall|k: int| 0 <= k < after.len() implies (#[trigger] after[k]).profile_id
                != other by {
                if k < before.len() {
                    assert(after[k] == before[k]);
                }
            }
            lemma_profile_slot(after, other, after.len() as int);
        }
    }
    if profiles_differ(before) {
        assert forall|i: int, j: int| 0 <= i < j < after.len() implies (
        #[trigger] after[i]).profile_id != (#[trigger] after[j]).profile_id by {
            if i != slot {
                assert(after[i] == before[i]);
            }
            if j != slot {
                assert(after[j] == before[j]);
            }
        }
    }
}

/// A removed profile is gone with its password, so that its server can no longer be asked; the
/// other profiles stay. That it is gone is told exactly where there was one.
pub proof fn removed_profiles_are_gone(c: Course, id: Seq<char>, other: Seq<char>)
    requires
        profiles_differ(c.state.profiles),
        other != id,
    ensures
        profile_of(on_remove(c, id).state.profiles, id) is None,
        !on_remove(c, id).state.passwords.contains_key(id),
        auth_of(on_remove(c, id).state, id) is Err,
        profile_of(on_remove(c, id).state.profiles, other) == profile_of(c.state.profiles, other),
        profiles_differ(on_remove(c, id).state.profiles),
        (on_remove(c, id).told == c.told) <==> profile_of(c.state.profiles, id) is None,
{
    let before = c.state.profiles;
    let after = on_remove(c, id).state.profiles;
    lemma_slot_is_first(before, id);
    let slot = profile_slot(before, id) as int;
    if slot < before.len() {
        assert forall|k: int| 0 <= k < after.len() implies (#[trigger] after[k]).profile_id
            != id by {
            if k < slot {
                assert(after[k] == before[k]);
            } else {
                assert(after[k] == before[k + 1]);
                assert(before[slot].profile_id != before[k + 1].profile_id);
            }
        }
        lemma_profile_slot(after, id, after.len() as int);
        lemma_found_alike(before, after, slot, other);
        assert forall|i: int, j: int| 0 <= i < j < after.len() implies (
        #[trigger] after[i]).profile_id != (#[trigger] after[j]).profile_id by {
            let x = if i < slot {
                i
            } else {
                i + 1
            };
            let y = if j < slot {
                j
            } else {
                j + 1
            };
            assert(after[i] == before[x] && after[j] == before[y]);
        }
        assert(on_remove(c, id).told.len() > c.told.len());
    }
}

/// A change of a connection touches one profile alone.
pub proof fn connections_change_alone(
    c: Course,
    id: Seq<char>,
    state: BackendConnectionState,
    text: Option<Seq<char>>,
    other: Seq<char>,
)
    requires
        other != id,
    ensures
        profile_of(with_state(c, id, state, text).state.profiles, other) == profile_of(
            c.state.profiles,
            other,
        ),
        match profile_of(c.state.profiles, id) {
            Some(profile) => profile_of(with_state(c, id, state, text).state.profiles, id) == Some(
                ProfileView { connection_state: state, status_text: text, ..profile },
            ),
            None => with_state(c, id, state, text) == c,
        },
{
    let before = c.state.profiles;
    let after = with_state(c, id, state, text).state.profiles;
    lemma_slot_is_first(before, id);
    let slot = profile_slot(before, id) as int;
    if slot < before.len() {
        lemma_found_alike(before, after, slot, other);
        assert forall|k: int| 0 <= k < slot implies (#[trigger] after[k]).profile_id != id by {
            assert(after[k] == before[k]);
        }
        lemma_profile_slot(after, id, slot);
    }
}

/// A server is asked only with a profile that is known and a password that was given for it.
pub proof fn servers_are_asked_with_passwords(s: IntegrationView, id: Seq<char>)
    ensures
        auth_of(s, id) is Ok <==> profile_of(s.profiles, id) is Some && s.passwords.contains_key(id),
{
}

} // verus!
