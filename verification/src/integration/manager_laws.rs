//! Laws of the exchange with music servers: what a sync brings, and what each step tells.

use crate::integration::manager::{
    auth_of, connections_change_alone, id_keys, library_track, on_connect, on_disconnect,
    on_playlists, on_push, on_pushed, on_sync, on_test, on_tested, on_tracks, on_upsert,
    playlist_track, playlists_of, profile_of, shown_failure, snapshot,
    stored_profiles_are_found, told_failure, with_failure, with_profile, with_state, AuthView,
    BackendConnectionState, BackendKind, BackendPlaylistView, BackendTrackView, Course,
    IntegrationView, NextView, NoticeView, ProfileView, SyncPurpose, TestPurpose,
};
use crate::integration::uri::{address, located, parsing_inverts_encoding};
use crate::library::catalog_laws::sorting_keeps_the_items;
use crate::library::order::{
    key_less, part_less, picked, sorted_indices, sorting_is_stable, text_part,
};
use crate::library::order_laws::nothing_comes_before_itself;
use crate::text::{blank, trim};
use vstd::prelude::*;

verus! {

/// Every text of a synced library track is the server track's text of the same name; the
/// track's artist stands for the album's too.
pub proof fn synced_tracks_keep_their_texts(auth: AuthView, id: Seq<char>, track: BackendTrackView)
    ensures
        ({
            let t = library_track(auth, id, track);
            &&& t.title == track.title
            &&& t.artist == track.artist
            &&& t.album == track.album
            &&& t.album_artist == track.artist
            &&& t.genre == track.genre
            &&& t.year == track.year
            &&& t.track_number == track.track_number
            &&& t.id == "subsonic:"@ + id + ":"@ + track.item_id
        }),
{
}

/// Every text of a track in a synced playlist is the server track's text of the same name.
pub proof fn playlist_tracks_keep_their_texts(auth: AuthView, track: BackendTrackView)
    ensures
        ({
            let t = playlist_track(auth, track);
            &&& t.item_id == track.item_id
            &&& t.path == library_track(auth, auth.profile_id, track).path
            &&& t.summary.title == track.title
            &&& t.summary.artist == track.artist
            &&& t.summary.album == track.album
            &&& t.summary.album_artist == track.artist
            &&& t.summary.date == track.year
            &&& t.summary.genre == track.genre
            &&& t.summary.year == track.year
            &&& t.summary.track_number == track.track_number
        }),
{
}

/// The path of a synced track leads back to the server's song, under the profile and the user
/// that it was synced with.
pub proof fn synced_paths_lead_back(auth: AuthView, id: Seq<char>, track: BackendTrackView)
    requires
        !blank(auth.profile_id),
        !blank(track.item_id),
    ensures
        ({
            &&& located(library_track(auth, id, track).path) matches Some(place)
            &&& place.profile_id == auth.profile_id
            &&& place.song_id == track.item_id
            &&& place.username == trim(auth.username)
        }),
        ({
            &&& located(playlist_track(auth, track).path) matches Some(place)
            &&& place.profile_id == auth.profile_id
            &&& place.song_id == track.item_id
            &&& place.username == trim(auth.username)
        }),
{
    parsing_inverts_encoding(
        auth.profile_id,
        track.item_id,
        auth.endpoint,
        auth.username,
        track.format_hint,
    );
}

/// The tracks of a server are told under its profile: as many as it has, in its order, each
/// with the server's own texts. Then the playlists are fetched, for the same purpose.
pub proof fn fetched_tracks_are_told(
    c: Course,
    auth: AuthView,
    purpose: SyncPurpose,
    id: Seq<char>,
    tracks: Seq<BackendTrackView>,
)
    ensures
        ({
            let (after, next) = on_tracks(c, auth, purpose, id, Ok(tracks));
            &&& after.state == c.state
            &&& next == (NextView::FetchPlaylists { auth, purpose })
            &&& after.told.len() == c.told.len() + 1
            &&& after.told.drop_last() == c.told
            &&& after.told.last() matches NoticeView::TracksUpdated { profile_id, tracks: told }
            &&& profile_id == id
            &&& told.len() == tracks.len()
            &&& forall|i: int|
                0 <= i < tracks.len() ==> {
                    &&& (#[trigger] told[i]).title == tracks[i].title
                    &&& told[i].artist == tracks[i].artist
                    &&& told[i].album == tracks[i].album
                    &&& told[i].album_artist == tracks[i].artist
                    &&& told[i].genre == tracks[i].genre
                    &&& told[i].year == tracks[i].year
                    &&& told[i].track_number == tracks[i].track_number
                    &&& told[i].id == "subsonic:"@ + id + ":"@ + tracks[i].item_id
                    &&& told[i].path == address(
                        auth.profile_id,
                        tracks[i].item_id,
                        auth.endpoint,
                        auth.username,
                        tracks[i].format_hint,
                    )
                }
        }),
{
    let (after, next) = on_tracks(c, auth, purpose, id, Ok(tracks));
    assert(after.told.drop_last() =~= c.told);
}

/// The playlists of a server are told under its profile: as many as it has, in its order, with
/// their names and their tracks in order. After a plain sync the profile is connected; while
/// connecting it stays as it is.
pub proof fn fetched_playlists_are_told(
    c: Course,
    auth: AuthView,
    purpose: SyncPurpose,
    id: Seq<char>,
    playlists: Seq<BackendPlaylistView>,
)
    ensures
        ({
            let after = on_playlists(c, auth, purpose, id, Ok(playlists));
            &&& after.told.len() > c.told.len()
            &&& after.told[c.told.len() as int] matches NoticeView::PlaylistsUpdated {
                profile_id,
                playlists: told,
            }
            &&& profile_id == id
            &&& told.len() == playlists.len()
            &&& forall|i: int|
                0 <= i < playlists.len() ==> {
                    &&& (#[trigger] told[i]).remote_playlist_id == playlists[i].remote_playlist_id
                    &&& told[i].name == playlists[i].name
                    &&& told[i].tracks.len() == playlists[i].tracks.len()
                    &&& forall|j: int|
                        0 <= j < told[i].tracks.len() ==> #[trigger] told[i].tracks[j]
                            == playlist_track(auth, playlists[i].tracks[j])
                }
            &&& purpose == SyncPurpose::Connect ==> after.state == c.state && after.told.len()
                == c.told.len() + 1
            &&& purpose == SyncPurpose::Sync && profile_of(c.state.profiles, id) is Some
                ==> after.told.len() == c.told.len() + 2 && after.told.last() is Snapshot
        }),
        purpose == SyncPurpose::Sync ==> (profile_of(c.state.profiles, id) matches Some(profile)
            ==> profile_of(
            on_playlists(c, auth, purpose, id, Ok(playlists)).state.profiles,
            id,
        ) == Some(
            ProfileView {
                connection_state: BackendConnectionState::Connected,
                status_text: Some("Synced"@),
                ..profile
            },
        )),
{
    let told = Course {
        told: c.told.push(
            NoticeView::PlaylistsUpdated {
                profile_id: id,
                playlists: playlists.map_values(playlists_of(auth)),
            },
        ),
        ..c
    };
    lemma_state(
        told,
        id,
        BackendConnectionState::Connected,
        Some("Synced"@),
    );
}

/// A failed fetch is told with the server's own words, and the profile shows them as its error.
pub proof fn failed_fetches_are_told(
    c: Course,
    auth: AuthView,
    purpose: SyncPurpose,
    id: Seq<char>,
    error: Seq<char>,
)
    ensures
        on_tracks(c, auth, purpose, id, Err(error)).1 is Wait,
        on_tracks(c, auth, purpose, id, Err(error)).0.told.contains(
            NoticeView::OperationFailed { profile_id: id, action: "sync"@, error },
        ),
        on_playlists(c, auth, purpose, id, Err(error)).told.contains(
            NoticeView::OperationFailed { profile_id: id, action: "sync"@, error },
        ),
        profile_of(c.state.profiles, id) matches Some(profile) ==> profile_of(
            on_tracks(c, auth, purpose, id, Err(error)).0.state.profiles,
            id,
        ) == Some(
            ProfileView {
                connection_state: BackendConnectionState::Error,
                status_text: Some(error),
                ..profile
            },
        ) && profile_of(
            on_playlists(c, auth, purpose, id, Err(error)).state.profiles,
            id,
        ) == Some(
            ProfileView {
                connection_state: BackendConnectionState::Error,
                status_text: Some(error),
                ..profile
            },
        ),
{
    lemma_failed(c, id, "sync"@, error);
}

proof fn lemma_state(
    c: Course,
    id: Seq<char>,
    state: BackendConnectionState,
    text: Option<Seq<char>>,
)
    ensures
        match profile_of(c.state.profiles, id) {
            Some(profile) => profile_of(with_state(c, id, state, text).state.profiles, id) == Some(
                ProfileView { connection_state: state, status_text: text, ..profile },
            ),
            None => with_state(c, id, state, text) == c,
        },
{
    let other = id.push('x');
    assert(other.len() != id.len());
    connections_change_alone(c, id, state, text, other);
}

proof fn lemma_failed(c: Course, id: Seq<char>, action: Seq<char>, error: Seq<char>)
    ensures
        shown_failure(c, id, action, error).told.contains(
            NoticeView::OperationFailed { profile_id: id, action, error },
        ),
        told_failure(c, id, action, error).told.contains(
            NoticeView::OperationFailed { profile_id: id, action, error },
        ),
        profile_of(c.state.profiles, id) matches Some(profile) ==> profile_of(
            shown_failure(c, id, action, error).state.profiles,
            id,
        ) == Some(
            ProfileView {
                connection_state: BackendConnectionState::Error,
                status_text: Some(error),
                ..profile
            },
        ) && profile_of(
            told_failure(c, id, action, error).state.profiles,
            id,
        ) == Some(
            ProfileView {
                connection_state: BackendConnectionState::Error,
                status_text: Some(error),
                ..profile
            },
        ),
{
    let failure = NoticeView::OperationFailed { profile_id: id, action, error };
    let shown = shown_failure(c, id, action, error);
    assert(shown.told.last() == failure);
    assert(shown.told.contains(failure));
    let told = told_failure(c, id, action, error);
    assert(told.told[c.told.len() as int] == failure);
    assert(told.told.contains(failure));
    lemma_state(
        c,
        id,
        BackendConnectionState::Error,
        Some(error),
    );
    lemma_state(
        with_failure(c, id, action, error),
        id,
        BackendConnectionState::Error,
        Some(error),
    );
}

/// What a server is asked with: the profile's own id, address and user, and the password that
/// was given for it.
pub proof fn credentials_are_the_profiles_own(s: IntegrationView, id: Seq<char>)
    ensures
        auth_of(s, id) matches Ok(auth) ==> {
            &&& profile_of(s.profiles, id) matches Some(profile)
            &&& auth.profile_id == profile.profile_id
            &&& auth.endpoint == profile.endpoint
            &&& auth.username == profile.username
            &&& auth.password == s.passwords[id]@
        },
        auth_of(s, id) matches Err(reason) ==> {
            &&& profile_of(s.profiles, id) is None ==> reason == "unknown profile: "@ + id
            &&& profile_of(s.profiles, id) is Some ==> reason
                == "missing cached OpenSubsonic credential for profile '"@ + id
                + "'. Save credentials in Settings and reconnect."@
        },
{
}

/// Connecting to a known server shows the profile as connecting and tests it with its own
/// credentials; without credentials the profile shows the error and it is told. A profile that
/// is unknown, or no server's, is left alone.
pub proof fn connecting_tests_the_server(c: Course, id: Seq<char>)
    ensures
        profile_of(c.state.profiles, id) is None ==> on_connect(c, id) == (c, NextView::Wait),
        profile_of(c.state.profiles, id) matches Some(profile) ==> {
            let (after, next) = on_connect(c, id);
            &&& profile.backend_kind != BackendKind::OpenSubsonic ==> on_connect(c, id) == (
                c,
                NextView::Wait,
            )
            &&& profile.backend_kind == BackendKind::OpenSubsonic && c.state.passwords.contains_key(
                id,
            ) ==> {
                &&& next == (NextView::TestConnection {
                    auth: AuthView {
                        profile_id: profile.profile_id,
                        endpoint: profile.endpoint,
                        username: profile.username,
                        password: c.state.passwords[id]@,
                    },
                    test: TestPurpose::Connect,
                })
                &&& profile_of(after.state.profiles, id) == Some(
                    ProfileView {
                        connection_state: BackendConnectionState::Connecting,
                        status_text: Some("Connecting..."@),
                        ..profile
                    },
                )
                &&& after.told.len() == c.told.len() + 1
                &&& after.told.last() is Snapshot
            }
            &&& profile.backend_kind == BackendKind::OpenSubsonic
                && !c.state.passwords.contains_key(id) ==> {
                &&& next is Wait
                &&& profile_of(after.state.profiles, id) matches Some(now)
                &&& now.connection_state == BackendConnectionState::Error
                &&& after.told.last() is OperationFailed
            }
        },
{
    lemma_state(
        c,
        id,
        BackendConnectionState::Connecting,
        Some("Connecting..."@),
    );
    if profile_of(c.state.profiles, id) is Some {
        let connecting = with_state(
            c,
            id,
            BackendConnectionState::Connecting,
            Some("Connecting..."@),
        );
        match auth_of(connecting.state, id) {
            Err(e) => {
                lemma_failed(connecting, id, "connect"@, e);
            },
            Ok(_) => {},
        }
    }
}

/// A server that answers the test is connected: on connecting, its tracks are fetched next
/// with the same credentials; on a mere test nothing follows. One that does not answer shows
/// the error, and it is told under what was asked for.
pub proof fn tested_servers_are_connected(
    c: Course,
    auth: AuthView,
    id: Seq<char>,
    error: Seq<char>,
)
    ensures
        on_tested(c, auth, TestPurpose::Connect, id, Ok(())).1 == (NextView::FetchTracks {
            auth,
            purpose: SyncPurpose::Connect,
        }),
        on_tested(c, auth, TestPurpose::Test, id, Ok(())).1 is Wait,
        on_tested(c, auth, TestPurpose::Connect, id, Err(error)).1 is Wait,
        on_tested(c, auth, TestPurpose::Test, id, Err(error)).1 is Wait,
        on_tested(c, auth, TestPurpose::Connect, id, Err(error)).0.told.contains(
            NoticeView::OperationFailed { profile_id: id, action: "connect"@, error },
        ),
        on_tested(c, auth, TestPurpose::Test, id, Err(error)).0.told.contains(
            NoticeView::OperationFailed { profile_id: id, action: "test"@, error },
        ),
        profile_of(c.state.profiles, id) matches Some(profile) ==> {
            &&& profile_of(
                on_tested(c, auth, TestPurpose::Connect, id, Ok(())).0.state.profiles,
                id,
            ) == Some(
                ProfileView {
                    connection_state: BackendConnectionState::Connected,
                    status_text: Some("Connected"@),
                    ..profile
                },
            )
            &&& profile_of(
                on_tested(c, auth, TestPurpose::Test, id, Ok(())).0.state.profiles,
                id,
            ) == Some(
                ProfileView {
                    connection_state: BackendConnectionState::Connected,
                    status_text: Some("Connection test succeeded"@),
                    ..profile
                },
            )
            &&& profile_of(
                on_tested(c, auth, TestPurpose::Connect, id, Err(error)).0.state.profiles,
                id,
            ) == Some(
                ProfileView {
                    connection_state: BackendConnectionState::Error,
                    status_text: Some(error),
                    ..profile
                },
            )
            &&& profile_of(
                on_tested(c, auth, TestPurpose::Test, id, Err(error)).0.state.profiles,
                id,
            ) == Some(
                ProfileView {
                    connection_state: BackendConnectionState::Error,
                    status_text: Some(error),
                    ..profile
                },
            )
        },
{
    lemma_failed(c, id, "connect"@, error);
    lemma_failed(c, id, "test"@, error);
    lemma_state(
        c,
        id,
        BackendConnectionState::Connected,
        Some("Connected"@),
    );
    lemma_state(
        c,
        id,
        BackendConnectionState::Connected,
        Some("Connection test succeeded"@),
    );
}

/// A test and a sync ask the server with the profile's credentials and change nothing yet;
/// without credentials they fail under their own names.
pub proof fn servers_are_asked_for_what_was_asked(c: Course, id: Seq<char>)
    ensures
        auth_of(c.state, id) matches Ok(auth) ==> on_test(c, id) == (
            c,
            NextView::TestConnection { auth, test: TestPurpose::Test },
        ) && on_sync(c, id) == (c, NextView::FetchTracks { auth, purpose: SyncPurpose::Sync }),
        auth_of(c.state, id) matches Err(error) ==> on_test(c, id).1 is Wait && on_sync(c, id).1
            is Wait && on_test(c, id).0.told.contains(
            NoticeView::OperationFailed { profile_id: id, action: "test"@, error },
        ) && on_sync(c, id).0.told.contains(
            NoticeView::OperationFailed { profile_id: id, action: "sync"@, error },
        ),
{
    match auth_of(c.state, id) {
        Ok(_) => {},
        Err(error) => {
            lemma_failed(c, id, "test"@, error);
            lemma_failed(c, id, "sync"@, error);
        },
    }
}

/// Disconnecting shows the profile as disconnected and takes a server's tracks and playlists
/// away.
pub proof fn disconnected_servers_show_nothing(c: Course, id: Seq<char>)
    ensures
        profile_of(c.state.profiles, id) matches Some(profile) ==> {
            let after = on_disconnect(c, id);
            &&& profile_of(after.state.profiles, id) == Some(
                ProfileView {
                    connection_state: BackendConnectionState::Disconnected,
                    status_text: Some("Disconnected"@),
                    ..profile
                },
            )
            &&& profile.backend_kind == BackendKind::OpenSubsonic ==> after.told.len()
                == c.told.len() + 3 && after.told[c.told.len() as int] is Snapshot
                && after.told[c.told.len() as int + 1] == (NoticeView::TracksUpdated {
                profile_id: id,
                tracks: Seq::empty(),
            }) && after.told[c.told.len() as int + 2] == (NoticeView::PlaylistsUpdated {
                profile_id: id,
                playlists: Seq::empty(),
            })
            &&& profile.backend_kind != BackendKind::OpenSubsonic ==> after.told.len()
                == c.told.len() + 1
        },
        profile_of(c.state.profiles, id) is None ==> on_disconnect(c, id) == c,
{
    lemma_state(
        c,
        id,
        BackendConnectionState::Disconnected,
        Some("Disconnected"@),
    );
}

/// A stored profile is found as it was given, with the password that came with it; it is
/// connected to only where that was asked for.
pub proof fn stored_profiles_keep_their_password(
    c: Course,
    profile: ProfileView,
    password: String,
)
    ensures
        ({
            let (after, next) = on_upsert(c, profile, Some(password), false);
            &&& next is Wait
            &&& profile_of(after.state.profiles, profile.profile_id) == Some(profile)
            &&& after.state.passwords.contains_key(profile.profile_id)
            &&& after.state.passwords[profile.profile_id] == password
            &&& after.told.len() == c.told.len() + 1
            &&& after.told.last() is Snapshot
        }),
        ({
            let (after, next) = on_upsert(c, profile, None, false);
            &&& next is Wait
            &&& profile_of(after.state.profiles, profile.profile_id) == Some(profile)
            &&& after.state.passwords == c.state.passwords
        }),
        profile.backend_kind == BackendKind::OpenSubsonic ==> (on_upsert(
            c,
            profile,
            Some(password),
            true,
        ).1 matches NextView::TestConnection { auth, test } && auth.password == password@
            && auth.endpoint == profile.endpoint && auth.username == profile.username && test
            == TestPurpose::Connect),
{
    let known = IntegrationView {
        passwords: c.state.passwords.insert(profile.profile_id, password),
        ..c.state
    };
    assert(profile.profile_id.push('x').len() != profile.profile_id.len());
    stored_profiles_are_found(
        known,
        profile,
        profile.profile_id.push('x'),
    );
    stored_profiles_are_found(
        c.state,
        profile,
        profile.profile_id.push('x'),
    );
    let stored = snapshot(
        Course { state: with_profile(known, profile), ..c },
    );
    connecting_tests_the_server(stored, profile.profile_id);
}

/// A playlist goes to the server with the songs, ids and credentials that belong to it; what
/// came of it is told under the local playlist, and a failure with its error.
pub proof fn playlists_are_written_back(
    c: Course,
    id: Seq<char>,
    remote: Seq<char>,
    local: Seq<char>,
    songs: Seq<Seq<char>>,
    error: Seq<char>,
)
    ensures
        auth_of(c.state, id) matches Ok(auth) ==> on_push(c, id, remote, local, songs) == (
            c,
            NextView::ReplacePlaylist {
                auth,
                remote_playlist_id: remote,
                local_playlist_id: local,
                song_ids: songs,
            },
        ),
        auth_of(c.state, id) matches Err(reason) ==> on_push(c, id, remote, local, songs).1
            is Wait && on_push(c, id, remote, local, songs).0.told == c.told.push(
            NoticeView::WritebackResult {
                local_playlist_id: local,
                success: false,
                error: Some(reason),
            },
        ),
        on_pushed(c, id, local, Ok(())).told == c.told.push(
            NoticeView::WritebackResult { local_playlist_id: local, success: true, error: None },
        ),
        on_pushed(c, id, local, Ok(())).state == c.state,
        on_pushed(c, id, local, Err(error)).told == c.told.push(
            NoticeView::OperationFailed {
                profile_id: id,
                action: "playlist_writeback"@,
                error,
            },
        ).push(
            NoticeView::WritebackResult {
                local_playlist_id: local,
                success: false,
                error: Some(error),
            },
        ),
        on_pushed(c, id, local, Err(error)).state == c.state,
{
}

/// A snapshot tells every profile once, in the order of their ids, under the next version.
pub proof fn snapshots_tell_every_profile(c: Course)
    requires
        c.state.version < u64::MAX,
    ensures
        snapshot(c).state.version == c.state.version + 1,
        snapshot(c).state.profiles == c.state.profiles,
        snapshot(c).told.len() == c.told.len() + 1,
        ({
            &&& snapshot(c).told.last() matches NoticeView::Snapshot { version, profiles }
            &&& version == c.state.version + 1
            &&& profiles.len() == c.state.profiles.len()
            &&& forall|p: ProfileView| c.state.profiles.contains(p) <==> profiles.contains(p)
            &&& forall|i: int, j: int|
                0 <= i < j < profiles.len() ==> !part_less(
                    text_part((#[trigger] profiles[j]).profile_id),
                    text_part((#[trigger] profiles[i]).profile_id),
                )
        }),
{
    broadcast use vstd::seq_lib::group_to_multiset_ensures;

    let keys = c.state.profiles.map_values(id_keys());
    sorting_is_stable(keys);
    let order = sorted_indices(keys);
    let profiles = snapshot(c).told.last()->profiles;
    let sorted_keys = picked(keys, order);
    assert(profiles == picked(c.state.profiles, order));
    assert forall|i: int, j: int| 0 <= i < j < profiles.len() implies
        !part_less(
        text_part((#[trigger] profiles[j]).profile_id),
        text_part((#[trigger] profiles[i]).profile_id),
    ) by {
        assert(!key_less(sorted_keys[j], sorted_keys[i]));
        assert(sorted_keys[j] == keys[order[j]]);
        assert(sorted_keys[i] == keys[order[i]]);
        let a = sorted_keys[j];
        let b = sorted_keys[i];
        assert(a[0] == text_part(profiles[j].profile_id));
        assert(b[0] == text_part(profiles[i].profile_id));
        if a[0] == b[0] {
            nothing_comes_before_itself(a[0]);
        }
    }
    sorting_keeps_the_items(
        c.state.profiles,
        id_keys(),
    );
    assert forall|p: ProfileView| c.state.profiles.contains(p) <==> profiles.contains(p) by {
        assert(c.state.profiles.contains(p) <==> c.state.profiles.to_multiset().count(p) > 0);
        assert(profiles.contains(p) <==> profiles.to_multiset().count(p) > 0);
    }
}

} // verus!
