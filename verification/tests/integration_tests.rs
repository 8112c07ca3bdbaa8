use roqtune::integration::keyring::{
    entry_failure, format_keyring_error, keyring_error_hint, password_deleted, password_loaded,
    password_saved, KeyringDeletion, KeyringReply,
};
use roqtune::integration::manager::{
    remote_library_tracks, remote_playlists, BackendConnectionState, BackendKind, BackendPlaylist,
    BackendProfileAuth, BackendProfileSnapshot, BackendTrack, IntegrationManager, IntegrationNext,
    IntegrationNotice, SyncPurpose, TestPurpose,
};

fn test_profile(profile_id: &str) -> BackendProfileSnapshot {
    BackendProfileSnapshot {
        profile_id: profile_id.to_string(),
        backend_kind: BackendKind::OpenSubsonic,
        display_name: "Home Server".to_string(),
        endpoint: "https://music.example.com".to_string(),
        username: "alice".to_string(),
        configured: true,
        connection_state: BackendConnectionState::Disconnected,
        status_text: None,
    }
}

fn sample_track(item_id: &str) -> BackendTrack {
    BackendTrack {
        item_id: item_id.to_string(),
        title: "Song".to_string(),
        artist: "Band".to_string(),
        album: "Record".to_string(),
        genre: "Jazz".to_string(),
        year: "1999".to_string(),
        track_number: "3".to_string(),
        format_hint: Some("flac".to_string()),
    }
}

fn known_manager(password: Option<&str>) -> IntegrationManager {
    let mut told = Vec::new();
    let mut manager = IntegrationManager::new();
    let _ = manager.upsert_profile(
        &mut told,
        test_profile("subsonic-home"),
        password.map(|text| text.to_string()),
        false,
    );
    manager
}

#[test]
fn test_upsert_profile_emits_snapshot() {
    let mut told = Vec::new();
    let mut manager = IntegrationManager::new();

    let _ = manager.upsert_profile(&mut told, test_profile("subsonic-home"), None, false);

    let IntegrationNotice::Snapshot { version, profiles } = &told[0] else {
        panic!("unexpected message emitted by integration manager");
    };
    assert_eq!(*version, 1);
    assert_eq!(profiles.len(), 1);
    assert_eq!(profiles[0].profile_id, "subsonic-home");
    assert_eq!(profiles[0].backend_kind, BackendKind::OpenSubsonic);
}

#[test]
fn test_set_connection_state_updates_snapshot() {
    let mut told = Vec::new();
    let mut manager = IntegrationManager::new();
    let _ = manager.upsert_profile(&mut told, test_profile("subsonic-home"), None, false);
    told.clear();

    manager.set_profile_connection_state(
        &mut told,
        "subsonic-home",
        BackendConnectionState::Connected,
        Some("Connected".to_string()),
    );

    let IntegrationNotice::Snapshot { version, profiles } = &told[0] else {
        panic!("unexpected message emitted by integration manager");
    };
    assert_eq!(*version, 2);
    assert_eq!(
        profiles[0].connection_state,
        BackendConnectionState::Connected
    );
    assert_eq!(profiles[0].status_text.as_deref(), Some("Connected"));
}

#[test]
fn test_remove_profile_emits_snapshot_only_when_profile_exists() {
    let mut told = Vec::new();
    let mut manager = IntegrationManager::new();
    let _ = manager.upsert_profile(&mut told, test_profile("subsonic-home"), None, false);
    told.clear();

    manager.remove_profile(&mut told, "subsonic-home");
    let mut found = None;
    for notice in &told {
        if let IntegrationNotice::Snapshot { version, profiles } = notice {
            found = Some((*version, profiles.len()));
            break;
        }
    }
    let (version, profile_count) =
        found.expect("removing existing profile should emit snapshot");
    assert_eq!(version, 2);
    assert_eq!(profile_count, 0);

    told.clear();
    manager.remove_profile(&mut told, "does-not-exist");
    assert!(
        told.is_empty(),
        "removing missing profile should not emit a snapshot"
    );
}

#[test]
fn connecting_tests_the_server_and_then_syncs() {
    let mut manager = known_manager(Some("secret"));
    let mut told = Vec::new();
    let next = manager.connect_profile(&mut told, "subsonic-home");
    let IntegrationNext::TestConnection { auth, test } = next else {
        panic!("a known profile is tested");
    };
    assert_eq!(test, TestPurpose::Connect);
    assert_eq!(auth.password, "secret");
    assert_eq!(auth.endpoint, "https://music.example.com");
    let IntegrationNotice::Snapshot { profiles, .. } = &told[0] else {
        panic!("the state is told");
    };
    assert_eq!(
        profiles[0].connection_state,
        BackendConnectionState::Connecting
    );

    told.clear();
    let next = manager.connection_tested(
        &mut told,
        auth,
        TestPurpose::Connect,
        "subsonic-home",
        Ok(()),
    );
    let IntegrationNext::FetchTracks { auth, purpose } = next else {
        panic!("a connected profile is synced");
    };
    assert_eq!(purpose, SyncPurpose::Connect);

    told.clear();
    let next = manager.tracks_fetched(
        &mut told,
        auth,
        purpose,
        "subsonic-home",
        Ok(vec![sample_track("s1")]),
    );
    let IntegrationNext::FetchPlaylists { auth, purpose } = next else {
        panic!("playlists follow the tracks");
    };
    assert!(told.iter().any(|notice| matches!(
        notice,
        IntegrationNotice::TracksUpdated { tracks, .. } if tracks.len() == 1
    )));

    told.clear();
    manager.playlists_fetched(
        &mut told,
        &auth,
        purpose,
        "subsonic-home",
        Ok(vec![BackendPlaylist {
            remote_playlist_id: "p".to_string(),
            name: "Mix".to_string(),
            tracks: vec![sample_track("s1")],
        }]),
    );
    assert!(told
        .iter()
        .any(|notice| matches!(notice, IntegrationNotice::PlaylistsUpdated { .. })));
}

#[test]
fn failed_connections_are_reported() {
    let mut manager = known_manager(Some("secret"));
    let mut told = Vec::new();
    let next = manager.connect_profile(&mut told, "subsonic-home");
    let IntegrationNext::TestConnection { auth, .. } = next else {
        panic!("a known profile is tested");
    };
    told.clear();
    let next = manager.connection_tested(
        &mut told,
        auth,
        TestPurpose::Connect,
        "subsonic-home",
        Err("refused".to_string()),
    );
    assert_eq!(next, IntegrationNext::Wait);
    let mut failed = false;
    let mut state = None;
    for notice in &told {
        match notice {
            IntegrationNotice::OperationFailed { error, .. } => failed = error.contains("refused"),
            IntegrationNotice::Snapshot { profiles, .. } => {
                state = Some(profiles[0].connection_state)
            }
            _ => {}
        }
    }
    assert!(failed);
    assert_eq!(state, Some(BackendConnectionState::Error));
}

#[test]
fn servers_are_not_asked_without_a_password() {
    let manager = known_manager(None);
    assert!(manager.profile_auth("subsonic-home").is_err());
    assert!(manager.profile_auth("unknown").is_err());

    let known = known_manager(Some("secret"));
    let auth = known.profile_auth("subsonic-home").expect("password is known");
    assert_eq!(auth.username, "alice");
    assert_eq!(auth.password, "secret");

    let mut manager = known_manager(None);
    let mut told = Vec::new();
    assert_eq!(
        manager.connect_profile(&mut told, "subsonic-home"),
        IntegrationNext::Wait
    );
    assert!(told
        .iter()
        .any(|notice| matches!(notice, IntegrationNotice::OperationFailed { .. })));
}

#[test]
fn changing_one_connection_leaves_the_others_alone() {
    let mut manager = known_manager(Some("secret"));
    let mut told = Vec::new();
    let _ = manager.upsert_profile(&mut told, test_profile("work"), None, false);
    told.clear();
    manager.set_profile_connection_state(
        &mut told,
        "work",
        BackendConnectionState::Error,
        Some("down".to_string()),
    );
    let IntegrationNotice::Snapshot { profiles, .. } = &told[0] else {
        panic!("a snapshot follows");
    };
    for profile in profiles {
        if profile.profile_id == "work" {
            assert_eq!(profile.connection_state, BackendConnectionState::Error);
            assert_eq!(profile.status_text.as_deref(), Some("down"));
        } else {
            assert_eq!(*profile, test_profile("subsonic-home"));
        }
    }
}

#[test]
fn playlists_are_pushed_and_the_result_is_told() {
    let manager = known_manager(Some("secret"));
    let mut told = Vec::new();
    let next = manager.push_playlist_update(
        &mut told,
        "subsonic-home",
        "remote".to_string(),
        "local".to_string(),
        vec!["s1".to_string(), "s2".to_string()],
    );
    let IntegrationNext::ReplacePlaylist {
        remote_playlist_id,
        local_playlist_id,
        song_ids,
        ..
    } = next
    else {
        panic!("a known profile takes the playlist");
    };
    assert_eq!(remote_playlist_id, "remote");
    assert_eq!(local_playlist_id, "local");
    assert_eq!(song_ids, vec!["s1", "s2"]);
    manager.playlist_pushed(&mut told, "subsonic-home", "local", Ok(()));
    assert!(told.iter().any(|notice| matches!(
        notice,
        IntegrationNotice::WritebackResult { success: true, error: None, .. }
    )));
    told.clear();
    manager.playlist_pushed(
        &mut told,
        "subsonic-home",
        "local",
        Err("offline".to_string()),
    );
    assert!(told.iter().any(|notice| matches!(
        notice,
        IntegrationNotice::WritebackResult { success: false, error: Some(text), .. }
            if text.contains("offline")
    )));
}

#[test]
fn remote_tracks_carry_their_locator() {
    let auth = BackendProfileAuth {
        profile_id: "home".to_string(),
        endpoint: "https://a/".to_string(),
        username: "bob".to_string(),
        password: "p".to_string(),
    };
    let tracks = remote_library_tracks(&auth, "home", &vec![sample_track("s 1")]);
    assert_eq!(tracks.len(), 1);
    assert_eq!(
        tracks[0].path,
        "rtq://open_subsonic/home/s%201?endpoint=https%3A%2F%2Fa&username=bob&format=flac"
    );
    assert_eq!(tracks[0].title, "Song");
    assert_eq!(tracks[0].track_number, "3");

    let playlists = remote_playlists(
        &auth,
        &vec![BackendPlaylist {
            remote_playlist_id: "p".to_string(),
            name: "Mix".to_string(),
            tracks: vec![sample_track("s2")],
        }],
    );
    assert_eq!(playlists[0].name, "Mix");
    assert_eq!(playlists[0].tracks[0].item_id, "s2");
    assert_eq!(playlists[0].tracks[0].summary.artist, "Band");
}

#[test]
fn keyring_failures_are_explained() {
    assert_eq!(keyring_error_hint("something else"), None);
    let hint = keyring_error_hint("x org.freedesktop.DBus.Error.ServiceUnknown y")
        .expect("a missing service has a hint");
    assert!(hint.starts_with("no Secret Service provider is available."));
    assert_eq!(
        format_keyring_error("save", "home", "boom"),
        "save failed in system keyring for profile 'home': boom"
    );
    assert_eq!(
        format_keyring_error("save", "home", "org.freedesktop.DBus.Error.ServiceUnknown"),
        format!(
            "save failed in system keyring for profile 'home': org.freedesktop.DBus.Error.ServiceUnknown. Hint: {}",
            hint
        )
    );
    assert_eq!(
        entry_failure("home", "boom"),
        "failed to create keyring entry for profile 'home': boom"
    );
    assert_eq!(password_saved("home", Ok(())), Ok(()));
    assert_eq!(
        password_saved("home", Err("boom".to_string())),
        Err("save OpenSubsonic credential failed in system keyring for profile 'home': failed to set keyring password: boom".to_string())
    );
    assert_eq!(
        password_loaded("home", KeyringReply::Found("x".to_string())),
        Ok(Some("x".to_string()))
    );
    assert_eq!(password_loaded("home", KeyringReply::NoEntry), Ok(None));
    assert_eq!(
        password_loaded("home", KeyringReply::Failed("boom".to_string())),
        Err("load OpenSubsonic credential failed in system keyring for profile 'home': failed to get keyring password: boom".to_string())
    );
    assert_eq!(password_deleted(KeyringDeletion::Deleted), Ok(()));
    assert_eq!(password_deleted(KeyringDeletion::NoEntry), Ok(()));
    assert_eq!(
        password_deleted(KeyringDeletion::Failed("boom".to_string())),
        Err("failed to delete keyring password: boom".to_string())
    );
}
