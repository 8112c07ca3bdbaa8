use roqtune::config::LibraryConfig;
use roqtune::integration::uri::encode_opensubsonic_track_uri;
use roqtune::library::catalog::{
    effective_albums_from_tracks, effective_artists_from_tracks, effective_decades_from_tracks,
    effective_genres_from_tracks, normalized_display_decade, normalized_display_genre,
    parse_track_number, sort_tracks, tracks_for_album_detail, tracks_for_artist_detail,
    tracks_for_decade_detail, tracks_for_genre_detail, TrackOrder,
};
use roqtune::library::favorites::{
    favorite_entry, favorite_from_library_track, favorite_secondary_for_track, favorite_sync,
    favorites_from_tracks, favorites_root_page, pending_syncs, protected_entity_keys, sync_outcome,
    toggle_stored, toggled_state, FavoriteDetail, FavoriteSyncQueueEntry, SyncOutcome,
};
use roqtune::library::manager::{
    artist_detail, favorites_page_failure, favorites_snapshot_failure, root_counts, ConfigDelta,
    LibraryAction, LibraryConfigDelta, LibraryEvent, LibraryManager,
};
use roqtune::library::pages::{
    effective_library_tracks, global_search_rows, library_page, page_of, page_source,
    unlisted_playlist_paths, PageSource,
};
use roqtune::library::paths::{fallback_title_from_path, is_supported_audio_file, path_identity_of};
use roqtune::library::selection::{
    addition_paths, removal_failure, resolve_selection_paths, selection_paths,
};
use roqtune::protocol::{
    FavoriteEntityKind, FavoriteEntityRef, LibraryEntryPayload, LibrarySelectionSpec, LibraryTrack,
    LibraryViewQuery,
};

fn track(path: &str, title: &str, artist: &str, album: &str) -> LibraryTrack {
    LibraryTrack {
        id: format!("id-{}", path),
        path: path.to_string(),
        title: title.to_string(),
        artist: artist.to_string(),
        album: album.to_string(),
        album_artist: artist.to_string(),
        genre: "Rock".to_string(),
        year: "1994".to_string(),
        track_number: "1".to_string(),
    }
}

fn sample_tracks() -> Vec<LibraryTrack> {
    let mut a = track("/m/b.flac", "beta", "Zed", "One");
    a.track_number = "2/10".to_string();
    let mut b = track("/m/a.flac", "Alpha", "abba", "two");
    b.genre = " ".to_string();
    b.year = "2001-05".to_string();
    let mut c = track("/m/c.flac", "alpha", "Zed", "One");
    c.genre = " rock ".to_string();
    c.year = "x".to_string();
    c.track_number = "10".to_string();
    vec![a, b, c]
}

fn paths(tracks: &Vec<LibraryTrack>) -> Vec<&str> {
    tracks.iter().map(|t| t.path.as_str()).collect()
}

#[test]
fn labels_are_tidied() {
    assert_eq!(normalized_display_genre("  Jazz "), "Jazz");
    assert_eq!(normalized_display_genre(" \t"), "Unknown Genre");
    assert_eq!(normalized_display_decade(" 1987 "), "1980s");
    assert_eq!(normalized_display_decade("200"), "2000s");
    assert_eq!(normalized_display_decade("20"), "Unknown Decade");
    assert_eq!(normalized_display_decade("a987"), "Unknown Decade");
    assert_eq!(normalized_display_decade(""), "Unknown Decade");
    assert_eq!(parse_track_number("12/20"), 12);
    assert_eq!(parse_track_number("x1"), 0);
    assert_eq!(parse_track_number(""), 0);
    assert_eq!(parse_track_number("2147483647"), 2_147_483_647);
    assert_eq!(parse_track_number("2147483648"), 0);
    assert_eq!(parse_track_number("007"), 7);
}

#[test]
fn tracks_are_sorted_by_title_artist_and_album() {
    let sorted = sort_tracks(TrackOrder::All, &sample_tracks());
    assert_eq!(paths(&sorted), vec!["/m/a.flac", "/m/c.flac", "/m/b.flac"]);
}

#[test]
fn sorting_agrees_with_the_standard_order() {
    let mut tracks = Vec::new();
    for (index, title) in ["b", "A", "a", "Ä", "ä", "", " ", "aa", "Z", "z", "\u{10400}", "\u{ffff}"]
        .iter()
        .enumerate()
    {
        for path in ["/x/b", "/x//a", "/x/a.b", "/x/a/b", "/x/a b"] {
            let mut t = track(path, title, if index % 2 == 0 { "X" } else { "x" }, "Y");
            t.track_number = format!("{}", index % 3);
            tracks.push(t);
        }
    }
    let sorted = sort_tracks(TrackOrder::All, &tracks);
    let mut expected: Vec<LibraryTrack> = tracks.iter().map(|t| t.clone()).collect();
    expected.sort_by(|left, right| {
        left.title
            .to_ascii_lowercase()
            .cmp(&right.title.to_ascii_lowercase())
            .then_with(|| {
                left.artist
                    .to_ascii_lowercase()
                    .cmp(&right.artist.to_ascii_lowercase())
            })
            .then_with(|| {
                left.album
                    .to_ascii_lowercase()
                    .cmp(&right.album.to_ascii_lowercase())
            })
            .then_with(|| {
                std::path::Path::new(&left.path).cmp(std::path::Path::new(&right.path))
            })
    });
    assert_eq!(paths(&sorted), paths(&expected));
    let detail = sort_tracks(TrackOrder::AlbumDetail, &tracks);
    let mut expected: Vec<LibraryTrack> = tracks.iter().map(|t| t.clone()).collect();
    expected.sort_by(|left, right| {
        parse_track_number(&left.track_number)
            .cmp(&parse_track_number(&right.track_number))
            .then_with(|| {
                left.title
                    .to_ascii_lowercase()
                    .cmp(&right.title.to_ascii_lowercase())
            })
            .then_with(|| {
                std::path::Path::new(&left.path).cmp(std::path::Path::new(&right.path))
            })
    });
    assert_eq!(paths(&detail), paths(&expected));
}

#[test]
fn details_hold_their_tracks() {
    let tracks = sample_tracks();
    assert_eq!(
        paths(&tracks_for_artist_detail(&tracks, "Zed")),
        vec!["/m/b.flac", "/m/c.flac"]
    );
    assert_eq!(
        paths(&tracks_for_album_detail(&tracks, "One", "Zed")),
        vec!["/m/b.flac", "/m/c.flac"]
    );
    assert!(tracks_for_album_detail(&tracks, "One", "abba").is_empty());
    assert_eq!(
        paths(&tracks_for_genre_detail(&tracks, "Unknown Genre")),
        vec!["/m/a.flac"]
    );
    assert_eq!(
        paths(&tracks_for_decade_detail(&tracks, "2000s")),
        vec!["/m/a.flac"]
    );
    assert_eq!(
        paths(&tracks_for_decade_detail(&tracks, "Unknown Decade")),
        vec!["/m/c.flac"]
    );
}

#[test]
fn groups_are_counted() {
    let tracks = sample_tracks();
    let artists = effective_artists_from_tracks(&tracks);
    assert_eq!(artists.len(), 2);
    assert_eq!(artists[0].artist, "abba");
    assert_eq!(artists[1].artist, "Zed");
    assert_eq!((artists[1].album_count, artists[1].track_count), (1, 2));

    let albums = effective_albums_from_tracks(&tracks);
    assert_eq!(albums.len(), 2);
    assert_eq!(albums[0].album, "One");
    assert_eq!(albums[0].track_count, 2);
    assert_eq!(
        albums[0].representative_track_path.as_deref(),
        Some("/m/b.flac")
    );

    let genres = effective_genres_from_tracks(&tracks);
    let names: Vec<(&str, u32)> = genres
        .iter()
        .map(|g| (g.genre.as_str(), g.track_count))
        .collect();
    assert_eq!(names, vec![("Rock", 1), ("rock", 1), ("Unknown Genre", 1)]);

    let decades = effective_decades_from_tracks(&tracks);
    let names: Vec<&str> = decades.iter().map(|d| d.decade.as_str()).collect();
    assert_eq!(names, vec!["1990s", "2000s", "Unknown Decade"]);
}

#[test]
fn no_path_is_listed_twice() {
    let indexed = vec![track("/m/a", "a", "x", "y")];
    let remote = vec![track("/m/a", "other", "x", "y"), track("rtq://r", "r", "x", "y")];
    let missing = unlisted_playlist_paths(
        &indexed,
        &remote,
        &vec!["/m/a".to_string(), "/m/p".to_string(), "/m/p".to_string()],
    );
    assert_eq!(missing, vec!["/m/p"]);
    let all = effective_library_tracks(
        Ok(indexed),
        &remote,
        Some(Ok(vec![track("/m/p", "p", "x", "y")])),
    )
    .expect("everything could be read");
    assert_eq!(paths(&all), vec!["/m/a", "/m/p", "rtq://r"]);
    assert_eq!(all[0].title, "a");
    assert_eq!(
        effective_library_tracks(Err("disk".to_string()), &remote, None).err(),
        Some("Failed to load tracks: disk".to_string())
    );
    assert_eq!(
        effective_library_tracks(Ok(Vec::new()), &remote, Some(Err("disk".to_string()))).err(),
        Some("Failed to load playlist tracks: disk".to_string())
    );
}

#[test]
fn pages_are_cut_out_of_the_rows() {
    let rows: Vec<String> = ["a", "b", "c", "d"].iter().map(|t| t.to_string()).collect();
    assert_eq!(page_of(&rows, 1, 2), vec!["b", "c"]);
    assert_eq!(page_of(&rows, 3, 9), vec!["d"]);
    assert!(page_of(&rows, 4, 1).is_empty());
    assert!(page_of(&rows, 9, 1).is_empty());
    assert_eq!(page_of(&rows, 0, 0), vec!["a"]);

    let (total, entries) = library_page(
        &LibraryViewQuery::Artists,
        Ok(sample_tracks()),
        1,
        5,
    )
    .expect("tracks are there");
    assert_eq!(total, 2);
    assert_eq!(entries.len(), 1);
    assert!(matches!(
        &entries[0],
        LibraryEntryPayload::Artist(artist) if artist.artist == "Zed"
    ));
    assert_eq!(
        library_page(&LibraryViewQuery::Tracks, Err("x".to_string()), 0, 1).err(),
        Some("x".to_string())
    );
    assert_eq!(page_source(&LibraryViewQuery::Tracks), PageSource::Tracks);
    assert_eq!(
        page_source(&LibraryViewQuery::FavoritesRoot),
        PageSource::FavoriteCounts
    );
    assert_eq!(
        page_source(&LibraryViewQuery::FavoriteAlbums),
        PageSource::Favorites(FavoriteEntityKind::Album)
    );
    let rows = global_search_rows(&sample_tracks());
    assert_eq!(rows.len(), 7);
}

#[test]
fn selections_become_paths() {
    let selections = vec![
        LibrarySelectionSpec::Artist {
            artist: "Zed".to_string(),
        },
        LibrarySelectionSpec::Track {
            path: "/m/c.flac".to_string(),
        },
        LibrarySelectionSpec::Track {
            path: "/elsewhere".to_string(),
        },
    ];
    let resolved = resolve_selection_paths(&selections, Ok(sample_tracks()))
        .expect("tracks are there");
    assert_eq!(resolved, vec!["/m/b.flac", "/m/c.flac", "/elsewhere"]);
    let paths = selection_paths(&selections, Ok(sample_tracks())).expect("tracks are there");
    assert_eq!(paths.len(), 3);
    assert_eq!(
        selection_paths(&Vec::new(), Ok(sample_tracks())),
        Err("No library items selected".to_string())
    );
    assert_eq!(
        selection_paths(&selections, Err("disk".to_string())),
        Err("disk".to_string())
    );
    assert_eq!(
        selection_paths(
            &vec![LibrarySelectionSpec::Genre {
                genre: "Polka".to_string(),
            }],
            Ok(sample_tracks())
        ),
        Err("No tracks matched the selected library items".to_string())
    );
    assert_eq!(
        addition_paths(&selections, &Vec::new(), Ok(sample_tracks())),
        Err("No target playlists selected".to_string())
    );
    assert_eq!(
        addition_paths(&Vec::new(), &Vec::new(), Ok(sample_tracks())),
        Err("No library items selected".to_string())
    );
    assert_eq!(
        addition_paths(&selections, &vec!["p".to_string()], Ok(sample_tracks())),
        Ok(vec![
            "/m/b.flac".to_string(),
            "/m/c.flac".to_string(),
            "/elsewhere".to_string()
        ])
    );
    assert_eq!(
        removal_failure("disk"),
        "Failed to remove selected library items: disk"
    );
}

#[test]
fn favorites_know_where_they_come_from() {
    let mut local = track("/m/a.flac", "Song", " Band ", " Record ");
    assert_eq!(favorite_secondary_for_track(&local), "Band · Record");
    let favorite = favorite_from_library_track(&local);
    assert_eq!(favorite.kind, FavoriteEntityKind::Track);
    assert_eq!(favorite.entity_key, "file:/m/a.flac");
    assert_eq!(favorite.display_primary, "Song");
    assert_eq!(favorite.track_path.as_deref(), Some("/m/a.flac"));
    assert_eq!(favorite.remote_profile_id, None);
    local.album = String::new();
    assert_eq!(favorite_secondary_for_track(&local), "Band");
    local.artist = " ".to_string();
    local.album = "Record".to_string();
    assert_eq!(favorite_secondary_for_track(&local), "Record");

    let uri = encode_opensubsonic_track_uri("home", "s1", "https://a", "bob", None);
    let remote = favorite_from_library_track(&track(&uri, "Song", "Band", "Record"));
    assert_eq!(remote.entity_key, "os:home:song:s1");
    assert_eq!(remote.remote_profile_id.as_deref(), Some("home"));
    assert_eq!(remote.remote_item_id.as_deref(), Some("s1"));

    let other = favorite_from_library_track(&track("stream/one", "Song", "Band", "Record"));
    assert_eq!(other.entity_key, "uri:stream/one");
    assert_eq!(favorites_from_tracks(&sample_tracks()).len(), 3);
}

#[test]
fn favorite_pages_show_categories_and_entries() {
    let (total, rows) = favorites_root_page(Some(3), None, Some(1), 0, 10);
    assert_eq!(total, 3);
    let counts: Vec<usize> = rows
        .iter()
        .map(|row| match row {
            LibraryEntryPayload::FavoriteCategory(category) => category.count,
            _ => usize::MAX,
        })
        .collect();
    assert_eq!(counts, vec![3, 0, 1]);
    let artist = FavoriteEntityRef {
        kind: FavoriteEntityKind::Artist,
        entity_key: "artist:Band".to_string(),
        display_primary: "Band".to_string(),
        display_secondary: String::new(),
        track_path: None,
        remote_profile_id: None,
        remote_item_id: None,
    };
    let entry = favorite_entry(
        &artist,
        &Some(FavoriteDetail {
            album_count: 2,
            track_paths: vec!["/a".to_string(), "/b".to_string(), "/c".to_string()],
        }),
    );
    assert!(matches!(
        entry,
        LibraryEntryPayload::Artist(a) if a.artist == "Band" && a.album_count == 2 && a.track_count == 3
    ));
}

#[test]
fn favorites_are_toggled() {
    assert_eq!(toggled_state(Some(true), Ok(true)), Ok(true));
    assert_eq!(
        toggled_state(Some(true), Err("x".to_string())),
        Err("Failed to query favorite state: x".to_string())
    );
    assert_eq!(toggled_state(None, Ok(true)), Ok(false));
    assert_eq!(toggled_state(None, Ok(false)), Ok(true));
    assert_eq!(toggle_stored(true, Ok(())), Ok(()));
    assert_eq!(
        toggle_stored(true, Err("x".to_string())),
        Err("Failed to save favorite: x".to_string())
    );
    assert_eq!(
        toggle_stored(false, Err("x".to_string())),
        Err("Failed to remove favorite: x".to_string())
    );
}

#[test]
fn remote_favorites_are_queued() {
    let uri = encode_opensubsonic_track_uri("home", "s1", "https://a", "bob", None);
    let favorite = favorite_from_library_track(&track(&uri, "Song", "Band", "Record"));
    let sync = favorite_sync(&favorite, true).expect("remote favorites are synced");
    assert_eq!(sync.profile_id, "home");
    assert_eq!(sync.song_id, "s1");
    assert!(sync.favorited);
    assert_eq!(sync.entity_key, "os:home:song:s1");
    let local = favorite_from_library_track(&track("/m/a", "Song", "Band", "Record"));
    assert!(favorite_sync(&local, true).is_none());

    let queue = vec![FavoriteSyncQueueEntry {
        entity_kind: FavoriteEntityKind::Track,
        entity_key: "os:home:song:s1".to_string(),
        remote_profile_id: "home".to_string(),
        remote_item_id: "s1".to_string(),
        desired_favorited: false,
    }];
    let pending = pending_syncs(&queue);
    assert_eq!(pending.len(), 1);
    assert_eq!(pending[0].song_id, "s1");
    assert!(!pending[0].favorited);
    assert_eq!(protected_entity_keys(&queue), vec!["os:home:song:s1"]);
    assert_eq!(sync_outcome(true, None), SyncOutcome::Remove);
    assert_eq!(
        sync_outcome(false, Some("offline")),
        SyncOutcome::MarkFailed("offline".to_string())
    );
}

fn manager() -> LibraryManager {
    let mut config = LibraryConfig::default();
    config.folders = vec!["/music".to_string()];
    LibraryManager::new(config)
}

#[test]
fn events_become_actions() {
    let mut manager = manager();
    assert_eq!(
        manager.handle(LibraryEvent::RequestScan),
        vec![LibraryAction::Scan]
    );
    assert!(manager.handle(LibraryEvent::Play).is_empty());
    assert!(manager.playback_active);
    assert!(manager.handle(LibraryEvent::Pause).is_empty());
    assert!(!manager.playback_active);
    assert_eq!(
        manager.handle(LibraryEvent::RequestArtistDetail {
            artist: "Band".to_string()
        }),
        vec![LibraryAction::PublishArtistDetail {
            artist: "Band".to_string()
        }]
    );
    let actions = manager.handle(LibraryEvent::ConfigChanged(vec![ConfigDelta::Library(
        LibraryConfigDelta {
            folders: Some(vec!["/other".to_string()]),
            include_playlist_tracks_in_library: Some(true),
        },
    )]));
    assert!(!actions.contains(&LibraryAction::PublishGenres));
    assert_eq!(manager.library_folders, vec!["/other"]);
    assert!(manager.include_playlist_tracks_in_library);
    assert!(manager.handle(LibraryEvent::Other).is_empty());
}

#[test]
fn remote_tracks_are_kept_per_profile() {
    let mut manager = manager();
    let _ = manager.handle(LibraryEvent::RemoteTracksUpdated {
        profile_id: "a".to_string(),
        tracks: vec![track("rtq://1", "1", "x", "y"), track("rtq://2", "2", "x", "y")],
    });
    let _ = manager.handle(LibraryEvent::RemoteTracksUpdated {
        profile_id: "b".to_string(),
        tracks: vec![track("rtq://3", "3", "x", "y")],
    });
    let _ = manager.handle(LibraryEvent::RemoteTracksUpdated {
        profile_id: "a".to_string(),
        tracks: vec![track("rtq://4", "4", "x", "y")],
    });
    let remote = manager.all_remote_tracks();
    assert_eq!(remote.len(), 2);
    assert!(remote.iter().any(|t| t.path == "rtq://3"));
    assert!(remote.iter().any(|t| t.path == "rtq://4"));
}

#[test]
fn counts_and_details_are_published() {
    let counts = root_counts(&sample_tracks(), 5);
    assert_eq!(
        (
            counts.tracks,
            counts.artists,
            counts.albums,
            counts.genres,
            counts.decades,
            counts.favorites
        ),
        (3, 2, 2, 3, 3, 5)
    );
    let (albums, tracks) = artist_detail(&sample_tracks(), "Zed");
    assert_eq!(albums.len(), 1);
    assert_eq!(tracks.len(), 2);
    assert_eq!(
        favorites_snapshot_failure("disk"),
        "Failed to load favorites snapshot: disk"
    );
    assert_eq!(
        favorites_page_failure("disk"),
        "Failed to load favorites page: disk"
    );
}

#[test]
fn paths_agree_with_the_standard_library() {
    for path in [
        "/m/a.flac", "/m/A.FLAC", "/m/.flac", "/m/flac", "a.mp3", "/m/a.b.ogg", "/m/a.", "/m/a.txt",
        "/m/dir.flac/", "/m/..", "..", "/", "", "/m/ .flac", "/m/é.Opus", "/m/x.wav/.",
    ] {
        let std_path = std::path::Path::new(path);
        let extension = std_path
            .extension()
            .and_then(|ext| ext.to_str())
            .map(|ext| ext.to_ascii_lowercase());
        if extension.is_none() {
            assert!(!is_supported_audio_file(path), "{}", path);
        }
        if extension.as_deref() == Some("flac") || extension.as_deref() == Some("mp3") {
            assert!(is_supported_audio_file(path), "{}", path);
        }
        let title = std_path
            .file_stem()
            .and_then(|name| name.to_str())
            .map(|name| name.to_string())
            .filter(|name| !name.trim().is_empty())
            .unwrap_or_else(|| "Unknown Title".to_string());
        assert_eq!(fallback_title_from_path(path), title, "{}", path);
    }
    assert!(!is_supported_audio_file("/m/a.txt"));
    for (left, right) in [
        ("/m/a", "/m//a"),
        ("/m/a", "/m/./a"),
        ("/m/a", "/m/a/"),
        ("m", "./m"),
        ("/m/../a", "/a"),
        ("a", "b"),
    ] {
        assert_eq!(
            path_identity_of(left) == path_identity_of(right),
            std::path::Path::new(left) == std::path::Path::new(right),
            "{} {}",
            left,
            right
        );
    }
}
