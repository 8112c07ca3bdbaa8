use roqtune::library::scan::{
    can_be_dropped, fallback_scan_stub, is_scanned_folder, library_track_id,
    library_track_metadata, metadata_update, normalize_sort_key, playlist_track_from_path, sort_paths, BackfillTarget, CommonTrackMetadata,
    EntryKind, FolderWalk, LibraryScanState, ScanNext, ScanPhase, ScanReport, ScanRun, ScannedFile,
};

fn file(path: &str, modified_unix_ms: i64) -> ScannedFile {
    ScannedFile {
        path: path.to_string(),
        track_id: format!("lib-{}", path),
        modified_unix_ms,
        file_size_bytes: 10,
    }
}

fn known(modified_unix_ms: i64, metadata_ready: bool) -> LibraryScanState {
    LibraryScanState {
        modified_unix_ms,
        file_size_bytes: 10,
        metadata_ready,
    }
}

fn tags(title: &str, artist: &str) -> CommonTrackMetadata {
    CommonTrackMetadata {
        title: title.to_string(),
        artist: artist.to_string(),
        album: String::new(),
        album_artist: String::new(),
        date: "1999-01-01".to_string(),
        year: "1999".to_string(),
        genre: "Jazz".to_string(),
        track_number: "3".to_string(),
    }
}

#[test]
fn scans_store_changed_files_only() {
    let baseline = vec![
        ("/m/same.flac".to_string(), known(1, true)),
        ("/m/changed.flac".to_string(), known(1, true)),
        ("/m/unready.flac".to_string(), known(1, false)),
    ];
    let mut run = ScanRun::begin(1000, false, Ok(baseline)).expect("baseline is there");
    for (path, modified) in [
        ("/m/changed.flac", 2),
        ("/m/new.flac", 1),
        ("/m/same.flac", 1),
        ("/m/unready.flac", 1),
    ] {
        let moved = run.take_file(file(path, modified));
        assert_eq!(moved.next, ScanNext::File);
        assert!(moved.reports.is_empty());
        assert!(!moved.pause);
    }
    let moved = run.end_files();
    assert_eq!(moved.next, ScanNext::StoreStubs);
    let stored: Vec<&str> = run.stubs().iter().map(|s| s.path.as_str()).collect();
    assert_eq!(
        stored,
        vec!["/m/changed.flac", "/m/new.flac", "/m/unready.flac"]
    );
    assert_eq!(run.kept_paths().len(), 4);
    let moved = run.stubs_stored(Ok(()));
    assert_eq!(moved.next, ScanNext::Prune);
    let moved = run.pruned(Ok(()));
    assert_eq!(
        moved.reports,
        vec![ScanReport::Completed { indexed_tracks: 4 }]
    );
    assert_eq!(moved.next, ScanNext::ReadTags);
    assert_eq!(
        run.target_path().map(|p| p.as_str()),
        Some("/m/changed.flac")
    );
    assert_eq!(run.take_tags(Some(tags("T", "A"))).next, ScanNext::ReadTags);
    assert_eq!(run.take_tags(None).next, ScanNext::ReadTags);
    assert_eq!(run.take_tags(None).next, ScanNext::StoreUpdates);
    assert_eq!(run.updates().len(), 3);
    assert_eq!(run.updates()[0].title, "T");
    assert_eq!(run.updates()[1].title, "new");
    let moved = run.updates_stored(Ok(()));
    assert_eq!(
        moved.reports,
        vec![ScanReport::MetadataProgress {
            updated: 3,
            remaining: 0
        }]
    );
    assert_eq!(moved.next, ScanNext::Finish);
    assert_eq!(run.phase(), ScanPhase::Finished);
}

#[test]
fn scans_without_changes_end_early() {
    let baseline = vec![("/m/same.flac".to_string(), known(1, true))];
    let mut run = ScanRun::begin(1000, true, Ok(baseline)).expect("baseline is there");
    let _ = run.take_file(file("/m/same.flac", 1));
    assert_eq!(run.end_files().next, ScanNext::Prune);
    let moved = run.pruned(Ok(()));
    assert_eq!(
        moved.reports,
        vec![ScanReport::Completed { indexed_tracks: 1 }]
    );
    assert_eq!(moved.next, ScanNext::Finish);
}

#[test]
fn failures_end_a_scan() {
    assert_eq!(
        ScanRun::begin(0, false, Err("disk".to_string())).err(),
        Some("Failed to load scan baseline: disk".to_string())
    );
    let mut run = ScanRun::begin(0, false, Ok(Vec::new())).expect("baseline is there");
    let _ = run.take_file(file("/m/a.flac", 1));
    let _ = run.end_files();
    let moved = run.stubs_stored(Err("disk".to_string()));
    assert_eq!(
        moved.reports,
        vec![ScanReport::Failed(
            "Failed to upsert final scan batch (1 rows): disk".to_string()
        )]
    );
    assert_eq!(moved.next, ScanNext::Finish);

    let mut run = ScanRun::begin(0, false, Ok(Vec::new())).expect("baseline is there");
    let _ = run.end_files();
    let moved = run.pruned(Err("disk".to_string()));
    assert_eq!(
        moved.reports,
        vec![ScanReport::Failed(
            "Failed to prune removed library files: disk".to_string()
        )]
    );

    let mut run = ScanRun::begin(0, false, Ok(Vec::new())).expect("baseline is there");
    let _ = run.take_file(file("/m/a.flac", 1));
    let _ = run.end_files();
    let _ = run.stubs_stored(Ok(()));
    let _ = run.pruned(Ok(()));
    let _ = run.take_tags(None);
    let moved = run.updates_stored(Err("disk".to_string()));
    assert_eq!(
        moved.reports,
        vec![ScanReport::Failed(
            "Failed final metadata backfill batch (1 rows): disk".to_string()
        )]
    );
}

#[test]
fn long_scans_store_in_batches() {
    let mut run = ScanRun::begin(0, true, Ok(Vec::new())).expect("baseline is there");
    let mut pauses = 0usize;
    let mut batches = 0usize;
    let mut progress = Vec::new();
    for index in 0..600usize {
        let mut moved = run.take_file(file(&format!("/m/{:04}.flac", index), 1));
        if moved.next == ScanNext::StoreStubs {
            assert_eq!(run.stubs().len(), 256);
            batches += 1;
            moved = run.stubs_stored(Ok(()));
        }
        assert_eq!(moved.next, ScanNext::File);
        if moved.pause {
            pauses += 1;
        }
        for report in moved.reports {
            assert!(can_be_dropped(&report));
            progress.push(report);
        }
    }
    assert_eq!(batches, 2);
    assert_eq!(pauses, 600 / 96);
    assert_eq!(
        progress,
        vec![
            ScanReport::Progress {
                discovered: 256,
                indexed: 256,
                metadata_pending: 256
            },
            ScanReport::Progress {
                discovered: 512,
                indexed: 512,
                metadata_pending: 512
            },
        ]
    );
    assert_eq!(run.end_files().next, ScanNext::StoreStubs);
    assert_eq!(run.stubs().len(), 88);
    let _ = run.stubs_stored(Ok(()));
    let _ = run.pruned(Ok(()));
    let mut stored = Vec::new();
    for _ in 0..600usize {
        let mut moved = run.take_tags(None);
        if moved.next == ScanNext::StoreUpdates {
            stored.push(run.updates().len());
            moved = run.updates_stored(Ok(()));
        }
        if moved.next == ScanNext::Finish {
            break;
        }
    }
    assert_eq!(stored, vec![128, 128, 128, 128, 88]);
    assert!(!can_be_dropped(&ScanReport::Failed("x".to_string())));
    assert!(!can_be_dropped(&ScanReport::Completed { indexed_tracks: 1 }));
}

#[test]
fn tags_fill_in_what_the_path_does_not_tell() {
    let metadata = library_track_metadata("/m/My Song.flac", None);
    assert_eq!(metadata.title, "My Song");
    assert_eq!(metadata.artist, "Unknown Artist");
    assert_eq!(metadata.album, "Unknown Album");
    assert_eq!(metadata.album_artist, "Unknown Artist");
    let metadata = library_track_metadata("/m/My Song.flac", Some(tags("", "Band")));
    assert_eq!(metadata.title, "My Song");
    assert_eq!(metadata.artist, "Band");
    assert_eq!(metadata.album_artist, "Band");
    assert_eq!(metadata.year, "1999");
    assert_eq!(metadata.genre, "Jazz");
    assert_eq!(metadata.track_number, "3");

    let track = playlist_track_from_path("id".to_string(), "/m/x.ogg", Some(tags("T", "A")));
    assert_eq!(track.id, "id");
    assert_eq!(track.path, "/m/x.ogg");
    assert_eq!(track.title, "T");

    let stub = fallback_scan_stub(&file("/m/Big Song.mp3", 7), 99);
    assert_eq!(stub.song_id, "lib-/m/Big Song.mp3");
    assert_eq!(stub.title, "Big Song");
    assert_eq!(stub.sort_title, "big song");
    assert_eq!(stub.sort_artist, "unknown artist");
    assert!(!stub.metadata_ready);
    assert_eq!((stub.modified_unix_ms, stub.last_scanned_unix_ms), (7, 99));

    let update = metadata_update(
        &BackfillTarget {
            path: "/m/a.mp3".to_string(),
            modified_unix_ms: 7,
            file_size_bytes: 8,
        },
        Some(tags(" Title ", "Band")),
        99,
    );
    assert_eq!(update.title, " Title ");
    assert_eq!(update.sort_title, "title");
    assert!(update.metadata_ready);
    assert_eq!(normalize_sort_key("  ", "none"), "none");
    assert_eq!(normalize_sort_key(" ÄB ", "none"), "Äb");
}

#[test]
fn folders_are_walked() {
    assert!(is_scanned_folder("/m"));
    assert!(!is_scanned_folder("  "));
    let mut walk = FolderWalk::new("/m".to_string());
    assert_eq!(walk.next_folder().as_deref(), Some("/m"));
    walk.take_entry("/m/z.flac".to_string(), EntryKind::File);
    walk.take_entry("/m/sub".to_string(), EntryKind::Directory);
    walk.take_entry("/m/notes.txt".to_string(), EntryKind::File);
    walk.take_entry("/m/link.flac".to_string(), EntryKind::Other);
    assert_eq!(walk.next_folder().as_deref(), Some("/m/sub"));
    walk.take_entry("/m/sub/a.mp3".to_string(), EntryKind::File);
    assert_eq!(walk.next_folder(), None);
    assert_eq!(walk.files(), vec!["/m/sub/a.mp3", "/m/z.flac"]);
    let mut expected = vec!["/m/a.b".to_string(), "/m/a/b".to_string(), "/m/a b".to_string()];
    let sorted = sort_paths(&expected);
    expected.sort_by(|a, b| std::path::Path::new(a).cmp(std::path::Path::new(b)));
    assert_eq!(sorted, expected);
}

#[test]
fn ids_are_hashes_in_hexadecimal() {
    for hash in [0u64, 9, 10, 15, 16, 255, 256, 0x1234_5678_9abc_def0, u64::MAX] {
        assert_eq!(library_track_id(hash), format!("lib-{:x}", hash));
    }
}
