use roqtune::database::{
    add_statement, adopts_tracks, cached_payload, clear_column_width, decode_column_order,
    encode_column_order, enrichment_attempt_kind_from_str, enrichment_attempt_kind_to_str,
    enrichment_entity_from_parts, enrichment_entity_parts, enrichment_error_kind_from_str,
    enrichment_error_kind_to_str, enrichment_status_from_str, enrichment_status_to_str,
    migration_steps, missing_columns, needs_default_playlist, set_column_width, EnrichmentRow,
    PlaylistColumnWidthOverride, MigrationStep, SchemaColumn, TableColumns,
};
use roqtune::protocol::{
    LibraryEnrichmentAttemptKind, LibraryEnrichmentEntity, LibraryEnrichmentErrorKind,
    LibraryEnrichmentStatus,
};

#[test]
fn test_set_and_get_playlist_column_order_round_trip() {
    let saved_order = vec![
        "{artist}".to_string(),
        "{title}".to_string(),
        "custom:Album & Year|{album} ({year})".to_string(),
    ];
    let stored = encode_column_order(&saved_order).expect("column order should persist");

    let loaded_order = decode_column_order(Some(stored));
    assert_eq!(loaded_order, Some(saved_order));
}

#[test]
fn test_upsert_and_clear_playlist_column_width_override() {
    let mut overrides: Vec<PlaylistColumnWidthOverride> = Vec::new();
    set_column_width(&mut overrides, "{title}", 190);
    set_column_width(&mut overrides, "{artist}", 170);
    set_column_width(&mut overrides, "{title}", 200);

    assert_eq!(overrides.len(), 2);
    assert!(overrides
        .iter()
        .any(|item| item.column_key == "{title}" && item.width_px == 200));

    let after_clear = clear_column_width(&overrides, "{artist}");
    assert_eq!(after_clear.len(), 1);
    assert_eq!(after_clear[0].column_key, "{title}");
}

#[test]
fn column_orders_are_json_lists() {
    assert_eq!(
        encode_column_order(&vec!["a\"b".to_string(), "ü".to_string()]),
        Ok("[\"a\\\"b\",\"ü\"]".to_string())
    );
    assert_eq!(encode_column_order(&Vec::new()), Ok("[]".to_string()));
    assert_eq!(decode_column_order(None), None);
    assert_eq!(decode_column_order(Some("[1]".to_string())), None);
    assert_eq!(decode_column_order(Some("not json".to_string())), None);
    assert_eq!(
        decode_column_order(Some(" [ \"x\" ] ".to_string())),
        Some(vec!["x".to_string()])
    );
}

#[test]
fn entities_come_back_from_their_parts() {
    let artist = LibraryEnrichmentEntity::Artist {
        artist: "Band".to_string(),
    };
    let (kind, key) = enrichment_entity_parts(&artist);
    assert_eq!((kind.as_str(), key.as_str()), ("artist", "Band"));
    assert_eq!(enrichment_entity_from_parts(&kind, &key), artist);

    let album = LibraryEnrichmentEntity::Album {
        album: "Record".to_string(),
        album_artist: "Band".to_string(),
    };
    let (kind, key) = enrichment_entity_parts(&album);
    assert_eq!((kind.as_str(), key.as_str()), ("album", "Record\u{001f}Band"));
    assert_eq!(enrichment_entity_from_parts(&kind, &key), album);
}

#[test]
fn words_of_the_cache_come_back() {
    for status in [
        LibraryEnrichmentStatus::Ready,
        LibraryEnrichmentStatus::NotFound,
        LibraryEnrichmentStatus::Disabled,
        LibraryEnrichmentStatus::Error,
    ] {
        assert_eq!(
            enrichment_status_from_str(enrichment_status_to_str(status)),
            status
        );
    }
    for kind in [
        None,
        Some(LibraryEnrichmentErrorKind::Timeout),
        Some(LibraryEnrichmentErrorKind::RateLimited),
        Some(LibraryEnrichmentErrorKind::BudgetExhausted),
        Some(LibraryEnrichmentErrorKind::Hard),
    ] {
        assert_eq!(
            enrichment_error_kind_from_str(enrichment_error_kind_to_str(kind)),
            kind
        );
    }
    for kind in [
        LibraryEnrichmentAttemptKind::Detail,
        LibraryEnrichmentAttemptKind::VisiblePrefetch,
        LibraryEnrichmentAttemptKind::BackgroundWarm,
    ] {
        assert_eq!(
            enrichment_attempt_kind_from_str(enrichment_attempt_kind_to_str(kind)),
            kind
        );
    }
    assert_eq!(
        enrichment_status_from_str("unheard of"),
        LibraryEnrichmentStatus::Error
    );
    assert_eq!(enrichment_error_kind_from_str("unheard of"), None);
    assert_eq!(
        enrichment_attempt_kind_from_str("unheard of"),
        LibraryEnrichmentAttemptKind::VisiblePrefetch
    );
}

fn sample_row(expires_unix_ms: i64) -> EnrichmentRow {
    EnrichmentRow {
        entity_type: "artist".to_string(),
        entity_key: "Band".to_string(),
        status: "ready".to_string(),
        blurb: "A band.".to_string(),
        image_path: Some("/cache/a.png".to_string()),
        source_name: "Wikipedia".to_string(),
        source_url: "https://w".to_string(),
        expires_unix_ms,
        error_kind: String::new(),
        attempt_kind: "detail".to_string(),
    }
}

#[test]
fn expired_rows_are_not_handed_out() {
    assert_eq!(cached_payload(None, 5), None);
    assert_eq!(cached_payload(Some(sample_row(5)), 5), None);
    let payload = cached_payload(Some(sample_row(6)), 5).expect("row is still good");
    assert_eq!(payload.status, LibraryEnrichmentStatus::Ready);
    assert_eq!(payload.blurb, "A band.");
    assert_eq!(payload.image_path.as_deref(), Some("/cache/a.png"));
    assert_eq!(payload.attempt_kind, LibraryEnrichmentAttemptKind::Detail);
    assert_eq!(payload.error_kind, None);
}

#[test]
fn old_tables_get_the_columns_they_lack() {
    let bare = TableColumns {
        tracks: vec!["id".to_string()],
        playlists: vec!["id".to_string()],
        library_tracks: vec!["id".to_string()],
        enrichment_cache: vec!["entity_key".to_string()],
    };
    let missing = missing_columns(&bare);
    assert_eq!(missing.len(), 10);
    assert!(missing.contains(&SchemaColumn::TrackPlaylist));
    for column in &missing {
        assert!(add_statement(*column).starts_with("ALTER TABLE "));
    }
    assert!(adopts_tracks(SchemaColumn::TrackPlaylist));
    assert!(!adopts_tracks(SchemaColumn::LibraryGenre));
    assert!(needs_default_playlist(0));
    assert!(!needs_default_playlist(1));
    let steps = migration_steps(&bare, 0);
    assert_eq!(steps.len(), 11);
    assert_eq!(steps[0], MigrationStep::AddColumn(SchemaColumn::TrackPlaylist));
    assert_eq!(steps[1], MigrationStep::AdoptTracks);
    assert_eq!(steps[10], MigrationStep::AddColumn(SchemaColumn::EnrichmentConclusive));
}

#[test]
fn migrated_databases_take_no_step() {
    let texts = |names: &[&str]| names.iter().map(|name| name.to_string()).collect::<Vec<_>>();
    let full = TableColumns {
        tracks: texts(&["id", "playlist_id"]),
        playlists: texts(&["id", "column_order", "column_width_overrides"]),
        library_tracks: texts(&[
            "genre",
            "file_size_bytes",
            "metadata_ready",
            "last_scanned_unix_ms",
        ]),
        enrichment_cache: texts(&["error_kind", "attempt_kind", "conclusive"]),
    };
    assert_eq!(migration_steps(&full, 1), vec![]);
    assert_eq!(migration_steps(&full, 0), vec![MigrationStep::AddPlaylist]);
}
