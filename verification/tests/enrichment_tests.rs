use roqtune::library::enrichment::LibraryEnrichmentManager;
use roqtune::library::matching::TitleMatchTier;
use roqtune::library::outcome::{EnrichmentSource, FetchOutcome};
use roqtune::library::scoring::{AudioDbAlbumCandidate, AudioDbArtistCandidate, WikiSummary};
use roqtune::protocol::{
    LibraryEnrichmentAttemptKind, LibraryEnrichmentEntity, LibraryEnrichmentErrorKind,
    LibraryEnrichmentPayload, LibraryEnrichmentStatus,
};

fn sample_summary(title: &str, description: &str, extract: &str) -> WikiSummary {
    WikiSummary {
        title: title.to_string(),
        description: description.to_string(),
        extract: extract.to_string(),
        canonical_url: String::new(),
        image_url: None,
        page_type: String::new(),
        categories: Vec::new(),
    }
}

#[test]
fn library_enrichment_manager_test_normalize_text_collapses_symbols_and_case() {
    assert_eq!(
        LibraryEnrichmentManager::normalize_text("Sample-Name / RANDOM Value!!"),
        "sample name random value"
    );
    assert_eq!(
        LibraryEnrichmentManager::normalize_text("Daft-Punk / RANDOM Access!!"),
        "daft punk random access"
    );
}

#[test]
fn test_compact_text_removes_spacing_and_punctuation() {
    assert_eq!(
        LibraryEnrichmentManager::compact_text("Sample Group!"),
        "samplegroup"
    );
}

#[test]
fn test_looks_like_noncanonical_artist_name_detects_feat_tags() {
    assert!(
        LibraryEnrichmentManager::looks_like_noncanonical_artist_name(
            "Sample Artist feat. Guest"
        )
    );
    assert!(
        LibraryEnrichmentManager::looks_like_noncanonical_artist_name(
            "Sample Artist featuring Guest"
        )
    );
    assert!(!LibraryEnrichmentManager::looks_like_noncanonical_artist_name("Sample Artist"));
}

#[test]
fn test_name_matches_identity_variants_accepts_compact_case_variants() {
    let mut variants = Vec::new();
    LibraryEnrichmentManager::push_name_identity_variants(&mut variants, "Sample Group");
    assert!(LibraryEnrichmentManager::name_matches_identity_variants(
        "SAMPLEGROUP",
        &variants
    ));
}

#[test]
fn test_score_audiodb_artist_candidate_rewards_near_exact_music_match() {
    let candidate = AudioDbArtistCandidate {
        name: "Sample Group".to_string(),
        biography: "Sample Group is an electronic music duo.".to_string(),
        image_url: None,
        source_url: String::new(),
        genre: "Electronic".to_string(),
    };
    assert!(
        LibraryEnrichmentManager::score_audiodb_artist_candidate("SAMPLEGROUP", &candidate)
            >= 120
    );
}

#[test]
fn test_score_audiodb_album_candidate_rejects_wrong_artist() {
    let candidate = AudioDbAlbumCandidate {
        album: "Test Record".to_string(),
        artist: "Different Performer".to_string(),
        description: "Test Record is a studio album.".to_string(),
        source_url: String::new(),
    };
    assert!(
        LibraryEnrichmentManager::score_audiodb_album_candidate(
            "Test Record",
            "Sample Performer",
            &candidate
        ) < 0
    );
}

#[test]
fn library_enrichment_manager_test_score_artist_summary_prefers_music_entity_match() {
    let summary = sample_summary(
        "Sample Ensemble",
        "Electronic music duo",
        "Sample Ensemble are an electronic music duo.",
    );
    assert!(LibraryEnrichmentManager::score_artist_summary("Sample Ensemble", &summary) >= 120);

    let summary = sample_summary(
        "Daft Punk",
        "French electronic music duo",
        "Daft Punk were a French electronic music duo.",
    );
    assert!(LibraryEnrichmentManager::score_artist_summary("Daft Punk", &summary) >= 100);
}

#[test]
fn test_title_prefilter_rejects_unrelated_multi_token_artist_titles() {
    let entity = LibraryEnrichmentEntity::Artist {
        artist: "Sample Performer".to_string(),
    };
    assert!(!LibraryEnrichmentManager::title_passes_entity_prefilter(
        &entity,
        "Completely Different Album"
    ));
}

#[test]
fn test_title_prefilter_keeps_single_token_artist_permissive() {
    let entity = LibraryEnrichmentEntity::Artist {
        artist: "2Pac".to_string(),
    };
    assert!(LibraryEnrichmentManager::title_passes_entity_prefilter(
        &entity,
        "Tupac Shakur"
    ));
}

#[test]
fn test_score_artist_summary_accepts_compact_name_match() {
    let summary = sample_summary(
        "Sample Group (South Korean band)",
        "South Korean band",
        "Sample Group is a South Korean pop band.",
    );
    assert!(LibraryEnrichmentManager::score_artist_summary("SAMPLEGROUP", &summary) >= 100);
}

#[test]
fn test_title_match_tier_exact_case_variant() {
    assert_eq!(
        LibraryEnrichmentManager::title_match_tier("samplegroup", "SampleGroup"),
        TitleMatchTier::Exact
    );
}

#[test]
fn test_title_match_tier_exact_parenthetical_compact_variant() {
    assert_eq!(
        LibraryEnrichmentManager::title_match_tier(
            "samplegroup",
            "Sample Group (South Korean band)"
        ),
        TitleMatchTier::Exact
    );
}

#[test]
fn test_direct_summary_matches_entity_allows_exact_mixed_case_artist() {
    let summary = sample_summary(
        "Sample Group",
        "South Korean girl group",
        "Sample Group is a South Korean girl group.",
    );
    let entity = LibraryEnrichmentEntity::Artist {
        artist: "SAMPLE GROUP".to_string(),
    };
    assert!(LibraryEnrichmentManager::direct_summary_matches_entity(
        &entity, &summary
    ));
}

#[test]
fn test_direct_summary_matches_entity_allows_alias_redirect_with_music_context() {
    let mut summary = sample_summary(
        "Canonical Performer",
        "American rapper",
        "Canonical Performer, known professionally as Alias42, is an American rapper.",
    );
    summary.categories = vec!["Category:American male rappers".to_string()];
    let entity = LibraryEnrichmentEntity::Artist {
        artist: "Alias42".to_string(),
    };
    assert!(LibraryEnrichmentManager::direct_summary_matches_entity(
        &entity, &summary
    ));
}

#[test]
fn test_direct_summary_matches_entity_rejects_single_token_non_music_exact() {
    let summary = sample_summary(
        "Sample",
        "Ancient city and kingdom",
        "Sample was an ancient settlement.",
    );
    let entity = LibraryEnrichmentEntity::Artist {
        artist: "SAMPLE".to_string(),
    };
    assert!(!LibraryEnrichmentManager::direct_summary_matches_entity(
        &entity, &summary
    ));
}

#[test]
fn test_direct_summary_matches_entity_rejects_single_token_without_music_category_context() {
    let summary = sample_summary(
        "Sample",
        "South Korean group",
        "Sample is a South Korean group.",
    );
    let entity = LibraryEnrichmentEntity::Artist {
        artist: "Sample".to_string(),
    };
    assert!(!LibraryEnrichmentManager::direct_summary_matches_entity(
        &entity, &summary
    ));
}

#[test]
fn test_score_artist_summary_rejects_discography_pages() {
    let summary = sample_summary(
        "Sample Ensemble discography",
        "Discography of Sample Ensemble",
        "The discography of Sample Ensemble includes several albums.",
    );
    assert!(LibraryEnrichmentManager::score_artist_summary("Sample Ensemble", &summary) < 0);
}

#[test]
fn test_score_album_summary_rejects_artist_bio_page() {
    let summary = sample_summary(
        "Sample Ensemble",
        "Electronic music duo",
        "Sample Ensemble are an electronic music duo.",
    );
    assert!(
        LibraryEnrichmentManager::score_album_summary(
            "Test Record",
            "Sample Ensemble",
            &summary
        ) < 0
    );
}

#[test]
fn test_score_artist_summary_rejects_self_titled_album_page() {
    let summary = sample_summary(
        "Sample Ensemble",
        "Debut studio album by Sample Ensemble",
        "Sample Ensemble is the debut studio album by Sample Ensemble.",
    );
    assert!(LibraryEnrichmentManager::score_artist_summary("Sample Ensemble", &summary) < 0);
}

#[test]
fn test_score_artist_summary_accepts_alias_redirect_with_music_context() {
    let mut summary = sample_summary(
        "Canonical Performer",
        "American rapper",
        "Canonical Performer, known professionally as Alias42, is an American rapper.",
    );
    summary.categories = vec!["Category:American male rappers".to_string()];
    assert!(LibraryEnrichmentManager::score_artist_summary("Alias42", &summary) >= 92);
}

#[test]
fn test_score_artist_summary_rejects_alias_without_music_context() {
    let summary = sample_summary(
        "Canonical Place",
        "Ancient settlement",
        "Canonical Place, also known as Alias42, was an ancient settlement.",
    );
    assert!(LibraryEnrichmentManager::score_artist_summary("Alias42", &summary) < 0);
}

#[test]
fn test_score_artist_summary_rejects_single_token_non_music_exact_title() {
    let summary = sample_summary(
        "Sample",
        "Legendary creature",
        "Sample is a mythical creature in folklore.",
    );
    assert!(LibraryEnrichmentManager::score_artist_summary("Sample", &summary) < 0);
}

#[test]
fn test_score_artist_summary_accepts_single_token_when_category_is_music_group() {
    let mut summary = sample_summary(
        "Sample",
        "South Korean group",
        "Sample is a South Korean pop group.",
    );
    summary.categories = vec!["Category:South Korean girl groups".to_string()];
    assert!(LibraryEnrichmentManager::score_artist_summary("Sample", &summary) >= 92);
}

#[test]
fn test_score_artist_summary_rejects_single_token_text_only_music_context() {
    let summary = sample_summary(
        "Sample",
        "South Korean group",
        "Sample is a South Korean pop group.",
    );
    assert!(LibraryEnrichmentManager::score_artist_summary("Sample", &summary) < 0);
}

#[test]
fn library_enrichment_manager_test_score_album_summary_rewards_album_context() {
    let summary = sample_summary(
        "Test Record",
        "Studio album by Sample Ensemble",
        "Test Record is a studio album by Sample Ensemble.",
    );
    assert!(
        LibraryEnrichmentManager::score_album_summary(
            "Test Record",
            "Sample Ensemble",
            &summary
        ) >= 110
    );

    let summary = sample_summary(
        "Discovery",
        "2001 studio album by Daft Punk",
        "Discovery is the second studio album by French duo Daft Punk.",
    );
    assert!(
        LibraryEnrichmentManager::score_album_summary("Discovery", "Daft Punk", &summary) >= 100
    );
}

#[test]
fn test_detect_image_extension_recognizes_png_and_jpeg() {
    let png = vec![0x89, b'P', b'N', b'G', 0x0D, 0x0A, 0x1A, 0x0A];
    let jpg = vec![0xFF, 0xD8, 0xFF, 0xE0];
    assert_eq!(
        LibraryEnrichmentManager::detect_image_extension(&png),
        Some("png")
    );
    assert_eq!(
        LibraryEnrichmentManager::detect_image_extension(&jpg),
        Some("jpg")
    );
}

#[test]
fn test_parse_audiodb_payload_empty_body_returns_empty_candidates() {
    let parsed = LibraryEnrichmentManager::parse_audiodb_payload("searchalbum.php", "")
        .expect("empty response should be handled");
    assert!(parsed
        .array_at("album")
        .is_some_and(|items| items.is_empty()));
}

#[test]
fn test_parse_audiodb_payload_non_json_body_returns_empty_candidates() {
    let parsed =
        LibraryEnrichmentManager::parse_audiodb_payload("search.php", "<html>rate limited</html>")
            .expect("html response should be handled");
    assert!(parsed
        .array_at("artists")
        .is_some_and(|items| items.is_empty()));
}

#[test]
fn test_should_prefer_not_found_over_error_true_for_hard_error() {
    let entity = LibraryEnrichmentEntity::Artist {
        artist: "Sample".to_string(),
    };
    let not_found = LibraryEnrichmentManager::build_outcome(
        &entity,
        LibraryEnrichmentStatus::NotFound,
        String::new(),
        None,
        None,
        EnrichmentSource::Wikipedia,
        String::new(),
        None,
    );
    let mut hard_error = LibraryEnrichmentManager::build_error_outcome(
        &entity,
        EnrichmentSource::TheAudioDB,
        String::new(),
        LibraryEnrichmentManager::build_hard_reason("request failed"),
    );
    hard_error.payload.error_kind = Some(LibraryEnrichmentErrorKind::Hard);

    assert!(
        LibraryEnrichmentManager::should_prefer_not_found_over_error(&not_found, &hard_error)
    );
}

#[test]
fn test_should_prefer_not_found_over_error_true_for_retryable_error() {
    let entity = LibraryEnrichmentEntity::Artist {
        artist: "Sample".to_string(),
    };
    let not_found = LibraryEnrichmentManager::build_outcome(
        &entity,
        LibraryEnrichmentStatus::NotFound,
        String::new(),
        None,
        None,
        EnrichmentSource::Wikipedia,
        String::new(),
        None,
    );
    let retryable_error = FetchOutcome {
        payload: LibraryEnrichmentPayload {
            entity: entity.clone(),
            status: LibraryEnrichmentStatus::Error,
            blurb: String::new(),
            image_path: None,
            source_name: "TheAudioDB".to_string(),
            source_url: String::new(),
            error_kind: Some(LibraryEnrichmentErrorKind::Timeout),
            attempt_kind: LibraryEnrichmentAttemptKind::VisiblePrefetch,
        },
        image_url: None,
        last_error: Some(LibraryEnrichmentManager::build_timeout_reason("timed out")),
        conclusive: false,
    };

    assert!(
        LibraryEnrichmentManager::should_prefer_not_found_over_error(
            &not_found,
            &retryable_error
        )
    );
}

#[test]
fn test_should_prefer_not_found_over_error_false_when_other_is_not_error() {
    let entity = LibraryEnrichmentEntity::Artist {
        artist: "Sample".to_string(),
    };
    let not_found = LibraryEnrichmentManager::build_outcome(
        &entity,
        LibraryEnrichmentStatus::NotFound,
        String::new(),
        None,
        None,
        EnrichmentSource::Wikipedia,
        String::new(),
        None,
    );
    let ready = LibraryEnrichmentManager::build_outcome(
        &entity,
        LibraryEnrichmentStatus::Ready,
        "blurb".to_string(),
        None,
        None,
        EnrichmentSource::TheAudioDB,
        String::new(),
        None,
    );

    assert!(!LibraryEnrichmentManager::should_prefer_not_found_over_error(&not_found, &ready));
}
