use roqtune::config::LibraryConfig;
use roqtune::json::Json;
use roqtune::library::audiodb::{AudioDbAction, AudioDbLookup};
use roqtune::library::enrichment::LibraryEnrichmentManager;
use roqtune::library::images::{CachedImage, ImagePrune};
use roqtune::library::outcome::{EnrichmentSource, FetchOutcome, HttpFailureKind};
use roqtune::library::replies::audiodb_request_url;
use roqtune::library::requests::{
    CacheVerdict, EnrichmentChore, EnrichmentMessage, FetchPhase, NextStep, RequestEnd,
    RequestStart, SlotStep,
};
use roqtune::library::scoring::WikiSummary;
use roqtune::library::titles::{wikipedia_search_url, wikipedia_summary_url, SearchKind};
use roqtune::library::wikipedia::{LookupAction, WikipediaLookup};
use roqtune::protocol::{
    LibraryEnrichmentAttemptKind, LibraryEnrichmentEntity, LibraryEnrichmentErrorKind,
    LibraryEnrichmentPriority, LibraryEnrichmentStatus,
};

fn artist(name: &str) -> LibraryEnrichmentEntity {
    LibraryEnrichmentEntity::Artist {
        artist: name.to_string(),
    }
}

fn online() -> LibraryEnrichmentManager {
    let mut manager = LibraryEnrichmentManager::new();
    let mut config = LibraryConfig::default();
    config.online_metadata_enabled = true;
    assert_eq!(
        manager.handle_bus_message(EnrichmentMessage::ConfigChanged(config)),
        EnrichmentChore::PruneCaches
    );
    manager
}

fn ask(manager: &mut LibraryEnrichmentManager, name: &str, priority: LibraryEnrichmentPriority) {
    assert_eq!(
        manager.handle_bus_message(EnrichmentMessage::Request {
            entity: artist(name),
            priority,
        }),
        EnrichmentChore::Nothing
    );
}

#[test]
fn details_are_processed_before_prefetches() {
    let mut manager = online();
    ask(&mut manager, "one", LibraryEnrichmentPriority::Prefetch);
    ask(&mut manager, "two", LibraryEnrichmentPriority::Interactive);
    let _ = manager.handle_bus_message(EnrichmentMessage::ReplaceBackgroundQueue(vec![
        artist("three"),
        artist("four"),
    ]));
    assert_eq!(
        manager.next_step(0),
        NextStep::Process(artist("two"), LibraryEnrichmentAttemptKind::Detail)
    );
    assert_eq!(
        manager.next_step(0),
        NextStep::Process(artist("one"), LibraryEnrichmentAttemptKind::VisiblePrefetch)
    );
    assert_eq!(
        manager.next_step(1000),
        NextStep::Process(artist("three"), LibraryEnrichmentAttemptKind::BackgroundWarm)
    );
    assert_eq!(manager.next_step(30_999), NextStep::Poll);
    assert_eq!(
        manager.next_step(31_000),
        NextStep::Process(artist("four"), LibraryEnrichmentAttemptKind::BackgroundWarm)
    );
    assert_eq!(manager.next_step(99_000), NextStep::Await);
}

#[test]
fn switching_off_drops_the_queue() {
    let mut manager = online();
    ask(&mut manager, "one", LibraryEnrichmentPriority::Interactive);
    let _ = manager.handle_bus_message(EnrichmentMessage::ConfigChanged(LibraryConfig::default()));
    assert_eq!(manager.next_step(0), NextStep::Await);
    assert_eq!(
        manager.open_request(&artist("one"), LibraryEnrichmentAttemptKind::VisiblePrefetch),
        RequestStart::Drop
    );
    let RequestStart::Answer(payload) =
        manager.open_request(&artist("one"), LibraryEnrichmentAttemptKind::Detail)
    else {
        panic!("a detail request is answered");
    };
    assert_eq!(payload.status, LibraryEnrichmentStatus::Disabled);
    assert_eq!(payload.source_name, "TheAudioDB");
}

#[test]
fn clearing_the_cache_forgets_every_request() {
    let mut manager = online();
    ask(&mut manager, "one", LibraryEnrichmentPriority::Prefetch);
    assert_eq!(
        manager.handle_bus_message(EnrichmentMessage::ClearCache),
        EnrichmentChore::ClearCaches
    );
    assert_eq!(manager.next_step(0), NextStep::Await);
}

#[test]
fn prefetches_replace_each_other() {
    let mut manager = online();
    let _ = manager.handle_bus_message(EnrichmentMessage::ReplacePrefetchQueue(vec![
        artist("one"),
        artist("two"),
        artist("one"),
    ]));
    let _ = manager.handle_bus_message(EnrichmentMessage::ReplacePrefetchQueue(vec![
        artist("three"),
        artist("two"),
    ]));
    assert_eq!(
        manager.next_step(0),
        NextStep::Process(artist("three"), LibraryEnrichmentAttemptKind::VisiblePrefetch)
    );
    assert_eq!(
        manager.next_step(0),
        NextStep::Process(artist("two"), LibraryEnrichmentAttemptKind::VisiblePrefetch)
    );
    assert_eq!(manager.next_step(0), NextStep::Await);
}

fn rate_limited(name: &str) -> FetchOutcome {
    LibraryEnrichmentManager::build_error_outcome(
        &artist(name),
        EnrichmentSource::TheAudioDB,
        String::new(),
        LibraryEnrichmentManager::slot_refused(),
    )
}

#[test]
fn rate_limited_prefetches_come_back_later() {
    let mut manager = online();
    let kind = LibraryEnrichmentAttemptKind::VisiblePrefetch;
    assert_eq!(
        manager.open_request(&artist("one"), kind),
        RequestStart::ReadCache
    );
    assert_eq!(
        manager.cache_read(&artist("one"), kind, None, true),
        CacheVerdict::Fetch
    );
    assert_eq!(
        manager.close_request(artist("one"), kind, rate_limited("one"), 5, 1000),
        RequestEnd::Requeued
    );
    assert_eq!(manager.next_step(2999), NextStep::Poll);
    assert_eq!(
        manager.next_step(3000),
        NextStep::Process(artist("one"), kind)
    );
}

#[test]
fn detail_outcomes_are_stored() {
    let mut manager = online();
    let kind = LibraryEnrichmentAttemptKind::Detail;
    assert_eq!(
        manager.cache_read(&artist("one"), kind, None, true),
        CacheVerdict::Fetch
    );
    let end = manager.close_request(artist("one"), kind, rate_limited("one"), 5, 1000);
    let RequestEnd::Store {
        outcome,
        expires_unix_ms,
    } = end
    else {
        panic!("a detail outcome is stored");
    };
    assert_eq!(outcome.payload.attempt_kind, kind);
    assert_eq!(
        outcome.payload.error_kind,
        Some(LibraryEnrichmentErrorKind::RateLimited)
    );
    assert_eq!(expires_unix_ms, 6);
}

#[test]
fn requests_under_way_can_be_raised() {
    let mut manager = online();
    let kind = LibraryEnrichmentAttemptKind::VisiblePrefetch;
    let _ = manager.cache_read(&artist("one"), kind, None, true);
    ask(&mut manager, "one", LibraryEnrichmentPriority::Interactive);
    assert_eq!(
        manager.effective_attempt_for_entity(&artist("one"), kind),
        LibraryEnrichmentAttemptKind::Detail
    );
    assert_eq!(manager.next_step(0), NextStep::Await);
}

#[test]
fn the_rate_limit_is_waited_for_by_details_only() {
    let detail = LibraryEnrichmentAttemptKind::Detail;
    let visible = LibraryEnrichmentAttemptKind::VisiblePrefetch;
    assert_eq!(
        LibraryEnrichmentManager::slot_step(true, visible, 0),
        SlotStep::Go
    );
    assert_eq!(
        LibraryEnrichmentManager::slot_step(false, visible, 0),
        SlotStep::GiveUp
    );
    assert_eq!(
        LibraryEnrichmentManager::slot_step(false, detail, 799),
        SlotStep::Wait
    );
    assert_eq!(
        LibraryEnrichmentManager::slot_step(false, detail, 800),
        SlotStep::GiveUp
    );
    assert_eq!(
        LibraryEnrichmentManager::slot_refused(),
        "rate_limit:TheAudioDB rate limit saturated"
    );
}

#[test]
fn failures_carry_their_kind() {
    assert_eq!(
        LibraryEnrichmentManager::fetch_failure(
            FetchPhase::Request,
            HttpFailureKind::Timeout,
            "x"
        ),
        "timeout:Request failed: x"
    );
    assert_eq!(
        LibraryEnrichmentManager::fetch_failure(FetchPhase::Response, HttpFailureKind::Hard, "x"),
        "hard:Failed to read response: x"
    );
    assert_eq!(
        LibraryEnrichmentManager::fetch_failure(
            FetchPhase::ImageRequest,
            HttpFailureKind::RateLimited,
            "x"
        ),
        "rate_limit:Image request failed: x"
    );
    assert_eq!(
        LibraryEnrichmentManager::fetch_failure(
            FetchPhase::ImageResponse,
            HttpFailureKind::Hard,
            "x"
        ),
        "hard:Image read failed: x"
    );
    assert_eq!(
        LibraryEnrichmentManager::empty_image_failure(&[]).as_deref(),
        Some("hard:Image response was empty")
    );
    assert_eq!(LibraryEnrichmentManager::empty_image_failure(&[1]), None);
    assert_eq!(
        LibraryEnrichmentManager::image_source_key(&artist("Band"), "https://i"),
        "artist:Band|https://i"
    );
    assert_eq!(
        LibraryEnrichmentManager::classify_status_failure(429),
        HttpFailureKind::RateLimited
    );
    assert_eq!(
        LibraryEnrichmentManager::classify_transport_failure("Timed Out"),
        HttpFailureKind::Timeout
    );
    assert!(LibraryEnrichmentManager::classify_io_timeout(true, ""));
    assert!(!LibraryEnrichmentManager::classify_io_timeout(false, "x"));
}

#[test]
fn timeouts_are_tried_again() {
    let prefetch = LibraryEnrichmentPriority::Prefetch;
    let interactive = LibraryEnrichmentPriority::Interactive;
    assert_eq!(
        LibraryEnrichmentManager::retries_after("timeout:x", 1, interactive),
        Some(320)
    );
    assert_eq!(
        LibraryEnrichmentManager::retries_after("timeout:x", 2, interactive),
        Some(640)
    );
    assert_eq!(
        LibraryEnrichmentManager::retries_after("timeout:x", 3, interactive),
        None
    );
    assert_eq!(
        LibraryEnrichmentManager::retries_after("timeout:x", 1, prefetch),
        Some(650)
    );
    assert_eq!(
        LibraryEnrichmentManager::retries_after("timeout:x", 2, prefetch),
        None
    );
    assert_eq!(
        LibraryEnrichmentManager::retries_after("hard:x", 1, interactive),
        None
    );
}

#[test]
fn outcomes_are_kept_for_a_while() {
    let manager = online();
    let found = |entity: &LibraryEnrichmentEntity, status| {
        LibraryEnrichmentManager::build_outcome(
            entity,
            status,
            String::new(),
            None,
            None,
            EnrichmentSource::Wikipedia,
            String::new(),
            None,
        )
    };
    let band = artist("Band");
    let record = LibraryEnrichmentEntity::Album {
        album: "Record".to_string(),
        album_artist: "Band".to_string(),
    };
    let day: i64 = 86_400_000;
    for (outcome, keep) in [
        (found(&band, LibraryEnrichmentStatus::Ready), 30 * day),
        (found(&record, LibraryEnrichmentStatus::Ready), 30 * day),
        (found(&band, LibraryEnrichmentStatus::NotFound), 7 * day),
        (found(&band, LibraryEnrichmentStatus::Disabled), 60_000),
    ] {
        assert_eq!(
            manager.cache_expiry_for_outcome_unix_ms(&outcome, 10),
            10 + keep
        );
    }
    let hard = LibraryEnrichmentManager::build_error_outcome(
        &band,
        EnrichmentSource::Wikipedia,
        String::new(),
        "hard:x".to_string(),
    );
    assert_eq!(
        manager.cache_expiry_for_outcome_unix_ms(&hard, 10),
        10 + 30 * 60_000
    );
    assert_eq!(
        manager.cache_expiry_for_outcome_unix_ms(&hard, i64::MAX),
        i64::MAX
    );
}

fn page(title: &str, description: &str, extract: &str) -> WikiSummary {
    WikiSummary {
        title: title.to_string(),
        description: description.to_string(),
        extract: extract.to_string(),
        canonical_url: "https://w/page".to_string(),
        image_url: Some("https://w/image.png".to_string()),
        page_type: "standard".to_string(),
        categories: vec!["Category:Electronic music duos".to_string()],
    }
}

#[test]
fn encyclopedia_lookups_take_a_direct_match() {
    let entity = artist("Sample Ensemble");
    let mut lookup =
        WikipediaLookup::start(&entity, LibraryEnrichmentAttemptKind::Detail).expect("looked up");
    let LookupAction::FetchSummary { title } = lookup.next(false) else {
        panic!("a direct title comes first");
    };
    assert_eq!(title, "Sample Ensemble");
    lookup.on_summary(Ok(page(
        "Sample Ensemble",
        "Electronic music duo",
        "Sample Ensemble are an electronic music duo.",
    )));
    let LookupAction::DownloadImage { url } = lookup.next(false) else {
        panic!("the image of an artist is asked for");
    };
    assert_eq!(url, "https://w/image.png");
    lookup.on_image(Some("/cache/x.png".to_string()));
    let LookupAction::Finish { outcome } = lookup.next(false) else {
        panic!("the lookup is done");
    };
    assert_eq!(outcome.payload.status, LibraryEnrichmentStatus::Ready);
    assert_eq!(
        outcome.payload.blurb,
        "Sample Ensemble are an electronic music duo."
    );
    assert_eq!(outcome.payload.source_name, "Wikipedia");
    assert_eq!(outcome.payload.source_url, "https://w/page");
    assert_eq!(outcome.payload.image_path.as_deref(), Some("/cache/x.png"));
}

#[test]
fn encyclopedia_lookups_end_without_a_match() {
    let entity = artist("Sample Ensemble");
    let mut lookup =
        WikipediaLookup::start(&entity, LibraryEnrichmentAttemptKind::Detail).expect("looked up");
    let mut outcome = None;
    for _ in 0..200 {
        match lookup.next(false) {
            LookupAction::FetchSummary { .. } => {
                lookup.on_summary(Err("not_found:missing".to_string()))
            }
            LookupAction::SearchTitles { .. } => lookup.on_titles(Ok(Vec::new())),
            LookupAction::DownloadImage { .. } => lookup.on_image(None),
            LookupAction::Finish { outcome: done } => {
                outcome = Some(done);
                break;
            }
        }
    }
    let outcome = outcome.expect("a lookup ends");
    assert_eq!(outcome.payload.status, LibraryEnrichmentStatus::NotFound);
    assert!(outcome.conclusive);

    let mut late =
        WikipediaLookup::start(&entity, LibraryEnrichmentAttemptKind::Detail).expect("looked up");
    let LookupAction::Finish { outcome } = late.next(true) else {
        panic!("no time is left");
    };
    assert_eq!(
        outcome.payload.error_kind,
        Some(LibraryEnrichmentErrorKind::BudgetExhausted)
    );
    assert!(WikipediaLookup::start(
        &artist("Band feat. Guest"),
        LibraryEnrichmentAttemptKind::VisiblePrefetch
    )
    .is_err());
}

#[test]
fn music_database_lookups_take_the_best_record() {
    let entity = artist("Sample Group");
    let mut lookup =
        AudioDbLookup::start(&entity, LibraryEnrichmentAttemptKind::Detail).expect("looked up");
    assert_eq!(lookup.endpoint(), "search.php");
    let AudioDbAction::Request { params } = lookup.next(false) else {
        panic!("the artist is searched for");
    };
    assert_eq!(params[0].1, "Sample Group");
    let url = audiodb_request_url(lookup.endpoint(), &params);
    assert!(url.contains("search.php?s=Sample%20Group"), "{}", url);
    let reply = LibraryEnrichmentManager::parse_audiodb_payload(
        "search.php",
        "{\"artists\":[{\"strArtist\":\"Sample Group\",\"strBiographyEN\":\"Sample Group is an electronic music duo.\",\"strGenre\":\"Electronic\",\"idArtist\":\"7\"}]}",
    );
    lookup.on_reply(reply, &url);
    let mut outcome = None;
    for _ in 0..20 {
        match lookup.next(false) {
            AudioDbAction::Request { .. } => {
                let reply = LibraryEnrichmentManager::parse_audiodb_payload("search.php", "");
                lookup.on_reply(reply, "https://again");
            }
            AudioDbAction::DownloadImage { .. } => lookup.on_image(None),
            AudioDbAction::Finish { outcome: done } => {
                outcome = Some(done);
                break;
            }
        }
    }
    let outcome = outcome.expect("a lookup ends");
    assert_eq!(outcome.payload.status, LibraryEnrichmentStatus::Ready);
    assert_eq!(
        outcome.payload.blurb,
        "Sample Group is an electronic music duo."
    );
    assert_eq!(
        outcome.payload.source_url,
        "https://www.theaudiodb.com/artist/7"
    );
    assert_eq!(outcome.payload.source_name, "TheAudioDB");
}

#[test]
fn both_sources_are_combined() {
    let entity = artist("Band");
    let absent = || {
        LibraryEnrichmentManager::build_not_found_outcome(
            &entity,
            EnrichmentSource::TheAudioDB,
            String::new(),
            None,
        )
    };
    let failure = || {
        LibraryEnrichmentManager::build_error_outcome(
            &entity,
            EnrichmentSource::Wikipedia,
            String::new(),
            "hard:x".to_string(),
        )
    };
    let kind = LibraryEnrichmentAttemptKind::Detail;
    let combined = LibraryEnrichmentManager::combine_outcomes(absent(), failure(), kind);
    assert_eq!(combined.payload.status, LibraryEnrichmentStatus::NotFound);
    assert_eq!(combined.payload.attempt_kind, kind);
    let combined = LibraryEnrichmentManager::combine_outcomes(failure(), failure(), kind);
    assert_eq!(combined.payload.status, LibraryEnrichmentStatus::Error);
    assert!(!LibraryEnrichmentManager::audiodb_settles(&absent(), kind));
}

#[test]
fn replies_are_read() {
    let titles = LibraryEnrichmentManager::titles_from_body(
        "{\"query\":{\"search\":[{\"title\":\"One\"},{\"title\":\"Two\"}]}}",
    );
    assert_eq!(titles, Ok(vec!["One".to_string(), "Two".to_string()]));
    assert!(LibraryEnrichmentManager::titles_from_body("{")
        .is_err_and(|text| text.starts_with("hard:Invalid JSON response: ")));
    let summary = LibraryEnrichmentManager::summary_from_body("{}", "Missing");
    assert!(summary.is_err());
    assert!(matches!(
        LibraryEnrichmentManager::empty_audiodb_payload("search.php").field("artists"),
        Some(Json::Array(items)) if items.is_empty()
    ));
    assert!(LibraryEnrichmentManager::parse_audiodb_payload("search.php", "[1,").is_ok());
}

#[test]
fn addresses_are_escaped() {
    let url = wikipedia_search_url(SearchKind::Title, "a & b");
    assert!(url.contains("a%20%26%20b"), "{}", url);
    let url = wikipedia_summary_url("AC/DC band");
    assert!(url.contains("AC%2FDC"), "{}", url);
}

#[test]
fn names_match_by_their_letters() {
    let mut known = Vec::new();
    LibraryEnrichmentManager::push_name_identity_variants(&mut known, "Sample Group");
    LibraryEnrichmentManager::push_name_identity_variants(&mut known, " sample  group ");
    LibraryEnrichmentManager::push_name_identity_variants(&mut known, " !! ");
    assert_eq!(known, vec!["sample group", "samplegroup"]);
    assert!(!LibraryEnrichmentManager::name_matches_identity_variants(
        "Other", &known
    ));
    assert!(!LibraryEnrichmentManager::name_matches_identity_variants(
        "--", &known
    ));
}

fn image(path: &str, size: u64, modified_ms: u64) -> CachedImage {
    CachedImage {
        path: path.to_string(),
        size,
        modified_ms,
    }
}

#[test]
fn the_oldest_images_are_removed_first() {
    let megabyte: u64 = 1_048_576;
    let files = vec![
        image("new", megabyte, 30),
        image("old", megabyte, 10),
        image("middle", megabyte, 20),
    ];
    let mut prune = ImagePrune::new(&files, 1);
    assert_eq!(prune.victim().as_deref(), Some("old"));
    prune.tried(false);
    assert_eq!(prune.victim().as_deref(), Some("middle"));
    prune.tried(true);
    assert_eq!(prune.victim().as_deref(), Some("new"));
    prune.tried(true);
    assert_eq!(prune.victim(), None);

    let mut prune = ImagePrune::new(&files, 0);
    prune.tried(true);
    prune.tried(true);
    assert_eq!(prune.victim(), None);
    assert_eq!(ImagePrune::new(&files, 3).victim(), None);
    let huge = vec![image("a", u64::MAX, 1), image("b", u64::MAX, 2)];
    assert_eq!(ImagePrune::new(&huge, 1).victim().as_deref(), Some("a"));
}
