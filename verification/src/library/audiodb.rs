//! The music database lookup of an artist or album, one decision at a time.

use crate::json::{Json, JsonView};
use crate::library::enrichment::LibraryEnrichmentManager;
use crate::library::matching::title_cased;
use crate::library::outcome::{
    failed, is_hard, is_rate_limit, is_timeout, not_found, ready, shortened, EnrichmentSource,
    FetchOutcome, OutcomeView, MAX_BLURB_CHARS, RETRY_REASON_BUDGET_PREFIX,
    RETRY_REASON_NOT_FOUND_PREFIX,
};
use crate::library::replies::{
    album_records, album_views, artist_records, artist_views, param_texts,
};
use crate::library::scoring::{
    album_record_score, artist_record_score, names_guests, AlbumCandidateView, ArtistCandidateView,
    AudioDbAlbumCandidate, AudioDbArtistCandidate,
};
use crate::library::titles::run_together;
use crate::protocol::{
    clone_option_text, EntityView, LibraryEnrichmentAttemptKind, LibraryEnrichmentEntity,
    LibraryEnrichmentStatus,
};
use crate::text::{
    append, blank, chars_equal, chars_of, collapse, has_part, is_blank, lower, lower_chars,
    option_text, owned, text_equal, text_has_part, texts,
};
use vstd::prelude::*;

verus! {

/// What a request is told that the rate limiter held back.
pub const THEAUDIODB_RATE_LIMIT_DEFERRED: &'static str = "TheAudioDB rate limit saturated";

/// A record taken for an artist or album.
#[derive(Debug, PartialEq, Eq)]
pub struct ChosenRecord {
    pub text: String,
    pub image_url: Option<String>,
    pub source_url: String,
}

/// The contents of a [`ChosenRecord`].
#[verifier::ext_equal]
pub struct ChosenView {
    pub text: Seq<char>,
    pub image_url: Option<Seq<char>>,
    pub source_url: Seq<char>,
}

impl View for ChosenRecord {
    type V = ChosenView;

    open spec fn view(&self) -> ChosenView {
        ChosenView {
            text: self.text@,
            image_url: option_text(self.image_url),
            source_url: self.source_url@,
        }
    }
}

/// A music database lookup under way.
#[derive(Debug)]
pub struct AudioDbLookup {
    pub entity: LibraryEnrichmentEntity,
    pub requests: Vec<Vec<(String, String)>>,
    pub request_at: usize,
    pub stopped: bool,
    pub saw_timeout: Option<String>,
    pub saw_hard_error: Option<String>,
    pub saw_rate_limit: Option<String>,
    pub saw_budget: bool,
    pub best: Option<(i32, ChosenRecord)>,
    pub seen_albums: Vec<String>,
    pub image_asked: bool,
    pub image_path: Option<String>,
}

/// What a lookup wants done next.
#[derive(Debug)]
pub enum AudioDbAction {
    Request { params: Vec<(String, String)> },
    DownloadImage { url: String },
    Finish { outcome: FetchOutcome },
}

/// The contents of an [`AudioDbAction`].
pub enum AudioDbActionView {
    Request { params: Seq<(Seq<char>, Seq<char>)> },
    DownloadImage { url: Seq<char> },
    Finish { outcome: OutcomeView },
}

impl View for AudioDbAction {
    type V = AudioDbActionView;

    open spec fn view(&self) -> AudioDbActionView {
        match self {
            AudioDbAction::Request { params } => AudioDbActionView::Request {
                params: param_texts(params@),
            },
            AudioDbAction::DownloadImage { url } => AudioDbActionView::DownloadImage { url: url@ },
            AudioDbAction::Finish { outcome } => AudioDbActionView::Finish { outcome: outcome@ },
        }
    }
}

pub open spec fn request_texts(v: Seq<Vec<(String, String)>>) -> Seq<Seq<(Seq<char>, Seq<char>)>> {
    v.map_values(|p: Vec<(String, String)>| param_texts(p@))
}

/// The contents of an [`AudioDbLookup`].
#[verifier::ext_equal]
pub struct AudioDbView {
    pub entity: EntityView,
    pub requests: Seq<Seq<(Seq<char>, Seq<char>)>>,
    pub request_at: nat,
    pub stopped: bool,
    pub saw_timeout: Option<Seq<char>>,
    pub saw_hard_error: Option<Seq<char>>,
    pub saw_rate_limit: Option<Seq<char>>,
    pub saw_budget: bool,
    pub best: Option<(int, ChosenView)>,
    pub seen_albums: Seq<Seq<char>>,
    pub image_asked: bool,
    pub image_path: Option<Seq<char>>,
}

impl View for AudioDbLookup {
    type V = AudioDbView;

    open spec fn view(&self) -> AudioDbView {
        AudioDbView {
            entity: self.entity@,
            requests: request_texts(self.requests@),
            request_at: self.request_at as nat,
            stopped: self.stopped,
            saw_timeout: option_text(self.saw_timeout),
            saw_hard_error: option_text(self.saw_hard_error),
            saw_rate_limit: option_text(self.saw_rate_limit),
            saw_budget: self.saw_budget,
            best: match self.best {
                Some((score, record)) => Some((score as int, record@)),
                None => None,
            },
            seen_albums: texts(self.seen_albums@),
            image_asked: self.image_asked,
            image_path: option_text(self.image_path),
        }
    }
}

/// Names with one more, unless it is blank or there already in some case.
pub open spec fn with_name(names: Seq<Seq<char>>, name: Seq<char>) -> Seq<Seq<char>> {
    if blank(name) || (exists|i: int|
        0 <= i < names.len() && lower(#[trigger] names[i]) == lower(name)) {
        names
    } else {
        names.push(name)
    }
}

/// The names under which an artist is asked for; a prefetch asks for one only.
pub open spec fn artist_names(
    artist: Seq<char>,
    kind: LibraryEnrichmentAttemptKind,
) -> Seq<Seq<char>> {
    let cleaned = collapse(artist);
    let first = with_name(Seq::empty(), cleaned);
    if kind == LibraryEnrichmentAttemptKind::Detail {
        with_name(with_name(first, title_cased(cleaned)), run_together(cleaned))
    } else {
        first
    }
}

pub open spec fn artist_request(name: Seq<char>) -> Seq<(Seq<char>, Seq<char>)> {
    seq![("s"@, name)]
}

/// The requests for an entity, in order.
pub open spec fn requests_for(
    entity: EntityView,
    kind: LibraryEnrichmentAttemptKind,
) -> Seq<Seq<(Seq<char>, Seq<char>)>> {
    match entity {
        EntityView::Artist { artist } => artist_names(artist, kind).map_values(
            |name: Seq<char>| artist_request(name),
        ),
        EntityView::Album { album, album_artist } => {
            let title = collapse(album);
            let by = collapse(album_artist);
            if by.len() == 0 {
                seq![seq![("a"@, title)]]
            } else {
                seq![seq![("s"@, by), ("a"@, title)], seq![("s"@, by)], seq![("a"@, title)]]
            }
        },
    }
}

pub open spec fn new_audiodb_lookup(
    entity: EntityView,
    kind: LibraryEnrichmentAttemptKind,
) -> AudioDbView {
    AudioDbView {
        entity,
        requests: requests_for(entity, kind),
        request_at: 0,
        stopped: false,
        saw_timeout: None,
        saw_hard_error: None,
        saw_rate_limit: None,
        saw_budget: false,
        best: None,
        seen_albums: Seq::empty(),
        image_asked: false,
        image_path: None,
    }
}

/// The answer of a lookup that asks nothing: a blank name, or a prefetch of an artist tag
/// that names guests.
pub open spec fn answered_at_once(
    entity: EntityView,
    kind: LibraryEnrichmentAttemptKind,
) -> Option<OutcomeView> {
    let source = EnrichmentSource::TheAudioDB;
    let cleaned = collapse(crate::library::scoring::entity_name(entity));
    if cleaned.len() == 0 {
        Some(not_found(entity, source, Seq::empty(), None))
    } else if entity is Artist && kind != LibraryEnrichmentAttemptKind::Detail && names_guests(
        cleaned,
    ) {
        Some(
            not_found(
                entity,
                source,
                Seq::empty(),
                Some(RETRY_REASON_NOT_FOUND_PREFIX@ + "noncanonical_artist_tag"@),
            ),
        )
    } else {
        None
    }
}

/// The better of two scored records; the earlier one where they are equal.
pub open spec fn better(
    best: Option<(int, ChosenView)>,
    score: int,
    record: ChosenView,
) -> Option<(int, ChosenView)> {
    if best is None || score > best->Some_0.0 {
        Some((score, record))
    } else {
        best
    }
}

pub open spec fn best_artist(
    best: Option<(int, ChosenView)>,
    artist: Seq<char>,
    records: Seq<ArtistCandidateView>,
) -> Option<(int, ChosenView)>
    decreases records.len(),
{
    if records.len() == 0 {
        best
    } else {
        let record = records.last();
        better(
            best_artist(best, artist, records.drop_last()),
            artist_record_score(artist, record),
            ChosenView {
                text: record.biography,
                image_url: record.image_url,
                source_url: record.source_url,
            },
        )
    }
}

/// The text by which an album record is known again.
pub open spec fn album_key(record: AlbumCandidateView) -> Seq<char> {
    record.source_url + seq!['\u{1f}'] + record.album + seq!['\u{1f}'] + record.artist
}

/// One album record looked at: a record seen before changes nothing.
pub open spec fn album_step(
    state: (Option<(int, ChosenView)>, Seq<Seq<char>>),
    album: Seq<char>,
    album_artist: Seq<char>,
    record: AlbumCandidateView,
) -> (Option<(int, ChosenView)>, Seq<Seq<char>>) {
    if state.1.contains(album_key(record)) {
        state
    } else {
        (
            better(
                state.0,
                album_record_score(album, album_artist, record),
                ChosenView {
                    text: record.description,
                    image_url: None,
                    source_url: record.source_url,
                },
            ),
            state.1.push(album_key(record)),
        )
    }
}

pub open spec fn best_album(
    state: (Option<(int, ChosenView)>, Seq<Seq<char>>),
    album: Seq<char>,
    album_artist: Seq<char>,
    records: Seq<AlbumCandidateView>,
) -> (Option<(int, ChosenView)>, Seq<Seq<char>>)
    decreases records.len(),
{
    if records.len() == 0 {
        state
    } else {
        album_step(
            best_album(state, album, album_artist, records.drop_last()),
            album,
            album_artist,
            records.last(),
        )
    }
}

pub open spec fn least_record_score(entity: EntityView) -> int {
    if entity is Artist {
        96
    } else {
        90
    }
}

pub open spec fn record_blurb(record: ChosenView) -> Seq<char> {
    shortened(record.text, MAX_BLURB_CHARS as nat)
}

pub open spec fn budget_text(entity: EntityView) -> Seq<char> {
    if entity is Artist {
        "TheAudioDB artist budget exhausted"@
    } else {
        "TheAudioDB album budget exhausted"@
    }
}

impl AudioDbView {
    /// The outcome without a record: out of time, else a rate limit, else a timeout, else a
    /// hard error, else absence.
    pub open spec fn without_record(self) -> OutcomeView {
        let source = EnrichmentSource::TheAudioDB;
        if self.saw_budget {
            failed(
                self.entity,
                source,
                Seq::empty(),
                RETRY_REASON_BUDGET_PREFIX@ + budget_text(self.entity),
            )
        } else if self.saw_rate_limit is Some {
            failed(self.entity, source, Seq::empty(), self.saw_rate_limit->Some_0)
        } else if self.saw_timeout is Some {
            failed(self.entity, source, Seq::empty(), self.saw_timeout->Some_0)
        } else if self.saw_hard_error is Some {
            failed(self.entity, source, Seq::empty(), self.saw_hard_error->Some_0)
        } else {
            not_found(self.entity, source, Seq::empty(), None)
        }
    }

    /// With every request made: the best record, if it is good enough and has a blurb.
    pub open spec fn concluded(self) -> (AudioDbView, AudioDbActionView) {
        let source = EnrichmentSource::TheAudioDB;
        match self.best {
            None => (self, AudioDbActionView::Finish { outcome: self.without_record() }),
            Some((score, record)) => {
                if score < least_record_score(self.entity) || blank(record_blurb(record)) {
                    (
                        self,
                        AudioDbActionView::Finish {
                            outcome: not_found(self.entity, source, record.source_url, None),
                        },
                    )
                } else if record.image_url is Some && !self.image_asked {
                    (
                        AudioDbView { image_asked: true, ..self },
                        AudioDbActionView::DownloadImage { url: record.image_url->Some_0 },
                    )
                } else {
                    (
                        self,
                        AudioDbActionView::Finish {
                            outcome: ready(
                                self.entity,
                                record_blurb(record),
                                self.image_path,
                                record.image_url,
                                source,
                                record.source_url,
                            ),
                        },
                    )
                }
            },
        }
    }

    /// What is done next; `budget_exceeded` tells whether the lookup has used up its time.
    pub open spec fn next(self, budget_exceeded: bool) -> (AudioDbView, AudioDbActionView) {
        if self.stopped || self.request_at >= self.requests.len() {
            self.concluded()
        } else if budget_exceeded {
            AudioDbView { saw_budget: true, stopped: true, ..self }.concluded()
        } else {
            (
                AudioDbView { request_at: self.request_at + 1, ..self },
                AudioDbActionView::Request { params: self.requests[self.request_at as int] },
            )
        }
    }

    /// What a reply makes of the lookup. A rate limit ends the requests.
    pub open spec fn told(self, reply: Result<JsonView, Seq<char>>, url: Seq<char>) -> AudioDbView {
        match reply {
            Err(reason) => {
                if is_rate_limit(reason) || has_part(reason, THEAUDIODB_RATE_LIMIT_DEFERRED@) {
                    AudioDbView { saw_rate_limit: Some(reason), stopped: true, ..self }
                } else if is_timeout(reason) {
                    AudioDbView { saw_timeout: Some(reason), ..self }
                } else if is_hard(reason) {
                    AudioDbView { saw_hard_error: Some(reason), ..self }
                } else {
                    self
                }
            },
            Ok(value) => match self.entity {
                EntityView::Artist { artist } => AudioDbView {
                    best: best_artist(self.best, artist, artist_records(value, url)),
                    ..self
                },
                EntityView::Album { album, album_artist } => {
                    let (best, seen) = best_album(
                        (self.best, self.seen_albums),
                        album,
                        album_artist,
                        album_records(value, url),
                    );
                    AudioDbView { best, seen_albums: seen, ..self }
                },
            },
        }
    }
}

fn push_name(names: &mut Vec<String>, name: String)
    ensures
        texts(final(names)@) == with_name(texts(old(names)@), name@),
{
    if is_blank(&name) {
        return;
    }
    let low = lower_chars(&chars_of(&name));
    let mut i: usize = 0;
    while i < names.len()
        invariant
            i <= names.len(),
            names@ == old(names)@,
            low@ == lower(name@),
            !blank(name@),
            forall|k: int| 0 <= k < i ==> lower(#[trigger] texts(names@)[k]) != lower(name@),
        decreases names.len() - i,
    {
        assert(texts(names@)[i as int] == names@[i as int]@);
        if chars_equal(&lower_chars(&chars_of(&names[i])), &low) {
            return;
        }
        i += 1;
    }
    assert(texts(names@.push(name)) =~= texts(names@).push(name@));
    names.push(name);
}

fn one_param(key: &str, value: &str) -> (r: Vec<(String, String)>)
    ensures
        param_texts(r@) == seq![(key@, value@)],
{
    let mut r: Vec<(String, String)> = Vec::new();
    r.push((owned(key), owned(value)));
    assert(param_texts(r@) =~= seq![(key@, value@)]);
    r
}

fn requests_of(
    entity: &LibraryEnrichmentEntity,
    kind: LibraryEnrichmentAttemptKind,
) -> (r: Vec<Vec<(String, String)>>)
    ensures
        request_texts(r@) == requests_for(entity@, kind),
{
    let mut out: Vec<Vec<(String, String)>> = Vec::new();
    match entity {
        LibraryEnrichmentEntity::Artist { artist } => {
            let cleaned = LibraryEnrichmentManager::collapse_whitespace(artist);
            let mut names: Vec<String> = Vec::new();
            assert(texts(names@) =~= Seq::empty());
            push_name(&mut names, owned(&cleaned));
            if kind == LibraryEnrichmentAttemptKind::Detail {
                push_name(&mut names, LibraryEnrichmentManager::title_case_words(&cleaned));
                let short = crate::text::string_of(
                    &crate::text::chars_without(
                        &crate::library::matching::normalize_chars(&chars_of(&cleaned)),
                        ' ',
                    ),
                );
                push_name(&mut names, short);
            }
            let mut i: usize = 0;
            while i < names.len()
                invariant
                    i <= names.len(),
                    out.len() == i,
                    forall|k: int|
                        0 <= k < i ==> param_texts(#[trigger] out@[k]@) == artist_request(
                            names@[k]@,
                        ),
                decreases names.len() - i,
            {
                out.push(one_param("s", &names[i]));
                i += 1;
            }
            proof {
                let target = artist_names(artist@, kind).map_values(
                    |name: Seq<char>| artist_request(name),
                );
                assert(texts(names@) == artist_names(artist@, kind));
                assert forall|k: int| 0 <= k < out.len() implies #[trigger] request_texts(out@)[k]
                    == target[k] by {
                    assert(texts(names@)[k] == names@[k]@);
                    assert(param_texts(out@[k]@) == artist_request(names@[k]@));
                }
                assert(request_texts(out@) =~= target);
            }
        },
        LibraryEnrichmentEntity::Album { album, album_artist } => {
            let title = LibraryEnrichmentManager::collapse_whitespace(album);
            let by = LibraryEnrichmentManager::collapse_whitespace(album_artist);
            if !by.as_str().is_empty() {
                let mut both = one_param("s", &by);
                let second = (owned("a"), owned(&title));
                assert(param_texts(both@.push(second)) =~= param_texts(both@).push(
                    ("a"@, title@),
                ));
                both.push(second);
                assert(param_texts(both@) =~= seq![("s"@, by@), ("a"@, title@)]);
                out.push(both);
                out.push(one_param("s", &by));
            }
            out.push(one_param("a", &title));
            assert(request_texts(out@) =~= requests_for(entity@, kind));
        },
    }
    out
}

impl AudioDbLookup {
    /// Starts a lookup, or answers it at once.
    pub fn start(
        entity: &LibraryEnrichmentEntity,
        attempt_kind: LibraryEnrichmentAttemptKind,
    ) -> (r: Result<AudioDbLookup, FetchOutcome>)
        ensures
            match r {
                Ok(lookup) => answered_at_once(entity@, attempt_kind) is None && lookup@
                    == new_audiodb_lookup(entity@, attempt_kind),
                Err(outcome) => answered_at_once(entity@, attempt_kind) == Some(outcome@),
            },
    {
        let cleaned = match entity {
            LibraryEnrichmentEntity::Artist { artist } => {
                LibraryEnrichmentManager::collapse_whitespace(artist)
            },
            LibraryEnrichmentEntity::Album { album, .. } => {
                LibraryEnrichmentManager::collapse_whitespace(album)
            },
        };
        let source = EnrichmentSource::TheAudioDB;
        if cleaned.as_str().is_empty() {
            return Err(
                LibraryEnrichmentManager::build_not_found_outcome(
                    entity,
                    source,
                    String::new(),
                    None,
                ),
            );
        }
        if attempt_kind != LibraryEnrichmentAttemptKind::Detail {
            if let LibraryEnrichmentEntity::Artist { .. } = entity {
                if LibraryEnrichmentManager::looks_like_noncanonical_artist_name(&cleaned) {
                    let reason = LibraryEnrichmentManager::build_not_found_reason(
                        "noncanonical_artist_tag",
                    );
                    return Err(
                        LibraryEnrichmentManager::build_not_found_outcome(
                            entity,
                            source,
                            String::new(),
                            Some(reason),
                        ),
                    );
                }
            }
        }
        let lookup = AudioDbLookup {
            entity: entity.clone(),
            requests: requests_of(entity, attempt_kind),
            request_at: 0,
            stopped: false,
            saw_timeout: None,
            saw_hard_error: None,
            saw_rate_limit: None,
            saw_budget: false,
            best: None,
            seen_albums: Vec::new(),
            image_asked: false,
            image_path: None,
        };
        assert(lookup@ =~= new_audiodb_lookup(entity@, attempt_kind));
        Ok(lookup)
    }

    fn is_artist(&self) -> (r: bool)
        ensures
            r == self@.entity is Artist,
    {
        match &self.entity {
            LibraryEnrichmentEntity::Artist { .. } => true,
            LibraryEnrichmentEntity::Album { .. } => false,
        }
    }

    /// The page of the database that answers the requests.
    pub fn endpoint(&self) -> (r: &'static str)
        ensures
            r@ == (if self@.entity is Artist {
                "search.php"@
            } else {
                "searchalbum.php"@
            }),
    {
        if self.is_artist() {
            "search.php"
        } else {
            "searchalbum.php"
        }
    }

    fn fail(&self, reason: &String) -> (r: FetchOutcome)
        ensures
            r@ == failed(self@.entity, EnrichmentSource::TheAudioDB, Seq::empty(), reason@),
    {
        LibraryEnrichmentManager::build_error_outcome(
            &self.entity,
            EnrichmentSource::TheAudioDB,
            String::new(),
            reason.clone(),
        )
    }

    fn finish_without_record(&self) -> (r: FetchOutcome)
        ensures
            r@ == self@.without_record(),
    {
        if self.saw_budget {
            let text = if self.is_artist() {
                "TheAudioDB artist budget exhausted"
            } else {
                "TheAudioDB album budget exhausted"
            };
            let reason = LibraryEnrichmentManager::build_budget_reason(text);
            return self.fail(&reason);
        }
        if let Some(reason) = &self.saw_rate_limit {
            return self.fail(reason);
        }
        if let Some(reason) = &self.saw_timeout {
            return self.fail(reason);
        }
        if let Some(reason) = &self.saw_hard_error {
            return self.fail(reason);
        }
        LibraryEnrichmentManager::build_not_found_outcome(
            &self.entity,
            EnrichmentSource::TheAudioDB,
            String::new(),
            None,
        )
    }

    fn conclude(&mut self) -> (r: AudioDbAction)
        ensures
            (final(self)@, r@) == old(self)@.concluded(),
    {
        let ghost before = self@;
        let least: i32 = if self.is_artist() {
            96
        } else {
            90
        };
        match &self.best {
            None => AudioDbAction::Finish { outcome: self.finish_without_record() },
            Some((score, record)) => {
                let blurb = LibraryEnrichmentManager::truncate_blurb(&record.text, MAX_BLURB_CHARS);
                if *score < least || is_blank(&blurb) {
                    return AudioDbAction::Finish {
                        outcome: LibraryEnrichmentManager::build_not_found_outcome(
                            &self.entity,
                            EnrichmentSource::TheAudioDB,
                            record.source_url.clone(),
                            None,
                        ),
                    };
                }
                if !self.image_asked {
                    if let Some(url) = &record.image_url {
                        let url = url.clone();
                        self.image_asked = true;
                        assert(self@ =~= (AudioDbView { image_asked: true, ..before }));
                        return AudioDbAction::DownloadImage { url };
                    }
                }
                AudioDbAction::Finish {
                    outcome: LibraryEnrichmentManager::build_outcome(
                        &self.entity,
                        LibraryEnrichmentStatus::Ready,
                        blurb,
                        clone_option_text(&self.image_path),
                        clone_option_text(&record.image_url),
                        EnrichmentSource::TheAudioDB,
                        record.source_url.clone(),
                        None,
                    ),
                }
            },
        }
    }

    /// The next step of the lookup.
    pub fn next(&mut self, budget_exceeded: bool) -> (r: AudioDbAction)
        ensures
            (final(self)@, r@) == old(self)@.next(budget_exceeded),
    {
        let ghost before = self@;
        if self.stopped || self.request_at >= self.requests.len() {
            return self.conclude();
        }
        if budget_exceeded {
            self.saw_budget = true;
            self.stopped = true;
            assert(self@ =~= (AudioDbView { saw_budget: true, stopped: true, ..before }));
            return self.conclude();
        }
        let at: usize = self.request_at;
        let params = clone_params(&self.requests[at]);
        assert(before.requests[at as int] == param_texts(self.requests@[at as int]@));
        self.request_at = at + 1;
        assert(self@ =~= (AudioDbView { request_at: before.request_at + 1, ..before }));
        AudioDbAction::Request { params }
    }

    fn offer(&mut self, score: i32, record: ChosenRecord)
        ensures
            final(self)@ == (AudioDbView {
                best: better(old(self)@.best, score as int, record@),
                ..old(self)@
            }),
    {
        let replace = match &self.best {
            None => true,
            Some((best_score, _)) => score > *best_score,
        };
        if replace {
            self.best = Some((score, record));
        }
    }

    fn offer_artists(&mut self, artist: &str, records: Vec<AudioDbArtistCandidate>)
        ensures
            final(self)@ == (AudioDbView {
                best: best_artist(old(self)@.best, artist@, artist_views(records@)),
                ..old(self)@
            }),
    {
        let ghost all = artist_views(records@);
        let mut i: usize = 0;
        while i < records.len()
            invariant
                i <= records.len(),
                all == artist_views(records@),
                self@ == (AudioDbView {
                    best: best_artist(old(self)@.best, artist@, all.take(i as int)),
                    ..old(self)@
                }),
            decreases records.len() - i,
        {
            let record = &records[i];
            proof {
                assert(all.take(i + 1).drop_last() =~= all.take(i as int));
                assert(all.take(i + 1).last() == record@);
            }
            let score: i32 = LibraryEnrichmentManager::score_audiodb_artist_candidate(
                artist,
                record,
            );
            self.offer(
                score,
                ChosenRecord {
                    text: record.biography.clone(),
                    image_url: clone_option_text(&record.image_url),
                    source_url: record.source_url.clone(),
                },
            );
            i += 1;
        }
        assert(all.take(records.len() as int) =~= all);
    }

    fn album_seen(&self, key: &str) -> (r: bool)
        ensures
            r == self@.seen_albums.contains(key@),
    {
        let mut i: usize = 0;
        while i < self.seen_albums.len()
            invariant
                i <= self.seen_albums.len(),
                forall|k: int| 0 <= k < i ==> #[trigger] self@.seen_albums[k] != key@,
            decreases self.seen_albums.len() - i,
        {
            assert(self@.seen_albums[i as int] == self.seen_albums@[i as int]@);
            if text_equal(&self.seen_albums[i], key) {
                return true;
            }
            i += 1;
        }
        false
    }

    fn offer_albums(&mut self, album: &str, album_artist: &str, records: Vec<AudioDbAlbumCandidate>)
        ensures
            final(self)@ == ({
                let (best, seen) = best_album(
                    (old(self)@.best, old(self)@.seen_albums),
                    album@,
                    album_artist@,
                    album_views(records@),
                );
                AudioDbView { best, seen_albums: seen, ..old(self)@ }
            }),
    {
        let ghost all = album_views(records@);
        let ghost start = (self@.best, self@.seen_albums);
        let mut i: usize = 0;
        while i < records.len()
            invariant
                i <= records.len(),
                all == album_views(records@),
                start == (old(self)@.best, old(self)@.seen_albums),
                self@ == (AudioDbView {
                    best: best_album(start, album@, album_artist@, all.take(i as int)).0,
                    seen_albums: best_album(start, album@, album_artist@, all.take(i as int)).1,
                    ..old(self)@
                }),
            decreases records.len() - i,
        {
            let record = &records[i];
            let ghost before = self@;
            proof {
                assert(all.take(i + 1).drop_last() =~= all.take(i as int));
                assert(all.take(i + 1).last() == record@);
            }
            let mut key = record.source_url.clone();
            key.push('\u{1f}');
            append(&mut key, &record.album);
            key.push('\u{1f}');
            append(&mut key, &record.artist);
            assert(key@ =~= album_key(record@));
            if !self.album_seen(&key) {
                let score: i32 = LibraryEnrichmentManager::score_audiodb_album_candidate(
                    album,
                    album_artist,
                    record,
                );
                assert(texts(self.seen_albums@.push(key)) =~= texts(self.seen_albums@).push(key@));
                self.seen_albums.push(key);
                assert(self@ =~= (AudioDbView {
                    seen_albums: before.seen_albums.push(key@),
                    ..before
                }));
                self.offer(
                    score,
                    ChosenRecord {
                        text: record.description.clone(),
                        image_url: None,
                        source_url: record.source_url.clone(),
                    },
                );
            }
            i += 1;
        }
        assert(all.take(records.len() as int) =~= all);
    }

    /// Takes the reply to a request that went to `request_url`.
    pub fn on_reply(&mut self, reply: Result<Json, String>, request_url: &str)
        ensures
            final(self)@ == old(self)@.told(
                match reply {
                    Ok(value) => Ok(value.tree()),
                    Err(reason) => Err(reason@),
                },
                request_url@,
            ),
    {
        let ghost before = self@;
        match reply {
            Err(reason) => {
                if LibraryEnrichmentManager::is_rate_limit_reason(&reason) || text_has_part(
                    &reason,
                    THEAUDIODB_RATE_LIMIT_DEFERRED,
                ) {
                    self.saw_rate_limit = Some(reason);
                    self.stopped = true;
                } else if LibraryEnrichmentManager::is_timeout_reason(&reason) {
                    self.saw_timeout = Some(reason);
                } else if LibraryEnrichmentManager::is_hard_reason(&reason) {
                    self.saw_hard_error = Some(reason);
                }
                assert(self@ =~= before.told(Err(reason@), request_url@));
            },
            Ok(value) => {
                let entity = self.entity.clone();
                match &entity {
                    LibraryEnrichmentEntity::Artist { artist } => {
                        let records = LibraryEnrichmentManager::extract_audiodb_artist_candidates(
                            &value,
                            request_url,
                        );
                        self.offer_artists(artist, records);
                    },
                    LibraryEnrichmentEntity::Album { album, album_artist } => {
                        let records = LibraryEnrichmentManager::extract_audiodb_album_candidates(
                            &value,
                            request_url,
                        );
                        self.offer_albums(album, album_artist, records);
                    },
                }
            },
        }
    }

    /// Takes the path of a downloaded image, or none where the download failed.
    pub fn on_image(&mut self, image_path: Option<String>)
        ensures
            final(self)@ == (AudioDbView { image_path: option_text(image_path), ..old(self)@ }),
    {
        self.image_path = image_path;
    }
}

fn clone_params(params: &Vec<(String, String)>) -> (r: Vec<(String, String)>)
    ensures
        param_texts(r@) == param_texts(params@),
{
    let mut out: Vec<(String, String)> = Vec::new();
    let mut i: usize = 0;
    while i < params.len()
        invariant
            i <= params.len(),
            out.len() == i,
            forall|k: int|
                0 <= k < i ==> (#[trigger] out@[k]).0@ == params@[k].0@ && out@[k].1@
                    == params@[k].1@,
        decreases params.len() - i,
    {
        out.push((params[i].0.clone(), params[i].1.clone()));
        i += 1;
    }
    assert(param_texts(out@) =~= param_texts(params@));
    out
}

/// A rate limit ends the requests: what follows is the conclusion.
pub proof fn rate_limits_end_the_requests(
    s: AudioDbView,
    reason: Seq<char>,
    url: Seq<char>,
    budget_exceeded: bool,
)
    requires
        is_rate_limit(reason),
    ensures
        s.told(Err(reason), url).stopped,
        !(s.told(Err(reason), url).next(budget_exceeded).1 is Request),
{
}

/// A match is only reported with a record that reached its score and has a blurb.
pub proof fn records_must_reach_their_score(s: AudioDbView, budget_exceeded: bool)
    ensures
        s.next(budget_exceeded).1 matches AudioDbActionView::Finish { outcome } ==> (
        outcome.payload.status == LibraryEnrichmentStatus::Ready ==> s.best is Some
            && s.best->Some_0.0 >= least_record_score(s.entity) && !blank(outcome.payload.blurb)),
{
}

} // verus!
