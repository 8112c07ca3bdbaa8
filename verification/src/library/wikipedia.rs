//! The encyclopedia lookup of an artist or album, one decision at a time.
//!
//! The lookup tries the likely titles first. For a detail request it then searches for
//! titles, fetches the promising ones and takes the page with the best score.

use crate::library::enrichment::LibraryEnrichmentManager;
use crate::library::outcome::{
    failed, is_hard, is_timeout, not_found, ready, shortened, EnrichmentSource, FetchOutcome,
    OutcomeView, MAX_BLURB_CHARS, RETRY_REASON_BUDGET_PREFIX, RETRY_REASON_NOT_FOUND_PREFIX,
};
use crate::library::scoring::{
    album_score, artist_score, entity_name, names_guests, rejection, worth_fetching, SummaryView,
    WikiSummary,
};
use crate::library::titles::{
    direct_titles, idle_search, new_search, SearchKind, SearchView, TitleSearch,
};
use crate::protocol::{
    clone_option_text, EntityView, LibraryEnrichmentAttemptKind, LibraryEnrichmentEntity,
    LibraryEnrichmentStatus,
};
use crate::text::{blank, is_blank, option_text, texts};
use vstd::prelude::*;

verus! {

/// How many direct titles are fetched.
pub const MAX_DIRECT_FETCHES: usize = 6;

/// How many found titles are fetched.
pub const MAX_SUMMARY_FETCHES: usize = 10;

/// What a lookup is doing.
#[derive(Debug, Clone, Copy, PartialEq, Eq, Structural)]
pub enum LookupPhase {
    /// Fetching the likely titles.
    Direct,
    /// Searching for titles.
    Search,
    /// Fetching and scoring found titles.
    Scored,
    /// A page is chosen.
    Accepted,
}

/// An encyclopedia lookup under way.
#[derive(Debug)]
pub struct WikipediaLookup {
    pub entity: LibraryEnrichmentEntity,
    pub attempt_kind: LibraryEnrichmentAttemptKind,
    pub phase: LookupPhase,
    pub direct: Vec<String>,
    pub direct_at: usize,
    pub search: TitleSearch,
    pub titles: Vec<String>,
    pub title_at: usize,
    pub saw_timeout: Option<String>,
    pub saw_hard_error: Option<String>,
    pub saw_budget: bool,
    pub best: Option<(i32, WikiSummary)>,
    pub chosen: Option<WikiSummary>,
    pub image_asked: bool,
    pub image_path: Option<String>,
}

/// What a lookup wants done next.
#[derive(Debug)]
pub enum LookupAction {
    FetchSummary { title: String },
    SearchTitles { kind: SearchKind, query: String },
    DownloadImage { url: String },
    Finish { outcome: FetchOutcome },
}

/// The contents of a [`LookupAction`].
pub enum ActionView {
    FetchSummary { title: Seq<char> },
    SearchTitles { kind: SearchKind, query: Seq<char> },
    DownloadImage { url: Seq<char> },
    Finish { outcome: OutcomeView },
}

impl View for LookupAction {
    type V = ActionView;

    open spec fn view(&self) -> ActionView {
        match self {
            LookupAction::FetchSummary { title } => ActionView::FetchSummary { title: title@ },
            LookupAction::SearchTitles { kind, query } => ActionView::SearchTitles {
                kind: *kind,
                query: query@,
            },
            LookupAction::DownloadImage { url } => ActionView::DownloadImage { url: url@ },
            LookupAction::Finish { outcome } => ActionView::Finish { outcome: outcome@ },
        }
    }
}

/// The contents of a [`WikipediaLookup`].
#[verifier::ext_equal]
pub struct LookupView {
    pub entity: EntityView,
    pub attempt_kind: LibraryEnrichmentAttemptKind,
    pub phase: LookupPhase,
    pub direct: Seq<Seq<char>>,
    pub direct_at: nat,
    pub search: SearchView,
    pub titles: Seq<Seq<char>>,
    pub title_at: nat,
    pub saw_timeout: Option<Seq<char>>,
    pub saw_hard_error: Option<Seq<char>>,
    pub saw_budget: bool,
    pub best: Option<(int, SummaryView)>,
    pub chosen: Option<SummaryView>,
    pub image_asked: bool,
    pub image_path: Option<Seq<char>>,
}

impl View for WikipediaLookup {
    type V = LookupView;

    open spec fn view(&self) -> LookupView {
        LookupView {
            entity: self.entity@,
            attempt_kind: self.attempt_kind,
            phase: self.phase,
            direct: texts(self.direct@),
            direct_at: self.direct_at as nat,
            search: self.search@,
            titles: texts(self.titles@),
            title_at: self.title_at as nat,
            saw_timeout: option_text(self.saw_timeout),
            saw_hard_error: option_text(self.saw_hard_error),
            saw_budget: self.saw_budget,
            best: match self.best {
                Some((score, page)) => Some((score as int, page@)),
                None => None,
            },
            chosen: match self.chosen {
                Some(page) => Some(page@),
                None => None,
            },
            image_asked: self.image_asked,
            image_path: option_text(self.image_path),
        }
    }
}

/// The score of a page for an entity.
pub open spec fn page_score(entity: EntityView, page: SummaryView) -> int {
    match entity {
        EntityView::Artist { artist } => artist_score(artist, page),
        EntityView::Album { album, album_artist } => album_score(album, album_artist, page),
    }
}

/// The score that a page must reach.
pub open spec fn least_score(entity: EntityView) -> int {
    if entity is Artist {
        92
    } else {
        88
    }
}

/// The blurb of a page.
pub open spec fn page_blurb(page: SummaryView) -> Seq<char> {
    shortened(page.extract, MAX_BLURB_CHARS as nat)
}

/// A prefetch for an artist tag that names guests is not looked up.
pub open spec fn declined(entity: EntityView, kind: LibraryEnrichmentAttemptKind) -> bool {
    kind != LibraryEnrichmentAttemptKind::Detail && (entity matches EntityView::Artist { artist }
        && names_guests(artist))
}

pub open spec fn new_lookup(
    entity: EntityView,
    kind: LibraryEnrichmentAttemptKind,
) -> LookupView {
    LookupView {
        entity,
        attempt_kind: kind,
        phase: LookupPhase::Direct,
        direct: direct_titles(entity),
        direct_at: 0,
        search: idle_search(),
        titles: Seq::empty(),
        title_at: 0,
        saw_timeout: None,
        saw_hard_error: None,
        saw_budget: false,
        best: None,
        chosen: None,
        image_asked: false,
        image_path: None,
    }
}

impl LookupView {
    /// The outcome without a page: out of time, else a timeout, else a hard error, else absence.
    pub open spec fn without_page(self, budget_text: Seq<char>) -> OutcomeView {
        let source = EnrichmentSource::Wikipedia;
        if self.saw_budget {
            failed(self.entity, source, Seq::empty(), RETRY_REASON_BUDGET_PREFIX@ + budget_text)
        } else if self.saw_timeout is Some {
            failed(self.entity, source, Seq::empty(), self.saw_timeout->Some_0)
        } else if self.saw_hard_error is Some {
            failed(self.entity, source, Seq::empty(), self.saw_hard_error->Some_0)
        } else {
            not_found(self.entity, source, Seq::empty(), None)
        }
    }

    /// With a page chosen: its image is asked for once, for an artist, then the lookup is done.
    pub open spec fn accepted_next(self) -> (LookupView, ActionView) {
        let page = self.chosen->Some_0;
        if !self.image_asked && self.entity is Artist && page.image_url is Some {
            (
                LookupView { image_asked: true, ..self },
                ActionView::DownloadImage { url: page.image_url->Some_0 },
            )
        } else {
            (
                self,
                ActionView::Finish {
                    outcome: ready(
                        self.entity,
                        page_blurb(page),
                        self.image_path,
                        page.image_url,
                        EnrichmentSource::Wikipedia,
                        page.canonical_url,
                    ),
                },
            )
        }
    }

    /// With every title fetched: the best page, if it is good enough and has a blurb.
    pub open spec fn concluded(self) -> (LookupView, ActionView) {
        match self.best {
            None => (
                self,
                ActionView::Finish { outcome: self.without_page("Wikipedia lookup budget exhausted"@) },
            ),
            Some((score, page)) => {
                if score < least_score(self.entity) || blank(page_blurb(page)) {
                    (
                        self,
                        ActionView::Finish {
                            outcome: not_found(
                                self.entity,
                                EnrichmentSource::Wikipedia,
                                page.canonical_url,
                                None,
                            ),
                        },
                    )
                } else {
                    LookupView {
                        phase: LookupPhase::Accepted,
                        best: None,
                        chosen: Some(page),
                        ..self
                    }.accepted_next()
                }
            },
        }
    }

    /// How many of the found titles are looked at.
    pub open spec fn title_limit(self) -> nat {
        if self.titles.len() < MAX_SUMMARY_FETCHES {
            self.titles.len()
        } else {
            MAX_SUMMARY_FETCHES as nat
        }
    }

    /// The next found title worth fetching.
    pub open spec fn scored_next(self, budget_exceeded: bool) -> (LookupView, ActionView)
        decreases self.titles.len() - self.title_at,
    {
        if self.title_at >= self.title_limit() {
            self.concluded()
        } else if budget_exceeded {
            LookupView { saw_budget: true, ..self }.concluded()
        } else {
            let title = self.titles[self.title_at as int];
            let later = LookupView { title_at: self.title_at + 1, ..self };
            if worth_fetching(entity_name(self.entity), title) {
                (later, ActionView::FetchSummary { title })
            } else {
                later.scored_next(budget_exceeded)
            }
        }
    }

    /// The next search, or the found titles once the search is over.
    pub open spec fn search_next(self, budget_exceeded: bool) -> (LookupView, ActionView) {
        let (s, ask) = self.search.next(budget_exceeded);
        if ask is Some {
            (
                LookupView { search: s, ..self },
                ActionView::SearchTitles { kind: ask->Some_0.0, query: ask->Some_0.1 },
            )
        } else {
            let w = LookupView {
                search: SearchView { titles: Seq::empty(), ..s },
                phase: LookupPhase::Scored,
                titles: s.kept(),
                saw_budget: self.saw_budget || s.saw_budget,
                saw_timeout: if self.saw_timeout is None {
                    s.saw_timeout
                } else {
                    self.saw_timeout
                },
                saw_hard_error: if self.saw_hard_error is None {
                    s.saw_hard_error
                } else {
                    self.saw_hard_error
                },
                ..self
            };
            if w.titles.len() == 0 {
                (
                    w,
                    ActionView::Finish {
                        outcome: w.without_page("Wikipedia title discovery budget exhausted"@),
                    },
                )
            } else {
                w.scored_next(budget_exceeded)
            }
        }
    }

    /// The end of the direct titles: a detail request goes on to search.
    pub open spec fn after_direct(self, budget_exceeded: bool) -> (LookupView, ActionView) {
        if self.attempt_kind != LibraryEnrichmentAttemptKind::Detail {
            (
                self,
                ActionView::Finish {
                    outcome: self.without_page("Wikipedia direct lookup budget exhausted"@),
                },
            )
        } else {
            LookupView {
                phase: LookupPhase::Search,
                search: new_search(self.entity),
                ..self
            }.search_next(budget_exceeded)
        }
    }

    pub open spec fn direct_limit(self) -> nat {
        if self.direct.len() < MAX_DIRECT_FETCHES {
            self.direct.len()
        } else {
            MAX_DIRECT_FETCHES as nat
        }
    }

    /// What is done next; `budget_exceeded` tells whether the lookup has used up its time.
    pub open spec fn next(self, budget_exceeded: bool) -> (LookupView, ActionView) {
        match self.phase {
            LookupPhase::Direct => {
                if self.direct_at >= self.direct_limit() {
                    self.after_direct(budget_exceeded)
                } else if budget_exceeded {
                    LookupView { saw_budget: true, ..self }.after_direct(budget_exceeded)
                } else {
                    (
                        LookupView { direct_at: self.direct_at + 1, ..self },
                        ActionView::FetchSummary { title: self.direct[self.direct_at as int] },
                    )
                }
            },
            LookupPhase::Search => self.search_next(budget_exceeded),
            LookupPhase::Scored => self.scored_next(budget_exceeded),
            LookupPhase::Accepted => self.accepted_next(),
        }
    }

    /// What the summary of a page, or the failure to get it, makes of the lookup.
    pub open spec fn told_summary(self, reply: Result<SummaryView, Seq<char>>) -> LookupView {
        match reply {
            Err(reason) => {
                if is_timeout(reason) {
                    LookupView { saw_timeout: Some(reason), ..self }
                } else if is_hard(reason) {
                    LookupView { saw_hard_error: Some(reason), ..self }
                } else {
                    self
                }
            },
            Ok(page) => {
                if self.phase == LookupPhase::Direct {
                    if rejection(self.entity, page) is None && !blank(page_blurb(page)) {
                        LookupView {
                            phase: LookupPhase::Accepted,
                            chosen: Some(page),
                            ..self
                        }
                    } else {
                        self
                    }
                } else if self.phase == LookupPhase::Scored {
                    let score = page_score(self.entity, page);
                    if self.best is None || score > self.best->Some_0.0 {
                        LookupView { best: Some((score, page)), ..self }
                    } else {
                        self
                    }
                } else {
                    self
                }
            },
        }
    }

    /// An accepted page has a blurb, and found titles are looked at in order.
    pub open spec fn wf(self) -> bool {
        &&& self.phase == LookupPhase::Accepted ==> self.chosen is Some && !blank(
            page_blurb(self.chosen->Some_0),
        )
        &&& self.title_at <= self.titles.len()
        &&& self.phase == LookupPhase::Direct || self.phase == LookupPhase::Search
            ==> self.title_at == 0
    }
}

impl WikipediaLookup {
    /// Starts a lookup; a declined one is answered at once.
    pub fn start(
        entity: &LibraryEnrichmentEntity,
        attempt_kind: LibraryEnrichmentAttemptKind,
    ) -> (r: Result<WikipediaLookup, FetchOutcome>)
        ensures
            r is Err <==> declined(entity@, attempt_kind),
            r matches Ok(lookup) ==> lookup@ == new_lookup(entity@, attempt_kind) && lookup@.wf(),
            r matches Err(outcome) ==> outcome@ == not_found(
                entity@,
                EnrichmentSource::Wikipedia,
                Seq::empty(),
                Some(RETRY_REASON_NOT_FOUND_PREFIX@ + "noncanonical_artist_tag"@),
            ),
    {
        if attempt_kind != LibraryEnrichmentAttemptKind::Detail {
            if let LibraryEnrichmentEntity::Artist { artist } = entity {
                if LibraryEnrichmentManager::looks_like_noncanonical_artist_name(artist) {
                    let reason = LibraryEnrichmentManager::build_not_found_reason(
                        "noncanonical_artist_tag",
                    );
                    return Err(
                        LibraryEnrichmentManager::build_not_found_outcome(
                            entity,
                            EnrichmentSource::Wikipedia,
                            String::new(),
                            Some(reason),
                        ),
                    );
                }
            }
        }
        let lookup = WikipediaLookup {
            entity: entity.clone(),
            attempt_kind,
            phase: LookupPhase::Direct,
            direct: LibraryEnrichmentManager::direct_lookup_titles_for_entity(entity),
            direct_at: 0,
            search: TitleSearch::idle(),
            titles: Vec::new(),
            title_at: 0,
            saw_timeout: None,
            saw_hard_error: None,
            saw_budget: false,
            best: None,
            chosen: None,
            image_asked: false,
            image_path: None,
        };
        assert(lookup@ =~= new_lookup(entity@, attempt_kind));
        Ok(lookup)
    }

    fn finish_without_page(&self, budget_text: &str) -> (r: LookupAction)
        ensures
            r@ == (ActionView::Finish { outcome: self@.without_page(budget_text@) }),
    {
        let source = EnrichmentSource::Wikipedia;
        let outcome = if self.saw_budget {
            LibraryEnrichmentManager::build_error_outcome(
                &self.entity,
                source,
                String::new(),
                LibraryEnrichmentManager::build_budget_reason(budget_text),
            )
        } else {
            match &self.saw_timeout {
                Some(reason) => LibraryEnrichmentManager::build_error_outcome(
                    &self.entity,
                    source,
                    String::new(),
                    reason.clone(),
                ),
                None => match &self.saw_hard_error {
                    Some(reason) => LibraryEnrichmentManager::build_error_outcome(
                        &self.entity,
                        source,
                        String::new(),
                        reason.clone(),
                    ),
                    None => LibraryEnrichmentManager::build_not_found_outcome(
                        &self.entity,
                        source,
                        String::new(),
                        None,
                    ),
                },
            }
        };
        LookupAction::Finish { outcome }
    }

    fn is_artist(&self) -> (r: bool)
        ensures
            r == self@.entity is Artist,
    {
        match &self.entity {
            LibraryEnrichmentEntity::Artist { .. } => true,
            LibraryEnrichmentEntity::Album { .. } => false,
        }
    }

    fn next_accepted(&mut self) -> (r: LookupAction)
        requires
            old(self)@.chosen is Some,
        ensures
            (final(self)@, r@) == old(self)@.accepted_next(),
    {
        let ghost before = self@;
        let artist = self.is_artist();
        match &self.chosen {
            Some(page) => {
                if !self.image_asked && artist {
                    if let Some(url) = &page.image_url {
                        let url = url.clone();
                        self.image_asked = true;
                        assert(self@ =~= (LookupView { image_asked: true, ..before }));
                        return LookupAction::DownloadImage { url };
                    }
                }
                let blurb = LibraryEnrichmentManager::truncate_blurb(
                    &page.extract,
                    MAX_BLURB_CHARS,
                );
                let outcome = LibraryEnrichmentManager::build_outcome(
                    &self.entity,
                    LibraryEnrichmentStatus::Ready,
                    blurb,
                    clone_option_text(&self.image_path),
                    clone_option_text(&page.image_url),
                    EnrichmentSource::Wikipedia,
                    page.canonical_url.clone(),
                    None,
                );
                LookupAction::Finish { outcome }
            },
            None => self.finish_without_page(""),
        }
    }

    fn conclude(&mut self) -> (r: LookupAction)
        ensures
            (final(self)@, r@) == old(self)@.concluded(),
    {
        let ghost before = self@;
        let least: i32 = if self.is_artist() {
            92
        } else {
            88
        };
        match &self.best {
            None => {
                return self.finish_without_page("Wikipedia lookup budget exhausted");
            },
            Some((score, page)) => {
                let blurb = LibraryEnrichmentManager::truncate_blurb(
                    &page.extract,
                    MAX_BLURB_CHARS,
                );
                if *score < least || is_blank(&blurb) {
                    let outcome = LibraryEnrichmentManager::build_not_found_outcome(
                        &self.entity,
                        EnrichmentSource::Wikipedia,
                        page.canonical_url.clone(),
                        None,
                    );
                    return LookupAction::Finish { outcome };
                }
            },
        }
        let best = self.best.take();
        match best {
            Some((_, page)) => {
                self.chosen = Some(page);
            },
            None => {},
        }
        self.phase = LookupPhase::Accepted;
        assert(self@ =~= (LookupView {
            phase: LookupPhase::Accepted,
            best: None,
            chosen: Some(before.best->Some_0.1),
            ..before
        }));
        self.next_accepted()
    }

    fn next_scored(&mut self, budget_exceeded: bool) -> (r: LookupAction)
        requires
            old(self)@.title_at <= old(self)@.titles.len(),
        ensures
            (final(self)@, r@) == old(self)@.scored_next(budget_exceeded),
    {
        let ghost target = self@.scored_next(budget_exceeded);
        while self.title_at < self.titles.len() && self.title_at < MAX_SUMMARY_FETCHES
            invariant
                self@.scored_next(budget_exceeded) == target,
                target == old(self)@.scored_next(budget_exceeded),
                self@.title_at <= self@.titles.len(),
            decreases self.titles.len() - self.title_at,
        {
            let ghost before = self@;
            if budget_exceeded {
                self.saw_budget = true;
                assert(self@ =~= (LookupView { saw_budget: true, ..before }));
                return self.conclude();
            }
            let at: usize = self.title_at;
            assert(before.titles[at as int] == self.titles@[at as int]@);
            self.title_at = at + 1;
            assert(self@ =~= (LookupView { title_at: before.title_at + 1, ..before }));
            if LibraryEnrichmentManager::title_passes_entity_prefilter(
                &self.entity,
                &self.titles[at],
            ) {
                return LookupAction::FetchSummary { title: self.titles[at].clone() };
            }
        }
        self.conclude()
    }

    fn next_searched(&mut self, budget_exceeded: bool) -> (r: LookupAction)
        requires
            old(self)@.title_at == 0,
        ensures
            (final(self)@, r@) == old(self)@.search_next(budget_exceeded),
    {
        let ghost before = self@;
        match self.search.next_search(budget_exceeded) {
            Some((kind, query)) => {
                assert(self@ =~= (LookupView {
                    search: before.search.next(budget_exceeded).0,
                    ..before
                }));
                LookupAction::SearchTitles { kind, query }
            },
            None => {
                let ghost s = before.search.next(budget_exceeded).0;
                if self.search.saw_budget {
                    self.saw_budget = true;
                }
                if self.saw_timeout.is_none() {
                    self.saw_timeout = clone_option_text(&self.search.saw_timeout);
                }
                if self.saw_hard_error.is_none() {
                    self.saw_hard_error = clone_option_text(&self.search.saw_hard_error);
                }
                self.titles = self.search.take_titles();
                self.phase = LookupPhase::Scored;
                assert(self@ =~= (LookupView {
                    search: SearchView { titles: Seq::empty(), ..s },
                    phase: LookupPhase::Scored,
                    titles: s.kept(),
                    saw_budget: before.saw_budget || s.saw_budget,
                    saw_timeout: if before.saw_timeout is None {
                        s.saw_timeout
                    } else {
                        before.saw_timeout
                    },
                    saw_hard_error: if before.saw_hard_error is None {
                        s.saw_hard_error
                    } else {
                        before.saw_hard_error
                    },
                    ..before
                }));
                if self.titles.len() == 0 {
                    self.finish_without_page("Wikipedia title discovery budget exhausted")
                } else {
                    self.next_scored(budget_exceeded)
                }
            },
        }
    }

    fn next_after_direct(&mut self, budget_exceeded: bool) -> (r: LookupAction)
        requires
            old(self)@.title_at == 0,
        ensures
            (final(self)@, r@) == old(self)@.after_direct(budget_exceeded),
    {
        let ghost before = self@;
        if self.attempt_kind != LibraryEnrichmentAttemptKind::Detail {
            return self.finish_without_page("Wikipedia direct lookup budget exhausted");
        }
        self.phase = LookupPhase::Search;
        self.search = TitleSearch::candidate_titles_for_entity(&self.entity);
        assert(self@ =~= (LookupView {
            phase: LookupPhase::Search,
            search: new_search(before.entity),
            ..before
        }));
        self.next_searched(budget_exceeded)
    }

    /// The next step of the lookup.
    pub fn next(&mut self, budget_exceeded: bool) -> (r: LookupAction)
        requires
            old(self)@.wf(),
        ensures
            (final(self)@, r@) == old(self)@.next(budget_exceeded),
            final(self)@.wf(),
    {
        let ghost before = self@;
        proof {
            matches_have_a_blurb(before, budget_exceeded);
        }
        match self.phase {
            LookupPhase::Direct => {
                if self.direct_at >= self.direct.len() || self.direct_at >= MAX_DIRECT_FETCHES {
                    self.next_after_direct(budget_exceeded)
                } else if budget_exceeded {
                    self.saw_budget = true;
                    assert(self@ =~= (LookupView { saw_budget: true, ..before }));
                    self.next_after_direct(budget_exceeded)
                } else {
                    let at: usize = self.direct_at;
                    assert(before.direct[at as int] == self.direct@[at as int]@);
                    self.direct_at = at + 1;
                    assert(self@ =~= (LookupView { direct_at: before.direct_at + 1, ..before }));
                    LookupAction::FetchSummary { title: self.direct[at].clone() }
                }
            },
            LookupPhase::Search => self.next_searched(budget_exceeded),
            LookupPhase::Scored => self.next_scored(budget_exceeded),
            LookupPhase::Accepted => self.next_accepted(),
        }
    }

    /// Takes the reply to a fetch.
    pub fn on_summary(&mut self, reply: Result<WikiSummary, String>)
        requires
            old(self)@.wf(),
        ensures
            final(self)@ == old(self)@.told_summary(
                match reply {
                    Ok(page) => Ok(page@),
                    Err(reason) => Err(reason@),
                },
            ),
            final(self)@.wf(),
    {
        let ghost before = self@;
        match reply {
            Err(reason) => {
                if LibraryEnrichmentManager::is_timeout_reason(&reason) {
                    self.saw_timeout = Some(reason);
                } else if LibraryEnrichmentManager::is_hard_reason(&reason) {
                    self.saw_hard_error = Some(reason);
                }
                assert(self@ =~= before.told_summary(Err(reason@)));
            },
            Ok(page) => {
                match self.phase {
                    LookupPhase::Direct => {
                        let blurb = LibraryEnrichmentManager::truncate_blurb(
                            &page.extract,
                            MAX_BLURB_CHARS,
                        );
                        if LibraryEnrichmentManager::direct_summary_matches_entity(
                            &self.entity,
                            &page,
                        ) && !is_blank(&blurb) {
                            self.phase = LookupPhase::Accepted;
                            self.chosen = Some(page);
                        }
                    },
                    LookupPhase::Scored => {
                        let score: i32 = match &self.entity {
                            LibraryEnrichmentEntity::Artist { artist } => {
                                LibraryEnrichmentManager::score_artist_summary(artist, &page)
                            },
                            LibraryEnrichmentEntity::Album { album, album_artist } => {
                                LibraryEnrichmentManager::score_album_summary(
                                    album,
                                    album_artist,
                                    &page,
                                )
                            },
                        };
                        let better = match &self.best {
                            None => true,
                            Some((best_score, _)) => score > *best_score,
                        };
                        if better {
                            self.best = Some((score, page));
                        }
                    },
                    LookupPhase::Search => {},
                    LookupPhase::Accepted => {},
                }
                assert(self@ =~= before.told_summary(Ok(page@)));
            },
        }
    }

    /// Takes the reply to a search.
    pub fn on_titles(&mut self, reply: Result<Vec<String>, String>)
        requires
            old(self)@.wf(),
        ensures
            final(self)@ == (LookupView {
                search: old(self)@.search.told(
                    match reply {
                        Ok(found) => Ok(texts(found@)),
                        Err(reason) => Err(reason@),
                    },
                ),
                ..old(self)@
            }),
            final(self)@.wf(),
    {
        self.search.on_titles(reply);
    }

    /// Takes the path of a downloaded image, or none where the download failed.
    pub fn on_image(&mut self, image_path: Option<String>)
        requires
            old(self)@.wf(),
        ensures
            final(self)@ == (LookupView { image_path: option_text(image_path), ..old(self)@ }),
            final(self)@.wf(),
    {
        self.image_path = image_path;
    }
}

/// A prefetch never searches: it only tries the likely titles.
pub proof fn prefetch_never_searches(s: LookupView, budget_exceeded: bool)
    requires
        s.attempt_kind != LibraryEnrichmentAttemptKind::Detail,
        s.phase == LookupPhase::Direct || s.phase == LookupPhase::Accepted,
    ensures
        !(s.next(budget_exceeded).1 is SearchTitles),
        s.next(budget_exceeded).0.phase == s.phase,
{
}

/// A match is only reported with a blurb that is not blank.
pub proof fn matches_have_a_blurb(s: LookupView, budget_exceeded: bool)
    requires
        s.wf(),
    ensures
        s.next(budget_exceeded).0.wf(),
        s.next(budget_exceeded).1 matches ActionView::Finish { outcome } ==> (
        outcome.payload.status == LibraryEnrichmentStatus::Ready ==> !blank(outcome.payload.blurb)),
{
    match s.phase {
        LookupPhase::Direct => {
            if s.direct_at >= s.direct_limit() {
                lemma_after_direct(s, budget_exceeded);
            } else if budget_exceeded {
                lemma_after_direct(LookupView { saw_budget: true, ..s }, budget_exceeded);
            }
        },
        LookupPhase::Search => {
            lemma_search_next(s, budget_exceeded);
        },
        LookupPhase::Scored => {
            lemma_scored_next(s, budget_exceeded);
        },
        LookupPhase::Accepted => {},
    }
}

spec fn sound_step(r: (LookupView, ActionView)) -> bool {
    r.0.wf() && (r.1 matches ActionView::Finish { outcome } ==> (outcome.payload.status
        == LibraryEnrichmentStatus::Ready ==> !blank(outcome.payload.blurb)))
}

proof fn lemma_scored_next(s: LookupView, budget_exceeded: bool)
    requires
        s.phase == LookupPhase::Scored,
        s.title_at <= s.titles.len(),
    ensures
        sound_step(s.scored_next(budget_exceeded)),
    decreases s.titles.len() - s.title_at,
{
    if s.title_at < s.title_limit() && !budget_exceeded {
        let later = LookupView { title_at: s.title_at + 1, ..s };
        lemma_scored_next(later, budget_exceeded);
    }
}

proof fn lemma_search_next(s: LookupView, budget_exceeded: bool)
    requires
        s.phase == LookupPhase::Search,
        s.wf(),
    ensures
        sound_step(s.search_next(budget_exceeded)),
{
    let (q, ask) = s.search.next(budget_exceeded);
    if ask is None {
        let w = LookupView {
            search: SearchView { titles: Seq::empty(), ..q },
            phase: LookupPhase::Scored,
            titles: q.kept(),
            saw_budget: s.saw_budget || q.saw_budget,
            saw_timeout: if s.saw_timeout is None {
                q.saw_timeout
            } else {
                s.saw_timeout
            },
            saw_hard_error: if s.saw_hard_error is None {
                q.saw_hard_error
            } else {
                s.saw_hard_error
            },
            ..s
        };
        lemma_scored_next(w, budget_exceeded);
    }
}

proof fn lemma_after_direct(s: LookupView, budget_exceeded: bool)
    requires
        s.phase == LookupPhase::Direct,
        s.wf(),
    ensures
        sound_step(s.after_direct(budget_exceeded)),
{
    if s.attempt_kind == LibraryEnrichmentAttemptKind::Detail {
        lemma_search_next(
            LookupView { phase: LookupPhase::Search, search: new_search(s.entity), ..s },
            budget_exceeded,
        );
    }
}

} // verus!
