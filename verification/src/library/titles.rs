//! The encyclopedia titles and searches that are tried for an artist or album.

use crate::library::matching::{normalize_chars, normalized, title_cased};
use crate::library::outcome::{is_hard, is_timeout};
use crate::library::enrichment::LibraryEnrichmentManager;
use crate::percent::{percent_encode, percent_encoded};
use crate::protocol::{EntityView, LibraryEnrichmentEntity};
use crate::text::{
    append, blank, chars_equal, chars_of, chars_without, collapse, is_blank, lower, lower_chars,
    option_text, owned, string_of, text_equal, texts, trim, trim_text, without,
};
use vstd::prelude::*;

verus! {

/// How many titles a search keeps.
pub const MAX_SEARCH_TITLES: usize = 48;

/// Titles with one more, trimmed, unless it is empty or there already.
pub open spec fn with_title(titles: Seq<Seq<char>>, title: Seq<char>) -> Seq<Seq<char>> {
    let t = trim(title);
    if t.len() == 0 || titles.contains(t) {
        titles
    } else {
        titles.push(t)
    }
}

/// Some title equals `t` but for the case of its letters.
pub open spec fn listed_in_any_case(titles: Seq<Seq<char>>, t: Seq<char>) -> bool {
    exists|i: int| 0 <= i < titles.len() && lower(#[trigger] titles[i]) == lower(t)
}

/// Titles with one more, trimmed, unless it is empty or there already in some case.
pub open spec fn with_new_title(titles: Seq<Seq<char>>, title: Seq<char>) -> Seq<Seq<char>> {
    let t = trim(title);
    if t.len() == 0 || listed_in_any_case(titles, t) {
        titles
    } else {
        titles.push(t)
    }
}

pub open spec fn with_titles(titles: Seq<Seq<char>>, more: Seq<Seq<char>>) -> Seq<Seq<char>>
    decreases more.len(),
{
    if more.len() == 0 {
        titles
    } else {
        with_title(with_titles(titles, more.drop_last()), more.last())
    }
}

pub open spec fn with_new_titles(titles: Seq<Seq<char>>, more: Seq<Seq<char>>) -> Seq<Seq<char>>
    decreases more.len(),
{
    if more.len() == 0 {
        titles
    } else {
        with_new_title(with_new_titles(titles, more.drop_last()), more.last())
    }
}

/// A cleaned name run together, in lower case.
pub open spec fn run_together(cleaned: Seq<char>) -> Seq<char> {
    without(normalized(cleaned), ' ')
}

/// A cleaned name, the same in title case, and run together in title case.
pub open spec fn name_titles(cleaned: Seq<char>) -> Seq<Seq<char>> {
    let first = seq![cleaned, title_cased(cleaned)];
    if run_together(cleaned).len() == 0 {
        first
    } else {
        first.push(title_cased(run_together(cleaned)))
    }
}

/// The titles under which the page of an entity may stand, before repeats are left out.
pub open spec fn direct_candidates(entity: EntityView) -> Seq<Seq<char>> {
    match entity {
        EntityView::Artist { artist } => name_titles(collapse(artist)),
        EntityView::Album { album, album_artist } => {
            let cleaned = collapse(album);
            let named = name_titles(cleaned);
            let with_artist = if blank(album_artist) {
                named
            } else {
                named.push(cleaned + " ("@ + collapse(album_artist) + " album)"@)
            };
            with_artist.push(cleaned + " (album)"@)
        },
    }
}

/// The titles under which the page of an entity may stand, in the order they are tried.
pub open spec fn direct_titles(entity: EntityView) -> Seq<Seq<char>> {
    with_titles(Seq::empty(), direct_candidates(entity))
}

/// The titles with which a search starts, before repeats are left out.
pub open spec fn search_candidates(entity: EntityView) -> Seq<Seq<char>> {
    match entity {
        EntityView::Artist { artist } => {
            let cleaned = collapse(artist);
            name_titles(cleaned) + seq![
                cleaned + " (musician)"@,
                cleaned + " (band)"@,
                cleaned + " (singer)"@,
            ]
        },
        EntityView::Album { album, album_artist } => {
            let cleaned = collapse(album);
            let by = collapse(album_artist);
            let named = name_titles(cleaned).push(cleaned + " (album)"@);
            if by.len() == 0 {
                named
            } else {
                named.push(cleaned + " ("@ + by + " album)"@)
            }
        },
    }
}

/// The queries that differ from the name run together.
pub open spec fn with_run_together(
    queries: Seq<Seq<char>>,
    cleaned: Seq<char>,
) -> Seq<Seq<char>> {
    let short = run_together(cleaned);
    if short.len() == 0 || short == normalized(cleaned) || short == lower(cleaned) {
        queries
    } else {
        queries.push(short)
    }
}

pub open spec fn quoted(s: Seq<char>) -> Seq<char> {
    "\""@ + s + "\""@
}

/// The queries of a search, in order.
pub open spec fn search_queries(entity: EntityView) -> Seq<Seq<char>> {
    match entity {
        EntityView::Artist { artist } => {
            let cleaned = collapse(artist);
            let title = title_cased(cleaned);
            with_run_together(
                seq![
                    quoted(cleaned),
                    quoted(cleaned) + " musician"@,
                    cleaned + " musician"@,
                    quoted(title),
                    quoted(title) + " musician"@,
                    "intitle:"@ + quoted(cleaned),
                    "intitle:"@ + quoted(title),
                    cleaned,
                ],
                cleaned,
            )
        },
        EntityView::Album { album, album_artist } => {
            let cleaned = collapse(album);
            let by = collapse(album_artist);
            let title = title_cased(cleaned);
            with_run_together(
                if by.len() == 0 {
                    seq![quoted(cleaned) + " album"@, quoted(title) + " album"@, cleaned]
                } else {
                    seq![
                        quoted(cleaned) + " "@ + quoted(by) + " album"@,
                        quoted(title) + " "@ + quoted(title_cased(by)) + " album"@,
                        cleaned + " "@ + by + " album"@,
                        quoted(cleaned) + " album"@,
                        cleaned,
                        "intitle:"@ + quoted(cleaned),
                    ]
                },
                cleaned,
            )
        },
    }
}

/// The three ways in which a query is searched.
#[derive(Debug, Clone, Copy, PartialEq, Eq, Structural)]
pub enum SearchKind {
    NearMatch,
    Title,
    RestTitle,
}

pub open spec fn search_kind(step: nat) -> SearchKind {
    if step == 0 {
        SearchKind::NearMatch
    } else if step == 1 {
        SearchKind::Title
    } else {
        SearchKind::RestTitle
    }
}

/// A search for titles: what is still to be asked, and what came back so far.
#[derive(Debug, PartialEq, Eq)]
pub struct TitleSearch {
    pub titles: Vec<String>,
    pub saw_timeout: Option<String>,
    pub saw_hard_error: Option<String>,
    pub saw_budget: bool,
    pub queries: Vec<String>,
    pub next_query: usize,
    pub next_step: u8,
}

/// The contents of a [`TitleSearch`].
#[verifier::ext_equal]
pub struct SearchView {
    pub titles: Seq<Seq<char>>,
    pub saw_timeout: Option<Seq<char>>,
    pub saw_hard_error: Option<Seq<char>>,
    pub saw_budget: bool,
    pub queries: Seq<Seq<char>>,
    pub next_query: nat,
    pub next_step: nat,
}

impl View for TitleSearch {
    type V = SearchView;

    open spec fn view(&self) -> SearchView {
        SearchView {
            titles: texts(self.titles@),
            saw_timeout: option_text(self.saw_timeout),
            saw_hard_error: option_text(self.saw_hard_error),
            saw_budget: self.saw_budget,
            queries: texts(self.queries@),
            next_query: self.next_query as nat,
            next_step: self.next_step as nat,
        }
    }
}

/// A search that has nothing to ask.
pub open spec fn idle_search() -> SearchView {
    SearchView {
        titles: Seq::empty(),
        saw_timeout: None,
        saw_hard_error: None,
        saw_budget: false,
        queries: Seq::empty(),
        next_query: 0,
        next_step: 0,
    }
}

/// The search for an entity before anything was asked; an empty name is not searched.
pub open spec fn new_search(entity: EntityView) -> SearchView {
    if collapse(crate::library::scoring::entity_name(entity)).len() == 0 {
        idle_search()
    } else {
        SearchView {
            titles: with_new_titles(Seq::empty(), search_candidates(entity)),
            queries: search_queries(entity),
            ..idle_search()
        }
    }
}

impl SearchView {
    /// The next thing to ask. Each query is asked three ways, a blank one not at all; once
    /// the time is used up nothing more is asked.
    pub open spec fn next(self, budget_exceeded: bool) -> (SearchView, Option<
        (SearchKind, Seq<char>),
    >)
        decreases self.queries.len() - self.next_query,
    {
        if self.saw_budget || self.next_query >= self.queries.len() {
            (self, None)
        } else {
            let query = self.queries[self.next_query as int];
            let later = SearchView { next_query: self.next_query + 1, next_step: 0, ..self };
            if self.next_step == 0 && blank(query) {
                later.next(budget_exceeded)
            } else if budget_exceeded {
                (SearchView { saw_budget: true, ..self }, None)
            } else if self.next_step < 3 {
                (
                    SearchView { next_step: self.next_step + 1, ..self },
                    Some((search_kind(self.next_step), query)),
                )
            } else {
                later.next(budget_exceeded)
            }
        }
    }

    /// What a reply adds: titles that are new, or the first failure of its kind.
    pub open spec fn told(self, reply: Result<Seq<Seq<char>>, Seq<char>>) -> SearchView {
        match reply {
            Ok(found) => SearchView { titles: with_new_titles(self.titles, found), ..self },
            Err(reason) => {
                if is_timeout(reason) {
                    if self.saw_timeout is None {
                        SearchView { saw_timeout: Some(reason), ..self }
                    } else {
                        self
                    }
                } else if is_hard(reason) && self.saw_hard_error is None {
                    SearchView { saw_hard_error: Some(reason), ..self }
                } else {
                    self
                }
            },
        }
    }

    /// The titles that the search keeps.
    pub open spec fn kept(self) -> Seq<Seq<char>> {
        if self.titles.len() > MAX_SEARCH_TITLES {
            self.titles.take(MAX_SEARCH_TITLES as int)
        } else {
            self.titles
        }
    }
}

/// No two titles equal but for case, and none that is blank or untrimmed.
pub open spec fn titles_are_clean(titles: Seq<Seq<char>>) -> bool {
    &&& forall|i: int, j: int|
        0 <= i < j < titles.len() ==> lower(#[trigger] titles[i]) != lower(#[trigger] titles[j])
    &&& forall|i: int|
        0 <= i < titles.len() ==> (#[trigger] titles[i]).len() > 0 && trim(titles[i]) == titles[i]
}

/// Adding titles keeps a list free of repeats and blanks.
pub proof fn new_titles_stay_clean(titles: Seq<Seq<char>>, more: Seq<Seq<char>>)
    requires
        titles_are_clean(titles),
    ensures
        titles_are_clean(with_new_titles(titles, more)),
    decreases more.len(),
{
    if more.len() > 0 {
        new_titles_stay_clean(titles, more.drop_last());
        crate::text::trimming_twice_changes_nothing(more.last());
        let before = with_new_titles(titles, more.drop_last());
        let t = trim(more.last());
        if t.len() > 0 && !listed_in_any_case(before, t) {
            let after = before.push(t);
            assert forall|i: int, j: int| 0 <= i < j < after.len() implies lower(
                #[trigger] after[i],
            ) != lower(#[trigger] after[j]) by {
                if j == before.len() {
                    assert(lower(before[i]) != lower(t));
                }
            }
        }
    }
}

/// A search never holds two titles that are equal but for case, nor a blank one.
pub proof fn search_titles_stay_clean(
    s: SearchView,
    reply: Result<Seq<Seq<char>>, Seq<char>>,
    entity: EntityView,
)
    ensures
        titles_are_clean(new_search(entity).titles),
        titles_are_clean(s.titles) ==> titles_are_clean(s.told(reply).titles),
{
    new_titles_stay_clean(Seq::empty(), search_candidates(entity));
    if titles_are_clean(s.titles) {
        if let Ok(found) = reply {
            new_titles_stay_clean(s.titles, found);
        }
    }
}

/// A title as a string, and the same in lower case.
fn push_title(titles: &mut Vec<String>, title: &str)
    ensures
        texts(final(titles)@) == with_title(texts(old(titles)@), title@),
{
    let t = trim_text(title);
    if t.as_str().is_empty() {
        return;
    }
    let mut i: usize = 0;
    while i < titles.len()
        invariant
            i <= titles.len(),
            titles@ == old(titles)@,
            t@ == trim(title@),
            t@.len() > 0,
            forall|k: int| 0 <= k < i ==> #[trigger] texts(titles@)[k] != t@,
        decreases titles.len() - i,
    {
        assert(texts(titles@)[i as int] == titles@[i as int]@);
        if text_equal(&titles[i], &t) {
            return;
        }
        i += 1;
    }
    proof {
        assert(!texts(titles@).contains(t@));
        assert(texts(titles@.push(t)) =~= texts(titles@).push(t@));
    }
    titles.push(t);
}

/// Adds a title unless it is there in some case.
pub fn push_unique_title(titles: &mut Vec<String>, title: &str)
    ensures
        texts(final(titles)@) == with_new_title(texts(old(titles)@), title@),
{
    let t = trim_text(title);
    if t.as_str().is_empty() {
        return;
    }
    let low = lower_chars(&chars_of(&t));
    let mut i: usize = 0;
    while i < titles.len()
        invariant
            i <= titles.len(),
            titles@ == old(titles)@,
            t@ == trim(title@),
            t@.len() > 0,
            low@ == lower(t@),
            forall|k: int| 0 <= k < i ==> lower(#[trigger] texts(titles@)[k]) != lower(t@),
        decreases titles.len() - i,
    {
        assert(texts(titles@)[i as int] == titles@[i as int]@);
        if chars_equal(&lower_chars(&chars_of(&titles[i])), &low) {
            return;
        }
        i += 1;
    }
    proof {
        assert(texts(titles@.push(t)) =~= texts(titles@).push(t@));
    }
    titles.push(t);
}

fn push_titles(titles: &mut Vec<String>, more: &Vec<String>)
    ensures
        texts(final(titles)@) == with_titles(texts(old(titles)@), texts(more@)),
{
    let mut i: usize = 0;
    while i < more.len()
        invariant
            i <= more.len(),
            texts(titles@) == with_titles(texts(old(titles)@), texts(more@).take(i as int)),
        decreases more.len() - i,
    {
        proof {
            assert(texts(more@).take(i + 1).drop_last() =~= texts(more@).take(i as int));
        }
        push_title(titles, &more[i]);
        i += 1;
    }
    assert(texts(more@).take(more.len() as int) =~= texts(more@));
}

fn push_unique_titles(titles: &mut Vec<String>, more: &Vec<String>)
    ensures
        texts(final(titles)@) == with_new_titles(texts(old(titles)@), texts(more@)),
{
    let mut i: usize = 0;
    while i < more.len()
        invariant
            i <= more.len(),
            texts(titles@) == with_new_titles(texts(old(titles)@), texts(more@).take(i as int)),
        decreases more.len() - i,
    {
        proof {
            assert(texts(more@).take(i + 1).drop_last() =~= texts(more@).take(i as int));
        }
        push_unique_title(titles, &more[i]);
        i += 1;
    }
    assert(texts(more@).take(more.len() as int) =~= texts(more@));
}

fn run_together_of(cleaned: &str) -> (r: String)
    ensures
        r@ == run_together(cleaned@),
{
    string_of(&chars_without(&normalize_chars(&chars_of(cleaned)), ' '))
}

fn name_titles_of(cleaned: &str) -> (r: Vec<String>)
    ensures
        texts(r@) == name_titles(cleaned@),
{
    let mut out: Vec<String> = Vec::new();
    out.push(owned(cleaned));
    out.push(LibraryEnrichmentManager::title_case_words(cleaned));
    let short = run_together_of(cleaned);
    if !short.as_str().is_empty() {
        out.push(LibraryEnrichmentManager::title_case_words(&short));
    }
    assert(texts(out@) =~= name_titles(cleaned@));
    out
}

fn joined_text(a: &str, b: &str) -> (r: String)
    ensures
        r@ == a@ + b@,
{
    let mut out = owned(a);
    append(&mut out, b);
    out
}

fn quote(s: &str) -> (r: String)
    ensures
        r@ == quoted(s@),
{
    joined_text(&joined_text("\"", s), "\"")
}

fn album_title(cleaned: &str, by: &str) -> (r: String)
    ensures
        r@ == cleaned@ + " ("@ + by@ + " album)"@,
{
    joined_text(&joined_text(&joined_text(cleaned, " ("), by), " album)")
}

fn push_run_together(queries: &mut Vec<String>, cleaned: &str)
    ensures
        texts(final(queries)@) == with_run_together(texts(old(queries)@), cleaned@),
{
    let short = run_together_of(cleaned);
    let chars = chars_of(&short);
    if chars.len() == 0 || chars_equal(&chars, &normalize_chars(&chars_of(cleaned))) || chars_equal(
        &chars,
        &lower_chars(&chars_of(cleaned)),
    ) {
        return;
    }
    proof {
        assert(texts(queries@.push(short)) =~= texts(queries@).push(short@));
    }
    queries.push(short);
}

fn search_queries_of(entity: &LibraryEnrichmentEntity) -> (r: Vec<String>)
    ensures
        texts(r@) == search_queries(entity@),
{
    match entity {
        LibraryEnrichmentEntity::Artist { artist } => {
            let cleaned = LibraryEnrichmentManager::collapse_whitespace(artist);
            let title = LibraryEnrichmentManager::title_case_words(&cleaned);
            let mut out = vec![
                quote(&cleaned),
                joined_text(&quote(&cleaned), " musician"),
                joined_text(&cleaned, " musician"),
                quote(&title),
                joined_text(&quote(&title), " musician"),
                joined_text("intitle:", &quote(&cleaned)),
                joined_text("intitle:", &quote(&title)),
                owned(&cleaned),
            ];
            proof {
                let c = cleaned@;
                let t = title@;
                assert(texts(out@) =~= seq![
                    quoted(c),
                    quoted(c) + " musician"@,
                    c + " musician"@,
                    quoted(t),
                    quoted(t) + " musician"@,
                    "intitle:"@ + quoted(c),
                    "intitle:"@ + quoted(t),
                    c,
                ]);
            }
            push_run_together(&mut out, &cleaned);
            out
        },
        LibraryEnrichmentEntity::Album { album, album_artist } => {
            let cleaned = LibraryEnrichmentManager::collapse_whitespace(album);
            let by = LibraryEnrichmentManager::collapse_whitespace(album_artist);
            let title = LibraryEnrichmentManager::title_case_words(&cleaned);
            let mut out = if by.as_str().is_empty() {
                let list = vec![
                    joined_text(&quote(&cleaned), " album"),
                    joined_text(&quote(&title), " album"),
                    owned(&cleaned),
                ];
                assert(texts(list@) =~= seq![
                    quoted(cleaned@) + " album"@,
                    quoted(title@) + " album"@,
                    cleaned@,
                ]);
                list
            } else {
                let title_by = LibraryEnrichmentManager::title_case_words(&by);
                let list = vec![
                    joined_text(
                        &joined_text(&joined_text(&quote(&cleaned), " "), &quote(&by)),
                        " album",
                    ),
                    joined_text(
                        &joined_text(&joined_text(&quote(&title), " "), &quote(&title_by)),
                        " album",
                    ),
                    joined_text(&joined_text(&joined_text(&cleaned, " "), &by), " album"),
                    joined_text(&quote(&cleaned), " album"),
                    owned(&cleaned),
                    joined_text("intitle:", &quote(&cleaned)),
                ];
                assert(texts(list@) =~= seq![
                    quoted(cleaned@) + " "@ + quoted(by@) + " album"@,
                    quoted(title@) + " "@ + quoted(title_by@) + " album"@,
                    cleaned@ + " "@ + by@ + " album"@,
                    quoted(cleaned@) + " album"@,
                    cleaned@,
                    "intitle:"@ + quoted(cleaned@),
                ]);
                list
            };
            push_run_together(&mut out, &cleaned);
            out
        },
    }
}

fn search_candidates_of(entity: &LibraryEnrichmentEntity) -> (r: Vec<String>)
    ensures
        texts(r@) == search_candidates(entity@),
{
    match entity {
        LibraryEnrichmentEntity::Artist { artist } => {
            let cleaned = LibraryEnrichmentManager::collapse_whitespace(artist);
            let mut out = name_titles_of(&cleaned);
            let ghost base = texts(out@);
            out.push(joined_text(&cleaned, " (musician)"));
            out.push(joined_text(&cleaned, " (band)"));
            out.push(joined_text(&cleaned, " (singer)"));
            assert(texts(out@) =~= base + seq![
                cleaned@ + " (musician)"@,
                cleaned@ + " (band)"@,
                cleaned@ + " (singer)"@,
            ]);
            out
        },
        LibraryEnrichmentEntity::Album { album, album_artist } => {
            let cleaned = LibraryEnrichmentManager::collapse_whitespace(album);
            let by = LibraryEnrichmentManager::collapse_whitespace(album_artist);
            let mut out = name_titles_of(&cleaned);
            let ghost base = texts(out@);
            out.push(joined_text(&cleaned, " (album)"));
            assert(texts(out@) =~= base.push(cleaned@ + " (album)"@));
            if !by.as_str().is_empty() {
                out.push(album_title(&cleaned, &by));
                assert(texts(out@) =~= base.push(cleaned@ + " (album)"@).push(
                    cleaned@ + " ("@ + by@ + " album)"@,
                ));
            }
            out
        },
    }
}

impl LibraryEnrichmentManager {
    /// The titles under which the page of an artist or album may stand.
    pub fn direct_lookup_titles_for_entity(entity: &LibraryEnrichmentEntity) -> (r: Vec<String>)
        ensures
            texts(r@) == direct_titles(entity@),
    {
        let candidates = match entity {
            LibraryEnrichmentEntity::Artist { artist } => {
                name_titles_of(&Self::collapse_whitespace(artist))
            },
            LibraryEnrichmentEntity::Album { album, album_artist } => {
                let cleaned = Self::collapse_whitespace(album);
                let mut out = name_titles_of(&cleaned);
                let ghost base = texts(out@);
                if !is_blank(album_artist) {
                    let by = Self::collapse_whitespace(album_artist);
                    out.push(album_title(&cleaned, &by));
                    assert(texts(out@) =~= base.push(cleaned@ + " ("@ + by@ + " album)"@));
                }
                let ghost middle = texts(out@);
                out.push(joined_text(&cleaned, " (album)"));
                assert(texts(out@) =~= middle.push(cleaned@ + " (album)"@));
                out
            },
        };
        let mut titles: Vec<String> = Vec::new();
        assert(texts(titles@) =~= Seq::empty());
        push_titles(&mut titles, &candidates);
        titles
    }
}

impl TitleSearch {
    pub fn idle() -> (r: TitleSearch)
        ensures
            r@ == idle_search(),
    {
        let r = TitleSearch {
            titles: Vec::new(),
            saw_timeout: None,
            saw_hard_error: None,
            saw_budget: false,
            queries: Vec::new(),
            next_query: 0,
            next_step: 0,
        };
        assert(r@ =~= idle_search());
        r
    }

    /// Prepares the search for an artist or album.
    pub fn candidate_titles_for_entity(entity: &LibraryEnrichmentEntity) -> (r: TitleSearch)
        ensures
            r@ == new_search(entity@),
    {
        let cleaned = match entity {
            LibraryEnrichmentEntity::Artist { artist } => {
                LibraryEnrichmentManager::collapse_whitespace(artist)
            },
            LibraryEnrichmentEntity::Album { album, .. } => {
                LibraryEnrichmentManager::collapse_whitespace(album)
            },
        };
        if cleaned.as_str().is_empty() {
            return TitleSearch::idle();
        }
        let mut titles: Vec<String> = Vec::new();
        assert(texts(titles@) =~= Seq::empty());
        push_unique_titles(&mut titles, &search_candidates_of(entity));
        let queries = search_queries_of(entity);
        TitleSearch { titles, queries, ..TitleSearch::idle() }
    }

    /// Hands out the next search, unless the search is over or out of time.
    pub fn next_search(&mut self, budget_exceeded: bool) -> (r: Option<(SearchKind, String)>)
        ensures
            final(self)@ == old(self)@.next(budget_exceeded).0,
            (match r {
                Some((kind, query)) => Some((kind, query@)),
                None => None,
            }) == old(self)@.next(budget_exceeded).1,
    {
        let ghost target = self@.next(budget_exceeded);
        loop
            invariant
                self@.next(budget_exceeded) == target,
                target == old(self)@.next(budget_exceeded),
            decreases self.queries.len() - self.next_query,
        {
            if self.saw_budget || self.next_query >= self.queries.len() {
                return None;
            }
            let ghost before = self@;
            assert(before.queries[self.next_query as int] == self.queries@[self.next_query as int]@);
            if self.next_step == 0 && is_blank(&self.queries[self.next_query]) {
                self.next_query += 1;
                assert(self@ =~= (SearchView {
                    next_query: before.next_query + 1,
                    next_step: 0,
                    ..before
                }));
            } else if budget_exceeded {
                self.saw_budget = true;
                assert(self@ =~= (SearchView { saw_budget: true, ..before }));
                return None;
            } else if self.next_step < 3 {
                let kind = if self.next_step == 0 {
                    SearchKind::NearMatch
                } else if self.next_step == 1 {
                    SearchKind::Title
                } else {
                    SearchKind::RestTitle
                };
                self.next_step += 1;
                assert(self@ =~= (SearchView { next_step: before.next_step + 1, ..before }));
                return Some((kind, self.queries[self.next_query].clone()));
            } else {
                self.next_query += 1;
                self.next_step = 0;
                assert(self@ =~= (SearchView {
                    next_query: before.next_query + 1,
                    next_step: 0,
                    ..before
                }));
            }
        }
    }

    /// Takes the reply to a search: the titles found, or the reason of its failure.
    pub fn on_titles(&mut self, reply: Result<Vec<String>, String>)
        ensures
            final(self)@ == old(self)@.told(
                match reply {
                    Ok(found) => Ok(texts(found@)),
                    Err(reason) => Err(reason@),
                },
            ),
    {
        match reply {
            Ok(found) => {
                push_unique_titles(&mut self.titles, &found);
                assert(self@ =~= old(self)@.told(Ok(texts(found@))));
            },
            Err(reason) => {
                if LibraryEnrichmentManager::is_timeout_reason(&reason) {
                    if self.saw_timeout.is_none() {
                        self.saw_timeout = Some(reason);
                    }
                } else if LibraryEnrichmentManager::is_hard_reason(&reason)
                    && self.saw_hard_error.is_none() {
                    self.saw_hard_error = Some(reason);
                }
                assert(self@ =~= old(self)@.told(Err(reason@)));
            },
        }
    }

    /// Takes the titles out of a search, as many as it keeps.
    pub fn take_titles(&mut self) -> (r: Vec<String>)
        ensures
            texts(r@) == old(self)@.kept(),
            final(self)@ == (SearchView { titles: Seq::empty(), ..old(self)@ }),
    {
        let mut titles: Vec<String> = Vec::new();
        std::mem::swap(&mut titles, &mut self.titles);
        assert(self@ =~= (SearchView { titles: Seq::empty(), ..old(self)@ }));
        if titles.len() > MAX_SEARCH_TITLES {
            titles.truncate(MAX_SEARCH_TITLES);
            assert(texts(titles@) =~= old(self)@.kept());
        }
        titles
    }
}

/// The address of a title search.
pub open spec fn search_url(kind: SearchKind, query: Seq<char>) -> Seq<char> {
    let encoded = percent_encoded(query);
    match kind {
        SearchKind::NearMatch => {
            "https://en.wikipedia.org/w/api.php?action=query&list=search&srsearch="@ + encoded
                + "&srwhat=nearmatch&srlimit=12&format=json&utf8=1&maxlag=5"@
        },
        SearchKind::Title => {
            "https://en.wikipedia.org/w/api.php?action=query&list=search&srsearch="@ + encoded
                + "&srwhat=title&srlimit=12&format=json&utf8=1&maxlag=5"@
        },
        SearchKind::RestTitle => {
            "https://en.wikipedia.org/w/rest.php/v1/search/title?q="@ + encoded + "&limit=12"@
        },
    }
}

pub fn wikipedia_search_url(kind: SearchKind, query: &str) -> (r: String)
    ensures
        r@ == search_url(kind, query@),
{
    let encoded = percent_encode(query);
    match kind {
        SearchKind::NearMatch => joined_text(
            &joined_text(
                "https://en.wikipedia.org/w/api.php?action=query&list=search&srsearch=",
                &encoded,
            ),
            "&srwhat=nearmatch&srlimit=12&format=json&utf8=1&maxlag=5",
        ),
        SearchKind::Title => joined_text(
            &joined_text(
                "https://en.wikipedia.org/w/api.php?action=query&list=search&srsearch=",
                &encoded,
            ),
            "&srwhat=title&srlimit=12&format=json&utf8=1&maxlag=5",
        ),
        SearchKind::RestTitle => joined_text(
            &joined_text("https://en.wikipedia.org/w/rest.php/v1/search/title?q=", &encoded),
            "&limit=12",
        ),
    }
}

/// The address of the summary of a page.
pub open spec fn summary_url(title: Seq<char>) -> Seq<char> {
    "https://en.wikipedia.org/w/api.php?action=query&prop=extracts|pageimages|description|pageprops|info|categories&inprop=url&redirects=1&exintro=1&explaintext=1&pithumbsize=640&titles="@
        + percent_encoded(title)
        + "&clshow=!hidden&cllimit=50&format=json&utf8=1&maxlag=5"@
}

pub fn wikipedia_summary_url(title: &str) -> (r: String)
    ensures
        r@ == summary_url(title@),
{
    joined_text(
        &joined_text(
            "https://en.wikipedia.org/w/api.php?action=query&prop=extracts|pageimages|description|pageprops|info|categories&inprop=url&redirects=1&exintro=1&explaintext=1&pithumbsize=640&titles=",
            &percent_encode(title),
        ),
        "&clshow=!hidden&cllimit=50&format=json&utf8=1&maxlag=5",
    )
}

} // verus!
