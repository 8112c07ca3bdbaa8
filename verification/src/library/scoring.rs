//! Scores of encyclopedia summaries and music database records.

use crate::library::matching::{
    about_a_third, compact_of, compacted, has_phrase, has_word, match_tier, name_key, name_key_of,
    normalize_chars, normalized, one_half, overlap, overlap_points, parenthetical, parenthetical_of,
    parenthetical_or_empty, title_case_chars, title_cased, title_head, title_head_of, title_match,
    word_overlap, word_overlap_points, chars_have_word, TitleMatchTier,
};
use crate::library::enrichment::LibraryEnrichmentManager;
use crate::protocol::{EntityView, LibraryEnrichmentEntity};
use crate::single::{at_least, Single};
use crate::text::{
    append_chars, char_texts, chars_equal, chars_have_part, chars_occur_at, chars_of, collapse,
    collapse_chars, has_any_part, has_part, has_prefix, lower, option_text, slice_texts,
    split_words, string_of, text_has_any_part, texts, words,
};
use vstd::prelude::*;

verus! {

/// An encyclopedia page in brief.
#[derive(Debug, PartialEq, Eq)]
pub struct WikiSummary {
    pub title: String,
    pub description: String,
    pub extract: String,
    pub canonical_url: String,
    pub image_url: Option<String>,
    pub page_type: String,
    pub categories: Vec<String>,
}

/// The contents of a [`WikiSummary`].
#[verifier::ext_equal]
pub struct SummaryView {
    pub title: Seq<char>,
    pub description: Seq<char>,
    pub extract: Seq<char>,
    pub canonical_url: Seq<char>,
    pub image_url: Option<Seq<char>>,
    pub page_type: Seq<char>,
    pub categories: Seq<Seq<char>>,
}

impl View for WikiSummary {
    type V = SummaryView;

    open spec fn view(&self) -> SummaryView {
        SummaryView {
            title: self.title@,
            description: self.description@,
            extract: self.extract@,
            canonical_url: self.canonical_url@,
            image_url: option_text(self.image_url),
            page_type: self.page_type@,
            categories: texts(self.categories@),
        }
    }
}

/// An artist record of the music database.
#[derive(Debug, PartialEq, Eq)]
pub struct AudioDbArtistCandidate {
    pub name: String,
    pub biography: String,
    pub image_url: Option<String>,
    pub source_url: String,
    pub genre: String,
}

/// The contents of an [`AudioDbArtistCandidate`].
#[verifier::ext_equal]
pub struct ArtistCandidateView {
    pub name: Seq<char>,
    pub biography: Seq<char>,
    pub image_url: Option<Seq<char>>,
    pub source_url: Seq<char>,
    pub genre: Seq<char>,
}

impl View for AudioDbArtistCandidate {
    type V = ArtistCandidateView;

    open spec fn view(&self) -> ArtistCandidateView {
        ArtistCandidateView {
            name: self.name@,
            biography: self.biography@,
            image_url: option_text(self.image_url),
            source_url: self.source_url@,
            genre: self.genre@,
        }
    }
}

/// An album record of the music database.
#[derive(Debug, PartialEq, Eq)]
pub struct AudioDbAlbumCandidate {
    pub album: String,
    pub artist: String,
    pub description: String,
    pub source_url: String,
}

/// The contents of an [`AudioDbAlbumCandidate`].
#[verifier::ext_equal]
pub struct AlbumCandidateView {
    pub album: Seq<char>,
    pub artist: Seq<char>,
    pub description: Seq<char>,
    pub source_url: Seq<char>,
}

impl View for AudioDbAlbumCandidate {
    type V = AlbumCandidateView;

    open spec fn view(&self) -> AlbumCandidateView {
        AlbumCandidateView {
            album: self.album@,
            artist: self.artist@,
            description: self.description@,
            source_url: self.source_url@,
        }
    }
}

pub open spec fn artist_words() -> Seq<Seq<char>> {
    seq![
        "musician"@,
        "singer"@,
        "rapper"@,
        "songwriter"@,
        "composer"@,
        "producer"@,
        "dj"@,
        "band"@,
        "duo"@,
        "trio"@,
        "group"@,
        "idol"@,
        "artist"@,
    ]
}

pub open spec fn album_words() -> Seq<Seq<char>> {
    seq![
        "album"@,
        "ep"@,
        "mixtape"@,
        "soundtrack"@,
        "record"@,
        "release"@,
        "studio album"@,
        "live album"@,
        "compilation album"@,
    ]
}

pub open spec fn artist_category_words() -> Seq<Seq<char>> {
    seq![
        "musicians"@,
        "singers"@,
        "rappers"@,
        "songwriters"@,
        "composers"@,
        "record producers"@,
        "djs"@,
        "bands"@,
        "musical groups"@,
        "girl groups"@,
        "boy bands"@,
        "idol groups"@,
        "k pop"@,
        "j pop"@,
        "music groups"@,
    ]
}

pub open spec fn album_category_words() -> Seq<Seq<char>> {
    seq![
        "albums"@,
        "eps"@,
        "debut albums"@,
        "studio albums"@,
        "live albums"@,
        "compilation albums"@,
        "soundtrack albums"@,
        "mixtape albums"@,
    ]
}

/// What the description of an album says of its artist.
pub open spec fn album_by_phrases() -> Seq<Seq<char>> {
    seq![
        "album by"@,
        "studio album by"@,
        "ep by"@,
        "mixtape by"@,
        "soundtrack by"@,
        "compilation album by"@,
        "live album by"@,
    ]
}

pub open spec fn album_hint_words() -> Seq<Seq<char>> {
    seq!["album"@, "ep"@, "soundtrack"@, "mixtape"@]
}

pub open spec fn genre_words() -> Seq<Seq<char>> {
    seq![
        "pop"@,
        "rock"@,
        "hip hop"@,
        "electronic"@,
        "dance"@,
        "metal"@,
        "jazz"@,
        "blues"@,
        "classical"@,
        "k pop"@,
        "r b"@,
        "soul"@,
        "country"@,
    ]
}

/// Marks in a lower-case artist tag that name a guest.
pub open spec fn guest_marks() -> Seq<Seq<char>> {
    seq![" feat "@, " feat."@, " featuring "@, " ft "@, " ft."@]
}

/// An artist tag that names guests besides the artist.
pub open spec fn names_guests(artist: Seq<char>) -> bool {
    has_any_part(lower(artist), guest_marks())
}

/// A title that says it is about a musical artist.
pub open spec fn artist_title(title: Seq<char>) -> bool {
    has_any_part(normalized(title), artist_words()) || has_any_part(
        parenthetical_or_empty(title),
        artist_words(),
    )
}

impl SummaryView {
    /// A category of the page holds one of `keywords`.
    pub open spec fn has_category(self, keywords: Seq<Seq<char>>) -> bool {
        exists|k: int|
            0 <= k < self.categories.len() && has_any_part(
                normalized(#[trigger] self.categories[k]),
                keywords,
            )
    }

    /// A page that lists pages of one name.
    pub open spec fn is_disambiguation(self) -> bool {
        normalized(self.page_type) == "disambiguation"@ || has_part(
            normalized(self.description),
            "disambiguation"@,
        ) || has_part(normalized(self.title), "disambiguation"@)
    }

    /// A discography or another list.
    pub open spec fn is_list(self) -> bool {
        has_part(normalized(self.title), "discography"@) || has_part(
            normalized(self.description),
            "discography"@,
        ) || has_part(normalized(self.extract), "discography"@) || has_prefix(
            normalized(self.title),
            "list of"@,
        ) || has_part(normalized(self.description), "list of"@)
    }

    /// A page that speaks of albums.
    pub open spec fn has_album_context(self) -> bool {
        has_any_part(normalized(self.description), album_words()) || has_any_part(
            normalized(self.extract),
            album_words(),
        ) || self.has_category(album_category_words()) || has_word(
            normalized(self.title),
            "album"@,
        ) || has_word(normalized(self.title), "ep"@)
    }

    /// A page about one album.
    pub open spec fn is_album(self) -> bool {
        has_any_part(normalized(self.description), album_by_phrases()) || has_any_part(
            normalized(self.extract),
            album_by_phrases(),
        ) || (has_word(normalized(self.title), "album"@) && (has_word(
            normalized(self.description),
            "album"@,
        ) || has_word(normalized(self.extract), "album"@)))
    }

    pub open spec fn has_artist_text(self) -> bool {
        has_any_part(normalized(self.description), artist_words()) || has_any_part(
            normalized(self.extract),
            artist_words(),
        )
    }

    pub open spec fn has_artist_category(self) -> bool {
        self.has_category(artist_category_words())
    }

    /// A page that speaks of a musical artist.
    pub open spec fn has_artist_context(self) -> bool {
        self.has_artist_text() || self.has_artist_category()
    }

    /// The normalised name `name` stands in one of the page's texts, spaced or run together.
    pub open spec fn text_mentions(text: Seq<char>, name: Seq<char>) -> bool {
        has_phrase(normalized(text), name) || (compacted(name).len() > 0 && has_part(
            compacted(normalized(text)),
            compacted(name),
        ))
    }

    /// The page mentions the artist, under this or another name in its title.
    pub open spec fn mentions_artist(self, artist: Seq<char>) -> bool {
        let name = name_key(artist);
        name.len() > 0 && (SummaryView::text_mentions(self.title, name)
            || SummaryView::text_mentions(self.description, name) || SummaryView::text_mentions(
            self.extract,
            name,
        ))
    }

    /// The normalised `name` is part of the page's extract, description or title.
    pub open spec fn holds_name(self, name: Seq<char>) -> bool {
        name.len() > 0 && (has_part(normalized(self.extract), name) || has_part(
            normalized(self.description),
            name,
        ) || has_part(normalized(self.title), name))
    }
}

/// Points for a title that matches no tier but holds the name, or is held by it.
pub open spec fn loose_title_points(title: Seq<char>, name: Seq<char>, ends: int, inside: int) -> int {
    if has_prefix(title, name) || has_prefix(name, title) {
        ends
    } else if has_part(title, name) {
        inside
    } else {
        0
    }
}

/// The score of a page as the page of an artist.
pub open spec fn artist_score(artist: Seq<char>, page: SummaryView) -> int {
    let name = name_key(artist);
    let title = normalized(page.title);
    let tier = match_tier(artist, page.title);
    let hint = artist_title(page.title);
    let count = words(name).len();
    if name.len() == 0 || page.is_disambiguation() {
        -10000
    } else if page.is_list() {
        -7000
    } else if page.is_album() {
        -8000
    } else if !page.has_artist_context() && !hint && !tier.near() {
        -4800
    } else if count == 1 && !hint && !page.has_artist_category() {
        -6400
    } else {
        (match tier {
            TitleMatchTier::Exact => 180int,
            TitleMatchTier::NearExact => 130,
            TitleMatchTier::Fuzzy => 60,
            TitleMatchTier::NoMatch => loose_title_points(title, name, 80, 55),
        }) + (if page.has_artist_text() {
            32int
        } else {
            0
        }) + (if page.has_artist_category() {
            44int
        } else {
            0
        }) + (if hint {
            20int
        } else {
            0
        }) + (if page.mentions_artist(artist) && page.has_artist_context() && !tier.near() {
            105int
        } else {
            0
        }) + overlap_points(name, title, 40) - (if count >= 2 && !at_least(
            overlap(name, title),
            one_half(),
        ) && !tier.near() {
            30int
        } else {
            0
        })
    }
}

/// The score of a page as the page of an album.
pub open spec fn album_score(album: Seq<char>, album_artist: Seq<char>, page: SummaryView) -> int {
    let name = name_key(album);
    let title = normalized(page.title);
    let tier = match_tier(album, page.title);
    if name.len() == 0 || page.is_disambiguation() {
        -10000
    } else if page.is_list() {
        -7000
    } else if !page.has_album_context() && !tier.near() {
        -4800
    } else {
        (match tier {
            TitleMatchTier::Exact => 145int,
            TitleMatchTier::NearExact => 95,
            TitleMatchTier::Fuzzy => 55,
            TitleMatchTier::NoMatch => loose_title_points(title, name, 70, 45),
        }) + (if page.has_album_context() {
            35int
        } else {
            0
        }) + (if page.holds_name(name_key(album_artist)) {
            28int
        } else {
            0
        }) + overlap_points(name, title, 32)
    }
}

/// The score of a database record as the record of an artist.
pub open spec fn artist_record_score(artist: Seq<char>, record: ArtistCandidateView) -> int {
    let tier = match_tier(artist, record.name);
    let name = name_key(artist);
    let bio = normalized(record.biography);
    let genre = normalized(record.genre);
    let musical = has_any_part(bio, artist_words()) || has_any_part(genre, artist_words())
        || has_any_part(genre, genre_words());
    if !tier.near() {
        -4800
    } else if words(name).len() == 1 && !musical && tier != TitleMatchTier::Exact {
        -3200
    } else {
        (if tier == TitleMatchTier::Exact {
            180int
        } else {
            132
        }) + (if musical {
            28int
        } else {
            0
        }) + (if name.len() > 0 && has_part(bio, name) {
            24int
        } else {
            0
        }) + (if genre.len() > 0 {
            8int
        } else {
            0
        })
    }
}

/// The album artist asked for and that of a record are the same, or one holds the other.
pub open spec fn artists_agree(asked: Seq<char>, found: Seq<char>) -> bool {
    asked.len() == 0 || asked == found || has_part(found, asked) || has_part(asked, found)
        || compacted(asked) == compacted(found)
}

/// The score of a database record as the record of an album.
pub open spec fn album_record_score(
    album: Seq<char>,
    album_artist: Seq<char>,
    record: AlbumCandidateView,
) -> int {
    let tier = match_tier(album, record.album);
    if !tier.near() {
        -4800
    } else if !artists_agree(name_key(album_artist), normalized(record.artist)) {
        -3800
    } else {
        (if tier == TitleMatchTier::Exact {
            150int
        } else {
            108
        }) + 30 + (if has_any_part(normalized(record.description), album_words()) {
            24int
        } else {
            0
        })
    }
}

/// Why a page found under a direct title is not taken for an artist.
pub open spec fn artist_rejection(artist: Seq<char>, page: SummaryView) -> Option<Seq<char>> {
    let tier = match_tier(artist, page.title);
    let hint = artist_title(page.title);
    if page.is_disambiguation() || page.is_list() {
        Some("disambiguation_or_list"@)
    } else if page.is_album() {
        Some("artist_matched_album_entity"@)
    } else if !tier.near() && !(page.mentions_artist(artist) && page.has_artist_context()) {
        Some("artist_title_not_near_exact"@)
    } else if words(normalized(artist)).len() == 1 && !page.has_artist_category() && !hint {
        Some("single_token_artist_missing_music_category_context"@)
    } else if tier == TitleMatchTier::Exact || page.has_artist_context() || hint {
        None
    } else {
        Some("artist_missing_music_context"@)
    }
}

/// Why a page found under a direct title is not taken for an album.
pub open spec fn album_rejection(
    album: Seq<char>,
    album_artist: Seq<char>,
    page: SummaryView,
) -> Option<Seq<char>> {
    let tier = match_tier(album, page.title);
    let hint = has_any_part(parenthetical_or_empty(page.title), album_hint_words());
    if page.is_disambiguation() || page.is_list() {
        Some("disambiguation_or_list"@)
    } else if !tier.near() {
        Some("album_title_not_near_exact"@)
    } else if (tier == TitleMatchTier::Exact && (page.has_album_context() || hint)) || (tier
        == TitleMatchTier::NearExact && (page.has_album_context() || (hint && page.holds_name(
        normalized(album_artist),
    )))) {
        None
    } else {
        Some("album_context_or_artist_hint_missing"@)
    }
}

/// Why a page found under a direct title is not taken for an entity.
pub open spec fn rejection(entity: EntityView, page: SummaryView) -> Option<Seq<char>> {
    match entity {
        EntityView::Artist { artist } => artist_rejection(artist, page),
        EntityView::Album { album, album_artist } => album_rejection(album, album_artist, page),
    }
}

/// A title worth fetching for a name.
pub open spec fn worth_fetching(name: Seq<char>, title: Seq<char>) -> bool {
    let key = name_key(name);
    let whole = normalized(title);
    let head = title_head(title);
    &&& whole.len() > 0
    &&& !has_part(whole, "disambiguation"@)
    &&& !has_part(whole, "discography"@)
    &&& !has_prefix(whole, "list of"@)
    &&& key.len() > 0
    &&& (match_tier(name, title).near() || words(key).len() <= 1 || at_least(
        overlap(key, head),
        about_a_third(),
    ) || (compacted(key).len() > 0 && has_part(compacted(head), compacted(key))))
}

/// The name of an entity by which titles are compared.
pub open spec fn entity_name(entity: EntityView) -> Seq<char> {
    match entity {
        EntityView::Artist { artist } => artist,
        EntityView::Album { album, .. } => album,
    }
}

pub fn music_artist_keywords() -> (r: Vec<&'static str>)
    ensures
        slice_texts(r@) == artist_words(),
{
    let r = vec![
        "musician",
        "singer",
        "rapper",
        "songwriter",
        "composer",
        "producer",
        "dj",
        "band",
        "duo",
        "trio",
        "group",
        "idol",
        "artist",
    ];
    assert(slice_texts(r@) =~= artist_words());
    r
}

pub fn album_keywords() -> (r: Vec<&'static str>)
    ensures
        slice_texts(r@) == album_words(),
{
    let r = vec![
        "album",
        "ep",
        "mixtape",
        "soundtrack",
        "record",
        "release",
        "studio album",
        "live album",
        "compilation album",
    ];
    assert(slice_texts(r@) =~= album_words());
    r
}

pub fn artist_category_keywords() -> (r: Vec<&'static str>)
    ensures
        slice_texts(r@) == artist_category_words(),
{
    let r = vec![
        "musicians",
        "singers",
        "rappers",
        "songwriters",
        "composers",
        "record producers",
        "djs",
        "bands",
        "musical groups",
        "girl groups",
        "boy bands",
        "idol groups",
        "k pop",
        "j pop",
        "music groups",
    ];
    assert(slice_texts(r@) =~= artist_category_words());
    r
}

pub fn album_category_keywords() -> (r: Vec<&'static str>)
    ensures
        slice_texts(r@) == album_category_words(),
{
    let r = vec![
        "albums",
        "eps",
        "debut albums",
        "studio albums",
        "live albums",
        "compilation albums",
        "soundtrack albums",
        "mixtape albums",
    ];
    assert(slice_texts(r@) =~= album_category_words());
    r
}

fn album_by_keywords() -> (r: Vec<&'static str>)
    ensures
        slice_texts(r@) == album_by_phrases(),
{
    let r = vec![
        "album by",
        "studio album by",
        "ep by",
        "mixtape by",
        "soundtrack by",
        "compilation album by",
        "live album by",
    ];
    assert(slice_texts(r@) =~= album_by_phrases());
    r
}

fn album_hint_keywords() -> (r: Vec<&'static str>)
    ensures
        slice_texts(r@) == album_hint_words(),
{
    let r = vec![
        "album",
        "ep",
        "soundtrack",
        "mixtape",
    ];
    assert(slice_texts(r@) =~= album_hint_words());
    r
}

fn genre_keywords() -> (r: Vec<&'static str>)
    ensures
        slice_texts(r@) == genre_words(),
{
    let r = vec![
        "pop",
        "rock",
        "hip hop",
        "electronic",
        "dance",
        "metal",
        "jazz",
        "blues",
        "classical",
        "k pop",
        "r b",
        "soul",
        "country",
    ];
    assert(slice_texts(r@) =~= genre_words());
    r
}

fn guest_keywords() -> (r: Vec<&'static str>)
    ensures
        slice_texts(r@) == guest_marks(),
{
    let r = vec![
        " feat ",
        " feat.",
        " featuring ",
        " ft ",
        " ft.",
    ];
    assert(slice_texts(r@) =~= guest_marks());
    r
}

impl WikiSummary {
    pub fn has_category_keyword(&self, keywords: &Vec<&str>) -> (r: bool)
        ensures
            r == self@.has_category(slice_texts(keywords@)),
    {
        let mut i: usize = 0;
        while i < self.categories.len()
            invariant
                i <= self.categories.len(),
                forall|k: int|
                    0 <= k < i ==> !has_any_part(
                        normalized(#[trigger] self@.categories[k]),
                        slice_texts(keywords@),
                    ),
            decreases self.categories.len() - i,
        {
            let category = LibraryEnrichmentManager::normalize_text(&self.categories[i]);
            assert(self@.categories[i as int] == self.categories@[i as int]@);
            if text_has_any_part(&category, keywords) {
                return true;
            }
            i += 1;
        }
        false
    }

    pub fn looks_disambiguation(&self) -> (r: bool)
        ensures
            r == self@.is_disambiguation(),
    {
        let word = chars_of("disambiguation");
        chars_equal(&normal_of(&self.page_type), &word) || chars_have_part(
            &normal_of(&self.description),
            &word,
        ) || chars_have_part(&normal_of(&self.title), &word)
    }

    pub fn looks_discography_or_list(&self) -> (r: bool)
        ensures
            r == self@.is_list(),
    {
        let title = normal_of(&self.title);
        let description = normal_of(&self.description);
        let word = chars_of("discography");
        let list = chars_of("list of");
        chars_have_part(&title, &word) || chars_have_part(&description, &word) || chars_have_part(
            &normal_of(&self.extract),
            &word,
        ) || chars_occur_at(&title, &list, 0) || chars_have_part(&description, &list)
    }

    pub fn has_album_context(&self) -> (r: bool)
        ensures
            r == self@.has_album_context(),
    {
        let title = normal_of(&self.title);
        let keywords = album_keywords();
        text_has_any_part(&LibraryEnrichmentManager::normalize_text(&self.description), &keywords)
            || text_has_any_part(
            &LibraryEnrichmentManager::normalize_text(&self.extract),
            &keywords,
        ) || self.has_category_keyword(&album_category_keywords()) || chars_have_word(
            &title,
            &chars_of("album"),
        ) || chars_have_word(&title, &chars_of("ep"))
    }

    pub fn looks_album_entity(&self) -> (r: bool)
        ensures
            r == self@.is_album(),
    {
        let word = chars_of("album");
        let phrases = album_by_keywords();
        text_has_any_part(&LibraryEnrichmentManager::normalize_text(&self.description), &phrases)
            || text_has_any_part(
            &LibraryEnrichmentManager::normalize_text(&self.extract),
            &phrases,
        ) || (chars_have_word(&normal_of(&self.title), &word) && (chars_have_word(
            &normal_of(&self.description),
            &word,
        ) || chars_have_word(&normal_of(&self.extract), &word)))
    }

    pub fn has_artist_text_context(&self) -> (r: bool)
        ensures
            r == self@.has_artist_text(),
    {
        let keywords = music_artist_keywords();
        text_has_any_part(&LibraryEnrichmentManager::normalize_text(&self.description), &keywords)
            || text_has_any_part(
            &LibraryEnrichmentManager::normalize_text(&self.extract),
            &keywords,
        )
    }

    pub fn has_artist_category_context(&self) -> (r: bool)
        ensures
            r == self@.has_artist_category(),
    {
        self.has_category_keyword(&artist_category_keywords())
    }

    pub fn has_artist_person_context(&self) -> (r: bool)
        ensures
            r == self@.has_artist_context(),
    {
        self.has_artist_text_context() || self.has_artist_category_context()
    }

    /// The artist's name stands in the page's title, description or extract.
    pub fn mentions_artist(&self, artist: &str) -> (r: bool)
        ensures
            r == self@.mentions_artist(artist@),
    {
        let name = name_key_of(artist);
        name.len() > 0 && (text_mentions(&self.title, &name) || text_mentions(
            &self.description,
            &name,
        ) || text_mentions(&self.extract, &name))
    }

    fn holds_name(&self, name: &Vec<char>) -> (r: bool)
        ensures
            r == self@.holds_name(name@),
    {
        name.len() > 0 && (chars_have_part(&normal_of(&self.extract), name) || chars_have_part(
            &normal_of(&self.description),
            name,
        ) || chars_have_part(&normal_of(&self.title), name))
    }
}

fn normal_of(s: &str) -> (r: Vec<char>)
    ensures
        r@ == normalized(s@),
{
    normalize_chars(&chars_of(s))
}

fn padded(v: &Vec<char>) -> (r: Vec<char>)
    ensures
        r@ == seq![' '] + v@ + seq![' '],
{
    let mut out: Vec<char> = Vec::new();
    out.push(' ');
    append_chars(&mut out, v);
    out.push(' ');
    assert(out@ =~= seq![' '] + v@ + seq![' ']);
    out
}

fn has_phrase_chars(hay: &Vec<char>, phrase: &Vec<char>) -> (r: bool)
    ensures
        r == has_phrase(hay@, phrase@),
{
    hay.len() > 0 && phrase.len() > 0 && chars_have_part(&padded(hay), &padded(phrase))
}

fn text_mentions(text: &str, name: &Vec<char>) -> (r: bool)
    ensures
        r == SummaryView::text_mentions(text@, name@),
{
    let normal = normal_of(text);
    if has_phrase_chars(&normal, name) {
        return true;
    }
    let short = compact_of(name);
    short.len() > 0 && chars_have_part(&compact_of(&normal), &short)
}

fn parenthetical_text(title: &str) -> (r: String)
    ensures
        r@ == parenthetical_or_empty(title@),
{
    match parenthetical_of(title) {
        Some(inner) => string_of(&inner),
        None => String::new(),
    }
}

fn loose_points(title: &Vec<char>, name: &Vec<char>, ends: i32, inside: i32) -> (r: i32)
    ensures
        r == loose_title_points(title@, name@, ends as int, inside as int),
{
    if chars_occur_at(title, name, 0) || chars_occur_at(name, title, 0) {
        ends
    } else if chars_have_part(title, name) {
        inside
    } else {
        0
    }
}

impl LibraryEnrichmentManager {
    /// Collapses runs of white space to one space and trims the ends.
    pub fn collapse_whitespace(value: &str) -> (r: String)
        ensures
            r@ == collapse(value@),
    {
        string_of(&collapse_chars(&chars_of(value)))
    }

    /// Lower-case words of ASCII letters and digits, one space between them.
    pub fn normalize_text(value: &str) -> (r: String)
        ensures
            r@ == normalized(value@),
    {
        string_of(&normal_of(value))
    }

    /// The ASCII letters and digits alone, in lower case.
    pub fn compact_text(value: &str) -> (r: String)
        ensures
            r@ == compacted(value@),
    {
        string_of(&compact_of(&chars_of(value)))
    }

    pub fn title_case_words(value: &str) -> (r: String)
        ensures
            r@ == title_cased(value@),
    {
        string_of(&title_case_chars(&chars_of(value)))
    }

    /// An artist tag that names guests besides the artist.
    pub fn looks_like_noncanonical_artist_name(value: &str) -> (r: bool)
        ensures
            r == names_guests(value@),
    {
        text_has_any_part(&crate::text::lower_text(value), &guest_keywords())
    }

    pub fn title_parenthetical(title: &str) -> (r: Option<String>)
        ensures
            option_text(r) == parenthetical(title@),
    {
        match parenthetical_of(title) {
            Some(inner) => Some(string_of(&inner)),
            None => None,
        }
    }

    pub fn title_has_artist_disambiguator(title: &str) -> (r: bool)
        ensures
            r == artist_title(title@),
    {
        let keywords = music_artist_keywords();
        text_has_any_part(&Self::normalize_text(title), &keywords) || text_has_any_part(
            &parenthetical_text(title),
            &keywords,
        )
    }

    pub fn normalized_title_head(title: &str) -> (r: String)
        ensures
            r@ == title_head(title@),
    {
        string_of(&title_head_of(title))
    }

    pub fn title_match_tier(target: &str, title: &str) -> (r: TitleMatchTier)
        ensures
            r == match_tier(target@, title@),
    {
        title_match(target, title)
    }

    /// Whether the artist's normalised name is one word; never true of an album.
    pub fn is_single_token_artist_entity(entity: &LibraryEnrichmentEntity) -> (r: bool)
        ensures
            r == (entity@ matches EntityView::Artist { artist } && words(normalized(artist)).len()
                == 1),
    {
        match entity {
            LibraryEnrichmentEntity::Artist { artist } => {
                let ws = split_words(&normal_of(artist));
                assert(ws.len() == char_texts(ws@).len());
                ws.len() == 1
            },
            LibraryEnrichmentEntity::Album { .. } => false,
        }
    }

    pub fn direct_summary_rejection_reason(
        entity: &LibraryEnrichmentEntity,
        summary: &WikiSummary,
    ) -> (r: Option<&'static str>)
        ensures
            (match r {
                Some(s) => Some(s@),
                None => None,
            }) == rejection(entity@, summary@),
    {
        if summary.looks_disambiguation() || summary.looks_discography_or_list() {
            return Some("disambiguation_or_list");
        }
        match entity {
            LibraryEnrichmentEntity::Artist { artist } => {
                if summary.looks_album_entity() {
                    return Some("artist_matched_album_entity");
                }
                let tier = title_match(artist, &summary.title);
                let has_music_context = summary.has_artist_person_context();
                let alias_mentioned = summary.mentions_artist(artist);
                if !tier.is_near() && !(alias_mentioned && has_music_context) {
                    return Some("artist_title_not_near_exact");
                }
                let has_hint = Self::title_has_artist_disambiguator(&summary.title);
                let single = Self::is_single_token_artist_entity(entity);
                if single && !summary.has_artist_category_context() && !has_hint {
                    return Some("single_token_artist_missing_music_category_context");
                }
                if tier == TitleMatchTier::Exact || has_music_context || has_hint {
                    None
                } else {
                    Some("artist_missing_music_context")
                }
            },
            LibraryEnrichmentEntity::Album { album, album_artist } => {
                let tier = title_match(album, &summary.title);
                if !tier.is_near() {
                    return Some("album_title_not_near_exact");
                }
                let has_context = summary.has_album_context();
                let has_hint = text_has_any_part(
                    &parenthetical_text(&summary.title),
                    &album_hint_keywords(),
                );
                let mentions_artist = summary.holds_name(&normal_of(album_artist));
                let accepted = (tier == TitleMatchTier::Exact && (has_context || has_hint)) || (tier
                    == TitleMatchTier::NearExact && (has_context || (has_hint && mentions_artist)));
                if accepted {
                    None
                } else {
                    Some("album_context_or_artist_hint_missing")
                }
            },
        }
    }

    pub fn direct_summary_matches_entity(
        entity: &LibraryEnrichmentEntity,
        summary: &WikiSummary,
    ) -> (r: bool)
        ensures
            r == rejection(entity@, summary@) is None,
    {
        Self::direct_summary_rejection_reason(entity, summary).is_none()
    }

    pub fn score_artist_summary(artist: &str, summary: &WikiSummary) -> (r: i32)
        ensures
            r == artist_score(artist@, summary@),
    {
        let name = name_key_of(artist);
        let title = normal_of(&summary.title);
        let tier = title_match(artist, &summary.title);
        if name.len() == 0 || summary.looks_disambiguation() {
            return -10_000;
        }
        if summary.looks_discography_or_list() {
            return -7_000;
        }
        if summary.looks_album_entity() {
            return -8_000;
        }
        let has_context = summary.has_artist_person_context();
        let has_category = summary.has_artist_category_context();
        let has_text = summary.has_artist_text_context();
        let has_hint = Self::title_has_artist_disambiguator(&summary.title);
        let mentioned = summary.mentions_artist(artist);
        if !has_context && !has_hint && !tier.is_near() {
            return -4_800;
        }
        let ws = split_words(&name);
        assert(ws.len() == char_texts(ws@).len());
        let count: usize = ws.len();
        if count == 1 && !has_hint && !has_category {
            return -6_400;
        }
        let mut score: i32 = match tier {
            TitleMatchTier::Exact => 180,
            TitleMatchTier::NearExact => 130,
            TitleMatchTier::Fuzzy => 60,
            TitleMatchTier::NoMatch => loose_points(&title, &name, 80, 55),
        };
        if has_text {
            score += 32;
        }
        if has_category {
            score += 44;
        }
        if has_hint {
            score += 20;
        }
        if mentioned && has_context && !tier.is_near() {
            score += 105;
        }
        let points: u32 = word_overlap_points(&name, &title, 40);
        score += points as i32;
        let half = Single { mantissa: 8388608, exponent: -24 };
        if count >= 2 && !word_overlap(&name, &title).at_least(half) && !tier.is_near() {
            score -= 30;
        }
        score
    }

    pub fn score_album_summary(album: &str, album_artist: &str, summary: &WikiSummary) -> (r: i32)
        ensures
            r == album_score(album@, album_artist@, summary@),
    {
        let name = name_key_of(album);
        let title = normal_of(&summary.title);
        let tier = title_match(album, &summary.title);
        if name.len() == 0 || summary.looks_disambiguation() {
            return -10_000;
        }
        if summary.looks_discography_or_list() {
            return -7_000;
        }
        let has_context = summary.has_album_context();
        if !has_context && !tier.is_near() {
            return -4_800;
        }
        let mut score: i32 = match tier {
            TitleMatchTier::Exact => 145,
            TitleMatchTier::NearExact => 95,
            TitleMatchTier::Fuzzy => 55,
            TitleMatchTier::NoMatch => loose_points(&title, &name, 70, 45),
        };
        if has_context {
            score += 35;
        }
        if summary.holds_name(&name_key_of(album_artist)) {
            score += 28;
        }
        let points: u32 = word_overlap_points(&name, &title, 32);
        score += points as i32;
        score
    }

    pub fn score_audiodb_artist_candidate(
        artist: &str,
        candidate: &AudioDbArtistCandidate,
    ) -> (r: i32)
        ensures
            r == artist_record_score(artist@, candidate@),
    {
        let tier = title_match(artist, &candidate.name);
        if !tier.is_near() {
            return -4_800;
        }
        let name = name_key_of(artist);
        let bio = Self::normalize_text(&candidate.biography);
        let genre = Self::normalize_text(&candidate.genre);
        let keywords = music_artist_keywords();
        let musical = text_has_any_part(&bio, &keywords) || text_has_any_part(&genre, &keywords)
            || text_has_any_part(&genre, &genre_keywords());
        let ws = split_words(&name);
        assert(ws.len() == char_texts(ws@).len());
        if ws.len() == 1 && !musical && tier != TitleMatchTier::Exact {
            return -3_200;
        }
        let mut score: i32 = if tier == TitleMatchTier::Exact {
            180
        } else {
            132
        };
        if musical {
            score += 28;
        }
        if name.len() > 0 && chars_have_part(&chars_of(&bio), &name) {
            score += 24;
        }
        if !genre.as_str().is_empty() {
            score += 8;
        }
        score
    }

    pub fn score_audiodb_album_candidate(
        album: &str,
        album_artist: &str,
        candidate: &AudioDbAlbumCandidate,
    ) -> (r: i32)
        ensures
            r == album_record_score(album@, album_artist@, candidate@),
    {
        let tier = title_match(album, &candidate.album);
        if !tier.is_near() {
            return -4_800;
        }
        let asked = name_key_of(album_artist);
        let found = normal_of(&candidate.artist);
        let agree = asked.len() == 0 || chars_equal(&asked, &found) || chars_have_part(
            &found,
            &asked,
        ) || chars_have_part(&asked, &found) || chars_equal(
            &compact_of(&asked),
            &compact_of(&found),
        );
        if !agree {
            return -3_800;
        }
        let mut score: i32 = if tier == TitleMatchTier::Exact {
            150
        } else {
            108
        };
        score += 30;
        if text_has_any_part(&Self::normalize_text(&candidate.description), &album_keywords()) {
            score += 24;
        }
        score
    }

    pub fn title_passes_entity_prefilter(entity: &LibraryEnrichmentEntity, title: &str) -> (r: bool)
        ensures
            r == worth_fetching(entity_name(entity@), title@),
    {
        match entity {
            LibraryEnrichmentEntity::Artist { artist } => title_is_worth_fetching(artist, title),
            LibraryEnrichmentEntity::Album { album, .. } => title_is_worth_fetching(album, title),
        }
    }
}

fn title_is_worth_fetching(name: &str, title: &str) -> (r: bool)
    ensures
        r == worth_fetching(name@, title@),
{
    let whole = normal_of(title);
    if whole.len() == 0 {
        return false;
    }
    if chars_have_part(&whole, &chars_of("disambiguation")) || chars_have_part(
        &whole,
        &chars_of("discography"),
    ) || chars_occur_at(&whole, &chars_of("list of"), 0) {
        return false;
    }
    let key = name_key_of(name);
    if key.len() == 0 {
        return false;
    }
    if title_match(name, title).is_near() {
        return true;
    }
    let ws = split_words(&key);
    assert(ws.len() == char_texts(ws@).len());
    if ws.len() <= 1 {
        return true;
    }
    let head = title_head_of(title);
    let third = Single { mantissa: 11408507, exponent: -25 };
    if word_overlap(&key, &head).at_least(third) {
        return true;
    }
    let short = compact_of(&key);
    short.len() > 0 && chars_have_part(&compact_of(&head), &short)
}

} // verus!
