//! How values are written into the database and read back, and how its schema grows.
//!
//! The statements themselves are run elsewhere; here stands what is decided about their
//! contents.

use crate::json::{json_texts, parse_texts, parsed_texts, write_texts};
use crate::protocol::{
    EntityView, LibraryEnrichmentAttemptKind, LibraryEnrichmentEntity, LibraryEnrichmentErrorKind,
    LibraryEnrichmentPayload, LibraryEnrichmentStatus, PayloadView,
};
use crate::text::{
    append, blank, chars_of, copy_range, find_char, first_of, is_blank, lemma_not_blank, option_text, owned,
    string_of, text_equal, texts,
};
use vstd::prelude::*;

verus! {

/// The character between the title and the artist of an album in its key.
pub const ENTITY_KEY_SEPARATOR: char = '\u{1f}';

/// The type and key under which an entity is stored.
pub open spec fn entity_parts(entity: EntityView) -> (Seq<char>, Seq<char>) {
    match entity {
        EntityView::Artist { artist } => ("artist"@, artist),
        EntityView::Album { album, album_artist } => (
            "album"@,
            album + seq![ENTITY_KEY_SEPARATOR] + album_artist,
        ),
    }
}

/// The entity that a stored type and key stand for.
pub open spec fn entity_from(entity_type: Seq<char>, key: Seq<char>) -> EntityView {
    if entity_type == "album"@ {
        let i = first_of(key, ENTITY_KEY_SEPARATOR) as int;
        if i < key.len() {
            EntityView::Album { album: key.take(i), album_artist: key.skip(i + 1) }
        } else {
            EntityView::Album { album: key, album_artist: Seq::empty() }
        }
    } else {
        EntityView::Artist { artist: key }
    }
}

/// The type and key under which an entity is stored.
pub fn enrichment_entity_parts(entity: &LibraryEnrichmentEntity) -> (r: (String, String))
    ensures
        (r.0@, r.1@) == entity_parts(entity@),
{
    match entity {
        LibraryEnrichmentEntity::Artist { artist } => (owned("artist"), artist.clone()),
        LibraryEnrichmentEntity::Album { album, album_artist } => {
            let mut key = album.clone();
            key.push(ENTITY_KEY_SEPARATOR);
            append(&mut key, album_artist.as_str());
            assert(album@.push(ENTITY_KEY_SEPARATOR) =~= album@ + seq![ENTITY_KEY_SEPARATOR]);
            (owned("album"), key)
        },
    }
}

/// The entity that a stored type and key stand for.
pub fn enrichment_entity_from_parts(entity_type: &str, entity_key: &str) -> (r:
    LibraryEnrichmentEntity)
    ensures
        r@ == entity_from(entity_type@, entity_key@),
{
    if text_equal(entity_type, "album") {
        let key = chars_of(entity_key);
        match find_char(&key, ENTITY_KEY_SEPARATOR) {
            Some(i) => {
                assert(key@.subrange(0, i as int) =~= key@.take(i as int));
                assert(key@.subrange(i + 1, key@.len() as int) =~= key@.skip(i + 1));
                LibraryEnrichmentEntity::Album {
                    album: string_of(&copy_range(&key, 0, i)),
                    album_artist: string_of(&copy_range(&key, i + 1, key.len())),
                }
            },
            None => LibraryEnrichmentEntity::Album {
                album: owned(entity_key),
                album_artist: String::new(),
            },
        }
    } else {
        LibraryEnrichmentEntity::Artist { artist: owned(entity_key) }
    }
}

/// An entity is read back as it was stored, unless the title of its album holds the separator.
pub proof fn stored_entities_come_back(entity: EntityView)
    requires
        match entity {
            EntityView::Artist { artist } => true,
            EntityView::Album { album, album_artist } => !album.contains(ENTITY_KEY_SEPARATOR),
        },
    ensures
        entity_from(entity_parts(entity).0, entity_parts(entity).1) == entity,
{
    reveal_strlit("artist");
    reveal_strlit("album");
    assert("artist"@.len() != "album"@.len());
    match entity {
        EntityView::Artist { artist } => {},
        EntityView::Album { album, album_artist } => {
            let separator = seq![ENTITY_KEY_SEPARATOR];
            let key = album + separator + album_artist;
            assert(key =~= album + (separator + album_artist));
            lemma_first_of_absent(album, separator + album_artist);
            assert(key.take(album.len() as int) =~= album);
            assert(key.skip(album.len() as int + 1) =~= album_artist);
        },
    }
}

proof fn lemma_first_of_absent(a: Seq<char>, b: Seq<char>)
    requires
        !a.contains(ENTITY_KEY_SEPARATOR),
        b.len() > 0,
        b[0] == ENTITY_KEY_SEPARATOR,
    ensures
        first_of(a + b, ENTITY_KEY_SEPARATOR) == a.len(),
    decreases a.len(),
{
    let whole = a + b;
    if a.len() == 0 {
        assert(whole =~= b);
    } else {
        assert(whole[0] == a[0]);
        assert(a.contains(a[0]));
        assert(whole.skip(1) =~= a.skip(1) + b);
        assert(whole.drop_first() =~= a.skip(1) + b);
        assert forall|i: int| 0 <= i < a.skip(1).len() implies a.skip(1)[i]
            != ENTITY_KEY_SEPARATOR by {
            assert(a.contains(a[i + 1]));
        }
        lemma_first_of_absent(a.skip(1), b);
    }
}

/// The word for a status.
pub open spec fn status_word(status: LibraryEnrichmentStatus) -> Seq<char> {
    match status {
        LibraryEnrichmentStatus::Ready => "ready"@,
        LibraryEnrichmentStatus::NotFound => "not_found"@,
        LibraryEnrichmentStatus::Disabled => "disabled"@,
        LibraryEnrichmentStatus::Error => "error"@,
    }
}

/// The status that a word stands for; unknown words stand for an error.
pub open spec fn status_of_word(word: Seq<char>) -> LibraryEnrichmentStatus {
    if word == "ready"@ {
        LibraryEnrichmentStatus::Ready
    } else if word == "not_found"@ {
        LibraryEnrichmentStatus::NotFound
    } else if word == "disabled"@ {
        LibraryEnrichmentStatus::Disabled
    } else {
        LibraryEnrichmentStatus::Error
    }
}

pub fn enrichment_status_to_str(status: LibraryEnrichmentStatus) -> (r: &'static str)
    ensures
        r@ == status_word(status),
{
    match status {
        LibraryEnrichmentStatus::Ready => "ready",
        LibraryEnrichmentStatus::NotFound => "not_found",
        LibraryEnrichmentStatus::Disabled => "disabled",
        LibraryEnrichmentStatus::Error => "error",
    }
}

pub fn enrichment_status_from_str(value: &str) -> (r: LibraryEnrichmentStatus)
    ensures
        r == status_of_word(value@),
{
    if text_equal(value, "ready") {
        LibraryEnrichmentStatus::Ready
    } else if text_equal(value, "not_found") {
        LibraryEnrichmentStatus::NotFound
    } else if text_equal(value, "disabled") {
        LibraryEnrichmentStatus::Disabled
    } else {
        LibraryEnrichmentStatus::Error
    }
}

/// The word for a kind of error; no error has the empty word.
pub open spec fn error_word(kind: Option<LibraryEnrichmentErrorKind>) -> Seq<char> {
    match kind {
        Some(LibraryEnrichmentErrorKind::Timeout) => "timeout"@,
        Some(LibraryEnrichmentErrorKind::RateLimited) => "rate_limited"@,
        Some(LibraryEnrichmentErrorKind::BudgetExhausted) => "budget_exhausted"@,
        Some(LibraryEnrichmentErrorKind::Hard) => "hard"@,
        None => ""@,
    }
}

/// The kind of error that a word stands for.
pub open spec fn error_of_word(word: Seq<char>) -> Option<LibraryEnrichmentErrorKind> {
    if word == "timeout"@ {
        Some(LibraryEnrichmentErrorKind::Timeout)
    } else if word == "rate_limited"@ {
        Some(LibraryEnrichmentErrorKind::RateLimited)
    } else if word == "budget_exhausted"@ {
        Some(LibraryEnrichmentErrorKind::BudgetExhausted)
    } else if word == "hard"@ {
        Some(LibraryEnrichmentErrorKind::Hard)
    } else {
        None
    }
}

pub fn enrichment_error_kind_to_str(kind: Option<LibraryEnrichmentErrorKind>) -> (r: &'static str)
    ensures
        r@ == error_word(kind),
{
    match kind {
        Some(LibraryEnrichmentErrorKind::Timeout) => "timeout",
        Some(LibraryEnrichmentErrorKind::RateLimited) => "rate_limited",
        Some(LibraryEnrichmentErrorKind::BudgetExhausted) => "budget_exhausted",
        Some(LibraryEnrichmentErrorKind::Hard) => "hard",
        None => "",
    }
}

pub fn enrichment_error_kind_from_str(value: &str) -> (r: Option<LibraryEnrichmentErrorKind>)
    ensures
        r == error_of_word(value@),
{
    if text_equal(value, "timeout") {
        Some(LibraryEnrichmentErrorKind::Timeout)
    } else if text_equal(value, "rate_limited") {
        Some(LibraryEnrichmentErrorKind::RateLimited)
    } else if text_equal(value, "budget_exhausted") {
        Some(LibraryEnrichmentErrorKind::BudgetExhausted)
    } else if text_equal(value, "hard") {
        Some(LibraryEnrichmentErrorKind::Hard)
    } else {
        None
    }
}

/// The word for a kind of attempt.
pub open spec fn attempt_word(kind: LibraryEnrichmentAttemptKind) -> Seq<char> {
    match kind {
        LibraryEnrichmentAttemptKind::Detail => "detail"@,
        LibraryEnrichmentAttemptKind::VisiblePrefetch => "visible_prefetch"@,
        LibraryEnrichmentAttemptKind::BackgroundWarm => "background_warm"@,
    }
}

/// The kind of attempt that a word stands for; unknown words stand for a visible prefetch.
pub open spec fn attempt_of_word(word: Seq<char>) -> LibraryEnrichmentAttemptKind {
    if word == "detail"@ {
        LibraryEnrichmentAttemptKind::Detail
    } else if word == "background_warm"@ {
        LibraryEnrichmentAttemptKind::BackgroundWarm
    } else {
        LibraryEnrichmentAttemptKind::VisiblePrefetch
    }
}

pub fn enrichment_attempt_kind_to_str(kind: LibraryEnrichmentAttemptKind) -> (r: &'static str)
    ensures
        r@ == attempt_word(kind),
{
    match kind {
        LibraryEnrichmentAttemptKind::Detail => "detail",
        LibraryEnrichmentAttemptKind::VisiblePrefetch => "visible_prefetch",
        LibraryEnrichmentAttemptKind::BackgroundWarm => "background_warm",
    }
}

pub fn enrichment_attempt_kind_from_str(value: &str) -> (r: LibraryEnrichmentAttemptKind)
    ensures
        r == attempt_of_word(value@),
{
    if text_equal(value, "detail") {
        LibraryEnrichmentAttemptKind::Detail
    } else if text_equal(value, "background_warm") {
        LibraryEnrichmentAttemptKind::BackgroundWarm
    } else {
        LibraryEnrichmentAttemptKind::VisiblePrefetch
    }
}

/// A status, a kind of error and a kind of attempt are read back as they were stored.
pub proof fn stored_words_come_back(
    status: LibraryEnrichmentStatus,
    error: Option<LibraryEnrichmentErrorKind>,
    attempt: LibraryEnrichmentAttemptKind,
)
    ensures
        status_of_word(status_word(status)) == status,
        error_of_word(error_word(error)) == error,
        attempt_of_word(attempt_word(attempt)) == attempt,
{
    reveal_strlit("ready");
    reveal_strlit("not_found");
    reveal_strlit("disabled");
    reveal_strlit("error");
    assert("ready"@[0] == 'r' && "not_found"@[0] == 'n' && "disabled"@[0] == 'd' && "error"@[0]
        == 'e');
    reveal_strlit("timeout");
    reveal_strlit("rate_limited");
    reveal_strlit("budget_exhausted");
    reveal_strlit("hard");
    reveal_strlit("");
    assert("timeout"@[0] == 't' && "rate_limited"@[0] == 'r' && "budget_exhausted"@[0] == 'b'
        && "hard"@[0] == 'h');
    assert(""@.len() == 0);
    reveal_strlit("detail");
    reveal_strlit("visible_prefetch");
    reveal_strlit("background_warm");
    assert("detail"@[0] == 'd' && "visible_prefetch"@[0] == 'v' && "background_warm"@[0] == 'b');
}

/// A row of the enrichment cache as it is read.
#[derive(Debug, PartialEq, Eq)]
pub struct EnrichmentRow {
    pub entity_type: String,
    pub entity_key: String,
    pub status: String,
    pub blurb: String,
    pub image_path: Option<String>,
    pub source_name: String,
    pub source_url: String,
    pub expires_unix_ms: i64,
    pub error_kind: String,
    pub attempt_kind: String,
}

/// The payload that a row holds.
pub open spec fn row_payload(row: EnrichmentRow) -> PayloadView {
    PayloadView {
        entity: entity_from(row.entity_type@, row.entity_key@),
        status: status_of_word(row.status@),
        blurb: row.blurb@,
        image_path: option_text(row.image_path),
        source_name: row.source_name@,
        source_url: row.source_url@,
        error_kind: error_of_word(row.error_kind@),
        attempt_kind: attempt_of_word(row.attempt_kind@),
    }
}

/// The payload of a cache row, as long as the row has not expired.
pub fn cached_payload(row: Option<EnrichmentRow>, now_unix_ms: i64) -> (r: Option<
    LibraryEnrichmentPayload,
>)
    ensures
        match row {
            None => r is None,
            Some(found) => if found.expires_unix_ms <= now_unix_ms {
                r is None
            } else {
                r is Some && r->Some_0@ == row_payload(found)
            },
        },
{
    match row {
        None => None,
        Some(found) => {
            if found.expires_unix_ms <= now_unix_ms {
                None
            } else {
                Some(
                    LibraryEnrichmentPayload {
                        entity: enrichment_entity_from_parts(
                            found.entity_type.as_str(),
                            found.entity_key.as_str(),
                        ),
                        status: enrichment_status_from_str(found.status.as_str()),
                        blurb: found.blurb,
                        image_path: found.image_path,
                        source_name: found.source_name,
                        source_url: found.source_url,
                        error_kind: enrichment_error_kind_from_str(found.error_kind.as_str()),
                        attempt_kind: enrichment_attempt_kind_from_str(
                            found.attempt_kind.as_str(),
                        ),
                    },
                )
            }
        },
    }
}

/// How wide a column of a playlist is shown.
#[derive(Debug, PartialEq, Eq)]
pub struct PlaylistColumnWidthOverride {
    pub column_key: String,
    pub width_px: u32,
}

/// The keys and widths of a list of overrides.
pub open spec fn widths_view(v: Seq<PlaylistColumnWidthOverride>) -> Seq<(Seq<char>, u32)> {
    v.map_values(|o: PlaylistColumnWidthOverride| (o.column_key@, o.width_px))
}

/// Where a column stands in a list of overrides, or the length of the list.
pub open spec fn width_slot(widths: Seq<(Seq<char>, u32)>, key: Seq<char>) -> nat
    decreases widths.len(),
{
    if widths.len() == 0 || widths[0].0 == key {
        0
    } else {
        1 + width_slot(widths.skip(1), key)
    }
}

/// A list of overrides in which a column has a width.
pub open spec fn with_width(widths: Seq<(Seq<char>, u32)>, key: Seq<char>, width: u32) -> Seq<
    (Seq<char>, u32),
> {
    let slot = width_slot(widths, key) as int;
    if slot < widths.len() {
        widths.update(slot, (key, width))
    } else {
        widths.push((key, width))
    }
}

pub open spec fn other_column(key: Seq<char>) -> spec_fn((Seq<char>, u32)) -> bool {
    |o: (Seq<char>, u32)| o.0 != key
}

proof fn lemma_width_slot(widths: Seq<(Seq<char>, u32)>, key: Seq<char>, i: int)
    requires
        0 <= i <= widths.len(),
        forall|k: int| 0 <= k < i ==> (#[trigger] widths[k]).0 != key,
        i < widths.len() ==> widths[i].0 == key,
    ensures
        width_slot(widths, key) == i,
    decreases widths.len(),
{
    if i > 0 {
        assert(widths[0].0 != key);
        let rest = widths.skip(1);
        assert forall|k: int| 0 <= k < i - 1 implies (#[trigger] rest[k]).0 != key by {
            assert(widths[k + 1].0 != key);
        }
        if i < widths.len() {
            assert(rest[i - 1] == widths[i]);
        }
        lemma_width_slot(rest, key, i - 1);
    }
}

/// Gives a column a width.
pub fn set_column_width(
    overrides: &mut Vec<PlaylistColumnWidthOverride>,
    column_key: &str,
    width_px: u32,
)
    ensures
        widths_view(final(overrides)@) == with_width(
            widths_view(old(overrides)@),
            column_key@,
            width_px,
        ),
{
    let ghost start = widths_view(overrides@);
    let mut i: usize = 0;
    while i < overrides.len()
        invariant
            i <= overrides.len(),
            *overrides == *old(overrides),
            start == widths_view(overrides@),
            forall|k: int| 0 <= k < i ==> (#[trigger] start[k]).0 != column_key@,
        decreases overrides.len() - i,
    {
        assert(start[i as int] == (overrides@[i as int].column_key@, overrides@[i as int].width_px));
        if text_equal(overrides[i].column_key.as_str(), column_key) {
            proof {
                lemma_width_slot(start, column_key@, i as int);
            }
            overrides.set(
                i,
                PlaylistColumnWidthOverride { column_key: owned(column_key), width_px },
            );
            assert(widths_view(overrides@) =~= start.update(i as int, (column_key@, width_px)));
            return;
        }
        i += 1;
    }
    proof {
        lemma_width_slot(start, column_key@, i as int);
    }
    overrides.push(PlaylistColumnWidthOverride { column_key: owned(column_key), width_px });
    assert(widths_view(overrides@) =~= start.push((column_key@, width_px)));
}

/// Takes a column's width away.
pub fn clear_column_width(overrides: &Vec<PlaylistColumnWidthOverride>, column_key: &str) -> (r:
    Vec<PlaylistColumnWidthOverride>)
    ensures
        widths_view(r@) == widths_view(overrides@).filter(other_column(column_key@)),
{
    let ghost all = widths_view(overrides@);
    let mut out: Vec<PlaylistColumnWidthOverride> = Vec::new();
    let mut i: usize = 0;
    proof {
        reveal(Seq::filter);
        assert(all.take(0) =~= Seq::empty());
        assert(widths_view(out@) =~= all.take(0).filter(other_column(column_key@)));
    }
    while i < overrides.len()
        invariant
            i <= overrides.len(),
            all == widths_view(overrides@),
            widths_view(out@) == all.take(i as int).filter(other_column(column_key@)),
        decreases overrides.len() - i,
    {
        let ghost before = widths_view(out@);
        let item = &overrides[i];
        proof {
            reveal(Seq::filter);
            assert(all.take(i + 1).drop_last() =~= all.take(i as int));
            assert(all.take(i + 1).last() == (item.column_key@, item.width_px));
        }
        if !text_equal(item.column_key.as_str(), column_key) {
            out.push(
                PlaylistColumnWidthOverride {
                    column_key: item.column_key.clone(),
                    width_px: item.width_px,
                },
            );
            assert(widths_view(out@) =~= before.push((item.column_key@, item.width_px)));
        }
        i += 1;
    }
    assert(all.take(i as int) =~= all);
    out
}

/// A column has the width that it was given last, and none once that was taken away; other
/// columns keep theirs.
pub proof fn widths_are_kept(
    widths: Seq<(Seq<char>, u32)>,
    key: Seq<char>,
    width: u32,
    other: (Seq<char>, u32),
)
    requires
        other.0 != key,
    ensures
        with_width(widths, key, width).contains((key, width)),
        with_width(widths, key, width).contains(other) <==> widths.contains(other),
        forall|o: (Seq<char>, u32)| #[trigger]
            widths.filter(other_column(key)).contains(o) <==> widths.contains(o) && o.0 != key,
{
    let after = with_width(widths, key, width);
    lemma_width_slot_found(widths, key);
    let slot = width_slot(widths, key) as int;
    assert(after[slot] == (key, width));
    if widths.contains(other) {
        let i = widths.index_of(other);
        assert(after[i] == other);
    }
    if after.contains(other) {
        let i = after.index_of(other);
        assert(widths[i] == other);
    }
    assert forall|o: (Seq<char>, u32)| #[trigger]
        widths.filter(other_column(key)).contains(o) <==> widths.contains(o) && o.0 != key by {
        lemma_filtered(widths, key, o);
    }
}

proof fn lemma_filtered(widths: Seq<(Seq<char>, u32)>, key: Seq<char>, o: (Seq<char>, u32))
    ensures
        widths.filter(other_column(key)).contains(o) <==> widths.contains(o) && o.0 != key,
    decreases widths.len(),
{
    reveal(Seq::filter);
    if widths.len() > 0 {
        let rest = widths.drop_last();
        let last = widths.last();
        lemma_filtered(rest, key, o);
        let before = rest.filter(other_column(key));
        let after = widths.filter(other_column(key));
        if rest.contains(o) {
            assert(widths[rest.index_of(o)] == o);
        }
        if widths.contains(o) && o != last {
            assert(rest[widths.index_of(o)] == o);
        }
        if o == last {
            assert(widths[rest.len() as int] == o);
        }
        if last.0 != key {
            assert(after == before.push(last));
            assert(after[before.len() as int] == last);
            if before.contains(o) {
                assert(after[before.index_of(o)] == o);
            }
            if after.contains(o) && o != last {
                assert(before[after.index_of(o)] == o);
            }
        }
    }
}

proof fn lemma_width_slot_found(widths: Seq<(Seq<char>, u32)>, key: Seq<char>)
    ensures
        width_slot(widths, key) <= widths.len(),
        width_slot(widths, key) < widths.len() ==> widths[width_slot(widths, key) as int].0 == key,
    decreases widths.len(),
{
    if widths.len() > 0 && widths[0].0 != key {
        lemma_width_slot_found(widths.skip(1), key);
    }
}

/// The stored text of a list of columns.
pub fn encode_column_order(column_order: &Vec<String>) -> (r: Result<String, String>)
    ensures
        r is Ok,
        r->Ok_0@ == json_texts(texts(column_order@)),
        stored_order(Some(r->Ok_0@)) == Some(texts(column_order@)),
{
    let text = write_texts(column_order);
    proof {
        lemma_not_blank(text->Ok_0@);
    }
    text
}

/// The list of columns that a stored text holds; none where nothing was stored or the text does
/// not hold one.
pub open spec fn stored_order(raw: Option<Seq<char>>) -> Option<Seq<Seq<char>>> {
    match raw {
        Some(text) => if blank(text) {
            None
        } else {
            parsed_texts(text)
        },
        None => None,
    }
}

/// The list of columns that a stored text holds.
pub fn decode_column_order(raw: Option<String>) -> (r: Option<Vec<String>>)
    ensures
        (match r {
            Some(order) => Some(texts(order@)),
            None => None,
        }) == stored_order(option_text(raw)),
{
    match raw {
        Some(text) => {
            if is_blank(text.as_str()) {
                None
            } else {
                parse_texts(text.as_str())
            }
        },
        None => None,
    }
}

/// A column that a database of an earlier version may lack.
#[derive(Debug, Clone, Copy, PartialEq, Eq, Structural)]
pub enum SchemaColumn {
    TrackPlaylist,
    PlaylistColumnOrder,
    PlaylistColumnWidths,
    LibraryGenre,
    LibraryFileSize,
    LibraryMetadataReady,
    LibraryLastScanned,
    EnrichmentErrorKind,
    EnrichmentAttemptKind,
    EnrichmentConclusive,
}

/// The tables that have such columns.
#[derive(Debug, Clone, Copy, PartialEq, Eq, Structural)]
pub enum SchemaTable {
    Tracks,
    Playlists,
    LibraryTracks,
    EnrichmentCache,
}

/// The names of the columns that the tables have.
#[derive(Debug, PartialEq, Eq)]
pub struct TableColumns {
    pub tracks: Vec<String>,
    pub playlists: Vec<String>,
    pub library_tracks: Vec<String>,
    pub enrichment_cache: Vec<String>,
}

/// The contents of [`TableColumns`].
#[verifier::ext_equal]
pub struct TablesView {
    pub tracks: Seq<Seq<char>>,
    pub playlists: Seq<Seq<char>>,
    pub library_tracks: Seq<Seq<char>>,
    pub enrichment_cache: Seq<Seq<char>>,
}

impl View for TableColumns {
    type V = TablesView;

    open spec fn view(&self) -> TablesView {
        TablesView {
            tracks: texts(self.tracks@),
            playlists: texts(self.playlists@),
            library_tracks: texts(self.library_tracks@),
            enrichment_cache: texts(self.enrichment_cache@),
        }
    }
}

pub open spec fn columns_in(tables: TablesView, table: SchemaTable) -> Seq<Seq<char>> {
    match table {
        SchemaTable::Tracks => tables.tracks,
        SchemaTable::Playlists => tables.playlists,
        SchemaTable::LibraryTracks => tables.library_tracks,
        SchemaTable::EnrichmentCache => tables.enrichment_cache,
    }
}

pub open spec fn table_of(column: SchemaColumn) -> SchemaTable {
    match column {
        SchemaColumn::TrackPlaylist => SchemaTable::Tracks,
        SchemaColumn::PlaylistColumnOrder => SchemaTable::Playlists,
        SchemaColumn::PlaylistColumnWidths => SchemaTable::Playlists,
        SchemaColumn::LibraryGenre => SchemaTable::LibraryTracks,
        SchemaColumn::LibraryFileSize => SchemaTable::LibraryTracks,
        SchemaColumn::LibraryMetadataReady => SchemaTable::LibraryTracks,
        SchemaColumn::LibraryLastScanned => SchemaTable::LibraryTracks,
        SchemaColumn::EnrichmentErrorKind => SchemaTable::EnrichmentCache,
        SchemaColumn::EnrichmentAttemptKind => SchemaTable::EnrichmentCache,
        SchemaColumn::EnrichmentConclusive => SchemaTable::EnrichmentCache,
    }
}

pub open spec fn column_name(column: SchemaColumn) -> Seq<char> {
    match column {
        SchemaColumn::TrackPlaylist => "playlist_id"@,
        SchemaColumn::PlaylistColumnOrder => "column_order"@,
        SchemaColumn::PlaylistColumnWidths => "column_width_overrides"@,
        SchemaColumn::LibraryGenre => "genre"@,
        SchemaColumn::LibraryFileSize => "file_size_bytes"@,
        SchemaColumn::LibraryMetadataReady => "metadata_ready"@,
        SchemaColumn::LibraryLastScanned => "last_scanned_unix_ms"@,
        SchemaColumn::EnrichmentErrorKind => "error_kind"@,
        SchemaColumn::EnrichmentAttemptKind => "attempt_kind"@,
        SchemaColumn::EnrichmentConclusive => "conclusive"@,
    }
}

/// The columns that the database must have, in the order in which they are added.
pub open spec fn all_columns() -> Seq<SchemaColumn> {
    seq![
        SchemaColumn::TrackPlaylist,
        SchemaColumn::PlaylistColumnOrder,
        SchemaColumn::PlaylistColumnWidths,
        SchemaColumn::LibraryGenre,
        SchemaColumn::LibraryFileSize,
        SchemaColumn::LibraryMetadataReady,
        SchemaColumn::LibraryLastScanned,
        SchemaColumn::EnrichmentErrorKind,
        SchemaColumn::EnrichmentAttemptKind,
        SchemaColumn::EnrichmentConclusive,
    ]
}

pub open spec fn lacks(tables: TablesView) -> spec_fn(SchemaColumn) -> bool {
    |column: SchemaColumn| !columns_in(tables, table_of(column)).contains(column_name(column))
}

/// The columns that the database lacks.
pub open spec fn lacking(tables: TablesView) -> Seq<SchemaColumn> {
    all_columns().filter(lacks(tables))
}

/// The statement that adds a column.
pub fn add_statement(column: SchemaColumn) -> (r: &'static str)
    ensures
        r@ == statement_of(column),
{
    match column {
        SchemaColumn::TrackPlaylist => "ALTER TABLE tracks ADD COLUMN playlist_id TEXT",
        SchemaColumn::PlaylistColumnOrder => "ALTER TABLE playlists ADD COLUMN column_order TEXT",
        SchemaColumn::PlaylistColumnWidths => "ALTER TABLE playlists ADD COLUMN column_width_overrides TEXT",
        SchemaColumn::LibraryGenre => "ALTER TABLE library_tracks ADD COLUMN genre TEXT NOT NULL DEFAULT ''",
        SchemaColumn::LibraryFileSize => "ALTER TABLE library_tracks ADD COLUMN file_size_bytes INTEGER NOT NULL DEFAULT 0",
        SchemaColumn::LibraryMetadataReady => "ALTER TABLE library_tracks ADD COLUMN metadata_ready INTEGER NOT NULL DEFAULT 0",
        SchemaColumn::LibraryLastScanned => "ALTER TABLE library_tracks ADD COLUMN last_scanned_unix_ms INTEGER NOT NULL DEFAULT 0",
        SchemaColumn::EnrichmentErrorKind => "ALTER TABLE library_enrichment_cache ADD COLUMN error_kind TEXT NOT NULL DEFAULT ''",
        SchemaColumn::EnrichmentAttemptKind => "ALTER TABLE library_enrichment_cache ADD COLUMN attempt_kind TEXT NOT NULL DEFAULT ''",
        SchemaColumn::EnrichmentConclusive => "ALTER TABLE library_enrichment_cache ADD COLUMN conclusive INTEGER NOT NULL DEFAULT 1",
    }
}

pub open spec fn statement_of(column: SchemaColumn) -> Seq<char> {
    match column {
        SchemaColumn::TrackPlaylist => "ALTER TABLE tracks ADD COLUMN playlist_id TEXT"@,
        SchemaColumn::PlaylistColumnOrder => "ALTER TABLE playlists ADD COLUMN column_order TEXT"@,
        SchemaColumn::PlaylistColumnWidths => "ALTER TABLE playlists ADD COLUMN column_width_overrides TEXT"@,
        SchemaColumn::LibraryGenre => "ALTER TABLE library_tracks ADD COLUMN genre TEXT NOT NULL DEFAULT ''"@,
        SchemaColumn::LibraryFileSize => "ALTER TABLE library_tracks ADD COLUMN file_size_bytes INTEGER NOT NULL DEFAULT 0"@,
        SchemaColumn::LibraryMetadataReady => "ALTER TABLE library_tracks ADD COLUMN metadata_ready INTEGER NOT NULL DEFAULT 0"@,
        SchemaColumn::LibraryLastScanned => "ALTER TABLE library_tracks ADD COLUMN last_scanned_unix_ms INTEGER NOT NULL DEFAULT 0"@,
        SchemaColumn::EnrichmentErrorKind => "ALTER TABLE library_enrichment_cache ADD COLUMN error_kind TEXT NOT NULL DEFAULT ''"@,
        SchemaColumn::EnrichmentAttemptKind => "ALTER TABLE library_enrichment_cache ADD COLUMN attempt_kind TEXT NOT NULL DEFAULT ''"@,
        SchemaColumn::EnrichmentConclusive => "ALTER TABLE library_enrichment_cache ADD COLUMN conclusive INTEGER NOT NULL DEFAULT 1"@,
    }
}

/// Where tracks did not belong to playlists, a playlist is made that takes them all.
pub fn adopts_tracks(column: SchemaColumn) -> (r: bool)
    ensures
        r == (column == SchemaColumn::TrackPlaylist),
{
    column == SchemaColumn::TrackPlaylist
}

/// A database without playlists is given one.
pub fn needs_default_playlist(playlist_count: i64) -> (r: bool)
    ensures
        r == (playlist_count == 0),
{
    playlist_count == 0
}

fn has_column(columns: &Vec<String>, name: &str) -> (r: bool)
    ensures
        r == texts(columns@).contains(name@),
{
    let mut i: usize = 0;
    while i < columns.len()
        invariant
            i <= columns.len(),
            forall|k: int| 0 <= k < i ==> #[trigger] texts(columns@)[k] != name@,
        decreases columns.len() - i,
    {
        assert(texts(columns@)[i as int] == columns@[i as int]@);
        if text_equal(columns[i].as_str(), name) {
            return true;
        }
        i += 1;
    }
    false
}

fn has_schema_column(tables: &TableColumns, column: SchemaColumn) -> (r: bool)
    ensures
        r == !lacks(tables@)(column),
{
    match column {
        SchemaColumn::TrackPlaylist => has_column(&tables.tracks, "playlist_id"),
        SchemaColumn::PlaylistColumnOrder => has_column(&tables.playlists, "column_order"),
        SchemaColumn::PlaylistColumnWidths => has_column(&tables.playlists, "column_width_overrides"),
        SchemaColumn::LibraryGenre => has_column(&tables.library_tracks, "genre"),
        SchemaColumn::LibraryFileSize => has_column(&tables.library_tracks, "file_size_bytes"),
        SchemaColumn::LibraryMetadataReady => has_column(&tables.library_tracks, "metadata_ready"),
        SchemaColumn::LibraryLastScanned => has_column(&tables.library_tracks, "last_scanned_unix_ms"),
        SchemaColumn::EnrichmentErrorKind => has_column(&tables.enrichment_cache, "error_kind"),
        SchemaColumn::EnrichmentAttemptKind => has_column(&tables.enrichment_cache, "attempt_kind"),
        SchemaColumn::EnrichmentConclusive => has_column(&tables.enrichment_cache, "conclusive"),
    }
}

fn every_column() -> (r: Vec<SchemaColumn>)
    ensures
        r@ == all_columns(),
{
    let mut out: Vec<SchemaColumn> = Vec::new();
    out.push(SchemaColumn::TrackPlaylist);
    out.push(SchemaColumn::PlaylistColumnOrder);
    out.push(SchemaColumn::PlaylistColumnWidths);
    out.push(SchemaColumn::LibraryGenre);
    out.push(SchemaColumn::LibraryFileSize);
    out.push(SchemaColumn::LibraryMetadataReady);
    out.push(SchemaColumn::LibraryLastScanned);
    out.push(SchemaColumn::EnrichmentErrorKind);
    out.push(SchemaColumn::EnrichmentAttemptKind);
    out.push(SchemaColumn::EnrichmentConclusive);
    assert(out@ =~= all_columns());
    out
}

/// The columns that the database lacks, in the order in which they are added.
pub fn missing_columns(tables: &TableColumns) -> (r: Vec<SchemaColumn>)
    ensures
        r@ == lacking(tables@),
{
    let all = every_column();
    let mut out: Vec<SchemaColumn> = Vec::new();
    let mut i: usize = 0;
    proof {
        reveal(Seq::filter);
        assert(all@.take(0) =~= Seq::empty());
        assert(out@ =~= all@.take(0).filter(lacks(tables@)));
    }
    while i < all.len()
        invariant
            i <= all.len(),
            all@ == all_columns(),
            out@ == all@.take(i as int).filter(lacks(tables@)),
        decreases all.len() - i,
    {
        proof {
            reveal(Seq::filter);
            assert(all@.take(i + 1).drop_last() =~= all@.take(i as int));
        }
        if !has_schema_column(tables, all[i]) {
            out.push(all[i]);
        }
        i += 1;
    }
    assert(all@.take(i as int) =~= all@);
    out
}

/// The tables once columns have been added.
pub open spec fn with_columns(tables: TablesView, added: Seq<SchemaColumn>) -> TablesView
    decreases added.len(),
{
    if added.len() == 0 {
        tables
    } else {
        let before = with_columns(tables, added.drop_last());
        let column = added.last();
        let name = column_name(column);
        match table_of(column) {
            SchemaTable::Tracks => TablesView { tracks: before.tracks.push(name), ..before },
            SchemaTable::Playlists => TablesView {
                playlists: before.playlists.push(name),
                ..before
            },
            SchemaTable::LibraryTracks => TablesView {
                library_tracks: before.library_tracks.push(name),
                ..before
            },
            SchemaTable::EnrichmentCache => TablesView {
                enrichment_cache: before.enrichment_cache.push(name),
                ..before
            },
        }
    }
}

proof fn lemma_with_columns(tables: TablesView, added: Seq<SchemaColumn>, column: SchemaColumn)
    ensures
        (!lacks(tables)(column) || added.contains(column)) ==> !lacks(with_columns(tables, added))(
            column,
        ),
    decreases added.len(),
{
    if added.len() > 0 {
        let rest = added.drop_last();
        lemma_with_columns(tables, rest, column);
        let before = columns_in(with_columns(tables, rest), table_of(column));
        let after = columns_in(with_columns(tables, added), table_of(column));
        let name = column_name(column);
        if added.last() == column {
            assert(after[before.len() as int] == name);
        } else {
            if added.contains(column) {
                let i = added.index_of(column);
                assert(rest[i] == column);
            }
            if before.contains(name) {
                let i = before.index_of(name);
                assert(after[i] == name);
            }
        }
    }
}

/// Once the missing columns have been added, none is missing.
pub proof fn migrated_databases_lack_nothing(tables: TablesView)
    ensures
        lacking(with_columns(tables, lacking(tables))).len() == 0,
{
    broadcast use vstd::seq_lib::group_filter_ensures;

    let added = lacking(tables);
    let after = with_columns(tables, added);
    let left = lacking(after);
    if left.len() > 0 {
        let column = left[0];
        assert(left.contains(column));
        assert(lacks(after)(column));
        assert(all_columns().contains(column));
        let i = all_columns().index_of(column);
        if lacks(tables)(column) {
            assert(all_columns()[i] == column);
            assert(added.contains(column));
        }
        lemma_with_columns(tables, added, column);
    }
}

/// One step of bringing a database of an earlier version up to date.
#[derive(Debug, Clone, Copy, PartialEq, Eq, Structural)]
pub enum MigrationStep {
    /// A column is added with [`add_statement`]; it is empty in every row.
    AddColumn(SchemaColumn),
    /// A playlist named "Default" is added, and takes the tracks that belong to none.
    AdoptTracks,
    /// A playlist named "Default" is added.
    AddPlaylist,
}

/// What a migration looks at: the columns, the playlists by id and name, and the playlist of
/// each track, if it belongs to one.
#[verifier::ext_equal]
pub struct StoreView {
    pub tables: TablesView,
    pub playlists: Seq<(Seq<char>, Seq<char>)>,
    pub tracks: Seq<Option<Seq<char>>>,
}

impl StoreView {
    /// Without the column, no track belongs to a playlist.
    pub open spec fn wf(self) -> bool {
        lacks(self.tables)(SchemaColumn::TrackPlaylist) ==> forall|i: int|
            0 <= i < self.tracks.len() ==> (#[trigger] self.tracks[i]) is None
    }
}

/// The store after one step. `id` is the id of a new playlist.
pub open spec fn after_step(store: StoreView, step: MigrationStep, id: Seq<char>) -> StoreView {
    match step {
        MigrationStep::AddColumn(column) => StoreView {
            tables: with_columns(store.tables, seq![column]),
            ..store
        },
        MigrationStep::AdoptTracks => StoreView {
            playlists: store.playlists.push((id, "Default"@)),
            tracks: store.tracks.map_values(
                |owner: Option<Seq<char>>|
                    if owner is None {
                        Some(id)
                    } else {
                        owner
                    },
            ),
            ..store
        },
        MigrationStep::AddPlaylist => StoreView {
            playlists: store.playlists.push((id, "Default"@)),
            ..store
        },
    }
}

/// The store after some steps.
pub open spec fn after_steps(store: StoreView, steps: Seq<MigrationStep>, id: Seq<char>) -> StoreView
    decreases steps.len(),
{
    if steps.len() == 0 {
        store
    } else {
        after_step(after_steps(store, steps.drop_last(), id), steps.last(), id)
    }
}

/// The steps that add columns. Where tracks did not belong to playlists, the tracks are adopted.
pub open spec fn column_steps(columns: Seq<SchemaColumn>) -> Seq<MigrationStep>
    decreases columns.len(),
{
    if columns.len() == 0 {
        Seq::empty()
    } else {
        let before = column_steps(columns.drop_last()).push(MigrationStep::AddColumn(columns.last()));
        if columns.last() == SchemaColumn::TrackPlaylist {
            before.push(MigrationStep::AdoptTracks)
        } else {
            before
        }
    }
}

/// The steps of a migration: the columns that are missing, and a playlist where there is none.
pub open spec fn steps_for(tables: TablesView, playlist_count: int) -> Seq<MigrationStep> {
    let steps = column_steps(lacking(tables));
    if playlist_count == 0 && !lacking(tables).contains(SchemaColumn::TrackPlaylist) {
        steps.push(MigrationStep::AddPlaylist)
    } else {
        steps
    }
}

/// The store after a migration.
pub open spec fn migrated(store: StoreView, id: Seq<char>) -> StoreView {
    after_steps(store, steps_for(store.tables, store.playlists.len() as int), id)
}

/// The steps that bring a database up to date, in order.
pub fn migration_steps(tables: &TableColumns, playlist_count: i64) -> (r: Vec<MigrationStep>)
    ensures
        r@ == steps_for(tables@, playlist_count as int),
{
    let columns = missing_columns(tables);
    let mut steps: Vec<MigrationStep> = Vec::new();
    let mut adopted = false;
    let mut i: usize = 0;
    assert(steps@ =~= column_steps(columns@.take(0)));
    while i < columns.len()
        invariant
            i <= columns.len(),
            steps@ == column_steps(columns@.take(i as int)),
            adopted == columns@.take(i as int).contains(SchemaColumn::TrackPlaylist),
        decreases columns.len() - i,
    {
        let ghost before = columns@.take(i as int);
        let ghost after = columns@.take(i + 1);
        proof {
            assert(after.drop_last() =~= before);
            assert(after[i as int] == columns@[i as int]);
            if before.contains(SchemaColumn::TrackPlaylist) {
                let k = before.index_of(SchemaColumn::TrackPlaylist);
                assert(after[k] == SchemaColumn::TrackPlaylist);
            }
            if after.contains(SchemaColumn::TrackPlaylist) && columns@[i as int]
                != SchemaColumn::TrackPlaylist {
                let k = after.index_of(SchemaColumn::TrackPlaylist);
                assert(before[k] == SchemaColumn::TrackPlaylist);
            }
        }
        steps.push(MigrationStep::AddColumn(columns[i]));
        if adopts_tracks(columns[i]) {
            steps.push(MigrationStep::AdoptTracks);
            adopted = true;
        }
        i += 1;
    }
    assert(columns@.take(i as int) =~= columns@);
    if !adopted && needs_default_playlist(playlist_count) {
        steps.push(MigrationStep::AddPlaylist);
    }
    steps
}

/// Steps that are taken one after the other.
proof fn lemma_one_more_step(
    store: StoreView,
    steps: Seq<MigrationStep>,
    step: MigrationStep,
    id: Seq<char>,
)
    ensures
        after_steps(store, steps.push(step), id) == after_step(
            after_steps(store, steps, id),
            step,
            id,
        ),
{
    assert(steps.push(step).drop_last() =~= steps);
}

proof fn lemma_columns_added(store: StoreView, columns: Seq<SchemaColumn>, id: Seq<char>)
    requires
        columns.no_duplicates(),
        columns.contains(SchemaColumn::TrackPlaylist) ==> forall|i: int|
            0 <= i < store.tracks.len() ==> (#[trigger] store.tracks[i]) is None,
    ensures
        ({
            let after = after_steps(store, column_steps(columns), id);
            let adopts = columns.contains(SchemaColumn::TrackPlaylist);
            &&& after.tables == with_columns(store.tables, columns)
            &&& after.playlists == (if adopts {
                store.playlists.push((id, "Default"@))
            } else {
                store.playlists
            })
            &&& after.tracks == (if adopts {
                Seq::new(store.tracks.len(), |i: int| Some(id))
            } else {
                store.tracks
            })
        }),
    decreases columns.len(),
{
    if columns.len() > 0 {
        let rest = columns.drop_last();
        let last = columns.last();
        let first = column_steps(rest);
        let added = first.push(MigrationStep::AddColumn(last));
        if rest.contains(SchemaColumn::TrackPlaylist) {
            let i = rest.index_of(SchemaColumn::TrackPlaylist);
            assert(columns[i] == SchemaColumn::TrackPlaylist);
            assert(columns[i] != columns[columns.len() - 1]);
        }
        if columns.contains(SchemaColumn::TrackPlaylist) && last != SchemaColumn::TrackPlaylist {
            let i = columns.index_of(SchemaColumn::TrackPlaylist);
            assert(rest[i] == SchemaColumn::TrackPlaylist);
        }
        if last == SchemaColumn::TrackPlaylist {
            assert(columns[columns.len() - 1] == SchemaColumn::TrackPlaylist);
        }
        assert(rest.no_duplicates());
        lemma_columns_added(store, rest, id);
        lemma_one_more_step(store, first, MigrationStep::AddColumn(last), id);
        let tables = with_columns(store.tables, rest);
        assert(seq![last].drop_last() =~= Seq::empty());
        assert(with_columns(tables, seq![last].drop_last()) == tables);
        assert(with_columns(tables, seq![last]) =~= with_columns(store.tables, columns));
        if last == SchemaColumn::TrackPlaylist {
            lemma_one_more_step(store, added, MigrationStep::AdoptTracks, id);
            let after = after_steps(store, column_steps(columns), id);
            assert(after.tracks =~= Seq::new(store.tracks.len(), |i: int| Some(id)));
        }
    }
}

proof fn lemma_filter_distinct(columns: Seq<SchemaColumn>, keep: spec_fn(SchemaColumn) -> bool)
    requires
        columns.no_duplicates(),
    ensures
        columns.filter(keep).no_duplicates(),
    decreases columns.len(),
{
    reveal(Seq::filter);
    if columns.len() > 0 {
        let rest = columns.drop_last();
        lemma_filter_distinct(rest, keep);
        let kept = rest.filter(keep);
        assert forall|i: int| 0 <= i < kept.len() implies #[trigger] kept[i] != columns.last() by {
            assert(kept.contains(kept[i]));
            rest.lemma_filter_contains_rev(keep, kept[i]);
            let k = rest.index_of(kept[i]);
            assert(columns[k] != columns[columns.len() - 1]);
        }
    }
}

proof fn lemma_lacking(tables: TablesView)
    ensures
        lacking(tables).no_duplicates(),
        lacking(tables).contains(SchemaColumn::TrackPlaylist) == lacks(tables)(
            SchemaColumn::TrackPlaylist,
        ),
{
    broadcast use vstd::seq_lib::group_filter_ensures;

    let column = SchemaColumn::TrackPlaylist;
    lemma_filter_distinct(all_columns(), lacks(tables));
    assert(all_columns()[0] == column);
    if lacking(tables).contains(column) {
        let i = lacking(tables).index_of(column);
        assert(lacks(tables)(lacking(tables)[i]));
    }
}

/// A migrated database has a playlist. One named "Default" was added where there was none or where
/// the tracks did not belong to playlists, and then it takes every track; all earlier playlists
/// are kept.
pub proof fn migrating_gives_a_playlist(store: StoreView, id: Seq<char>)
    requires
        store.wf(),
    ensures
        ({
            let after = migrated(store, id);
            let adopts = lacks(store.tables)(SchemaColumn::TrackPlaylist);
            &&& after.playlists.len() > 0
            &&& after.playlists == (if adopts || store.playlists.len() == 0 {
                store.playlists.push((id, "Default"@))
            } else {
                store.playlists
            })
            &&& after.tracks == (if adopts {
                Seq::new(store.tracks.len(), |i: int| Some(id))
            } else {
                store.tracks
            })
            &&& after.tables == with_columns(store.tables, lacking(store.tables))
        }),
{
    let columns = lacking(store.tables);
    lemma_lacking(store.tables);
    lemma_columns_added(store, columns, id);
    lemma_one_more_step(store, column_steps(columns), MigrationStep::AddPlaylist, id);
}

/// Migrating a second time takes no step, and so changes nothing.
pub proof fn migrating_twice_changes_nothing(store: StoreView, id: Seq<char>, second_id: Seq<char>)
    requires
        store.wf(),
    ensures
        ({
            let after = migrated(store, id);
            &&& steps_for(after.tables, after.playlists.len() as int).len() == 0
            &&& migrated(after, second_id) == after
        }),
{
    migrating_gives_a_playlist(store, id);
    migrated_databases_lack_nothing(store.tables);
}

/// A payload that was stored as a row comes back from it, field by field.
pub proof fn stored_payloads_come_back(row: EnrichmentRow, payload: PayloadView)
    requires
        match payload.entity {
            EntityView::Artist { artist } => true,
            EntityView::Album { album, album_artist } => !album.contains(ENTITY_KEY_SEPARATOR),
        },
        row.entity_type@ == entity_parts(payload.entity).0,
        row.entity_key@ == entity_parts(payload.entity).1,
        row.status@ == status_word(payload.status),
        row.blurb@ == payload.blurb,
        option_text(row.image_path) == payload.image_path,
        row.source_name@ == payload.source_name,
        row.source_url@ == payload.source_url,
        row.error_kind@ == error_word(payload.error_kind),
        row.attempt_kind@ == attempt_word(payload.attempt_kind),
    ensures
        row_payload(row) == payload,
{
    stored_entities_come_back(payload.entity);
    stored_words_come_back(payload.status, payload.error_kind, payload.attempt_kind);
}

/// Each column is added to its own table under its own name.
pub proof fn columns_are_added_to_their_table()
    ensures
        statement_of(SchemaColumn::TrackPlaylist)
            == "ALTER TABLE tracks ADD COLUMN playlist_id TEXT"@,
        statement_of(SchemaColumn::PlaylistColumnOrder)
            == "ALTER TABLE playlists ADD COLUMN column_order TEXT"@,
        statement_of(SchemaColumn::PlaylistColumnWidths)
            == "ALTER TABLE playlists ADD COLUMN column_width_overrides TEXT"@,
        statement_of(SchemaColumn::LibraryGenre)
            == "ALTER TABLE library_tracks ADD COLUMN genre TEXT NOT NULL DEFAULT ''"@,
        statement_of(SchemaColumn::LibraryFileSize)
            == "ALTER TABLE library_tracks ADD COLUMN file_size_bytes INTEGER NOT NULL DEFAULT 0"@,
        statement_of(SchemaColumn::LibraryMetadataReady)
            == "ALTER TABLE library_tracks ADD COLUMN metadata_ready INTEGER NOT NULL DEFAULT 0"@,
        statement_of(SchemaColumn::LibraryLastScanned)
            == "ALTER TABLE library_tracks ADD COLUMN last_scanned_unix_ms INTEGER NOT NULL DEFAULT 0"@,
        statement_of(SchemaColumn::EnrichmentErrorKind)
            == "ALTER TABLE library_enrichment_cache ADD COLUMN error_kind TEXT NOT NULL DEFAULT ''"@,
        statement_of(SchemaColumn::EnrichmentAttemptKind)
            == "ALTER TABLE library_enrichment_cache ADD COLUMN attempt_kind TEXT NOT NULL DEFAULT ''"@,
        statement_of(SchemaColumn::EnrichmentConclusive)
            == "ALTER TABLE library_enrichment_cache ADD COLUMN conclusive INTEGER NOT NULL DEFAULT 1"@,
        column_name(SchemaColumn::TrackPlaylist) == "playlist_id"@,
        column_name(SchemaColumn::LibraryGenre) == "genre"@,
        column_name(SchemaColumn::LibraryFileSize) == "file_size_bytes"@,
        column_name(SchemaColumn::LibraryMetadataReady) == "metadata_ready"@,
        column_name(SchemaColumn::LibraryLastScanned) == "last_scanned_unix_ms"@,
        column_name(SchemaColumn::EnrichmentErrorKind) == "error_kind"@,
        column_name(SchemaColumn::EnrichmentAttemptKind) == "attempt_kind"@,
        column_name(SchemaColumn::EnrichmentConclusive) == "conclusive"@,
        column_name(SchemaColumn::PlaylistColumnOrder) == "column_order"@,
        column_name(SchemaColumn::PlaylistColumnWidths) == "column_width_overrides"@,
{
}

/// An order of columns that is missing or blank is none; any other is what its text lists.
pub proof fn blank_orders_are_none(text: Seq<char>)
    ensures
        stored_order(None) is None,
        blank(text) ==> stored_order(Some(text)) is None,
        !blank(text) ==> stored_order(Some(text)) == parsed_texts(text),
{
}

/// Tracks that belong to a playlist stay in it; only those that belong to none are taken into
/// the new one.
pub proof fn only_orphans_are_adopted(store: StoreView, id: Seq<char>, i: int)
    requires
        0 <= i < store.tracks.len(),
    ensures
        ({
            let after = after_step(store, MigrationStep::AdoptTracks, id);
            &&& after.tracks.len() == store.tracks.len()
            &&& store.tracks[i] is Some ==> after.tracks[i] == store.tracks[i]
            &&& store.tracks[i] is None ==> after.tracks[i] == Some(id)
            &&& after.tables == store.tables
        }),
        after_step(store, MigrationStep::AddPlaylist, id).tracks == store.tracks,
        after_step(store, MigrationStep::AddPlaylist, id).tables == store.tables,
{
}

} // verus!
