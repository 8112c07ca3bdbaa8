//! What the online sources reply.

use crate::json::{
    items_of, json_result, member, parse_json, parsed_json, text_of, trees, Json, JsonFailure,
    JsonView,
};
use crate::library::enrichment::LibraryEnrichmentManager;
use crate::library::outcome::{RETRY_REASON_HARD_PREFIX, RETRY_REASON_NOT_FOUND_PREFIX};
use crate::library::scoring::{
    AlbumCandidateView, ArtistCandidateView, AudioDbAlbumCandidate, AudioDbArtistCandidate,
    SummaryView, WikiSummary,
};
use crate::percent::{percent_encode, percent_encoded};
use crate::text::{
    append, blank, chars_of, copy_range, option_text, owned, string_of, text_equal, texts, trim,
    trim_chars, trim_text,
};
use vstd::prelude::*;

verus! {

/// The trimmed text of a member, if it is a string that is not blank.
pub open spec fn filled_text(item: JsonView, key: Seq<char>) -> Option<Seq<char>> {
    match text_of(member(item, key)) {
        Some(text) => if blank(text) {
            None
        } else {
            Some(trim(text))
        },
        None => None,
    }
}

pub open spec fn filled_texts(key: Seq<char>) -> spec_fn(JsonView) -> Option<Seq<char>> {
    |item: JsonView| filled_text(item, key)
}

/// The trimmed texts of the members of a list that are strings and not blank.
pub open spec fn listed_texts(list: JsonView, key: Seq<char>) -> Seq<Seq<char>> {
    match items_of(list) {
        Some(items) => items.filter_map(filled_texts(key)),
        None => Seq::empty(),
    }
}

/// The titles in the reply to a title search.
pub open spec fn titles_in(reply: JsonView) -> Seq<Seq<char>> {
    listed_texts(member(member(reply, "query"@), "search"@), "title"@) + listed_texts(
        member(reply, "pages"@),
        "title"@,
    ) + listed_texts(member(reply, "results"@), "title"@)
}

/// The trimmed text of a member; empty where it is no string.
pub open spec fn trimmed_text(item: JsonView, key: Seq<char>) -> Seq<char> {
    match text_of(member(item, key)) {
        Some(text) => trim(text),
        None => Seq::empty(),
    }
}

/// The title of a page in a summary reply; the title asked for where the page gives none.
pub open spec fn page_title(page: JsonView, asked: Seq<char>) -> Seq<char> {
    match text_of(member(page, "title"@)) {
        Some(text) => trim(text),
        None => trim(asked),
    }
}

pub open spec fn page_summary(page: JsonView, asked: Seq<char>) -> SummaryView {
    let mark = member(member(page, "pageprops"@), "disambiguation"@);
    SummaryView {
        title: page_title(page, asked),
        description: trimmed_text(page, "description"@),
        extract: trimmed_text(page, "extract"@),
        canonical_url: trimmed_text(page, "fullurl"@),
        image_url: text_of(member(member(page, "thumbnail"@), "source"@)),
        page_type: if mark is Text || mark is Object {
            "disambiguation"@
        } else {
            Seq::empty()
        },
        categories: listed_texts(member(page, "categories"@), "title"@),
    }
}

/// The first page of a summary reply that exists and has a title.
pub open spec fn first_page(pages: Seq<(Seq<char>, JsonView)>, asked: Seq<char>) -> Option<
    SummaryView,
>
    decreases pages.len(),
{
    if pages.len() == 0 {
        None
    } else if pages[0].0 == "-1"@ || page_title(pages[0].1, asked).len() == 0 {
        first_page(pages.drop_first(), asked)
    } else {
        Some(page_summary(pages[0].1, asked))
    }
}

/// The page in a summary reply, or the reason why there is none.
pub open spec fn summary_in(reply: JsonView, asked: Seq<char>) -> Result<SummaryView, Seq<char>> {
    match member(member(reply, "query"@), "pages"@) {
        JsonView::Object(pages) => match first_page(pages, asked) {
            Some(page) => Ok(page),
            None => Err(
                RETRY_REASON_NOT_FOUND_PREFIX@ + ("Wikipedia page not found for '"@ + asked + "'"@),
            ),
        },
        _ => Err(RETRY_REASON_NOT_FOUND_PREFIX@ + "Wikipedia summary response missing pages"@),
    }
}

/// The reason of a reply that is no JSON.
pub open spec fn bad_json_reason(message: Seq<char>) -> Seq<char> {
    RETRY_REASON_HARD_PREFIX@ + ("Invalid JSON response: "@ + message)
}

/// The image address of an artist record: the thumbnail, else one of the fan art images.
pub open spec fn record_image(record: JsonView) -> Option<Seq<char>> {
    if filled_text(record, "strArtistThumb"@) is Some {
        filled_text(record, "strArtistThumb"@)
    } else if filled_text(record, "strArtistFanart"@) is Some {
        filled_text(record, "strArtistFanart"@)
    } else if filled_text(record, "strArtistFanart2"@) is Some {
        filled_text(record, "strArtistFanart2"@)
    } else {
        filled_text(record, "strArtistFanart3"@)
    }
}

/// The page of a record by its identifier; the address asked for where it has none.
pub open spec fn record_url(
    record: JsonView,
    key: Seq<char>,
    base: Seq<char>,
    asked: Seq<char>,
) -> Seq<char> {
    match filled_text(record, key) {
        Some(id) => base + id,
        None => asked,
    }
}

pub open spec fn artist_record(record: JsonView, asked: Seq<char>) -> Option<ArtistCandidateView> {
    let name = trimmed_text(record, "strArtist"@);
    if name.len() == 0 {
        None
    } else {
        Some(
            ArtistCandidateView {
                name,
                biography: trimmed_text(record, "strBiographyEN"@),
                image_url: record_image(record),
                source_url: record_url(
                    record,
                    "idArtist"@,
                    "https://www.theaudiodb.com/artist/"@,
                    asked,
                ),
                genre: trimmed_text(record, "strGenre"@),
            },
        )
    }
}

pub open spec fn artist_record_fn(asked: Seq<char>) -> spec_fn(JsonView) -> Option<
    ArtistCandidateView,
> {
    |record: JsonView| artist_record(record, asked)
}

/// The named artist records of a reply.
pub open spec fn artist_records(reply: JsonView, asked: Seq<char>) -> Seq<ArtistCandidateView> {
    match items_of(member(reply, "artists"@)) {
        Some(items) => items.filter_map(artist_record_fn(asked)),
        None => Seq::empty(),
    }
}

pub open spec fn album_record(record: JsonView, asked: Seq<char>) -> Option<AlbumCandidateView> {
    let album = trimmed_text(record, "strAlbum"@);
    if album.len() == 0 {
        None
    } else {
        Some(
            AlbumCandidateView {
                album,
                artist: trimmed_text(record, "strArtist"@),
                description: trimmed_text(record, "strDescriptionEN"@),
                source_url: record_url(
                    record,
                    "idAlbum"@,
                    "https://www.theaudiodb.com/album/"@,
                    asked,
                ),
            },
        )
    }
}

pub open spec fn album_record_fn(asked: Seq<char>) -> spec_fn(JsonView) -> Option<
    AlbumCandidateView,
> {
    |record: JsonView| album_record(record, asked)
}

/// The named album records of a reply.
pub open spec fn album_records(reply: JsonView, asked: Seq<char>) -> Seq<AlbumCandidateView> {
    match items_of(member(reply, "album"@)) {
        Some(items) => items.filter_map(album_record_fn(asked)),
        None => Seq::empty(),
    }
}

pub open spec fn artist_views(v: Seq<AudioDbArtistCandidate>) -> Seq<ArtistCandidateView> {
    v.map_values(|c: AudioDbArtistCandidate| c@)
}

pub open spec fn album_views(v: Seq<AudioDbAlbumCandidate>) -> Seq<AlbumCandidateView> {
    v.map_values(|c: AudioDbAlbumCandidate| c@)
}

/// A reply of the music database without records.
pub open spec fn no_records(endpoint: Seq<char>) -> JsonView {
    JsonView::Object(
        seq![
            (
                if endpoint == "searchalbum.php"@ {
                    "album"@
                } else {
                    "artists"@
                },
                JsonView::Array(Seq::empty()),
            ),
        ],
    )
}

/// What a reply of the music database stands for, given what the JSON parser makes of it:
/// an empty, non-JSON or cut-off reply has no records, any other bad reply is an error.
pub open spec fn audiodb_payload(
    endpoint: Seq<char>,
    trimmed: Seq<char>,
    parsed: Result<JsonView, (bool, Seq<char>)>,
) -> Result<JsonView, Seq<char>> {
    if trimmed.len() == 0 || trimmed[0] == '<' {
        Ok(no_records(endpoint))
    } else {
        match parsed {
            Ok(value) => Ok(value),
            Err((eof, message)) => if eof {
                Ok(no_records(endpoint))
            } else {
                Err(
                    "Invalid JSON response: "@ + message + "; endpoint="@ + endpoint + "; prefix="@
                        + (if trimmed.len() <= 120 {
                        trimmed
                    } else {
                        trimmed.take(120)
                    }),
                )
            },
        }
    }
}

fn filled_text_at(item: &Json, key: &str) -> (r: Option<String>)
    ensures
        option_text(r) == filled_text(item.tree(), key@),
{
    match item.text_at(key) {
        Some(text) => {
            let trimmed = trim_chars(&chars_of(text));
            if trimmed.len() == 0 {
                None
            } else {
                Some(string_of(&trimmed))
            }
        },
        None => None,
    }
}

fn trimmed_text_at(item: &Json, key: &str) -> (r: String)
    ensures
        r@ == trimmed_text(item.tree(), key@),
{
    match item.text_at(key) {
        Some(text) => trim_text(text),
        None => String::new(),
    }
}

fn push_listed_texts(out: &mut Vec<String>, items: &Vec<Json>, key: &str)
    ensures
        texts(final(out)@) == texts(old(out)@) + trees(items@).filter_map(filled_texts(key@)),
{
    let ghost all = trees(items@);
    let ghost f = filled_texts(key@);
    let mut i: usize = 0;
    assert(texts(out@) =~= texts(old(out)@) + all.take(0).filter_map(f));
    while i < items.len()
        invariant
            i <= items.len(),
            all == trees(items@),
            f == filled_texts(key@),
            texts(out@) == texts(old(out)@) + all.take(i as int).filter_map(f),
        decreases items.len() - i,
    {
        let ghost before = texts(out@);
        proof {
            all.lemma_filter_map_take_succ(f, i as int);
            assert(f(all[i as int]) == filled_text(items@[i as int].tree(), key@));
        }
        match filled_text_at(&items[i], key) {
            Some(text) => {
                assert(texts(out@.push(text)) =~= before.push(text@));
                out.push(text);
            },
            None => {},
        }
        assert(texts(out@) =~= texts(old(out)@) + all.take(i + 1).filter_map(f));
        i += 1;
    }
    assert(all.take(items.len() as int) =~= all);
}

fn push_texts_of_list(out: &mut Vec<String>, holder: &Json, list: &str, key: &str)
    ensures
        texts(final(out)@) == texts(old(out)@) + listed_texts(
            member(holder.tree(), list@),
            key@,
        ),
{
    match holder.array_at(list) {
        Some(items) => push_listed_texts(out, items, key),
        None => {
            assert(texts(out@) + Seq::<Seq<char>>::empty() =~= texts(out@));
        },
    }
}

fn summary_from_page(page: &Json, title: String, asked: &str) -> (r: WikiSummary)
    requires
        title@ == page_title(page.tree(), asked@),
    ensures
        r@ == page_summary(page.tree(), asked@),
{
    let image_url = match page.field("thumbnail") {
        Some(thumbnail) => match thumbnail.text_at("source") {
            Some(url) => Some(owned(url)),
            None => None,
        },
        None => None,
    };
    let marked = match page.field("pageprops") {
        Some(props) => match props.field("disambiguation") {
            Some(Json::Text(_)) => true,
            Some(Json::Object(_)) => true,
            _ => false,
        },
        None => false,
    };
    let page_type = if marked {
        owned("disambiguation")
    } else {
        String::new()
    };
    let mut categories: Vec<String> = Vec::new();
    assert(texts(categories@) =~= Seq::empty());
    push_texts_of_list(&mut categories, page, "categories", "title");
    let summary = WikiSummary {
        title,
        description: trimmed_text_at(page, "description"),
        extract: trimmed_text_at(page, "extract"),
        canonical_url: trimmed_text_at(page, "fullurl"),
        image_url,
        page_type,
        categories,
    };
    assert(summary@.categories =~= page_summary(page.tree(), asked@).categories);
    summary
}

fn joined_text(a: &str, b: &str) -> (r: String)
    ensures
        r@ == a@ + b@,
{
    let mut out = owned(a);
    append(&mut out, b);
    out
}

fn record_url_of(record: &Json, key: &str, base: &str, asked: &str) -> (r: String)
    ensures
        r@ == record_url(record.tree(), key@, base@, asked@),
{
    match filled_text_at(record, key) {
        Some(id) => joined_text(base, &id),
        None => owned(asked),
    }
}

fn record_image_of(record: &Json) -> (r: Option<String>)
    ensures
        option_text(r) == record_image(record.tree()),
{
    let thumb = filled_text_at(record, "strArtistThumb");
    if thumb.is_some() {
        return thumb;
    }
    let first = filled_text_at(record, "strArtistFanart");
    if first.is_some() {
        return first;
    }
    let second = filled_text_at(record, "strArtistFanart2");
    if second.is_some() {
        return second;
    }
    filled_text_at(record, "strArtistFanart3")
}

impl LibraryEnrichmentManager {
    /// The titles in the reply to a title search.
    pub fn extract_title_strings(value: &Json) -> (r: Vec<String>)
        ensures
            texts(r@) == titles_in(value.tree()),
    {
        let mut titles: Vec<String> = Vec::new();
        assert(texts(titles@) =~= Seq::empty());
        match value.field("query") {
            Some(query) => push_texts_of_list(&mut titles, query, "search", "title"),
            None => {},
        }
        assert(texts(titles@) =~= listed_texts(
            member(member(value.tree(), "query"@), "search"@),
            "title"@,
        ));
        push_texts_of_list(&mut titles, value, "pages", "title");
        push_texts_of_list(&mut titles, value, "results", "title");
        titles
    }

    /// The page in a summary reply.
    pub fn extract_summary(value: &Json, title: &str) -> (r: Result<WikiSummary, String>)
        ensures
            (match r {
                Ok(page) => Ok(page@),
                Err(reason) => Err(reason@),
            }) == summary_in(value.tree(), title@),
    {
        let pages = match value.field("query") {
            Some(query) => query.field("pages"),
            None => None,
        };
        match pages {
            Some(Json::Object(entries)) => {
                let ghost holder = Json::Object(*entries);
                let ghost all = holder.tree()->Object_0;
                let mut i: usize = 0;
                assert(all.skip(0) =~= all);
                while i < entries.len()
                    invariant
                        i <= entries.len(),
                        holder == Json::Object(*entries),
                        all == holder.tree()->Object_0,
                        all.len() == entries.len(),
                        first_page(all, title@) == first_page(all.skip(i as int), title@),
                        summary_in(value.tree(), title@) == (match first_page(all, title@) {
                            Some(page) => Ok(page),
                            None => Err(
                                RETRY_REASON_NOT_FOUND_PREFIX@ + ("Wikipedia page not found for '"@
                                    + title@ + "'"@),
                            ),
                        }),
                    decreases entries.len() - i,
                {
                    let page = &entries[i].1;
                    assert(all[i as int] == (entries@[i as int].0@, entries@[i as int].1.tree()));
                    assert(all.skip(i as int)[0] == all[i as int]);
                    assert(all.skip(i as int).drop_first() =~= all.skip(i + 1));
                    let page_title_text = match page.text_at("title") {
                        Some(text) => trim_text(text),
                        None => trim_text(title),
                    };
                    if !text_equal(&entries[i].0, "-1") && !page_title_text.as_str().is_empty() {
                        return Ok(summary_from_page(page, page_title_text, title));
                    }
                    i += 1;
                }
                let message = joined_text(
                    &joined_text("Wikipedia page not found for '", title),
                    "'",
                );
                Err(Self::build_not_found_reason(&message))
            },
            _ => Err(Self::build_not_found_reason("Wikipedia summary response missing pages")),
        }
    }

    /// The titles in the body of a search reply.
    pub fn titles_from_body(body: &str) -> (r: Result<Vec<String>, String>)
        ensures
            (match r {
                Ok(titles) => Ok(texts(titles@)),
                Err(reason) => Err(reason@),
            }) == (match parsed_json(body@) {
                Ok(value) => Ok(titles_in(value)),
                Err((_, message)) => Err(bad_json_reason(message)),
            }),
    {
        match parse_json(body) {
            Ok(value) => Ok(Self::extract_title_strings(&value)),
            Err(failure) => Err(
                Self::build_hard_reason(&joined_text("Invalid JSON response: ", &failure.message)),
            ),
        }
    }

    /// The page in the body of a summary reply.
    pub fn summary_from_body(body: &str, title: &str) -> (r: Result<WikiSummary, String>)
        ensures
            (match r {
                Ok(page) => Ok(page@),
                Err(reason) => Err(reason@),
            }) == (match parsed_json(body@) {
                Ok(value) => summary_in(value, title@),
                Err((_, message)) => Err(bad_json_reason(message)),
            }),
    {
        match parse_json(body) {
            Ok(value) => Self::extract_summary(&value, title),
            Err(failure) => Err(
                Self::build_hard_reason(&joined_text("Invalid JSON response: ", &failure.message)),
            ),
        }
    }

    pub fn empty_audiodb_payload(endpoint: &str) -> (r: Json)
        ensures
            r.tree() == no_records(endpoint@),
    {
        let key = if text_equal(endpoint, "searchalbum.php") {
            "album"
        } else {
            "artists"
        };
        let mut entries: Vec<(String, Json)> = Vec::new();
        let empty = Json::Array(Vec::new());
        proof {
            assert(empty.tree()->Array_0 =~= Seq::empty());
        }
        entries.push((owned(key), empty));
        let r = Json::Object(entries);
        assert(r.tree()->Object_0 =~= no_records(endpoint@)->Object_0);
        r
    }

    /// What a trimmed reply of the music database stands for, given the parser's result.
    pub fn audiodb_payload_of(
        endpoint: &str,
        trimmed: &str,
        parsed: Result<Json, JsonFailure>,
    ) -> (r: Result<Json, String>)
        ensures
            (match r {
                Ok(value) => Ok(value.tree()),
                Err(message) => Err(message@),
            }) == audiodb_payload(endpoint@, trimmed@, json_result(parsed)),
    {
        let chars = chars_of(trimmed);
        if chars.len() == 0 || chars[0] == '<' {
            return Ok(Self::empty_audiodb_payload(endpoint));
        }
        match parsed {
            Ok(value) => Ok(value),
            Err(failure) => {
                if failure.eof {
                    return Ok(Self::empty_audiodb_payload(endpoint));
                }
                let end: usize = if chars.len() <= 120 {
                    chars.len()
                } else {
                    120
                };
                let snippet = copy_range(&chars, 0, end);
                proof {
                    if chars.len() <= 120 {
                        assert(snippet@ =~= trimmed@);
                    } else {
                        assert(snippet@ =~= trimmed@.take(120));
                    }
                }
                let mut message = joined_text("Invalid JSON response: ", &failure.message);
                append(&mut message, "; endpoint=");
                append(&mut message, endpoint);
                append(&mut message, "; prefix=");
                append(&mut message, &string_of(&snippet));
                Err(message)
            },
        }
    }

    /// Reads a reply of the music database.
    pub fn parse_audiodb_payload(endpoint: &str, body: &str) -> (r: Result<Json, String>)
        ensures
            (match r {
                Ok(value) => Ok(value.tree()),
                Err(message) => Err(message@),
            }) == audiodb_payload(endpoint@, trim(body@), parsed_json(trim(body@))),
    {
        let trimmed = trim_text(body);
        Self::audiodb_payload_of(endpoint, &trimmed, parse_json(&trimmed))
    }

    pub fn extract_audiodb_artist_candidates(value: &Json, request_url: &str) -> (r: Vec<
        AudioDbArtistCandidate,
    >)
        ensures
            artist_views(r@) == artist_records(value.tree(), request_url@),
    {
        let mut out: Vec<AudioDbArtistCandidate> = Vec::new();
        assert(artist_views(out@) =~= Seq::empty());
        let items = match value.array_at("artists") {
            Some(items) => items,
            None => {
                return out;
            },
        };
        let ghost all = trees(items@);
        let ghost f = artist_record_fn(request_url@);
        let mut i: usize = 0;
        assert(all.take(0).filter_map(f) =~= Seq::empty());
        while i < items.len()
            invariant
                i <= items.len(),
                all == trees(items@),
                f == artist_record_fn(request_url@),
                artist_views(out@) == all.take(i as int).filter_map(f),
            decreases items.len() - i,
        {
            let record = &items[i];
            let ghost before = artist_views(out@);
            proof {
                all.lemma_filter_map_take_succ(f, i as int);
                assert(f(all[i as int]) == artist_record(record.tree(), request_url@));
            }
            let name = trimmed_text_at(record, "strArtist");
            if !name.as_str().is_empty() {
                let candidate = AudioDbArtistCandidate {
                    name,
                    biography: trimmed_text_at(record, "strBiographyEN"),
                    image_url: record_image_of(record),
                    source_url: record_url_of(
                        record,
                        "idArtist",
                        "https://www.theaudiodb.com/artist/",
                        request_url,
                    ),
                    genre: trimmed_text_at(record, "strGenre"),
                };
                assert(artist_views(out@.push(candidate)) =~= before.push(candidate@));
                out.push(candidate);
            }
            assert(artist_views(out@) =~= all.take(i + 1).filter_map(f));
            i += 1;
        }
        assert(all.take(items.len() as int) =~= all);
        out
    }

    pub fn extract_audiodb_album_candidates(value: &Json, request_url: &str) -> (r: Vec<
        AudioDbAlbumCandidate,
    >)
        ensures
            album_views(r@) == album_records(value.tree(), request_url@),
    {
        let mut out: Vec<AudioDbAlbumCandidate> = Vec::new();
        assert(album_views(out@) =~= Seq::empty());
        let items = match value.array_at("album") {
            Some(items) => items,
            None => {
                return out;
            },
        };
        let ghost all = trees(items@);
        let ghost f = album_record_fn(request_url@);
        let mut i: usize = 0;
        assert(all.take(0).filter_map(f) =~= Seq::empty());
        while i < items.len()
            invariant
                i <= items.len(),
                all == trees(items@),
                f == album_record_fn(request_url@),
                album_views(out@) == all.take(i as int).filter_map(f),
            decreases items.len() - i,
        {
            let record = &items[i];
            let ghost before = album_views(out@);
            proof {
                all.lemma_filter_map_take_succ(f, i as int);
                assert(f(all[i as int]) == album_record(record.tree(), request_url@));
            }
            let album = trimmed_text_at(record, "strAlbum");
            if !album.as_str().is_empty() {
                let candidate = AudioDbAlbumCandidate {
                    album,
                    artist: trimmed_text_at(record, "strArtist"),
                    description: trimmed_text_at(record, "strDescriptionEN"),
                    source_url: record_url_of(
                        record,
                        "idAlbum",
                        "https://www.theaudiodb.com/album/",
                        request_url,
                    ),
                };
                assert(album_views(out@.push(candidate)) =~= before.push(candidate@));
                out.push(candidate);
            }
            assert(album_views(out@) =~= all.take(i + 1).filter_map(f));
            i += 1;
        }
        assert(all.take(items.len() as int) =~= all);
        out
    }

    /// The file extension of an image, by its first bytes.
    pub fn detect_image_extension(bytes: &[u8]) -> (r: Option<&'static str>)
        ensures
            (match r {
                Some(s) => Some(s@),
                None => None,
            }) == image_extension(bytes@),
    {
        if bytes_start_with(bytes, 0, &[0x89, 0x50, 0x4e, 0x47, 0x0d, 0x0a, 0x1a, 0x0a]) {
            return Some("png");
        }
        if bytes_start_with(bytes, 0, &[0xff, 0xd8, 0xff]) {
            return Some("jpg");
        }
        if bytes_start_with(bytes, 0, &[0x52, 0x49, 0x46, 0x46]) && bytes_start_with(
            bytes,
            8,
            &[0x57, 0x45, 0x42, 0x50],
        ) {
            return Some("webp");
        }
        if bytes_start_with(bytes, 0, &[0x47, 0x49, 0x46, 0x38, 0x37, 0x61]) || bytes_start_with(
            bytes,
            0,
            &[0x47, 0x49, 0x46, 0x38, 0x39, 0x61],
        ) {
            return Some("gif");
        }
        if bytes_start_with(bytes, 0, &[0x42, 0x4d]) {
            return Some("bmp");
        }
        None
    }
}

/// `magic` stands in `bytes` from position `at` on.
pub open spec fn bytes_at(bytes: Seq<u8>, at: int, magic: Seq<u8>) -> bool {
    at + magic.len() <= bytes.len() && bytes.subrange(at, at + magic.len()) == magic
}

/// The file extension of an image: PNG, JPEG, WebP, GIF or BMP by their magic numbers.
pub open spec fn image_extension(bytes: Seq<u8>) -> Option<Seq<char>> {
    if bytes_at(bytes, 0, seq![0x89, 0x50, 0x4e, 0x47, 0x0d, 0x0a, 0x1a, 0x0a]) {
        Some("png"@)
    } else if bytes_at(bytes, 0, seq![0xff, 0xd8, 0xff]) {
        Some("jpg"@)
    } else if bytes_at(bytes, 0, seq![0x52, 0x49, 0x46, 0x46]) && bytes_at(
        bytes,
        8,
        seq![0x57, 0x45, 0x42, 0x50],
    ) {
        Some("webp"@)
    } else if bytes_at(bytes, 0, seq![0x47, 0x49, 0x46, 0x38, 0x37, 0x61]) || bytes_at(
        bytes,
        0,
        seq![0x47, 0x49, 0x46, 0x38, 0x39, 0x61],
    ) {
        Some("gif"@)
    } else if bytes_at(bytes, 0, seq![0x42, 0x4d]) {
        Some("bmp"@)
    } else {
        None
    }
}

fn bytes_start_with(bytes: &[u8], at: usize, magic: &[u8]) -> (r: bool)
    ensures
        r == bytes_at(bytes@, at as int, magic@),
{
    if bytes.len() < magic.len() || at > bytes.len() - magic.len() {
        return false;
    }
    let mut i: usize = 0;
    while i < magic.len()
        invariant
            i <= magic.len(),
            at + magic.len() <= bytes.len(),
            forall|k: int| 0 <= k < i ==> bytes@[at + k] == magic@[k],
        decreases magic.len() - i,
    {
        if bytes[at + i] != magic[i] {
            assert(bytes@.subrange(at as int, at + magic.len())[i as int] != magic@[i as int]);
            return false;
        }
        i += 1;
    }
    assert(bytes@.subrange(at as int, at + magic.len()) =~= magic@);
    true
}

/// One parameter of a query, encoded.
pub open spec fn query_part(param: (Seq<char>, Seq<char>)) -> Seq<char> {
    param.0 + "="@ + percent_encoded(param.1)
}

/// The parameters of a query, separated by `&`.
pub open spec fn query_text(params: Seq<(Seq<char>, Seq<char>)>) -> Seq<char>
    decreases params.len(),
{
    if params.len() == 0 {
        Seq::empty()
    } else if params.len() == 1 {
        query_part(params[0])
    } else {
        query_text(params.drop_last()) + "&"@ + query_part(params.last())
    }
}

/// The address of a request to the music database.
pub open spec fn audiodb_url(endpoint: Seq<char>, params: Seq<(Seq<char>, Seq<char>)>) -> Seq<
    char,
> {
    let base = "https://www.theaudiodb.com/api/v1/json/2/"@ + endpoint;
    if params.len() == 0 {
        base
    } else {
        base + "?"@ + query_text(params)
    }
}

pub open spec fn param_texts(params: Seq<(String, String)>) -> Seq<(Seq<char>, Seq<char>)> {
    params.map_values(|p: (String, String)| (p.0@, p.1@))
}

pub fn audiodb_request_url(endpoint: &str, params: &Vec<(String, String)>) -> (r: String)
    ensures
        r@ == audiodb_url(endpoint@, param_texts(params@)),
{
    let mut url = joined_text("https://www.theaudiodb.com/api/v1/json/2/", endpoint);
    if params.len() == 0 {
        return url;
    }
    append(&mut url, "?");
    let ghost base = url@;
    let mut i: usize = 0;
    assert(base + Seq::<char>::empty() =~= base);
    while i < params.len()
        invariant
            i <= params.len(),
            url@ == base + query_text(param_texts(params@).take(i as int)),
        decreases params.len() - i,
    {
        let ghost all = param_texts(params@);
        proof {
            assert(all.take(i + 1).drop_last() =~= all.take(i as int));
            assert(all.take(i + 1).last() == (params@[i as int].0@, params@[i as int].1@));
        }
        if i > 0 {
            append(&mut url, "&");
        }
        append(&mut url, &params[i].0);
        append(&mut url, "=");
        append(&mut url, &percent_encode(&params[i].1));
        assert(url@ =~= base + query_text(all.take(i + 1)));
        i += 1;
    }
    assert(param_texts(params@).take(params.len() as int) =~= param_texts(params@));
    url
}

} // verus!
