//! Laws of replies: each field is read from the member of its name.

use crate::json::{entry_at, items_of, member, text_of, JsonView};
use crate::library::replies::{
    album_record, album_record_fn, album_records, artist_record, artist_record_fn, artist_records,
    audiodb_payload, audiodb_url, bytes_at, filled_texts, first_page, image_extension,
    listed_texts, no_records, page_summary, record_image, summary_in, titles_in,
};
use crate::library::scoring::{AlbumCandidateView, ArtistCandidateView};
use crate::percent::percent_encoded;
use crate::text::{blank, trim};
use vstd::prelude::*;

verus! {

/// The member of an object is that of its first entry with the key; an object without one, and
/// whatever is no object, has none.
pub proof fn members_are_found_by_key(entries: Seq<(Seq<char>, JsonView)>, key: Seq<char>)
    ensures
        (forall|i: int| 0 <= i < entries.len() ==> (#[trigger] entries[i]).0 != key) ==> member(
            JsonView::Object(entries),
            key,
        ) is Null,
        forall|i: int|
            0 <= i < entries.len() && (#[trigger] entries[i]).0 == key && (forall|j: int|
                0 <= j < i ==> (#[trigger] entries[j]).0 != key) ==> member(
                JsonView::Object(entries),
                key,
            ) == entries[i].1,
        forall|v: JsonView| !(v is Object) ==> #[trigger] member(v, key) is Null,
{
    lemma_entry_at(entries, key);
    let at = entry_at(entries, key);
    assert forall|i: int|
        0 <= i < entries.len() && (#[trigger] entries[i]).0 == key && (forall|j: int|
            0 <= j < i ==> (#[trigger] entries[j]).0 != key) implies member(
        JsonView::Object(entries),
        key,
    ) == entries[i].1 by {
        if at < i {
            assert(entries[at].0 != key);
        } else if at > i {
            assert(entries[i].0 != key);
        }
    }
}

proof fn lemma_entry_at(entries: Seq<(Seq<char>, JsonView)>, key: Seq<char>)
    ensures
        0 <= entry_at(entries, key) <= entries.len(),
        entry_at(entries, key) < entries.len() ==> entries[entry_at(entries, key)].0 == key,
        forall|j: int| 0 <= j < entry_at(entries, key) ==> (#[trigger] entries[j]).0 != key,
    decreases entries.len(),
{
    if entries.len() > 0 && entries[0].0 != key {
        let rest = entries.drop_first();
        lemma_entry_at(rest, key);
        assert forall|j: int| 0 <= j < entry_at(entries, key) implies (#[trigger] entries[j]).0
            != key by {
            if j > 0 {
                assert(rest[j - 1] == entries[j]);
            }
        }
    }
}

/// A page's summary holds its own title, description, text, address and picture; a page
/// without a title has the title that was asked for. It is one that tells names apart where
/// its properties say so.
pub proof fn summaries_hold_their_page(page: JsonView, asked: Seq<char>)
    ensures
        ({
            let s = page_summary(page, asked);
            &&& text_of(member(page, "title"@)) matches Some(title) ==> s.title == trim(title)
            &&& text_of(member(page, "title"@)) is None ==> s.title == trim(asked)
            &&& text_of(member(page, "description"@)) matches Some(text) ==> s.description
                == trim(text)
            &&& text_of(member(page, "description"@)) is None ==> s.description.len() == 0
            &&& text_of(member(page, "extract"@)) matches Some(text) ==> s.extract == trim(text)
            &&& text_of(member(page, "extract"@)) is None ==> s.extract.len() == 0
            &&& text_of(member(page, "fullurl"@)) matches Some(url) ==> s.canonical_url == trim(
                url,
            )
            &&& text_of(member(page, "fullurl"@)) is None ==> s.canonical_url.len() == 0
            &&& s.image_url == text_of(member(member(page, "thumbnail"@), "source"@))
            &&& s.categories == listed_texts(member(page, "categories"@), "title"@)
            &&& s.page_type == "disambiguation"@ <==> (member(
                member(page, "pageprops"@),
                "disambiguation"@,
            ) is Text || member(member(page, "pageprops"@), "disambiguation"@) is Object)
            &&& s.page_type == "disambiguation"@ || s.page_type.len() == 0
        }),
{
    reveal_strlit("disambiguation");
    assert("disambiguation"@.len() == 14);
}

/// The summary of a reply is that of its first page that exists and has a title.
pub proof fn the_first_page_counts(pages: Seq<(Seq<char>, JsonView)>, asked: Seq<char>)
    ensures
        first_page(pages, asked) matches Some(summary) ==> exists|i: int|
            0 <= i < pages.len() && summary == page_summary((#[trigger] pages[i]).1, asked)
                && pages[i].0 != "-1"@ && summary.title.len() > 0 && forall|j: int|
                0 <= j < i ==> (#[trigger] pages[j]).0 == "-1"@ || page_summary(
                    pages[j].1,
                    asked,
                ).title.len() == 0,
        first_page(pages, asked) is None ==> forall|j: int|
            0 <= j < pages.len() ==> (#[trigger] pages[j]).0 == "-1"@ || page_summary(
                pages[j].1,
                asked,
            ).title.len() == 0,
    decreases pages.len(),
{
    if pages.len() > 0 {
        let rest = pages.drop_first();
        the_first_page_counts(rest, asked);
        if pages[0].0 == "-1"@ || page_summary(pages[0].1, asked).title.len() == 0 {
            match first_page(rest, asked) {
                Some(summary) => {
                    let i = choose|i: int|
                        0 <= i < rest.len() && summary == page_summary(
                            (#[trigger] rest[i]).1,
                            asked,
                        ) && rest[i].0 != "-1"@ && summary.title.len() > 0 && forall|j: int|
                            0 <= j < i ==> (#[trigger] rest[j]).0 == "-1"@ || page_summary(
                                rest[j].1,
                                asked,
                            ).title.len() == 0;
                    assert(pages[i + 1] == rest[i]);
                    assert forall|j: int| 0 <= j < i + 1 implies (#[trigger] pages[j]).0
                        == "-1"@ || page_summary(pages[j].1, asked).title.len() == 0 by {
                        if j > 0 {
                            assert(rest[j - 1] == pages[j]);
                        }
                    }
                },
                None => {
                    assert forall|j: int| 0 <= j < pages.len() implies (#[trigger] pages[j]).0
                        == "-1"@ || page_summary(pages[j].1, asked).title.len() == 0 by {
                        if j > 0 {
                            assert(rest[j - 1] == pages[j]);
                        }
                    }
                },
            }
        } else {
            assert(first_page(pages, asked) == Some(page_summary(pages[0].1, asked)));
        }
    }
}

/// A reply without pages, or without one that counts, was not found.
pub proof fn replies_without_pages_are_not_found(reply: JsonView, asked: Seq<char>)
    ensures
        !(member(member(reply, "query"@), "pages"@) is Object) ==> summary_in(reply, asked)
            == Err::<crate::library::scoring::SummaryView, Seq<char>>(
            "not_found:"@ + "Wikipedia summary response missing pages"@,
        ),
        member(member(reply, "query"@), "pages"@) matches JsonView::Object(pages) ==> {
            &&& first_page(pages, asked) matches Some(page) ==> summary_in(reply, asked) == Ok::<
                crate::library::scoring::SummaryView,
                Seq<char>,
            >(page)
            &&& first_page(pages, asked) is None ==> summary_in(reply, asked) == Err::<
                crate::library::scoring::SummaryView,
                Seq<char>,
            >("not_found:"@ + ("Wikipedia page not found for '"@ + asked + "'"@))
        },
{
}

/// An artist's record holds its own name, biography, genre and picture, and leads to its page
/// by its id; one without a name is passed over.
pub proof fn artist_records_hold_their_fields(record: JsonView, asked: Seq<char>)
    ensures
        ({
            let r = artist_record(record, asked);
            &&& text_of(member(record, "strArtist"@)) is None ==> r is None
            &&& text_of(member(record, "strArtist"@)) matches Some(name) ==> {
                &&& blank(name) ==> r is None
                &&& !blank(name) ==> r is Some && r->Some_0.name == trim(name)
            }
            &&& r matches Some(a) ==> {
                &&& text_of(member(record, "strBiographyEN"@)) matches Some(text) ==> a.biography
                    == trim(text)
                &&& text_of(member(record, "strBiographyEN"@)) is None ==> a.biography.len() == 0
                &&& text_of(member(record, "strGenre"@)) matches Some(text) ==> a.genre == trim(
                    text,
                )
                &&& text_of(member(record, "strGenre"@)) is None ==> a.genre.len() == 0
                &&& text_of(member(record, "idArtist"@)) matches Some(id) ==> {
                    &&& !blank(id) ==> a.source_url == "https://www.theaudiodb.com/artist/"@
                        + trim(id)
                    &&& blank(id) ==> a.source_url == asked
                }
                &&& text_of(member(record, "idArtist"@)) is None ==> a.source_url == asked
                &&& a.image_url == record_image(record)
            }
        }),
{
}

/// The picture of an artist's record: the thumbnail where there is one, then each fan art in
/// turn.
pub proof fn thumbnails_come_before_fan_art(record: JsonView)
    ensures
        text_of(member(record, "strArtistThumb"@)) matches Some(url) ==> (!blank(url)
            ==> record_image(record) == Some(trim(url))),
        text_of(member(record, "strArtistThumb"@)) is None ==> (text_of(
            member(record, "strArtistFanart"@),
        ) matches Some(url) ==> (!blank(url) ==> record_image(record) == Some(trim(url)))),
        text_of(member(record, "strArtistThumb"@)) is None && text_of(
            member(record, "strArtistFanart"@),
        ) is None ==> (text_of(member(record, "strArtistFanart2"@)) matches Some(url) ==> (!blank(
            url,
        ) ==> record_image(record) == Some(trim(url)))),
        text_of(member(record, "strArtistThumb"@)) is None && text_of(
            member(record, "strArtistFanart"@),
        ) is None && text_of(member(record, "strArtistFanart2"@)) is None && text_of(
            member(record, "strArtistFanart3"@),
        ) is None ==> record_image(record) is None,
{
}

/// An album's record holds its own name, artist and description, and leads to its page by its
/// id; one without a name is passed over.
pub proof fn album_records_hold_their_fields(record: JsonView, asked: Seq<char>)
    ensures
        ({
            let r = album_record(record, asked);
            &&& text_of(member(record, "strAlbum"@)) is None ==> r is None
            &&& text_of(member(record, "strAlbum"@)) matches Some(name) ==> {
                &&& blank(name) ==> r is None
                &&& !blank(name) ==> r is Some && r->Some_0.album == trim(name)
            }
            &&& r matches Some(a) ==> {
                &&& text_of(member(record, "strArtist"@)) matches Some(text) ==> a.artist == trim(
                    text,
                )
                &&& text_of(member(record, "strArtist"@)) is None ==> a.artist.len() == 0
                &&& text_of(member(record, "strDescriptionEN"@)) matches Some(text)
                    ==> a.description == trim(text)
                &&& text_of(member(record, "strDescriptionEN"@)) is None ==> a.description.len()
                    == 0
                &&& text_of(member(record, "idAlbum"@)) matches Some(id) ==> {
                    &&& !blank(id) ==> a.source_url == "https://www.theaudiodb.com/album/"@ + trim(
                        id,
                    )
                    &&& blank(id) ==> a.source_url == asked
                }
                &&& text_of(member(record, "idAlbum"@)) is None ==> a.source_url == asked
            }
        }),
{
}

proof fn lemma_gathered<A, B>(items: Seq<A>, f: spec_fn(A) -> Option<B>, b: B)
    ensures
        items.filter_map(f).contains(b) <==> exists|i: int|
            0 <= i < items.len() && f(#[trigger] items[i]) == Some(b),
    decreases items.len(),
{
    if items.len() > 0 {
        let rest = items.drop_last();
        lemma_gathered(rest, f, b);
        let n = items.len() - 1;
        let all = items.filter_map(f);
        let before = rest.filter_map(f);
        if all.contains(b) {
            let k = choose|k: int| 0 <= k < all.len() && all[k] == b;
            if k < before.len() {
                assert(before[k] == b);
                let i = choose|i: int| 0 <= i < rest.len() && f(#[trigger] rest[i]) == Some(b);
                assert(items[i] == rest[i]);
            } else {
                assert(f(items[n]) == Some(b));
            }
        }
        if exists|i: int| 0 <= i < items.len() && f(#[trigger] items[i]) == Some(b) {
            let i = choose|i: int| 0 <= i < items.len() && f(#[trigger] items[i]) == Some(b);
            if i < n {
                assert(rest[i] == items[i]);
                let k = choose|k: int| 0 <= k < before.len() && before[k] == b;
                assert(all[k] == b);
            } else {
                assert(all.last() == b);
                assert(all[all.len() - 1] == b);
            }
        }
    }
}

/// The records of a reply are those of its list of artists or of albums, and no others.
pub proof fn replies_give_their_records(
    reply: JsonView,
    asked: Seq<char>,
    artist: ArtistCandidateView,
    album: AlbumCandidateView,
)
    ensures
        artist_records(reply, asked).contains(artist) <==> items_of(member(reply, "artists"@))
            is Some && exists|i: int|
            0 <= i < items_of(member(reply, "artists"@))->Some_0.len() && artist_record(
                #[trigger] items_of(member(reply, "artists"@))->Some_0[i],
                asked,
            ) == Some(artist),
        album_records(reply, asked).contains(album) <==> items_of(member(reply, "album"@)) is Some
            && exists|i: int|
            0 <= i < items_of(member(reply, "album"@))->Some_0.len() && album_record(
                #[trigger] items_of(member(reply, "album"@))->Some_0[i],
                asked,
            ) == Some(album),
{
    if let Some(items) = items_of(member(reply, "artists"@)) {
        lemma_gathered(items, artist_record_fn(asked), artist);
    }
    if let Some(items) = items_of(member(reply, "album"@)) {
        lemma_gathered(items, album_record_fn(asked), album);
    }
}

/// The titles of a search are those found under `query.search`, `pages` and `results`, trimmed,
/// without blank ones.
pub proof fn searches_give_their_titles(reply: JsonView, list: JsonView, title: Seq<char>)
    ensures
        listed_texts(list, "title"@).contains(title) <==> items_of(list) is Some && exists|i: int|
            0 <= i < items_of(list)->Some_0.len() && (text_of(
                member(#[trigger] items_of(list)->Some_0[i], "title"@),
            ) matches Some(text) && !blank(text) && title == trim(text)),
        titles_in(reply).contains(title) <==> listed_texts(
            member(member(reply, "query"@), "search"@),
            "title"@,
        ).contains(title) || listed_texts(member(reply, "pages"@), "title"@).contains(title)
            || listed_texts(member(reply, "results"@), "title"@).contains(title),
{
    if let Some(items) = items_of(list) {
        lemma_gathered(items, filled_texts("title"@), title);
    }
    let a = listed_texts(member(member(reply, "query"@), "search"@), "title"@);
    let b = listed_texts(member(reply, "pages"@), "title"@);
    let c = listed_texts(member(reply, "results"@), "title"@);
    let all = a + b + c;
    if a.contains(title) {
        let i = choose|i: int| 0 <= i < a.len() && a[i] == title;
        assert(all[i] == title);
    }
    if b.contains(title) {
        let i = choose|i: int| 0 <= i < b.len() && b[i] == title;
        assert(all[a.len() + i] == title);
    }
    if c.contains(title) {
        let i = choose|i: int| 0 <= i < c.len() && c[i] == title;
        assert(all[a.len() + b.len() + i] == title);
    }
    if all.contains(title) {
        let i = choose|i: int| 0 <= i < all.len() && all[i] == title;
        if i < a.len() {
            assert(a[i] == title);
        } else if i < a.len() + b.len() {
            assert(b[i - a.len()] == title);
        } else {
            assert(c[i - a.len() - b.len()] == title);
        }
    }
}

/// An empty reply, a page in place of data and a reply that breaks off hold no records; any
/// other reply that cannot be read fails.
pub proof fn broken_replies_hold_no_records(
    endpoint: Seq<char>,
    trimmed: Seq<char>,
    value: JsonView,
    message: Seq<char>,
)
    ensures
        trimmed.len() == 0 || trimmed[0] == '<' ==> audiodb_payload(endpoint, trimmed, Ok(value))
            == Ok::<JsonView, Seq<char>>(no_records(endpoint)),
        trimmed.len() > 0 && trimmed[0] != '<' ==> audiodb_payload(endpoint, trimmed, Ok(value))
            == Ok::<JsonView, Seq<char>>(value),
        audiodb_payload(endpoint, trimmed, Err((true, message))) == Ok::<JsonView, Seq<char>>(
            no_records(endpoint),
        ),
        trimmed.len() > 0 && trimmed[0] != '<' ==> audiodb_payload(
            endpoint,
            trimmed,
            Err((false, message)),
        ) is Err,
        artist_records(no_records(endpoint), trimmed).len() == 0,
        album_records(no_records(endpoint), trimmed).len() == 0,
{
    let empty = Seq::<JsonView>::empty();
    assert(empty.filter_map(artist_record_fn(trimmed)) =~= Seq::empty());
    assert(empty.filter_map(album_record_fn(trimmed)) =~= Seq::empty());
}

/// A picture's kind is told by the bytes it begins with.
pub proof fn pictures_tell_their_kind(rest: Seq<u8>, size: Seq<u8>)
    requires
        size.len() == 4,
    ensures
        image_extension(seq![0x89u8, 0x50, 0x4e, 0x47, 0x0d, 0x0a, 0x1a, 0x0a] + rest) == Some(
            "png"@,
        ),
        image_extension(seq![0xffu8, 0xd8, 0xff] + rest) == Some("jpg"@),
        image_extension(
            seq![0x52u8, 0x49, 0x46, 0x46] + size + seq![0x57u8, 0x45, 0x42, 0x50] + rest,
        ) == Some("webp"@),
        image_extension(seq![0x47u8, 0x49, 0x46, 0x38, 0x37, 0x61] + rest) == Some("gif"@),
        image_extension(seq![0x47u8, 0x49, 0x46, 0x38, 0x39, 0x61] + rest) == Some("gif"@),
        image_extension(seq![0x42u8, 0x4d] + rest) == Some("bmp"@),
        image_extension(Seq::empty()) is None,
{
    let png = seq![0x89u8, 0x50, 0x4e, 0x47, 0x0d, 0x0a, 0x1a, 0x0a];
    let jpg = seq![0xffu8, 0xd8, 0xff];
    let riff = seq![0x52u8, 0x49, 0x46, 0x46];
    let webp = seq![0x57u8, 0x45, 0x42, 0x50];
    let gif7 = seq![0x47u8, 0x49, 0x46, 0x38, 0x37, 0x61];
    let gif9 = seq![0x47u8, 0x49, 0x46, 0x38, 0x39, 0x61];
    let bmp = seq![0x42u8, 0x4d];
    lemma_begins(png, rest);
    lemma_begins(jpg, rest);
    lemma_begins(riff, size + webp + rest);
    lemma_begins(gif7, rest);
    lemma_begins(gif9, rest);
    lemma_begins(bmp, rest);
    lemma_begins_otherwise(jpg + rest, png);
    let w = riff + size + webp + rest;
    assert(w =~= riff + (size + webp + rest));
    assert(w.subrange(8, 12) =~= webp);
    assert(bytes_at(w, 8, webp));
    lemma_begins_otherwise(w, png);
    lemma_begins_otherwise(w, jpg);
    lemma_begins_otherwise(gif7 + rest, png);
    lemma_begins_otherwise(gif7 + rest, jpg);
    lemma_begins_otherwise(gif7 + rest, riff);
    lemma_begins_otherwise(gif9 + rest, png);
    lemma_begins_otherwise(gif9 + rest, jpg);
    lemma_begins_otherwise(gif9 + rest, riff);
    lemma_begins_otherwise(bmp + rest, png);
    lemma_begins_otherwise(bmp + rest, jpg);
    lemma_begins_otherwise(bmp + rest, riff);
    lemma_begins_otherwise(bmp + rest, gif7);
    lemma_begins_otherwise(bmp + rest, gif9);
}

proof fn lemma_begins(magic: Seq<u8>, rest: Seq<u8>)
    ensures
        bytes_at(magic + rest, 0, magic),
{
    assert((magic + rest).subrange(0, magic.len() as int) =~= magic);
}

proof fn lemma_begins_otherwise(bytes: Seq<u8>, magic: Seq<u8>)
    requires
        bytes.len() > 0,
        magic.len() > 0,
        bytes[0] != magic[0],
    ensures
        !bytes_at(bytes, 0, magic),
{
    if bytes_at(bytes, 0, magic) {
        assert(bytes.subrange(0, magic.len() as int)[0] == bytes[0]);
    }
}

/// The address of a request names the endpoint and each parameter with its encoded value, in
/// their order.
pub proof fn requests_name_their_parameters(
    endpoint: Seq<char>,
    a: (Seq<char>, Seq<char>),
    b: (Seq<char>, Seq<char>),
)
    ensures
        audiodb_url(endpoint, Seq::empty()) == "https://www.theaudiodb.com/api/v1/json/2/"@
            + endpoint,
        audiodb_url(endpoint, seq![a]) == "https://www.theaudiodb.com/api/v1/json/2/"@ + endpoint
            + "?"@ + (a.0 + "="@ + percent_encoded(a.1)),
        audiodb_url(endpoint, seq![a, b]) == "https://www.theaudiodb.com/api/v1/json/2/"@
            + endpoint + "?"@ + (a.0 + "="@ + percent_encoded(a.1) + "&"@ + (b.0 + "="@
            + percent_encoded(b.1))),
{
    let both = seq![a, b];
    assert(both.drop_last() =~= seq![a]);
    assert(both.last() == b);
    reveal_with_fuel(crate::library::replies::query_text, 3);
}

} // verus!
