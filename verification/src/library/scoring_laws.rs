//! Laws of the scores: what rules a page or a record out, and what speaks for it.

use crate::library::matching::{
    has_word, match_tier, name_key, normalized, overlap_points, TitleMatchTier,
};
use crate::library::scoring::{
    album_by_phrases, album_record_score, album_rejection, album_score, album_words,
    artist_record_score, artist_rejection, artist_score, artist_title, artist_words, guest_marks,
    names_guests, rejection, worth_fetching, AlbumCandidateView, ArtistCandidateView, SummaryView,
};
use crate::protocol::EntityView;
use crate::text::{has_any_part, has_part, has_prefix, lower, words};
use vstd::prelude::*;

verus! {

/// A page that lists or tells names apart is nobody's page: it is refused, and it scores far
/// below what is asked for, for artists and for albums.
pub proof fn lists_are_nobodys_page(artist: Seq<char>, album: Seq<char>, page: SummaryView)
    requires
        has_part(normalized(page.title), "disambiguation"@) || has_part(
            normalized(page.description),
            "disambiguation"@,
        ) || normalized(page.page_type) == "disambiguation"@ || has_part(
            normalized(page.title),
            "discography"@,
        ) || has_part(normalized(page.description), "discography"@) || has_part(
            normalized(page.extract),
            "discography"@,
        ) || has_prefix(normalized(page.title), "list of"@) || has_part(
            normalized(page.description),
            "list of"@,
        ),
    ensures
        artist_score(artist, page) < 0,
        album_score(album, artist, page) < 0,
        rejection(EntityView::Artist { artist }, page) is Some,
        rejection(EntityView::Album { album, album_artist: artist }, page) is Some,
{
}

/// A page about an album is no artist's page.
pub proof fn albums_are_no_artists(artist: Seq<char>, page: SummaryView)
    requires
        page.is_album(),
    ensures
        artist_score(artist, page) < 0,
        artist_rejection(artist, page) is Some,
{
}

/// Of two pages with the same title and the same kind of evidence, the one with more of it
/// never scores less: text about a musician counts 32 points, a category of musicians 44.
pub proof fn evidence_raises_an_artists_score(artist: Seq<char>, weak: SummaryView, strong: SummaryView)
    requires
        weak.title == strong.title,
        artist_score(artist, weak) > -4000,
        artist_score(artist, strong) > -4000,
        weak.mentions_artist(artist) ==> strong.mentions_artist(artist),
        weak.has_artist_text() ==> strong.has_artist_text(),
        weak.has_artist_category() ==> strong.has_artist_category(),
    ensures
        artist_score(artist, weak) <= artist_score(artist, strong),
        strong.has_artist_text() && !weak.has_artist_text() ==> artist_score(artist, weak) + 32
            <= artist_score(artist, strong),
        strong.has_artist_category() && !weak.has_artist_category() ==> artist_score(artist, weak)
            + 44 <= artist_score(artist, strong),
{
}

/// A page whose title is the artist's name and that has evidence of a musician is taken, and
/// it reaches the score that is asked for.
pub proof fn an_artists_own_page_is_taken(artist: Seq<char>, page: SummaryView)
    requires
        match_tier(artist, page.title) == TitleMatchTier::Exact,
        !page.is_disambiguation(),
        !page.is_list(),
        !page.is_album(),
        page.has_artist_category(),
        name_key(artist).len() > 0,
    ensures
        artist_score(artist, page) >= 180 + 44,
        artist_score(artist, page) >= 92,
        artist_rejection(artist, page) is None,
{
}

/// A page without a near title, without a word of a musician and without one in its title is
/// never taken for an artist; nor is one for an artist of a single word that is in no category
/// of musicians.
pub proof fn strangers_are_not_taken_for_artists(artist: Seq<char>, page: SummaryView)
    ensures
        !match_tier(artist, page.title).near() && !page.has_artist_text()
            && !page.has_artist_category() && !artist_title(page.title) ==> artist_score(
            artist,
            page,
        ) < 0 && artist_rejection(artist, page) is Some,
        words(name_key(artist)).len() == 1 && !page.has_artist_category() && !artist_title(
            page.title,
        ) ==> artist_score(artist, page) < 0,
        words(normalized(artist)).len() == 1 && !page.has_artist_category() && !artist_title(
            page.title,
        ) ==> artist_rejection(artist, page) is Some,
        name_key(artist).len() == 0 ==> artist_score(artist, page) < 0,
{
}

/// Of two pages with the same evidence, a closer title scores more.
pub proof fn closer_titles_score_more(artist: Seq<char>, album: Seq<char>, near: SummaryView, far: SummaryView)
    requires
        near == (SummaryView { title: near.title, ..far }),
    ensures
        match_tier(artist, near.title) == TitleMatchTier::Exact && match_tier(artist, far.title)
            == TitleMatchTier::NearExact && artist_score(artist, near) > -4000 && artist_score(
            artist,
            far,
        ) > -4000 && artist_title(near.title) == artist_title(far.title) && overlap_points(
            name_key(artist),
            normalized(near.title),
            40,
        ) >= overlap_points(name_key(artist), normalized(far.title), 40) ==> artist_score(
            artist,
            near,
        ) >= artist_score(artist, far) + 50,
        match_tier(album, near.title) == TitleMatchTier::Exact && match_tier(album, far.title)
            == TitleMatchTier::NearExact && album_score(album, artist, near) > -4000
            && album_score(album, artist, far) > -4000 && near.has_album_context()
            == far.has_album_context() && near.holds_name(name_key(artist)) == far.holds_name(
            name_key(artist),
        ) && overlap_points(name_key(album), normalized(near.title), 32) >= overlap_points(
            name_key(album),
            normalized(far.title),
            32,
        ) ==> album_score(album, artist, near) >= album_score(album, artist, far) + 50,
{
    assert(near.categories == far.categories);
    assert(near.has_artist_category() == far.has_artist_category()) by {
        let words = crate::library::scoring::artist_category_words();
        assert(near.has_category(words) == far.has_category(words)) by {
            if near.has_category(words) {
                let k = choose|k: int|
                    0 <= k < near.categories.len() && crate::text::has_any_part(
                        normalized(#[trigger] near.categories[k]),
                        words,
                    );
                assert(crate::text::has_any_part(normalized(far.categories[k]), words));
            }
            if far.has_category(words) {
                let k = choose|k: int|
                    0 <= k < far.categories.len() && crate::text::has_any_part(
                        normalized(#[trigger] far.categories[k]),
                        words,
                    );
                assert(crate::text::has_any_part(normalized(near.categories[k]), words));
            }
        }
    }
    assert(near.has_artist_text() == far.has_artist_text());
}

/// Of two pages with the same title, one about an album scores 35 points more, and one that
/// names the album's artist 28.
pub proof fn evidence_raises_an_albums_score(
    album: Seq<char>,
    artist: Seq<char>,
    weak: SummaryView,
    strong: SummaryView,
)
    requires
        weak.title == strong.title,
        album_score(album, artist, weak) > -4000,
        album_score(album, artist, strong) > -4000,
        weak.has_album_context() ==> strong.has_album_context(),
        weak.holds_name(name_key(artist)) ==> strong.holds_name(name_key(artist)),
    ensures
        album_score(album, artist, strong) == album_score(album, artist, weak) + (if
        strong.has_album_context() && !weak.has_album_context() {
            35int
        } else {
            0
        }) + (if strong.holds_name(name_key(artist)) && !weak.holds_name(name_key(artist)) {
            28int
        } else {
            0
        }),
{
}

/// A page whose title is the album's name and that speaks of an album is taken, and it reaches
/// the score that is asked for; a page without a near title is never taken at once.
pub proof fn an_albums_own_page_is_taken(album: Seq<char>, artist: Seq<char>, page: SummaryView)
    ensures
        match_tier(album, page.title) == TitleMatchTier::Exact && page.has_album_context()
            && !page.is_disambiguation() && !page.is_list() && name_key(album).len() > 0
            ==> album_score(album, artist, page) >= 88 && album_rejection(album, artist, page)
            is None,
        !match_tier(album, page.title).near() ==> album_rejection(album, artist, page) is Some,
        !match_tier(album, page.title).near() && !page.has_album_context() ==> album_score(
            album,
            artist,
            page,
        ) < 0,
{
}

/// A record only counts under a near name. One with the artist's own name always reaches the
/// score that is asked for, and counts more than one with a name that merely begins so and the
/// same contents.
pub proof fn records_count_by_name(
    artist: Seq<char>,
    record: ArtistCandidateView,
    other: ArtistCandidateView,
)
    ensures
        !match_tier(artist, record.name).near() ==> artist_record_score(artist, record) < 0,
        match_tier(artist, record.name) == TitleMatchTier::Exact ==> artist_record_score(
            artist,
            record,
        ) >= 180,
        match_tier(artist, record.name) == TitleMatchTier::Exact && match_tier(artist, other.name)
            == TitleMatchTier::NearExact && record.biography == other.biography && record.genre
            == other.genre ==> artist_record_score(artist, record) > artist_record_score(
            artist,
            other,
        ),
{
}

/// An album's record only counts under a near title and an artist that agrees. One with the
/// album's own title reaches the score that is asked for.
pub proof fn album_records_count_by_title_and_artist(
    album: Seq<char>,
    artist: Seq<char>,
    record: AlbumCandidateView,
)
    ensures
        !match_tier(album, record.album).near() ==> album_record_score(album, artist, record) < 0,
        match_tier(album, record.album).near() && (name_key(artist).len() == 0 || name_key(artist)
            == normalized(record.artist)) ==> album_record_score(album, artist, record) >= 108 + 30,
        match_tier(album, record.album) == TitleMatchTier::Exact && name_key(artist) == normalized(
            record.artist,
        ) ==> album_record_score(album, artist, record) >= 180,
        name_key(artist).len() > 0 && !has_part(normalized(record.artist), name_key(artist))
            && !has_part(name_key(artist), normalized(record.artist))
            && crate::library::matching::compacted(name_key(artist))
            != crate::library::matching::compacted(normalized(record.artist))
            ==> album_record_score(album, artist, record) < 0,
{
    if name_key(artist) == normalized(record.artist) {
        assert(name_key(artist).subrange(0, name_key(artist).len() as int) =~= name_key(artist));
    }
    if name_key(artist).len() > 0 && name_key(artist) == normalized(record.artist) {
        assert(crate::text::occurs_at(normalized(record.artist), name_key(artist), 0));
    }
}

/// A title equal to the name but for case and punctuation matches exactly; one that goes on
/// behind the name nearly; and nothing matches an empty name or title.
pub proof fn names_match_themselves(name: Seq<char>, title: Seq<char>)
    ensures
        name_key(name).len() > 0 && normalized(title) == name_key(name) ==> match_tier(name, title)
            == TitleMatchTier::Exact,
        name_key(name).len() > 0 && has_prefix(normalized(title), name_key(name)) && normalized(
            title,
        ).len() > 0 ==> match_tier(name, title).near(),
        name_key(name).len() == 0 || normalized(title).len() == 0 ==> match_tier(name, title)
            == TitleMatchTier::NoMatch,
{
}

/// A title is only worth a fetch if it is no list and no page that tells names apart; and a
/// title that nearly is the name always is.
pub proof fn near_titles_are_worth_fetching(name: Seq<char>, title: Seq<char>)
    ensures
        match_tier(name, title).near() && !has_part(normalized(title), "disambiguation"@)
            && !has_part(normalized(title), "discography"@) && !has_prefix(
            normalized(title),
            "list of"@,
        ) ==> worth_fetching(name, title),
        has_part(normalized(title), "disambiguation"@) ==> !worth_fetching(name, title),
        has_part(normalized(title), "discography"@) ==> !worth_fetching(name, title),
        has_prefix(normalized(title), "list of"@) ==> !worth_fetching(name, title),
{
}

proof fn lemma_word_counts(hay: Seq<char>, words: Seq<Seq<char>>, i: int)
    requires
        0 <= i < words.len(),
    ensures
        has_part(hay, words[i]) ==> has_any_part(hay, words),
{
}

/// The words that speak of a musician: each of them alone, in the description or in the text.
pub proof fn words_speak_of_a_musician(page: SummaryView)
    ensures
        ({
            let said = |w: Seq<char>|
                has_part(normalized(page.description), w) || has_part(normalized(page.extract), w);
            said("musician"@) || said("singer"@) || said("rapper"@) || said("songwriter"@) || said(
                "composer"@,
            ) || said("producer"@) || said("dj"@) || said("band"@) || said("duo"@) || said(
                "trio"@,
            ) || said("group"@) || said("idol"@) || said("artist"@) ==> page.has_artist_text()
        }),
        page.has_artist_text() ==> page.has_artist_context(),
        page.has_artist_category() ==> page.has_artist_context(),
{
    let words = artist_words();
    assert forall|k: int| 0 <= k < 13 implies (has_part(
        normalized(page.description),
        #[trigger] words[k],
    ) ==> page.has_artist_text()) && (has_part(normalized(page.extract), words[k])
        ==> page.has_artist_text()) by {
        lemma_word_counts(normalized(page.description), words, k);
        lemma_word_counts(normalized(page.extract), words, k);
    }
    assert(words[0] == "musician"@ && words[1] == "singer"@ && words[2] == "rapper"@ && words[3]
        == "songwriter"@ && words[4] == "composer"@ && words[5] == "producer"@ && words[6]
        == "dj"@);
    assert(words[7] == "band"@ && words[8] == "duo"@ && words[9] == "trio"@ && words[10]
        == "group"@ && words[11] == "idol"@ && words[12] == "artist"@);
}

/// The words that speak of an album, in the description or in the text; the word itself, or
/// its short form, also in the title.
pub proof fn words_speak_of_an_album(page: SummaryView)
    ensures
        ({
            let said = |w: Seq<char>|
                has_part(normalized(page.description), w) || has_part(normalized(page.extract), w);
            said("album"@) || said("ep"@) || said("mixtape"@) || said("soundtrack"@) || said(
                "record"@,
            ) || said("release"@) ==> page.has_album_context()
        }),
        ({
            let said = |w: Seq<char>|
                has_part(normalized(page.description), w) || has_part(normalized(page.extract), w);
            said("album by"@) || said("studio album by"@) || said("ep by"@) || said(
                "mixtape by"@,
            ) || said("soundtrack by"@) || said("compilation album by"@) || said(
                "live album by"@,
            ) ==> page.is_album()
        }),
        has_word(normalized(page.title), "album"@) || has_word(normalized(page.title), "ep"@)
            ==> page.has_album_context(),
{
    let words = album_words();
    assert forall|k: int| 0 <= k < 9 implies (has_part(
        normalized(page.description),
        #[trigger] words[k],
    ) ==> page.has_album_context()) && (has_part(normalized(page.extract), words[k])
        ==> page.has_album_context()) by {
        lemma_word_counts(normalized(page.description), words, k);
        lemma_word_counts(normalized(page.extract), words, k);
    }
    assert(words[0] == "album"@ && words[1] == "ep"@ && words[2] == "mixtape"@ && words[3]
        == "soundtrack"@ && words[4] == "record"@ && words[5] == "release"@);
    let phrases = album_by_phrases();
    assert forall|k: int| 0 <= k < 7 implies (has_part(
        normalized(page.description),
        #[trigger] phrases[k],
    ) ==> page.is_album()) && (has_part(normalized(page.extract), phrases[k])
        ==> page.is_album()) by {
        lemma_word_counts(normalized(page.description), phrases, k);
        lemma_word_counts(normalized(page.extract), phrases, k);
    }
    assert(phrases[0] == "album by"@ && phrases[1] == "studio album by"@ && phrases[2]
        == "ep by"@ && phrases[3] == "mixtape by"@ && phrases[4] == "soundtrack by"@ && phrases[5]
        == "compilation album by"@ && phrases[6] == "live album by"@);
}

/// A name with one of these marks names a guest beside the artist; any other name does not.
pub proof fn marks_name_guests(artist: Seq<char>)
    ensures
        names_guests(artist) <==> has_part(lower(artist), " feat "@) || has_part(
            lower(artist),
            " feat."@,
        ) || has_part(lower(artist), " featuring "@) || has_part(lower(artist), " ft "@)
            || has_part(lower(artist), " ft."@),
        names_guests(lower(artist)) == names_guests(artist),
{
    let marks = guest_marks();
    assert(marks.len() == 5);
    assert(marks[0] == " feat "@ && marks[1] == " feat."@ && marks[2] == " featuring "@ && marks[3]
        == " ft "@ && marks[4] == " ft."@);
    let name = lower(artist);
    assert forall|k: int| 0 <= k < 5 implies (has_part(name, #[trigger] marks[k])
        ==> has_any_part(name, marks)) by {
        lemma_word_counts(name, marks, k);
    }
    assert(lower(name) =~= name);
}

} // verus!
