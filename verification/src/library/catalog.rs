//! The lists of the library: tracks, artists, albums, genres and decades, and the tracks of one
//! of these.

use crate::library::order::{
    indices_view, is_key_less, key_less, key_view, keys_view, picked, sort_order, sorted_indices, text_part, text_part_of,
};
use crate::library::paths::{path_key, push_path_key};
use crate::protocol::{
    views, AlbumView, ArtistView, DecadeView, Duplicate, GenreView, LibraryAlbum, LibraryArtist,
    LibraryDecade, LibraryGenre, LibraryTrack, TrackView,
};
use crate::text::{
    ascii_digit, chars_of, copy_range, digit_run, digits_value, is_ascii_digit, lemma_digit_run,
    lemma_digits_value_grows, lower, lower_chars,
    string_of, text_equal, texts, trim, trim_text,
};
use vstd::hash_map::StringHashMap;
use vstd::prelude::*;

verus! {

/// The items of a list without repetitions, each where it stands first.
pub open spec fn firsts<A>(items: Seq<A>) -> Seq<A>
    decreases items.len(),
{
    if items.len() == 0 {
        Seq::empty()
    } else {
        let rest = firsts(items.drop_last());
        if rest.contains(items.last()) {
            rest
        } else {
            rest.push(items.last())
        }
    }
}

/// How often an item stands in a list.
pub open spec fn occurrences<A>(items: Seq<A>, item: A) -> nat
    decreases items.len(),
{
    if items.len() == 0 {
        0
    } else {
        occurrences(items.drop_last(), item) + if items.last() == item {
            1nat
        } else {
            0nat
        }
    }
}

/// A count as it is shown: numbers that are too large are cut.
pub open spec fn capped(n: nat) -> u32 {
    if n <= u32::MAX {
        n as u32
    } else {
        u32::MAX
    }
}

/// No item is listed twice, and exactly the items of the list are listed.
pub proof fn lemma_firsts<A>(items: Seq<A>)
    ensures
        firsts(items).no_duplicates(),
        forall|a: A|
            #![trigger firsts(items).contains(a)]
            #![trigger items.contains(a)]
            firsts(items).contains(a) <==> items.contains(a),
        firsts(items).len() <= items.len(),
    decreases items.len(),
{
    if items.len() > 0 {
        let rest = items.drop_last();
        lemma_firsts(rest);
        let all = firsts(items);
        assert(items =~= rest.push(items.last()));
        assert forall|a: A|
            #![trigger all.contains(a)]
            #![trigger items.contains(a)]
            all.contains(a) <==> items.contains(a) by {
            if items.contains(a) {
                let i = items.index_of(a);
                assert(items[i] == a);
                if i < rest.len() {
                    assert(rest[i] == a);
                    assert(rest.contains(a));
                    assert(firsts(rest).contains(a));
                    let j = firsts(rest).index_of(a);
                    assert(all[j] == a);
                } else if !firsts(rest).contains(items.last()) {
                    assert(all[firsts(rest).len() as int] == a);
                }
            }
            if all.contains(a) {
                let j = all.index_of(a);
                assert(all[j] == a);
                if j < firsts(rest).len() {
                    assert(firsts(rest)[j] == a);
                    assert(firsts(rest).contains(a));
                    assert(rest.contains(a));
                    let i = rest.index_of(a);
                    assert(items[i] == a);
                } else {
                    assert(items[items.len() - 1] == a);
                }
            }
        }
    }
}

/// The distinct labels in the order in which they come up, and for each label its place there.
fn group_labels(labels: &Vec<String>) -> (r: (Vec<String>, Vec<usize>))
    ensures
        texts(r.0@) == firsts(texts(labels@)),
        r.1.len() == labels.len(),
        forall|i: int|
            0 <= i < labels.len() ==> #[trigger] r.1@[i] < r.0.len() && r.0@[r.1@[i] as int]@
                == labels@[i]@,
{
    let ghost all = texts(labels@);
    let mut names: Vec<String> = Vec::new();
    let mut places: StringHashMap<usize> = StringHashMap::new();
    let mut index: Vec<usize> = Vec::new();
    let mut n: usize = 0;
    assert(all.take(0) =~= Seq::empty());
    assert(texts(names@) =~= Seq::empty());
    while n < labels.len()
        invariant
            n <= labels.len(),
            all == texts(labels@),
            index.len() == n,
            texts(names@) == firsts(all.take(n as int)),
            forall|i: int|
                0 <= i < n ==> #[trigger] index@[i] < names.len() && names@[index@[i] as int]@
                    == all[i],
            forall|t: Seq<char>| #[trigger]
                places@.contains_key(t) <==> texts(names@).contains(t),
            forall|t: Seq<char>| #[trigger]
                places@.contains_key(t) ==> places@[t] < names.len() && names@[places@[t] as int]@
                    == t,
        decreases labels.len() - n,
    {
        let label: &str = labels[n].as_str();
        let ghost before = texts(names@);
        let ghost known = places@;
        proof {
            assert(all.take(n + 1).drop_last() =~= all.take(n as int));
            assert(all.take(n + 1).last() == label@);
        }
        match places.get(label) {
            Some(place) => {
                index.push(*place);
            },
            None => {
                let place: usize = names.len();
                names.push(labels[n].clone());
                places.insert(labels[n].clone(), place);
                index.push(place);
                proof {
                    assert(texts(names@) =~= before.push(label@));
                    assert forall|t: Seq<char>| #[trigger]
                        places@.contains_key(t) <==> texts(names@).contains(t) by {
                        if t == label@ {
                            assert(texts(names@)[place as int] == t);
                        } else {
                            assert(places@.contains_key(t) == known.contains_key(t));
                            if before.contains(t) {
                                let k = before.index_of(t);
                                assert(texts(names@)[k] == t);
                            }
                            if texts(names@).contains(t) {
                                let k = texts(names@).index_of(t);
                                assert(before[k] == t);
                            }
                        }
                    }
                }
            },
        }
        n += 1;
    }
    assert(all.take(n as int) =~= all);
    (names, index)
}

/// How often each of the distinct labels stands in a list.
fn count_labels(labels: &Vec<String>) -> (r: (Vec<String>, Vec<u32>))
    ensures
        texts(r.0@) == firsts(texts(labels@)),
        r.1.len() == r.0.len(),
        forall|j: int|
            0 <= j < r.0.len() ==> #[trigger] r.1@[j] == capped(
                occurrences(texts(labels@), r.0@[j]@),
            ),
{
    let ghost all = texts(labels@);
    let (names, index) = group_labels(labels);
    proof {
        lemma_firsts(all);
    }
    let mut counts: Vec<u32> = Vec::new();
    let mut j: usize = 0;
    while j < names.len()
        invariant
            j <= names.len(),
            counts.len() == j,
            forall|k: int| 0 <= k < j ==> counts@[k] == 0,
        decreases names.len() - j,
    {
        counts.push(0);
        j += 1;
    }
    let mut n: usize = 0;
    while n < labels.len()
        invariant
            n <= labels.len(),
            all == texts(labels@),
            texts(names@) == firsts(all),
            texts(names@).no_duplicates(),
            counts.len() == names.len(),
            index.len() == labels.len(),
            forall|i: int|
                0 <= i < labels.len() ==> #[trigger] index@[i] < names.len()
                    && names@[index@[i] as int]@ == labels@[i]@,
            forall|k: int|
                0 <= k < names.len() ==> #[trigger] counts@[k] == capped(
                    occurrences(all.take(n as int), names@[k]@),
                ),
        decreases labels.len() - n,
    {
        let place: usize = index[n];
        let count: u32 = counts[place];
        let ghost before = counts@;
        let next: u32 = if count < u32::MAX {
            count + 1
        } else {
            count
        };
        counts.set(place, next);
        proof {
            assert(all.take(n + 1).drop_last() =~= all.take(n as int));
            assert forall|k: int| 0 <= k < names.len() implies #[trigger] counts@[k] == capped(
                occurrences(all.take(n + 1), names@[k]@),
            ) by {
                assert(before[k] == capped(occurrences(all.take(n as int), names@[k]@)));
                assert(all.take(n + 1).last() == labels@[n as int]@);
                if k != place {
                    assert(texts(names@)[k] != texts(names@)[place as int]);
                }
            }
        }
        n += 1;
    }
    assert(all.take(n as int) =~= all);
    (names, counts)
}

/// A list in another order.
pub fn pick<T: Duplicate>(items: &Vec<T>, order: &Vec<usize>) -> (r: Vec<T>)
    requires
        forall|i: int| 0 <= i < order.len() ==> #[trigger] order@[i] < items.len(),
    ensures
        views(r@) == picked(views(items@), indices_view(order@)),
{
    let mut out: Vec<T> = Vec::new();
    let mut i: usize = 0;
    while i < order.len()
        invariant
            i <= order.len(),
            out.len() == i,
            forall|k: int| 0 <= k < order.len() ==> #[trigger] order@[k] < items.len(),
            forall|k: int| 0 <= k < i ==> (#[trigger] out@[k])@ == items@[order@[k] as int]@,
        decreases order.len() - i,
    {
        out.push(items[order[i]].duplicate());
        i += 1;
    }
    assert(views(out@) =~= picked(views(items@), indices_view(order@)));
    out
}

/// The items that are marked.
fn marked<T: Duplicate>(items: &Vec<T>, marks: &Vec<bool>, pred: Ghost<spec_fn(T::V) -> bool>)
    -> (r: Vec<T>)
    requires
        marks.len() == items.len(),
        forall|i: int| 0 <= i < items.len() ==> #[trigger] marks@[i] == (pred@)(items@[i]@),
    ensures
        views(r@) == views(items@).filter(pred@),
{
    let ghost all = views(items@);
    let mut out: Vec<T> = Vec::new();
    let mut i: usize = 0;
    proof {
        reveal(Seq::filter);
        assert(all.take(0) =~= Seq::empty());
        assert(views(out@) =~= all.take(0).filter(pred@));
    }
    while i < items.len()
        invariant
            i <= items.len(),
            all == views(items@),
            marks.len() == items.len(),
            forall|k: int| 0 <= k < items.len() ==> #[trigger] marks@[k] == (pred@)(items@[k]@),
            views(out@) == all.take(i as int).filter(pred@),
        decreases items.len() - i,
    {
        let ghost before = views(out@);
        proof {
            reveal(Seq::filter);
            assert(all.take(i + 1).drop_last() =~= all.take(i as int));
            assert(all.take(i + 1).last() == items@[i as int]@);
        }
        if marks[i] {
            out.push(items[i].duplicate());
            assert(views(out@) =~= before.push(items@[i as int]@));
        }
        i += 1;
    }
    assert(all.take(i as int) =~= all);
    out
}

/// A list in the order of its items' keys; items with equal keys keep their order.
pub open spec fn sorted_by<A>(items: Seq<A>, key: spec_fn(A) -> Seq<Seq<u32>>) -> Seq<A> {
    picked(items, sorted_indices(items.map_values(key)))
}

pub(crate) fn sort_by_keys<T: Duplicate>(
    items: &Vec<T>,
    keys: &Vec<Vec<Vec<u32>>>,
    key: Ghost<spec_fn(T::V) -> Seq<Seq<u32>>>,
) -> (r: Vec<T>)
    requires
        keys.len() == items.len(),
        forall|i: int| 0 <= i < items.len() ==> key_view((#[trigger] keys@[i])@) == (key@)(items@[i]@),
    ensures
        views(r@) == sorted_by(views(items@), key@),
{
    let order = sort_order(keys);
    assert(keys_view(keys@) =~= views(items@).map_values(key@));
    pick(items, &order)
}

/// The name under which a genre is listed.
pub open spec fn genre_label(genre: Seq<char>) -> Seq<char> {
    if trim(genre).len() == 0 {
        "Unknown Genre"@
    } else {
        trim(genre)
    }
}

pub fn normalized_display_genre(raw: &str) -> (r: String)
    ensures
        r@ == genre_label(raw@),
{
    let trimmed = trim_text(raw);
    if trimmed.as_str().is_empty() {
        assert(trimmed@.len() == 0);
        crate::text::owned("Unknown Genre")
    } else {
        assert(trimmed@.len() > 0);
        trimmed
    }
}

/// The name of the decade of a year: its first three digits and `0s`.
pub open spec fn decade_label(year: Seq<char>) -> Seq<char> {
    let t = trim(year);
    if t.len() >= 3 && ascii_digit(t[0]) && ascii_digit(t[1]) && ascii_digit(t[2]) {
        t.take(3) + "0s"@
    } else {
        "Unknown Decade"@
    }
}

pub fn normalized_display_decade(raw_year: &str) -> (r: String)
    ensures
        r@ == decade_label(raw_year@),
{
    let trimmed = trim_text(raw_year);
    let t = chars_of(trimmed.as_str());
    if t.len() >= 3 && is_ascii_digit(t[0]) && is_ascii_digit(t[1]) && is_ascii_digit(t[2]) {
        let mut out = string_of(&copy_range(&t, 0, 3));
        assert(t@.subrange(0, 3) =~= t@.take(3));
        crate::text::append(&mut out, "0s");
        out
    } else {
        crate::text::owned("Unknown Decade")
    }
}

/// The number that a track number begins with, or 0.
pub open spec fn track_position(s: Seq<char>) -> nat {
    let value = digits_value(s.take(digit_run(s) as int));
    if value <= i32::MAX {
        value
    } else {
        0
    }
}

pub fn parse_track_number(track_number: &str) -> (r: i32)
    ensures
        r == track_position(track_number@),
{
    let v = chars_of(track_number);
    let ghost run = digit_run(v@);
    let ghost digits = v@.take(run as int);
    proof {
        lemma_digit_run(v@);
    }
    let mut value: i32 = 0;
    let mut i: usize = 0;
    assert(digits.take(0) =~= Seq::empty());
    while i < v.len() && is_ascii_digit(v[i])
        invariant
            i <= run <= v.len(),
            run == digit_run(v@),
            v@ == track_number@,
            digits == v@.take(run as int),
            forall|k: int| 0 <= k < run ==> ascii_digit(#[trigger] v@[k]),
            run < v.len() ==> !ascii_digit(v@[run as int]),
            0 <= value,
            value == digits_value(digits.take(i as int)),
        decreases v.len() - i,
    {
        let digit: i32 = (v[i] as u32 - '0' as u32) as i32;
        proof {
            assert(digits.take(i + 1).drop_last() =~= digits.take(i as int));
            assert(digits.take(i + 1).last() == v@[i as int]);
            assert forall|k: int| 0 <= k < digits.len() implies ascii_digit(
                #[trigger] digits[k],
            ) by {
                assert(ascii_digit(v@[k]));
            }
            lemma_digits_value_grows(digits, i + 1);
        }
        if value > (i32::MAX - digit) / 10 {
            return 0;
        }
        value = 10 * value + digit;
        i += 1;
    }
    assert(digits.take(i as int) =~= digits);
    value
}

/// An order of tracks.
#[derive(Debug, Clone, Copy, PartialEq, Eq, Structural)]
pub enum TrackOrder {
    /// By title, artist and album.
    All,
    /// The tracks of an artist, by album and track number.
    ArtistDetail,
    /// The tracks of an album, by track number.
    AlbumDetail,
    /// The tracks of a genre, by artist, album and track number.
    GenreDetail,
    /// The tracks of a decade, by year, artist, album and track number.
    DecadeDetail,
}

/// The part of a text in which capitals count as small letters.
pub open spec fn lower_part(s: Seq<char>) -> Seq<u32> {
    text_part(lower(s))
}

/// The part of a track number.
pub open spec fn position_part(t: TrackView) -> Seq<u32> {
    seq![track_position(t.track_number) as u32]
}

/// The key by which an order sorts a track.
pub open spec fn track_key(order: TrackOrder, t: TrackView) -> Seq<Seq<u32>> {
    (match order {
        TrackOrder::All => seq![lower_part(t.title), lower_part(t.artist), lower_part(t.album)],
        TrackOrder::ArtistDetail => seq![lower_part(t.album), position_part(t), lower_part(t.title)],
        TrackOrder::AlbumDetail => seq![position_part(t), lower_part(t.title)],
        TrackOrder::GenreDetail => seq![
            lower_part(t.artist),
            lower_part(t.album),
            position_part(t),
            lower_part(t.title),
        ],
        TrackOrder::DecadeDetail => seq![
            text_part(t.year),
            lower_part(t.artist),
            lower_part(t.album),
            position_part(t),
            lower_part(t.title),
        ],
    }) + path_key(t.path)
}

pub open spec fn track_keys(order: TrackOrder) -> spec_fn(TrackView) -> Seq<Seq<u32>> {
    |t: TrackView| track_key(order, t)
}

/// Tracks in an order.
pub open spec fn sorted_tracks(order: TrackOrder, tracks: Seq<TrackView>) -> Seq<TrackView> {
    sorted_by(tracks, track_keys(order))
}

pub(crate) fn lower_part_of(s: &str) -> (r: Vec<u32>)
    ensures
        r@ == lower_part(s@),
{
    text_part_of(&lower_chars(&chars_of(s)))
}

fn exact_part_of(s: &str) -> (r: Vec<u32>)
    ensures
        r@ == text_part(s@),
{
    text_part_of(&chars_of(s))
}

fn position_part_of(t: &LibraryTrack) -> (r: Vec<u32>)
    ensures
        r@ == position_part(t@),
{
    let position: i32 = parse_track_number(t.track_number.as_str());
    let mut out: Vec<u32> = Vec::new();
    out.push(position as u32);
    assert(out@ =~= position_part(t@));
    out
}

fn track_key_of(order: TrackOrder, t: &LibraryTrack) -> (r: Vec<Vec<u32>>)
    ensures
        key_view(r@) == track_key(order, t@),
{
    let mut key: Vec<Vec<u32>> = Vec::new();
    match order {
        TrackOrder::All => {
            key.push(lower_part_of(t.title.as_str()));
            key.push(lower_part_of(t.artist.as_str()));
            key.push(lower_part_of(t.album.as_str()));
        },
        TrackOrder::ArtistDetail => {
            key.push(lower_part_of(t.album.as_str()));
            key.push(position_part_of(t));
            key.push(lower_part_of(t.title.as_str()));
        },
        TrackOrder::AlbumDetail => {
            key.push(position_part_of(t));
            key.push(lower_part_of(t.title.as_str()));
        },
        TrackOrder::GenreDetail => {
            key.push(lower_part_of(t.artist.as_str()));
            key.push(lower_part_of(t.album.as_str()));
            key.push(position_part_of(t));
            key.push(lower_part_of(t.title.as_str()));
        },
        TrackOrder::DecadeDetail => {
            key.push(exact_part_of(t.year.as_str()));
            key.push(lower_part_of(t.artist.as_str()));
            key.push(lower_part_of(t.album.as_str()));
            key.push(position_part_of(t));
            key.push(lower_part_of(t.title.as_str()));
        },
    }
    let ghost front = key_view(key@);
    push_path_key(&mut key, t.path.as_str());
    assert(track_key(order, t@) =~= front + path_key(t@.path));
    key
}

/// Sorts tracks.
pub fn sort_tracks(order: TrackOrder, tracks: &Vec<LibraryTrack>) -> (r: Vec<LibraryTrack>)
    ensures
        views(r@) == sorted_tracks(order, views(tracks@)),
{
    let mut keys: Vec<Vec<Vec<u32>>> = Vec::new();
    let mut i: usize = 0;
    while i < tracks.len()
        invariant
            i <= tracks.len(),
            keys.len() == i,
            forall|k: int|
                0 <= k < i ==> key_view((#[trigger] keys@[k])@) == track_key(order, tracks@[k]@),
        decreases tracks.len() - i,
    {
        keys.push(track_key_of(order, &tracks[i]));
        i += 1;
    }
    sort_by_keys(tracks, &keys, Ghost(track_keys(order)))
}

pub open spec fn of_artist(artist: Seq<char>) -> spec_fn(TrackView) -> bool {
    |t: TrackView| t.artist == artist || t.album_artist == artist
}

pub open spec fn of_album(album: Seq<char>, album_artist: Seq<char>) -> spec_fn(TrackView) -> bool {
    |t: TrackView| t.album == album && t.album_artist == album_artist
}

pub open spec fn of_genre(genre: Seq<char>) -> spec_fn(TrackView) -> bool {
    |t: TrackView| genre_label(t.genre) == genre
}

pub open spec fn of_decade(decade: Seq<char>) -> spec_fn(TrackView) -> bool {
    |t: TrackView| decade_label(t.year) == decade
}

/// The tracks of an artist.
pub open spec fn artist_tracks(tracks: Seq<TrackView>, artist: Seq<char>) -> Seq<TrackView> {
    sorted_tracks(TrackOrder::ArtistDetail, tracks.filter(of_artist(artist)))
}

/// The tracks of an album.
pub open spec fn album_tracks(
    tracks: Seq<TrackView>,
    album: Seq<char>,
    album_artist: Seq<char>,
) -> Seq<TrackView> {
    sorted_tracks(TrackOrder::AlbumDetail, tracks.filter(of_album(album, album_artist)))
}

/// The tracks of a genre.
pub open spec fn genre_tracks(tracks: Seq<TrackView>, genre: Seq<char>) -> Seq<TrackView> {
    sorted_tracks(TrackOrder::GenreDetail, tracks.filter(of_genre(genre)))
}

/// The tracks of a decade.
pub open spec fn decade_tracks(tracks: Seq<TrackView>, decade: Seq<char>) -> Seq<TrackView> {
    sorted_tracks(TrackOrder::DecadeDetail, tracks.filter(of_decade(decade)))
}

/// The tracks that name the artist, as their artist or as that of their album.
pub fn tracks_for_artist_detail(tracks: &Vec<LibraryTrack>, artist: &str) -> (r: Vec<LibraryTrack>)
    ensures
        views(r@) == artist_tracks(views(tracks@), artist@),
{
    let mut marks: Vec<bool> = Vec::new();
    let mut i: usize = 0;
    while i < tracks.len()
        invariant
            i <= tracks.len(),
            marks.len() == i,
            forall|k: int|
                0 <= k < i ==> #[trigger] marks@[k] == of_artist(artist@)(tracks@[k]@),
        decreases tracks.len() - i,
    {
        marks.push(text_equal(tracks[i].artist.as_str(), artist) || text_equal(
            tracks[i].album_artist.as_str(),
            artist,
        ));
        i += 1;
    }
    let found = marked(tracks, &marks, Ghost(of_artist(artist@)));
    sort_tracks(TrackOrder::ArtistDetail, &found)
}

/// The tracks of one album.
pub fn tracks_for_album_detail(tracks: &Vec<LibraryTrack>, album: &str, album_artist: &str) -> (r: Vec<LibraryTrack>)
    ensures
        views(r@) == album_tracks(views(tracks@), album@, album_artist@),
{
    let mut marks: Vec<bool> = Vec::new();
    let mut i: usize = 0;
    while i < tracks.len()
        invariant
            i <= tracks.len(),
            marks.len() == i,
            forall|k: int|
                0 <= k < i ==> #[trigger] marks@[k] == of_album(album@, album_artist@)(tracks@[k]@),
        decreases tracks.len() - i,
    {
        marks.push(text_equal(tracks[i].album.as_str(), album) && text_equal(
            tracks[i].album_artist.as_str(),
            album_artist,
        ));
        i += 1;
    }
    let found = marked(tracks, &marks, Ghost(of_album(album@, album_artist@)));
    sort_tracks(TrackOrder::AlbumDetail, &found)
}

/// The tracks that are listed under a genre.
pub fn tracks_for_genre_detail(tracks: &Vec<LibraryTrack>, genre: &str) -> (r: Vec<LibraryTrack>)
    ensures
        views(r@) == genre_tracks(views(tracks@), genre@),
{
    let mut marks: Vec<bool> = Vec::new();
    let mut i: usize = 0;
    while i < tracks.len()
        invariant
            i <= tracks.len(),
            marks.len() == i,
            forall|k: int|
                0 <= k < i ==> #[trigger] marks@[k] == of_genre(genre@)(tracks@[k]@),
        decreases tracks.len() - i,
    {
        marks.push(text_equal(normalized_display_genre(tracks[i].genre.as_str()).as_str(), genre));
        i += 1;
    }
    let found = marked(tracks, &marks, Ghost(of_genre(genre@)));
    sort_tracks(TrackOrder::GenreDetail, &found)
}

/// The tracks that are listed under a decade.
pub fn tracks_for_decade_detail(tracks: &Vec<LibraryTrack>, decade: &str) -> (r: Vec<LibraryTrack>)
    ensures
        views(r@) == decade_tracks(views(tracks@), decade@),
{
    let mut marks: Vec<bool> = Vec::new();
    let mut i: usize = 0;
    while i < tracks.len()
        invariant
            i <= tracks.len(),
            marks.len() == i,
            forall|k: int|
                0 <= k < i ==> #[trigger] marks@[k] == of_decade(decade@)(tracks@[k]@),
        decreases tracks.len() - i,
    {
        marks.push(text_equal(normalized_display_decade(tracks[i].year.as_str()).as_str(), decade));
        i += 1;
    }
    let found = marked(tracks, &marks, Ghost(of_decade(decade@)));
    sort_tracks(TrackOrder::DecadeDetail, &found)
}

pub open spec fn artist_of() -> spec_fn(TrackView) -> Seq<char> {
    |t: TrackView| t.artist
}

pub open spec fn album_of() -> spec_fn(TrackView) -> (Seq<char>, Seq<char>) {
    |t: TrackView| (t.album, t.album_artist)
}

pub open spec fn genre_of() -> spec_fn(TrackView) -> Seq<char> {
    |t: TrackView| genre_label(t.genre)
}

pub open spec fn decade_of() -> spec_fn(TrackView) -> Seq<char> {
    |t: TrackView| decade_label(t.year)
}

pub open spec fn sung_by(artist: Seq<char>) -> spec_fn(TrackView) -> bool {
    |t: TrackView| t.artist == artist
}

/// The albums from which an artist's tracks come.
pub open spec fn albums_of(tracks: Seq<TrackView>, artist: Seq<char>) -> Seq<
    (Seq<char>, Seq<char>),
> {
    firsts(tracks.filter(sung_by(artist)).map_values(album_of()))
}

/// What is listed of an artist.
pub open spec fn artist_entry(tracks: Seq<TrackView>) -> spec_fn(Seq<char>) -> ArtistView {
    |artist: Seq<char>|
        ArtistView {
            artist,
            album_count: capped(albums_of(tracks, artist).len()),
            track_count: capped(occurrences(tracks.map_values(artist_of()), artist)),
        }
}

pub open spec fn artist_keys() -> spec_fn(ArtistView) -> Seq<Seq<u32>> {
    |a: ArtistView| seq![lower_part(a.artist), text_part(a.artist)]
}

/// The artists of the tracks, by name.
pub open spec fn artist_list(tracks: Seq<TrackView>) -> Seq<ArtistView> {
    sorted_by(firsts(tracks.map_values(artist_of())).map_values(artist_entry(tracks)), artist_keys())
}

/// The first in the order of paths among the paths of an album's tracks.
pub open spec fn least_path(tracks: Seq<TrackView>, album: (Seq<char>, Seq<char>)) -> Option<
    Seq<char>,
>
    decreases tracks.len(),
{
    if tracks.len() == 0 {
        None
    } else {
        let rest = least_path(tracks.drop_last(), album);
        let last = tracks.last();
        if (last.album, last.album_artist) != album {
            rest
        } else {
            match rest {
                Some(path) => if key_less(path_key(last.path), path_key(path)) {
                    Some(last.path)
                } else {
                    rest
                },
                None => Some(last.path),
            }
        }
    }
}

/// What is listed of an album.
pub open spec fn album_entry(tracks: Seq<TrackView>) -> spec_fn(
    (Seq<char>, Seq<char>),
) -> AlbumView {
    |album: (Seq<char>, Seq<char>)|
        AlbumView {
            album: album.0,
            album_artist: album.1,
            track_count: capped(occurrences(tracks.map_values(album_of()), album)),
            representative_track_path: least_path(tracks, album),
        }
}

pub open spec fn album_keys() -> spec_fn(AlbumView) -> Seq<Seq<u32>> {
    |a: AlbumView|
        seq![
            lower_part(a.album),
            lower_part(a.album_artist),
            text_part(a.album),
            text_part(a.album_artist),
        ]
}

/// The albums of the tracks, by title and artist.
pub open spec fn album_list(tracks: Seq<TrackView>) -> Seq<AlbumView> {
    sorted_by(firsts(tracks.map_values(album_of())).map_values(album_entry(tracks)), album_keys())
}

pub open spec fn genre_entry(tracks: Seq<TrackView>) -> spec_fn(Seq<char>) -> GenreView {
    |genre: Seq<char>|
        GenreView {
            genre,
            track_count: capped(occurrences(tracks.map_values(genre_of()), genre)),
        }
}

pub open spec fn genre_keys() -> spec_fn(GenreView) -> Seq<Seq<u32>> {
    |g: GenreView| seq![lower_part(g.genre), text_part(g.genre)]
}

/// The genres of the tracks, by name.
pub open spec fn genre_list(tracks: Seq<TrackView>) -> Seq<GenreView> {
    sorted_by(firsts(tracks.map_values(genre_of())).map_values(genre_entry(tracks)), genre_keys())
}

pub open spec fn decade_entry(tracks: Seq<TrackView>) -> spec_fn(Seq<char>) -> DecadeView {
    |decade: Seq<char>|
        DecadeView {
            decade,
            track_count: capped(occurrences(tracks.map_values(decade_of()), decade)),
        }
}

pub open spec fn decade_keys() -> spec_fn(DecadeView) -> Seq<Seq<u32>> {
    |d: DecadeView| seq![text_part(d.decade)]
}

/// The decades of the tracks, by name.
pub open spec fn decade_list(tracks: Seq<TrackView>) -> Seq<DecadeView> {
    sorted_by(
        firsts(tracks.map_values(decade_of())).map_values(decade_entry(tracks)),
        decade_keys(),
    )
}

/// The genres of a list of tracks.
pub fn effective_genres_from_tracks(tracks: &Vec<LibraryTrack>) -> (r: Vec<LibraryGenre>)
    ensures
        views(r@) == genre_list(views(tracks@)),
{
    let ghost all = views(tracks@);
    let mut labels: Vec<String> = Vec::new();
    let mut i: usize = 0;
    while i < tracks.len()
        invariant
            i <= tracks.len(),
            labels.len() == i,
            forall|k: int| 0 <= k < i ==> (#[trigger] labels@[k])@ == genre_label(tracks@[k]@.genre),
        decreases tracks.len() - i,
    {
        labels.push(normalized_display_genre(tracks[i].genre.as_str()));
        i += 1;
    }
    assert(texts(labels@) =~= all.map_values(genre_of()));
    let (names, counts) = count_labels(&labels);
    let mut entries: Vec<LibraryGenre> = Vec::new();
    let mut keys: Vec<Vec<Vec<u32>>> = Vec::new();
    let mut j: usize = 0;
    while j < names.len()
        invariant
            j <= names.len(),
            counts.len() == names.len(),
            entries.len() == j,
            keys.len() == j,
            forall|k: int|
                0 <= k < names.len() ==> #[trigger] counts@[k] == capped(
                    occurrences(all.map_values(genre_of()), names@[k]@),
                ),
            forall|k: int|
                0 <= k < j ==> (#[trigger] entries@[k])@ == genre_entry(all)(names@[k]@),
            forall|k: int|
                0 <= k < j ==> key_view((#[trigger] keys@[k])@) == genre_keys()(entries@[k]@),
        decreases names.len() - j,
    {
        let mut key: Vec<Vec<u32>> = Vec::new();
        key.push(lower_part_of(names[j].as_str()));
        key.push(exact_part_of(names[j].as_str()));
        assert(key_view(key@) =~= seq![lower_part(names@[j as int]@), text_part(names@[j as int]@)]);
        keys.push(key);
        entries.push(LibraryGenre { genre: names[j].clone(), track_count: counts[j] });
        j += 1;
    }
    assert(views(entries@) =~= texts(names@).map_values(genre_entry(all)));
    sort_by_keys(&entries, &keys, Ghost(genre_keys()))
}

/// The decades of a list of tracks.
pub fn effective_decades_from_tracks(tracks: &Vec<LibraryTrack>) -> (r: Vec<LibraryDecade>)
    ensures
        views(r@) == decade_list(views(tracks@)),
{
    let ghost all = views(tracks@);
    let mut labels: Vec<String> = Vec::new();
    let mut i: usize = 0;
    while i < tracks.len()
        invariant
            i <= tracks.len(),
            labels.len() == i,
            forall|k: int| 0 <= k < i ==> (#[trigger] labels@[k])@ == decade_label(tracks@[k]@.year),
        decreases tracks.len() - i,
    {
        labels.push(normalized_display_decade(tracks[i].year.as_str()));
        i += 1;
    }
    assert(texts(labels@) =~= all.map_values(decade_of()));
    let (names, counts) = count_labels(&labels);
    let mut entries: Vec<LibraryDecade> = Vec::new();
    let mut keys: Vec<Vec<Vec<u32>>> = Vec::new();
    let mut j: usize = 0;
    while j < names.len()
        invariant
            j <= names.len(),
            counts.len() == names.len(),
            entries.len() == j,
            keys.len() == j,
            forall|k: int|
                0 <= k < names.len() ==> #[trigger] counts@[k] == capped(
                    occurrences(all.map_values(decade_of()), names@[k]@),
                ),
            forall|k: int|
                0 <= k < j ==> (#[trigger] entries@[k])@ == decade_entry(all)(names@[k]@),
            forall|k: int|
                0 <= k < j ==> key_view((#[trigger] keys@[k])@) == decade_keys()(entries@[k]@),
        decreases names.len() - j,
    {
        let mut key: Vec<Vec<u32>> = Vec::new();
        key.push(exact_part_of(names[j].as_str()));
        assert(key_view(key@) =~= seq![text_part(names@[j as int]@)]);
        keys.push(key);
        entries.push(LibraryDecade { decade: names[j].clone(), track_count: counts[j] });
        j += 1;
    }
    assert(views(entries@) =~= texts(names@).map_values(decade_entry(all)));
    sort_by_keys(&entries, &keys, Ghost(decade_keys()))
}

/// The contents of a list of albums that are given by title and artist.
pub open spec fn pairs_view(pairs: Seq<(String, String)>) -> Seq<(Seq<char>, Seq<char>)> {
    pairs.map_values(|p: (String, String)| (p.0@, p.1@))
}

/// Where an album stands in a list.
fn find_pair(pairs: &Vec<(String, String)>, album: &String, album_artist: &String) -> (r: Option<
    usize,
>)
    ensures
        match r {
            Some(i) => i < pairs.len() && pairs_view(pairs@)[i as int] == (album@, album_artist@),
            None => !pairs_view(pairs@).contains((album@, album_artist@)),
        },
{
    let mut i: usize = 0;
    while i < pairs.len()
        invariant
            i <= pairs.len(),
            forall|k: int|
                0 <= k < i ==> #[trigger] pairs_view(pairs@)[k] != (album@, album_artist@),
        decreases pairs.len() - i,
    {
        if pairs[i].0 == *album && pairs[i].1 == *album_artist {
            return Some(i);
        }
        assert(pairs_view(pairs@)[i as int] == (pairs@[i as int].0@, pairs@[i as int].1@));
        i += 1;
    }
    None
}

proof fn lemma_firsts_push<A>(items: Seq<A>, a: A)
    ensures
        firsts(items.push(a)) == if firsts(items).contains(a) {
            firsts(items)
        } else {
            firsts(items).push(a)
        },
{
    assert(items.push(a).drop_last() =~= items);
}

proof fn lemma_albums_of_push(tracks: Seq<TrackView>, t: TrackView, artist: Seq<char>)
    ensures
        albums_of(tracks.push(t), artist) == if t.artist == artist {
            firsts(
                tracks.filter(sung_by(artist)).map_values(album_of()).push(
                    (t.album, t.album_artist),
                ),
            )
        } else {
            albums_of(tracks, artist)
        },
{
    reveal(Seq::filter);
    assert(tracks.push(t).drop_last() =~= tracks);
    let kept = tracks.filter(sung_by(artist));
    assert(kept.push(t).map_values(album_of()) =~= kept.map_values(album_of()).push(
        (t.album, t.album_artist),
    ));
}

/// For each of the distinct artists, the albums from which the artist's tracks come.
fn albums_by_artist(tracks: &Vec<LibraryTrack>, names: &Vec<String>, index: &Vec<usize>) -> (r: Vec<
    Vec<(String, String)>,
>)
    requires
        index.len() == tracks.len(),
        texts(names@).no_duplicates(),
        forall|i: int|
            0 <= i < tracks.len() ==> #[trigger] index@[i] < names.len() && names@[index@[i] as int]@
                == tracks@[i]@.artist,
    ensures
        r.len() == names.len(),
        forall|j: int|
            0 <= j < names.len() ==> pairs_view((#[trigger] r@[j])@) == albums_of(
                views(tracks@),
                names@[j]@,
            ),
{
    let ghost all = views(tracks@);
    let mut albums: Vec<Vec<(String, String)>> = Vec::new();
    let mut j: usize = 0;
    while j < names.len()
        invariant
            j <= names.len(),
            albums.len() == j,
            forall|k: int| 0 <= k < j ==> (#[trigger] albums@[k])@ == Seq::<(String, String)>::empty(),
        decreases names.len() - j,
    {
        albums.push(Vec::new());
        j += 1;
    }
    proof {
        reveal(Seq::filter);
        assert(all.take(0) =~= Seq::empty());
        assert forall|k: int| 0 <= k < names.len() implies pairs_view((#[trigger] albums@[k])@)
            == albums_of(all.take(0), names@[k]@) by {
            let kept = all.take(0).filter(sung_by(names@[k]@));
            assert(kept =~= Seq::empty());
            assert(kept.map_values(album_of()) =~= Seq::empty());
            assert(pairs_view(albums@[k]@) =~= Seq::empty());
        }
    }
    let mut n: usize = 0;
    while n < tracks.len()
        invariant
            n <= tracks.len(),
            all == views(tracks@),
            albums.len() == names.len(),
            index.len() == tracks.len(),
            texts(names@).no_duplicates(),
            forall|i: int|
                0 <= i < tracks.len() ==> #[trigger] index@[i] < names.len()
                    && names@[index@[i] as int]@ == tracks@[i]@.artist,
            forall|k: int|
                0 <= k < names.len() ==> pairs_view((#[trigger] albums@[k])@) == albums_of(
                    all.take(n as int),
                    names@[k]@,
                ),
        decreases tracks.len() - n,
    {
        let place: usize = index[n];
        let track = &tracks[n];
        let ghost before = albums@;
        let ghost pair = (track@.album, track@.album_artist);
        let found = find_pair(&albums[place], &track.album, &track.album_artist);
        if found.is_none() {
            let entry = (track.album.clone(), track.album_artist.clone());
            let ghost old_list = albums@[place as int]@;
            albums[place].push(entry);
            assert(pairs_view(albums@[place as int]@) =~= pairs_view(old_list).push(pair));
        }
        proof {
            let part = all.take(n as int);
            assert(all.take(n + 1) =~= part.push(track@));
            assert forall|k: int| 0 <= k < names.len() implies pairs_view((#[trigger] albums@[k])@)
                == albums_of(all.take(n + 1), names@[k]@) by {
                lemma_albums_of_push(part, track@, names@[k]@);
                assert(pairs_view(before[k]@) == albums_of(part, names@[k]@));
                if k == place {
                    lemma_firsts_push(
                        part.filter(sung_by(names@[k]@)).map_values(album_of()),
                        pair,
                    );
                    if let Some(at) = found {
                        assert(pairs_view(before[k]@)[at as int] == pair);
                    }
                } else {
                    assert(texts(names@)[k] != texts(names@)[place as int]);
                }
            }
        }
        n += 1;
    }
    assert(all.take(n as int) =~= all);
    albums
}

/// The artists of a list of tracks.
pub fn effective_artists_from_tracks(tracks: &Vec<LibraryTrack>) -> (r: Vec<LibraryArtist>)
    ensures
        views(r@) == artist_list(views(tracks@)),
{
    let ghost all = views(tracks@);
    let mut labels: Vec<String> = Vec::new();
    let mut i: usize = 0;
    while i < tracks.len()
        invariant
            i <= tracks.len(),
            labels.len() == i,
            forall|k: int| 0 <= k < i ==> (#[trigger] labels@[k])@ == tracks@[k]@.artist,
        decreases tracks.len() - i,
    {
        labels.push(tracks[i].artist.clone());
        i += 1;
    }
    assert(texts(labels@) =~= all.map_values(artist_of()));
    let (names, index) = group_labels(&labels);
    proof {
        lemma_firsts(texts(labels@));
    }
    let albums = albums_by_artist(tracks, &names, &index);
    let (same, counts) = count_labels(&labels);
    assert(texts(same@) == texts(names@));
    assert(texts(same@).len() == same.len() && texts(names@).len() == names.len());
    let mut entries: Vec<LibraryArtist> = Vec::new();
    let mut keys: Vec<Vec<Vec<u32>>> = Vec::new();
    let mut j: usize = 0;
    while j < names.len()
        invariant
            j <= names.len(),
            counts.len() == names.len(),
            albums.len() == names.len(),
            same.len() == names.len(),
            texts(same@) == texts(names@),
            entries.len() == j,
            keys.len() == j,
            forall|k: int|
                0 <= k < same.len() ==> #[trigger] counts@[k] == capped(
                    occurrences(all.map_values(artist_of()), same@[k]@),
                ),
            forall|k: int|
                0 <= k < names.len() ==> pairs_view((#[trigger] albums@[k])@) == albums_of(
                    all,
                    names@[k]@,
                ),
            forall|k: int|
                0 <= k < j ==> (#[trigger] entries@[k])@ == artist_entry(all)(names@[k]@),
            forall|k: int|
                0 <= k < j ==> key_view((#[trigger] keys@[k])@) == artist_keys()(entries@[k]@),
        decreases names.len() - j,
    {
        let mut key: Vec<Vec<u32>> = Vec::new();
        key.push(lower_part_of(names[j].as_str()));
        key.push(exact_part_of(names[j].as_str()));
        assert(key_view(key@) =~= seq![lower_part(names@[j as int]@), text_part(names@[j as int]@)]);
        keys.push(key);
        let album_total: usize = albums[j].len();
        let album_count: u32 = if album_total <= u32::MAX as usize {
            album_total as u32
        } else {
            u32::MAX
        };
        assert(texts(same@)[j as int] == texts(names@)[j as int]);
        assert(pairs_view(albums@[j as int]@).len() == album_total);
        entries.push(
            LibraryArtist { artist: names[j].clone(), album_count, track_count: counts[j] },
        );
        j += 1;
    }
    assert(views(entries@) =~= texts(names@).map_values(artist_entry(all)));
    sort_by_keys(&entries, &keys, Ghost(artist_keys()))
}

fn is_path_before(a: &str, b: &str) -> (r: bool)
    ensures
        r == key_less(path_key(a@), path_key(b@)),
{
    let mut first: Vec<Vec<u32>> = Vec::new();
    push_path_key(&mut first, a);
    let mut second: Vec<Vec<u32>> = Vec::new();
    push_path_key(&mut second, b);
    assert(key_view(Seq::<Vec<u32>>::empty()) =~= Seq::empty());
    assert(key_view(first@) =~= path_key(a@));
    assert(key_view(second@) =~= path_key(b@));
    is_key_less(&first, &second)
}

proof fn lemma_no_path(tracks: Seq<TrackView>, album: (Seq<char>, Seq<char>))
    requires
        !tracks.map_values(album_of()).contains(album),
    ensures
        least_path(tracks, album) is None,
        occurrences(tracks.map_values(album_of()), album) == 0,
    decreases tracks.len(),
{
    if tracks.len() > 0 {
        let rest = tracks.drop_last();
        let all = tracks.map_values(album_of());
        assert(rest.map_values(album_of()) =~= all.drop_last());
        assert(all[all.len() - 1] == (tracks.last().album, tracks.last().album_artist));
        assert forall|i: int| 0 <= i < rest.len() implies rest.map_values(album_of())[i]
            != album by {
            assert(all[i] != album);
        }
        lemma_no_path(rest, album);
    }
}

/// The albums of a list of tracks.
pub fn effective_albums_from_tracks(tracks: &Vec<LibraryTrack>) -> (r: Vec<LibraryAlbum>)
    ensures
        views(r@) == album_list(views(tracks@)),
{
    let ghost all = views(tracks@);
    let ghost names = all.map_values(album_of());
    let mut pairs: Vec<(String, String)> = Vec::new();
    let mut counts: Vec<u32> = Vec::new();
    let mut best: Vec<String> = Vec::new();
    let mut n: usize = 0;
    proof {
        assert(names.take(0) =~= Seq::empty());
        assert(pairs_view(pairs@) =~= Seq::empty());
    }
    while n < tracks.len()
        invariant
            n <= tracks.len(),
            all == views(tracks@),
            names == all.map_values(album_of()),
            names.len() == tracks.len(),
            pairs_view(pairs@) == firsts(names.take(n as int)),
            counts.len() == pairs.len(),
            best.len() == pairs.len(),
            forall|k: int|
                0 <= k < pairs.len() ==> #[trigger] counts@[k] == capped(
                    occurrences(names.take(n as int), pairs_view(pairs@)[k]),
                ),
            forall|k: int|
                0 <= k < pairs.len() ==> Some((#[trigger] best@[k])@) == least_path(
                    all.take(n as int),
                    pairs_view(pairs@)[k],
                ),
        decreases tracks.len() - n,
    {
        let track = &tracks[n];
        let ghost pair = (track@.album, track@.album_artist);
        let ghost part = all.take(n as int);
        let ghost next = all.take(n + 1);
        let ghost old_pairs = pairs_view(pairs@);
        let ghost old_counts = counts@;
        let ghost old_best = texts(best@);
        proof {
            assert(next.drop_last() =~= part);
            assert(next.last() == track@);
            assert(names.take(n + 1) =~= names.take(n as int).push(pair));
            assert(names.take(n + 1).drop_last() =~= names.take(n as int));
            assert(part.map_values(album_of()) =~= names.take(n as int));
            lemma_firsts(names.take(n as int));
            lemma_firsts_push(names.take(n as int), pair);
        }
        match find_pair(&pairs, &track.album, &track.album_artist) {
            Some(place) => {
                assert(old_pairs[place as int] == pair);
                assert(old_pairs.contains(pair));
                let count: u32 = counts[place];
                if count < u32::MAX {
                    counts.set(place, count + 1);
                }
                if is_path_before(track.path.as_str(), best[place].as_str()) {
                    best.set(place, track.path.clone());
                }
                proof {
                    assert forall|k: int| 0 <= k < pairs.len() implies #[trigger] counts@[k]
                        == capped(occurrences(names.take(n + 1), old_pairs[k])) by {
                        assert(old_counts[k] == capped(
                            occurrences(names.take(n as int), old_pairs[k]),
                        ));
                        if k != place {
                            assert(old_pairs[k] != old_pairs[place as int]);
                        }
                    }
                    assert forall|k: int| 0 <= k < pairs.len() implies Some((#[trigger] best@[k])@)
                        == least_path(next, old_pairs[k]) by {
                        assert(Some(old_best[k]) == least_path(part, old_pairs[k]));
                        if k != place {
                            assert(old_pairs[k] != old_pairs[place as int]);
                        }
                    }
                }
            },
            None => {
                pairs.push((track.album.clone(), track.album_artist.clone()));
                counts.push(1);
                best.push(track.path.clone());
                proof {
                    assert(pairs_view(pairs@) =~= old_pairs.push(pair));
                    lemma_no_path(part, pair);
                    assert forall|k: int| 0 <= k < pairs.len() implies #[trigger] counts@[k]
                        == capped(occurrences(names.take(n + 1), pairs_view(pairs@)[k])) by {
                        if k < old_pairs.len() {
                            assert(old_counts[k] == capped(
                                occurrences(names.take(n as int), old_pairs[k]),
                            ));
                            assert(old_pairs[k] != pair);
                        }
                    }
                    assert forall|k: int| 0 <= k < pairs.len() implies Some((#[trigger] best@[k])@)
                        == least_path(next, pairs_view(pairs@)[k]) by {
                        if k < old_pairs.len() {
                            assert(Some(old_best[k]) == least_path(part, old_pairs[k]));
                            assert(old_pairs[k] != pair);
                        }
                    }
                }
            },
        }
        n += 1;
    }
    proof {
        assert(all.take(n as int) =~= all);
        assert(names.take(n as int) =~= names);
    }
    let mut entries: Vec<LibraryAlbum> = Vec::new();
    let mut keys: Vec<Vec<Vec<u32>>> = Vec::new();
    let mut j: usize = 0;
    while j < pairs.len()
        invariant
            j <= pairs.len(),
            names == all.map_values(album_of()),
            counts.len() == pairs.len(),
            best.len() == pairs.len(),
            entries.len() == j,
            keys.len() == j,
            forall|k: int|
                0 <= k < pairs.len() ==> #[trigger] counts@[k] == capped(
                    occurrences(names, pairs_view(pairs@)[k]),
                ),
            forall|k: int|
                0 <= k < pairs.len() ==> Some((#[trigger] best@[k])@) == least_path(
                    all,
                    pairs_view(pairs@)[k],
                ),
            forall|k: int|
                0 <= k < j ==> (#[trigger] entries@[k])@ == album_entry(all)(
                    pairs_view(pairs@)[k],
                ),
            forall|k: int|
                0 <= k < j ==> key_view((#[trigger] keys@[k])@) == album_keys()(entries@[k]@),
        decreases pairs.len() - j,
    {
        let album: &str = pairs[j].0.as_str();
        let album_artist: &str = pairs[j].1.as_str();
        let mut key: Vec<Vec<u32>> = Vec::new();
        key.push(lower_part_of(album));
        key.push(lower_part_of(album_artist));
        key.push(exact_part_of(album));
        key.push(exact_part_of(album_artist));
        assert(key_view(key@) =~= seq![
            lower_part(album@),
            lower_part(album_artist@),
            text_part(album@),
            text_part(album_artist@),
        ]);
        keys.push(key);
        let entry = LibraryAlbum {
            album: pairs[j].0.clone(),
            album_artist: pairs[j].1.clone(),
            track_count: counts[j],
            representative_track_path: Some(best[j].clone()),
        };
        proof {
            assert(pairs_view(pairs@)[j as int] == (album@, album_artist@));
            assert(entry@ == album_entry(all)(pairs_view(pairs@)[j as int]));
        }
        entries.push(entry);
        j += 1;
    }
    assert(views(entries@) =~= pairs_view(pairs@).map_values(album_entry(all)));
    sort_by_keys(&entries, &keys, Ghost(album_keys()))
}

} // verus!
