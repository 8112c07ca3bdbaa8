//! Favorite tracks, artists and albums, and their exchange with servers.

use crate::integration::uri::{located, parse_opensubsonic_track_uri};
use crate::library::pages::{page, page_of};
use crate::library::paths::rooted;
use crate::protocol::{
    views, AlbumView, ArtistView, CategoryView, FavoriteCategory, FavoriteEntityKind,
    FavoriteEntityRef, FavoriteView, LibraryAlbum, LibraryArtist, LibraryEntryPayload, LibraryTrack,
    RowView, TrackView,
};
use crate::text::{
    append, chars_occur_at, chars_of, copy_range, has_prefix, occurs_at, owned, string_of, texts,
    trim, trim_text,
};
use vstd::prelude::*;

verus! {

/// The second line of a favorite track: its artist and its album.
pub open spec fn track_subtitle(t: TrackView) -> Seq<char> {
    let artist = trim(t.artist);
    let album = trim(t.album);
    if artist.len() > 0 && album.len() > 0 {
        artist + " · "@ + album
    } else if artist.len() > 0 {
        artist
    } else {
        album
    }
}

/// The key of a favorite track: where it comes from.
pub open spec fn track_favorite_key(path: Seq<char>) -> Seq<char> {
    match located(path) {
        Some(locator) => "os:"@ + locator.profile_id + ":song:"@ + locator.song_id,
        None => if rooted(path) {
            "file:"@ + path
        } else {
            "uri:"@ + path
        },
    }
}

/// The favorite that a track makes.
pub open spec fn track_favorite(t: TrackView) -> FavoriteView {
    FavoriteView {
        kind: FavoriteEntityKind::Track,
        entity_key: track_favorite_key(t.path),
        display_primary: t.title,
        display_secondary: track_subtitle(t),
        track_path: Some(t.path),
        remote_profile_id: match located(t.path) {
            Some(locator) => Some(locator.profile_id),
            None => None,
        },
        remote_item_id: match located(t.path) {
            Some(locator) => Some(locator.song_id),
            None => None,
        },
    }
}

/// The second line of a favorite track.
pub fn favorite_secondary_for_track(track: &LibraryTrack) -> (r: String)
    ensures
        r@ == track_subtitle(track@),
{
    let artist = trim_text(track.artist.as_str());
    let album = trim_text(track.album.as_str());
    let has_artist = !artist.as_str().is_empty();
    let has_album = !album.as_str().is_empty();
    assert(has_artist == (artist@.len() > 0));
    assert(has_album == (album@.len() > 0));
    if has_artist && has_album {
        let mut out = artist;
        append(&mut out, " · ");
        append(&mut out, album.as_str());
        out
    } else if has_artist {
        artist
    } else {
        album
    }
}

fn is_rooted(path: &str) -> (r: bool)
    ensures
        r == rooted(path@),
{
    let v = chars_of(path);
    v.len() > 0 && v[0] == '/'
}

/// The favorite that a track makes.
pub fn favorite_from_library_track(track: &LibraryTrack) -> (r: FavoriteEntityRef)
    ensures
        r@ == track_favorite(track@),
{
    let display_secondary = favorite_secondary_for_track(track);
    match parse_opensubsonic_track_uri(track.path.as_str()) {
        Some(locator) => {
            let mut entity_key = owned("os:");
            append(&mut entity_key, locator.profile_id.as_str());
            append(&mut entity_key, ":song:");
            append(&mut entity_key, locator.song_id.as_str());
            FavoriteEntityRef {
                kind: FavoriteEntityKind::Track,
                entity_key,
                display_primary: track.title.clone(),
                display_secondary,
                track_path: Some(track.path.clone()),
                remote_profile_id: Some(locator.profile_id),
                remote_item_id: Some(locator.song_id),
            }
        },
        None => {
            let mut entity_key = if is_rooted(track.path.as_str()) {
                owned("file:")
            } else {
                owned("uri:")
            };
            append(&mut entity_key, track.path.as_str());
            FavoriteEntityRef {
                kind: FavoriteEntityKind::Track,
                entity_key,
                display_primary: track.title.clone(),
                display_secondary,
                track_path: Some(track.path.clone()),
                remote_profile_id: None,
                remote_item_id: None,
            }
        },
    }
}

pub open spec fn track_favorites() -> spec_fn(TrackView) -> FavoriteView {
    |t: TrackView| track_favorite(t)
}

/// The favorites that a server's favorite tracks make.
pub fn favorites_from_tracks(tracks: &Vec<LibraryTrack>) -> (r: Vec<FavoriteEntityRef>)
    ensures
        views(r@) == views(tracks@).map_values(track_favorites()),
{
    let mut out: Vec<FavoriteEntityRef> = Vec::new();
    let mut i: usize = 0;
    while i < tracks.len()
        invariant
            i <= tracks.len(),
            out.len() == i,
            forall|k: int| 0 <= k < i ==> (#[trigger] out@[k])@ == track_favorite(tracks@[k]@),
        decreases tracks.len() - i,
    {
        out.push(favorite_from_library_track(&tracks[i]));
        i += 1;
    }
    assert(views(out@) =~= views(tracks@).map_values(track_favorites()));
    out
}

/// The text of one of the three lists of favorites.
pub open spec fn category_title(kind: FavoriteEntityKind) -> Seq<char> {
    match kind {
        FavoriteEntityKind::Track => "Favorite Tracks"@,
        FavoriteEntityKind::Artist => "Favorite Artists"@,
        FavoriteEntityKind::Album => "Favorite Albums"@,
    }
}

pub open spec fn category_row(kind: FavoriteEntityKind, count: usize) -> RowView {
    RowView::FavoriteCategory(CategoryView { kind, title: category_title(kind), count })
}

/// The lists of favorites, with the number of favorites in each.
pub open spec fn category_rows(tracks: usize, artists: usize, albums: usize) -> Seq<RowView> {
    seq![
        category_row(FavoriteEntityKind::Track, tracks),
        category_row(FavoriteEntityKind::Artist, artists),
        category_row(FavoriteEntityKind::Album, albums),
    ]
}

fn category(kind: FavoriteEntityKind, count: usize) -> (r: LibraryEntryPayload)
    ensures
        r@ == category_row(kind, count),
{
    let title = match kind {
        FavoriteEntityKind::Track => owned("Favorite Tracks"),
        FavoriteEntityKind::Artist => owned("Favorite Artists"),
        FavoriteEntityKind::Album => owned("Favorite Albums"),
    };
    LibraryEntryPayload::FavoriteCategory(FavoriteCategory { kind, title, count })
}

/// A number of favorites; one that could not be loaded counts as none.
pub open spec fn known_count(count: Option<usize>) -> usize {
    match count {
        Some(n) => n,
        None => 0,
    }
}

/// The page of the lists of favorites.
pub fn favorites_root_page(
    track_count: Option<usize>,
    artist_count: Option<usize>,
    album_count: Option<usize>,
    offset: usize,
    limit: usize,
) -> (r: (usize, Vec<LibraryEntryPayload>))
    ensures
        r.0 == 3,
        views(r.1@) == page(
            category_rows(
                known_count(track_count),
                known_count(artist_count),
                known_count(album_count),
            ),
            offset as nat,
            limit as nat,
        ),
{
    let tracks: usize = match track_count {
        Some(n) => n,
        None => 0,
    };
    let artists: usize = match artist_count {
        Some(n) => n,
        None => 0,
    };
    let albums: usize = match album_count {
        Some(n) => n,
        None => 0,
    };
    let mut rows: Vec<LibraryEntryPayload> = Vec::new();
    rows.push(category(FavoriteEntityKind::Track, tracks));
    rows.push(category(FavoriteEntityKind::Artist, artists));
    rows.push(category(FavoriteEntityKind::Album, albums));
    assert(views(rows@) =~= category_rows(tracks, artists, albums));
    (rows.len(), page_of(&rows, offset, limit))
}

/// A text without the prefix, however often it begins with it.
pub open spec fn without_prefix(s: Seq<char>, prefix: Seq<char>) -> Seq<char>
    decreases s.len(),
{
    if prefix.len() > 0 && has_prefix(s, prefix) {
        without_prefix(s.skip(prefix.len() as int), prefix)
    } else {
        s
    }
}

fn strip_prefixes(s: &str, prefix: &str) -> (r: String)
    requires
        prefix@.len() > 0,
    ensures
        r@ == without_prefix(s@, prefix@),
{
    let v = chars_of(s);
    let p = chars_of(prefix);
    let mut from: usize = 0;
    assert(v@.skip(0) =~= v@);
    while chars_occur_at(&v, &p, from)
        invariant
            from <= v.len(),
            p@ == prefix@,
            p@.len() > 0,
            v@ == s@,
            without_prefix(v@.skip(from as int), p@) == without_prefix(s@, prefix@),
        ensures
            from <= v.len(),
            without_prefix(v@.skip(from as int), p@) == without_prefix(s@, prefix@),
            !occurs_at(v@, p@, from as int),
        decreases v.len() - from,
    {
        proof {
            let rest = v@.skip(from as int);
            assert(rest.take(p@.len() as int) =~= v@.subrange(from as int, from + p@.len()));
            assert(has_prefix(rest, p@));
            assert(rest.skip(p@.len() as int) =~= v@.skip(from + p@.len()));
        }
        from = from + p.len();
    }
    proof {
        let rest = v@.skip(from as int);
        if has_prefix(rest, p@) {
            assert(rest.take(p@.len() as int) =~= v@.subrange(from as int, from + p@.len()));
            assert(occurs_at(v@, p@, from as int));
        }
        assert(v@.subrange(from as int, v@.len() as int) =~= rest);
    }
    string_of(&copy_range(&v, from, v.len()))
}

/// The row of a favorite track.
pub open spec fn favorite_track_row(f: FavoriteView) -> RowView {
    RowView::Track(
        TrackView {
            id: f.entity_key,
            path: match f.track_path {
                Some(path) => path,
                None => without_prefix(f.entity_key, "file:"@),
            },
            title: f.display_primary,
            artist: f.display_secondary,
            album: Seq::empty(),
            album_artist: Seq::empty(),
            genre: Seq::empty(),
            year: Seq::empty(),
            track_number: Seq::empty(),
        },
    )
}

/// What the index knows of a favorite.
#[derive(Debug, PartialEq, Eq)]
pub struct FavoriteDetail {
    /// How many albums an artist has.
    pub album_count: usize,
    /// The paths of the tracks.
    pub track_paths: Vec<String>,
}

/// A number in 32 bits.
pub open spec fn low_word(n: nat) -> u32 {
    (n % 0x1_0000_0000) as u32
}

fn low_word_of(n: usize) -> (r: u32)
    ensures
        r == low_word(n as nat),
{
    let wide: u64 = n as u64 % 0x1_0000_0000u64;
    wide as u32
}

/// The row of a favorite. The detail is what the index knows of the favorite artist or album;
/// where it could not be loaded the row shows no tracks.
pub open spec fn favorite_row(f: FavoriteView, detail: Option<FavoriteDetail>) -> RowView {
    match f.kind {
        FavoriteEntityKind::Track => favorite_track_row(f),
        FavoriteEntityKind::Artist => RowView::Artist(
            ArtistView {
                artist: f.display_primary,
                album_count: match detail {
                    Some(d) => low_word(d.album_count as nat),
                    None => 0,
                },
                track_count: match detail {
                    Some(d) => low_word(d.track_paths@.len()),
                    None => 0,
                },
            },
        ),
        FavoriteEntityKind::Album => RowView::Album(
            AlbumView {
                album: f.display_primary,
                album_artist: f.display_secondary,
                track_count: match detail {
                    Some(d) => low_word(d.track_paths@.len()),
                    None => 0,
                },
                representative_track_path: match detail {
                    Some(d) => if d.track_paths@.len() > 0 {
                        Some(d.track_paths@[0]@)
                    } else {
                        None
                    },
                    None => None,
                },
            },
        ),
    }
}

/// The row of a favorite.
pub fn favorite_entry(favorite: &FavoriteEntityRef, detail: &Option<FavoriteDetail>) -> (r:
    LibraryEntryPayload)
    ensures
        r@ == favorite_row(favorite@, *detail),
{
    match favorite.kind {
        FavoriteEntityKind::Track => {
            let path = match &favorite.track_path {
                Some(path) => path.clone(),
                None => {
                    proof {
                        reveal_strlit("file:");
                    }
                    strip_prefixes(favorite.entity_key.as_str(), "file:")
                },
            };
            let track = LibraryTrack {
                id: favorite.entity_key.clone(),
                path,
                title: favorite.display_primary.clone(),
                artist: favorite.display_secondary.clone(),
                album: String::new(),
                album_artist: String::new(),
                genre: String::new(),
                year: String::new(),
                track_number: String::new(),
            };
            assert(RowView::Track(track@) =~= favorite_track_row(favorite@));
            LibraryEntryPayload::Track(track)
        },
        FavoriteEntityKind::Artist => {
            let (album_count, track_count): (u32, u32) = match detail {
                Some(d) => (low_word_of(d.album_count), low_word_of(d.track_paths.len())),
                None => (0, 0),
            };
            LibraryEntryPayload::Artist(
                LibraryArtist {
                    artist: favorite.display_primary.clone(),
                    album_count,
                    track_count,
                },
            )
        },
        FavoriteEntityKind::Album => {
            let (track_count, representative_track_path): (u32, Option<String>) = match detail {
                Some(d) => {
                    if d.track_paths.len() > 0 {
                        (low_word_of(d.track_paths.len()), Some(d.track_paths[0].clone()))
                    } else {
                        (low_word_of(d.track_paths.len()), None)
                    }
                },
                None => (0, None),
            };
            LibraryEntryPayload::Album(
                LibraryAlbum {
                    album: favorite.display_primary.clone(),
                    album_artist: favorite.display_secondary.clone(),
                    track_count,
                    representative_track_path,
                },
            )
        },
    }
}

/// Whether an entity is to be a favorite: as desired, or else the opposite of what it is.
pub open spec fn next_state(desired: Option<bool>, current: bool) -> bool {
    match desired {
        Some(wanted) => wanted,
        None => !current,
    }
}

fn failure(prefix: &str, error: &str) -> (r: String)
    ensures
        r@ == prefix@ + error@,
{
    let mut message = owned(prefix);
    append(&mut message, error);
    message
}

/// Whether an entity is to be a favorite, or why its present state is not known.
pub fn toggled_state(desired: Option<bool>, current: Result<bool, String>) -> (r: Result<
    bool,
    String,
>)
    ensures
        match current {
            Ok(state) => r == Ok::<bool, String>(next_state(desired, state)),
            Err(e) => r is Err && r->Err_0@ == "Failed to query favorite state: "@ + e@,
        },
{
    match current {
        Ok(state) => Ok(
            match desired {
                Some(wanted) => wanted,
                None => !state,
            },
        ),
        Err(error) => Err(failure("Failed to query favorite state: ", error.as_str())),
    }
}

/// What comes of storing a favorite or of removing it.
pub fn toggle_stored(favorited: bool, stored: Result<(), String>) -> (r: Result<(), String>)
    ensures
        match stored {
            Ok(_) => r is Ok,
            Err(e) => r is Err && r->Err_0@ == (if favorited {
                "Failed to save favorite: "@
            } else {
                "Failed to remove favorite: "@
            }) + e@,
        },
{
    match stored {
        Ok(_) => Ok(()),
        Err(error) => if favorited {
            Err(failure("Failed to save favorite: ", error.as_str()))
        } else {
            Err(failure("Failed to remove favorite: ", error.as_str()))
        },
    }
}

/// A change that a server is to be told.
#[derive(Debug, PartialEq, Eq)]
pub struct FavoriteSync {
    pub profile_id: String,
    pub song_id: String,
    pub favorited: bool,
    pub entity_key: String,
}

/// The contents of a [`FavoriteSync`].
#[verifier::ext_equal]
pub struct SyncView {
    pub profile_id: Seq<char>,
    pub song_id: Seq<char>,
    pub favorited: bool,
    pub entity_key: Seq<char>,
}

impl View for FavoriteSync {
    type V = SyncView;

    open spec fn view(&self) -> SyncView {
        SyncView {
            profile_id: self.profile_id@,
            song_id: self.song_id@,
            favorited: self.favorited,
            entity_key: self.entity_key@,
        }
    }
}

/// What a server is told of a favorite: only tracks of a server are exchanged.
pub open spec fn sync_of(f: FavoriteView, favorited: bool) -> Option<SyncView> {
    match (f.kind, f.remote_profile_id, f.remote_item_id) {
        (FavoriteEntityKind::Track, Some(profile_id), Some(song_id)) => Some(
            SyncView { profile_id, song_id, favorited, entity_key: f.entity_key },
        ),
        _ => None,
    }
}

/// What a server is told of a favorite.
pub fn favorite_sync(favorite: &FavoriteEntityRef, favorited: bool) -> (r: Option<FavoriteSync>)
    ensures
        (match r {
            Some(sync) => Some(sync@),
            None => None,
        }) == sync_of(favorite@, favorited),
{
    if favorite.kind != FavoriteEntityKind::Track {
        return None;
    }
    match &favorite.remote_profile_id {
        None => None,
        Some(profile_id) => match &favorite.remote_item_id {
            None => None,
            Some(song_id) => Some(
                FavoriteSync {
                    profile_id: profile_id.clone(),
                    song_id: song_id.clone(),
                    favorited,
                    entity_key: favorite.entity_key.clone(),
                },
            ),
        },
    }
}

/// A change that waits until a server has been told.
#[derive(Debug, PartialEq, Eq)]
pub struct FavoriteSyncQueueEntry {
    pub entity_kind: FavoriteEntityKind,
    pub entity_key: String,
    pub remote_profile_id: String,
    pub remote_item_id: String,
    pub desired_favorited: bool,
}

/// The contents of a [`FavoriteSyncQueueEntry`].
#[verifier::ext_equal]
pub struct QueueEntryView {
    pub entity_kind: FavoriteEntityKind,
    pub entity_key: Seq<char>,
    pub remote_profile_id: Seq<char>,
    pub remote_item_id: Seq<char>,
    pub desired_favorited: bool,
}

impl View for FavoriteSyncQueueEntry {
    type V = QueueEntryView;

    open spec fn view(&self) -> QueueEntryView {
        QueueEntryView {
            entity_kind: self.entity_kind,
            entity_key: self.entity_key@,
            remote_profile_id: self.remote_profile_id@,
            remote_item_id: self.remote_item_id@,
            desired_favorited: self.desired_favorited,
        }
    }
}

pub open spec fn is_track_entry() -> spec_fn(QueueEntryView) -> bool {
    |e: QueueEntryView| e.entity_kind == FavoriteEntityKind::Track
}

pub open spec fn entry_sync() -> spec_fn(QueueEntryView) -> SyncView {
    |e: QueueEntryView|
        SyncView {
            profile_id: e.remote_profile_id,
            song_id: e.remote_item_id,
            favorited: e.desired_favorited,
            entity_key: e.entity_key,
        }
}

pub open spec fn entry_key() -> spec_fn(QueueEntryView) -> Seq<char> {
    |e: QueueEntryView| e.entity_key
}

/// The waiting changes of tracks.
pub open spec fn track_entries(queue: Seq<QueueEntryView>) -> Seq<QueueEntryView> {
    queue.filter(is_track_entry())
}

/// What a server is told of the waiting changes.
pub fn pending_syncs(queue: &Vec<FavoriteSyncQueueEntry>) -> (r: Vec<FavoriteSync>)
    ensures
        views(r@) == track_entries(views(queue@)).map_values(entry_sync()),
{
    let ghost all = views(queue@);
    let mut out: Vec<FavoriteSync> = Vec::new();
    let mut i: usize = 0;
    proof {
        reveal(Seq::filter);
        assert(all.take(0) =~= Seq::empty());
        assert(views(out@) =~= track_entries(all.take(0)).map_values(entry_sync()));
    }
    while i < queue.len()
        invariant
            i <= queue.len(),
            all == views(queue@),
            views(out@) == track_entries(all.take(i as int)).map_values(entry_sync()),
        decreases queue.len() - i,
    {
        let entry = &queue[i];
        let ghost before = track_entries(all.take(i as int));
        let ghost old_out = views(out@);
        proof {
            reveal(Seq::filter);
            assert(all.take(i + 1).drop_last() =~= all.take(i as int));
            assert(all.take(i + 1).last() == entry@);
        }
        if entry.entity_kind == FavoriteEntityKind::Track {
            let sync = FavoriteSync {
                profile_id: entry.remote_profile_id.clone(),
                song_id: entry.remote_item_id.clone(),
                favorited: entry.desired_favorited,
                entity_key: entry.entity_key.clone(),
            };
            assert(sync@ == entry_sync()(entry@));
            assert(before.push(entry@).map_values(entry_sync()) =~= before.map_values(
                entry_sync(),
            ).push(sync@));
            out.push(sync);
            assert(views(out@) =~= old_out.push(entry_sync()(entry@)));
        }
        i += 1;
    }
    assert(all.take(i as int) =~= all);
    out
}

/// The keys of the waiting changes of tracks. The server's list does not overrule them.
pub fn protected_entity_keys(queue: &Vec<FavoriteSyncQueueEntry>) -> (r: Vec<String>)
    ensures
        texts(r@) == track_entries(views(queue@)).map_values(entry_key()),
{
    let ghost all = views(queue@);
    let mut out: Vec<String> = Vec::new();
    let mut i: usize = 0;
    proof {
        reveal(Seq::filter);
        assert(all.take(0) =~= Seq::empty());
        assert(texts(out@) =~= track_entries(all.take(0)).map_values(entry_key()));
    }
    while i < queue.len()
        invariant
            i <= queue.len(),
            all == views(queue@),
            texts(out@) == track_entries(all.take(i as int)).map_values(entry_key()),
        decreases queue.len() - i,
    {
        let entry = &queue[i];
        let ghost before = track_entries(all.take(i as int));
        let ghost old_out = texts(out@);
        proof {
            reveal(Seq::filter);
            assert(all.take(i + 1).drop_last() =~= all.take(i as int));
            assert(all.take(i + 1).last() == entry@);
        }
        if entry.entity_kind == FavoriteEntityKind::Track {
            out.push(entry.entity_key.clone());
            assert(texts(out@) =~= old_out.push(entry@.entity_key));
            assert(before.push(entry@).map_values(entry_key()) =~= before.map_values(
                entry_key(),
            ).push(entry@.entity_key));
        }
        i += 1;
    }
    assert(all.take(i as int) =~= all);
    out
}

/// What becomes of a waiting change once the server has answered.
#[derive(Debug, PartialEq, Eq)]
pub enum SyncOutcome {
    /// The change no longer waits.
    Remove,
    /// The change waits on, with a note of the failure.
    MarkFailed(String),
}

/// What becomes of a waiting change once the server has answered.
pub fn sync_outcome(success: bool, error: Option<&str>) -> (r: SyncOutcome)
    ensures
        match r {
            SyncOutcome::Remove => success,
            SyncOutcome::MarkFailed(text) => !success && text@ == (match error {
                Some(e) => e@,
                None => "favorite sync failed"@,
            }),
        },
{
    if success {
        SyncOutcome::Remove
    } else {
        match error {
            Some(text) => SyncOutcome::MarkFailed(owned(text)),
            None => SyncOutcome::MarkFailed(owned("favorite sync failed")),
        }
    }
}

/// A favorite track of a file is found again at its path.
pub proof fn file_favorites_keep_their_paths(path: Seq<char>, f: FavoriteView)
    requires
        located(path) is None,
        rooted(path),
        f.entity_key == track_favorite_key(path),
        f.track_path is None,
    ensures
        favorite_track_row(f)->Track_0.path == path,
{
    reveal_strlit("file:");
    let prefix = "file:"@;
    assert(f.entity_key == prefix + path);
    assert((prefix + path).take(prefix.len() as int) =~= prefix);
    assert((prefix + path).skip(prefix.len() as int) =~= path);
    assert(has_prefix(f.entity_key, prefix));
    if has_prefix(path, prefix) {
        assert(path.take(prefix.len() as int)[0] == path[0]);
        assert(prefix[0] == 'f');
    }
    assert(without_prefix(path, prefix) == path);
}

/// Toggling twice brings the old state back.
pub proof fn toggling_twice_changes_nothing(state: bool)
    ensures
        next_state(None, next_state(None, state)) == state,
{
}

} // verus!
