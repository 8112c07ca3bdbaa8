//! The values that the components of the player exchange.

use crate::text::{option_text, text_equal};
use vstd::prelude::*;

verus! {

/// How urgent an enrichment request is.
#[derive(Debug, Clone, Copy, PartialEq, Eq, Structural)]
pub enum LibraryEnrichmentPriority {
    Interactive,
    Prefetch,
}

/// The lane in which an enrichment request runs.
#[derive(Debug, Clone, Copy, PartialEq, Eq, Structural)]
pub enum LibraryEnrichmentAttemptKind {
    Detail,
    VisiblePrefetch,
    BackgroundWarm,
}

/// What an enrichment lookup came to.
#[derive(Debug, Clone, Copy, PartialEq, Eq, Structural)]
pub enum LibraryEnrichmentStatus {
    Ready,
    NotFound,
    Disabled,
    Error,
}

/// Why an enrichment lookup failed.
#[derive(Debug, Clone, Copy, PartialEq, Eq, Structural)]
pub enum LibraryEnrichmentErrorKind {
    Timeout,
    RateLimited,
    BudgetExhausted,
    Hard,
}

/// The artist or album that an enrichment is about.
#[derive(Debug, PartialEq, Eq)]
pub enum LibraryEnrichmentEntity {
    Artist { artist: String },
    Album { album: String, album_artist: String },
}

/// The texts of a [`LibraryEnrichmentEntity`].
#[verifier::ext_equal]
pub enum EntityView {
    Artist { artist: Seq<char> },
    Album { album: Seq<char>, album_artist: Seq<char> },
}

impl View for LibraryEnrichmentEntity {
    type V = EntityView;

    open spec fn view(&self) -> EntityView {
        match self {
            LibraryEnrichmentEntity::Artist { artist } => EntityView::Artist { artist: artist@ },
            LibraryEnrichmentEntity::Album { album, album_artist } => EntityView::Album {
                album: album@,
                album_artist: album_artist@,
            },
        }
    }
}

impl Clone for LibraryEnrichmentEntity {
    fn clone(&self) -> (r: Self)
        ensures
            r@ == self@,
    {
        match self {
            LibraryEnrichmentEntity::Artist { artist } => LibraryEnrichmentEntity::Artist {
                artist: artist.clone(),
            },
            LibraryEnrichmentEntity::Album { album, album_artist } => {
                LibraryEnrichmentEntity::Album {
                    album: album.clone(),
                    album_artist: album_artist.clone(),
                }
            },
        }
    }
}

impl LibraryEnrichmentEntity {
    pub fn same(&self, other: &LibraryEnrichmentEntity) -> (r: bool)
        ensures
            r == (self@ == other@),
    {
        match self {
            LibraryEnrichmentEntity::Artist { artist } => match other {
                LibraryEnrichmentEntity::Artist { artist: other_artist } => {
                    text_equal(artist, other_artist)
                },
                LibraryEnrichmentEntity::Album { .. } => false,
            },
            LibraryEnrichmentEntity::Album { album, album_artist } => match other {
                LibraryEnrichmentEntity::Album {
                    album: other_album,
                    album_artist: other_album_artist,
                } => text_equal(album, other_album) && text_equal(album_artist, other_album_artist),
                LibraryEnrichmentEntity::Artist { .. } => false,
            },
        }
    }
}

/// What the user interface shows of an enriched artist or album.
#[derive(Debug, PartialEq, Eq)]
pub struct LibraryEnrichmentPayload {
    pub entity: LibraryEnrichmentEntity,
    pub status: LibraryEnrichmentStatus,
    pub blurb: String,
    pub image_path: Option<String>,
    pub source_name: String,
    pub source_url: String,
    pub error_kind: Option<LibraryEnrichmentErrorKind>,
    pub attempt_kind: LibraryEnrichmentAttemptKind,
}

/// The contents of a [`LibraryEnrichmentPayload`].
#[verifier::ext_equal]
pub struct PayloadView {
    pub entity: EntityView,
    pub status: LibraryEnrichmentStatus,
    pub blurb: Seq<char>,
    pub image_path: Option<Seq<char>>,
    pub source_name: Seq<char>,
    pub source_url: Seq<char>,
    pub error_kind: Option<LibraryEnrichmentErrorKind>,
    pub attempt_kind: LibraryEnrichmentAttemptKind,
}

impl View for LibraryEnrichmentPayload {
    type V = PayloadView;

    open spec fn view(&self) -> PayloadView {
        PayloadView {
            entity: self.entity@,
            status: self.status,
            blurb: self.blurb@,
            image_path: option_text(self.image_path),
            source_name: self.source_name@,
            source_url: self.source_url@,
            error_kind: self.error_kind,
            attempt_kind: self.attempt_kind,
        }
    }
}

pub fn clone_option_text(value: &Option<String>) -> (r: Option<String>)
    ensures
        option_text(r) == option_text(*value),
{
    match value {
        Some(text) => Some(text.clone()),
        None => None,
    }
}

impl Clone for LibraryEnrichmentPayload {
    fn clone(&self) -> (r: Self)
        ensures
            r@ == self@,
    {
        LibraryEnrichmentPayload {
            entity: self.entity.clone(),
            status: self.status,
            blurb: self.blurb.clone(),
            image_path: clone_option_text(&self.image_path),
            source_name: self.source_name.clone(),
            source_url: self.source_url.clone(),
            error_kind: self.error_kind,
            attempt_kind: self.attempt_kind,
        }
    }
}

/// A track of the library. The path is a file path or the address of a remote track.
#[derive(Debug, PartialEq, Eq)]
pub struct LibraryTrack {
    pub id: String,
    pub path: String,
    pub title: String,
    pub artist: String,
    pub album: String,
    pub album_artist: String,
    pub genre: String,
    pub year: String,
    pub track_number: String,
}

/// The contents of a [`LibraryTrack`].
#[verifier::ext_equal]
pub struct TrackView {
    pub id: Seq<char>,
    pub path: Seq<char>,
    pub title: Seq<char>,
    pub artist: Seq<char>,
    pub album: Seq<char>,
    pub album_artist: Seq<char>,
    pub genre: Seq<char>,
    pub year: Seq<char>,
    pub track_number: Seq<char>,
}

impl View for LibraryTrack {
    type V = TrackView;

    open spec fn view(&self) -> TrackView {
        TrackView {
            id: self.id@,
            path: self.path@,
            title: self.title@,
            artist: self.artist@,
            album: self.album@,
            album_artist: self.album_artist@,
            genre: self.genre@,
            year: self.year@,
            track_number: self.track_number@,
        }
    }
}

impl Clone for LibraryTrack {
    fn clone(&self) -> (r: Self)
        ensures
            r@ == self@,
    {
        LibraryTrack {
            id: self.id.clone(),
            path: self.path.clone(),
            title: self.title.clone(),
            artist: self.artist.clone(),
            album: self.album.clone(),
            album_artist: self.album_artist.clone(),
            genre: self.genre.clone(),
            year: self.year.clone(),
            track_number: self.track_number.clone(),
        }
    }
}

/// An artist of the library.
#[derive(Debug, PartialEq, Eq)]
pub struct LibraryArtist {
    pub artist: String,
    pub album_count: u32,
    pub track_count: u32,
}

/// The contents of a [`LibraryArtist`].
#[verifier::ext_equal]
pub struct ArtistView {
    pub artist: Seq<char>,
    pub album_count: u32,
    pub track_count: u32,
}

impl View for LibraryArtist {
    type V = ArtistView;

    open spec fn view(&self) -> ArtistView {
        ArtistView {
            artist: self.artist@,
            album_count: self.album_count,
            track_count: self.track_count,
        }
    }
}

impl Clone for LibraryArtist {
    fn clone(&self) -> (r: Self)
        ensures
            r@ == self@,
    {
        LibraryArtist {
            artist: self.artist.clone(),
            album_count: self.album_count,
            track_count: self.track_count,
        }
    }
}

/// An album of the library.
#[derive(Debug, PartialEq, Eq)]
pub struct LibraryAlbum {
    pub album: String,
    pub album_artist: String,
    pub track_count: u32,
    pub representative_track_path: Option<String>,
}

/// The contents of a [`LibraryAlbum`].
#[verifier::ext_equal]
pub struct AlbumView {
    pub album: Seq<char>,
    pub album_artist: Seq<char>,
    pub track_count: u32,
    pub representative_track_path: Option<Seq<char>>,
}

impl View for LibraryAlbum {
    type V = AlbumView;

    open spec fn view(&self) -> AlbumView {
        AlbumView {
            album: self.album@,
            album_artist: self.album_artist@,
            track_count: self.track_count,
            representative_track_path: option_text(self.representative_track_path),
        }
    }
}

impl Clone for LibraryAlbum {
    fn clone(&self) -> (r: Self)
        ensures
            r@ == self@,
    {
        LibraryAlbum {
            album: self.album.clone(),
            album_artist: self.album_artist.clone(),
            track_count: self.track_count,
            representative_track_path: clone_option_text(&self.representative_track_path),
        }
    }
}

/// A genre of the library.
#[derive(Debug, PartialEq, Eq)]
pub struct LibraryGenre {
    pub genre: String,
    pub track_count: u32,
}

/// The contents of a [`LibraryGenre`].
#[verifier::ext_equal]
pub struct GenreView {
    pub genre: Seq<char>,
    pub track_count: u32,
}

impl View for LibraryGenre {
    type V = GenreView;

    open spec fn view(&self) -> GenreView {
        GenreView {
            genre: self.genre@,
            track_count: self.track_count,
        }
    }
}

impl Clone for LibraryGenre {
    fn clone(&self) -> (r: Self)
        ensures
            r@ == self@,
    {
        LibraryGenre {
            genre: self.genre.clone(),
            track_count: self.track_count,
        }
    }
}

/// A decade of the library.
#[derive(Debug, PartialEq, Eq)]
pub struct LibraryDecade {
    pub decade: String,
    pub track_count: u32,
}

/// The contents of a [`LibraryDecade`].
#[verifier::ext_equal]
pub struct DecadeView {
    pub decade: Seq<char>,
    pub track_count: u32,
}

impl View for LibraryDecade {
    type V = DecadeView;

    open spec fn view(&self) -> DecadeView {
        DecadeView {
            decade: self.decade@,
            track_count: self.track_count,
        }
    }
}

impl Clone for LibraryDecade {
    fn clone(&self) -> (r: Self)
        ensures
            r@ == self@,
    {
        LibraryDecade {
            decade: self.decade.clone(),
            track_count: self.track_count,
        }
    }
}

/// What can be a favorite.
#[derive(Debug, Clone, Copy, PartialEq, Eq, Structural)]
pub enum FavoriteEntityKind {
    Track,
    Artist,
    Album,
}

/// A favorite track, artist or album.
#[derive(Debug, PartialEq, Eq)]
pub struct FavoriteEntityRef {
    pub kind: FavoriteEntityKind,
    pub entity_key: String,
    pub display_primary: String,
    pub display_secondary: String,
    pub track_path: Option<String>,
    pub remote_profile_id: Option<String>,
    pub remote_item_id: Option<String>,
}

/// The contents of a [`FavoriteEntityRef`].
#[verifier::ext_equal]
pub struct FavoriteView {
    pub kind: FavoriteEntityKind,
    pub entity_key: Seq<char>,
    pub display_primary: Seq<char>,
    pub display_secondary: Seq<char>,
    pub track_path: Option<Seq<char>>,
    pub remote_profile_id: Option<Seq<char>>,
    pub remote_item_id: Option<Seq<char>>,
}

impl View for FavoriteEntityRef {
    type V = FavoriteView;

    open spec fn view(&self) -> FavoriteView {
        FavoriteView {
            kind: self.kind,
            entity_key: self.entity_key@,
            display_primary: self.display_primary@,
            display_secondary: self.display_secondary@,
            track_path: option_text(self.track_path),
            remote_profile_id: option_text(self.remote_profile_id),
            remote_item_id: option_text(self.remote_item_id),
        }
    }
}

impl Clone for FavoriteEntityRef {
    fn clone(&self) -> (r: Self)
        ensures
            r@ == self@,
    {
        FavoriteEntityRef {
            kind: self.kind,
            entity_key: self.entity_key.clone(),
            display_primary: self.display_primary.clone(),
            display_secondary: self.display_secondary.clone(),
            track_path: clone_option_text(&self.track_path),
            remote_profile_id: clone_option_text(&self.remote_profile_id),
            remote_item_id: clone_option_text(&self.remote_item_id),
        }
    }
}

/// One of the three lists of favorites.
#[derive(Debug, PartialEq, Eq)]
pub struct FavoriteCategory {
    pub kind: FavoriteEntityKind,
    pub title: String,
    pub count: usize,
}

/// The contents of a [`FavoriteCategory`].
#[verifier::ext_equal]
pub struct CategoryView {
    pub kind: FavoriteEntityKind,
    pub title: Seq<char>,
    pub count: usize,
}

impl View for FavoriteCategory {
    type V = CategoryView;

    open spec fn view(&self) -> CategoryView {
        CategoryView {
            kind: self.kind,
            title: self.title@,
            count: self.count,
        }
    }
}

impl Clone for FavoriteCategory {
    fn clone(&self) -> (r: Self)
        ensures
            r@ == self@,
    {
        FavoriteCategory {
            kind: self.kind,
            title: self.title.clone(),
            count: self.count,
        }
    }
}

/// A row of a library list.
#[derive(Debug, PartialEq, Eq)]
pub enum LibraryEntryPayload {
    Track(LibraryTrack),
    Artist(LibraryArtist),
    Album(LibraryAlbum),
    Genre(LibraryGenre),
    Decade(LibraryDecade),
    FavoriteCategory(FavoriteCategory),
}

/// The contents of a [`LibraryEntryPayload`].
#[verifier::ext_equal]
pub enum RowView {
    Track(TrackView),
    Artist(ArtistView),
    Album(AlbumView),
    Genre(GenreView),
    Decade(DecadeView),
    FavoriteCategory(CategoryView),
}

impl View for LibraryEntryPayload {
    type V = RowView;

    open spec fn view(&self) -> RowView {
        match self {
            LibraryEntryPayload::Track(t) => RowView::Track(t@),
            LibraryEntryPayload::Artist(a) => RowView::Artist(a@),
            LibraryEntryPayload::Album(a) => RowView::Album(a@),
            LibraryEntryPayload::Genre(g) => RowView::Genre(g@),
            LibraryEntryPayload::Decade(d) => RowView::Decade(d@),
            LibraryEntryPayload::FavoriteCategory(c) => RowView::FavoriteCategory(c@),
        }
    }
}

impl Clone for LibraryEntryPayload {
    fn clone(&self) -> (r: Self)
        ensures
            r@ == self@,
    {
        match self {
            LibraryEntryPayload::Track(t) => LibraryEntryPayload::Track(t.clone()),
            LibraryEntryPayload::Artist(a) => LibraryEntryPayload::Artist(a.clone()),
            LibraryEntryPayload::Album(a) => LibraryEntryPayload::Album(a.clone()),
            LibraryEntryPayload::Genre(g) => LibraryEntryPayload::Genre(g.clone()),
            LibraryEntryPayload::Decade(d) => LibraryEntryPayload::Decade(d.clone()),
            LibraryEntryPayload::FavoriteCategory(c) => {
                LibraryEntryPayload::FavoriteCategory(c.clone())
            },
        }
    }
}

/// A list of the library.
#[derive(Clone, Debug, PartialEq, Eq)]
pub enum LibraryViewQuery {
    Tracks,
    Artists,
    Albums,
    Genres,
    Decades,
    FavoritesRoot,
    FavoriteTracks,
    FavoriteArtists,
    FavoriteAlbums,
    GlobalSearch,
    ArtistDetail { artist: String },
    AlbumDetail { album: String, album_artist: String },
    GenreDetail { genre: String },
    DecadeDetail { decade: String },
}

/// A selection in the library.
#[derive(Clone, Debug, PartialEq, Eq)]
pub enum LibrarySelectionSpec {
    Track { path: String },
    Artist { artist: String },
    Album { album: String, album_artist: String },
    Genre { genre: String },
    Decade { decade: String },
}

/// A cast device.
#[derive(Debug, PartialEq, Eq)]
pub struct CastDeviceInfo {
    pub id: String,
    pub name: String,
    pub model: String,
    pub host: String,
    pub address: String,
    pub port: u16,
}

/// The contents of a [`CastDeviceInfo`].
#[verifier::ext_equal]
pub struct DeviceView {
    pub id: Seq<char>,
    pub name: Seq<char>,
    pub model: Seq<char>,
    pub host: Seq<char>,
    pub address: Seq<char>,
    pub port: u16,
}

impl View for CastDeviceInfo {
    type V = DeviceView;

    open spec fn view(&self) -> DeviceView {
        DeviceView {
            id: self.id@,
            name: self.name@,
            model: self.model@,
            host: self.host@,
            address: self.address@,
            port: self.port,
        }
    }
}

impl Clone for CastDeviceInfo {
    fn clone(&self) -> (r: Self)
        ensures
            r@ == self@,
    {
        CastDeviceInfo {
            id: self.id.clone(),
            name: self.name.clone(),
            model: self.model.clone(),
            host: self.host.clone(),
            address: self.address.clone(),
            port: self.port,
        }
    }
}

/// A result without a value, or the text of its error.
pub open spec fn unit_result(r: Result<(), String>) -> Result<(), Seq<char>> {
    match r {
        Ok(_) => Ok(()),
        Err(e) => Err(e@),
    }
}

/// The contents of the items of a list.
pub open spec fn views<T: View>(items: Seq<T>) -> Seq<T::V> {
    items.map_values(|t: T| t@)
}

/// A type whose values can be copied.
pub trait Duplicate: View + Sized {
    fn duplicate(&self) -> (r: Self)
        ensures
            r@ == self@,
    ;
}

impl Duplicate for String {
    fn duplicate(&self) -> (r: Self) {
        self.clone()
    }
}

impl Duplicate for LibraryTrack {
    fn duplicate(&self) -> (r: Self) {
        self.clone()
    }
}

impl Duplicate for LibraryArtist {
    fn duplicate(&self) -> (r: Self) {
        self.clone()
    }
}

impl Duplicate for LibraryAlbum {
    fn duplicate(&self) -> (r: Self) {
        self.clone()
    }
}

impl Duplicate for LibraryGenre {
    fn duplicate(&self) -> (r: Self) {
        self.clone()
    }
}

impl Duplicate for LibraryDecade {
    fn duplicate(&self) -> (r: Self) {
        self.clone()
    }
}

impl Duplicate for LibraryEntryPayload {
    fn duplicate(&self) -> (r: Self) {
        self.clone()
    }
}

impl Duplicate for FavoriteEntityRef {
    fn duplicate(&self) -> (r: Self) {
        self.clone()
    }
}

impl Duplicate for CastDeviceInfo {
    fn duplicate(&self) -> (r: Self) {
        self.clone()
    }
}

} // verus!
