//! Scanning the library's folders.
//!
//! A scan goes through the files of the folders, stores a stub for each file that is new or has
//! changed, removes from the index what is gone, and then reads the tags of the new and changed
//! files. A [`ScanRun`] says at each point what is to be done next; reading folders, files and
//! tags and storing rows is left to its caller.

use crate::cast::http::hex_digit;
use crate::library::catalog::{sort_by_keys, sorted_by};
use crate::library::order::key_view;
use crate::library::paths::{
    fallback_title, fallback_title_from_path, is_supported_audio_file, path_key, push_path_key,
    supported_audio_file,
};
use crate::protocol::{unit_result, views, LibraryTrack, TrackView};
use crate::text::{
    append, blank, decimal, decimal_text, is_blank, lower, lower_text, owned, string_of,
    texts, trim, trim_text,
};
use vstd::hash_map::StringHashMap;
use vstd::hash_set::StringHashSet;
use vstd::prelude::*;

verus! {

/// How many stubs are stored at once.
pub const LIBRARY_SCAN_UPSERT_BATCH_SIZE: usize = 256;

/// How many metadata updates are stored at once.
pub const LIBRARY_SCAN_METADATA_BATCH_SIZE: usize = 128;

/// After how many files progress is reported.
pub const LIBRARY_SCAN_PROGRESS_INTERVAL: usize = 256;

/// After how many files or tags the scan makes way for playback.
pub const LIBRARY_SCAN_PLAYBACK_COOPERATE_INTERVAL: usize = 96;

/// What the index knows of a file from an earlier scan.
#[derive(Debug, Clone, Copy, PartialEq, Eq, Structural)]
pub struct LibraryScanState {
    pub modified_unix_ms: i64,
    pub file_size_bytes: i64,
    pub metadata_ready: bool,
}

/// The row that is stored for a file before its tags have been read.
#[derive(Debug, PartialEq, Eq)]
pub struct LibraryTrackScanStub {
    pub song_id: String,
    pub path: String,
    pub title: String,
    pub artist: String,
    pub album: String,
    pub album_artist: String,
    pub genre: String,
    pub year: String,
    pub track_number: String,
    pub sort_title: String,
    pub sort_artist: String,
    pub sort_album: String,
    pub modified_unix_ms: i64,
    pub file_size_bytes: i64,
    pub metadata_ready: bool,
    pub last_scanned_unix_ms: i64,
}

/// The contents of a [`LibraryTrackScanStub`].
#[verifier::ext_equal]
pub struct StubView {
    pub song_id: Seq<char>,
    pub path: Seq<char>,
    pub title: Seq<char>,
    pub artist: Seq<char>,
    pub album: Seq<char>,
    pub album_artist: Seq<char>,
    pub genre: Seq<char>,
    pub year: Seq<char>,
    pub track_number: Seq<char>,
    pub sort_title: Seq<char>,
    pub sort_artist: Seq<char>,
    pub sort_album: Seq<char>,
    pub modified_unix_ms: i64,
    pub file_size_bytes: i64,
    pub metadata_ready: bool,
    pub last_scanned_unix_ms: i64,
}

impl View for LibraryTrackScanStub {
    type V = StubView;

    open spec fn view(&self) -> StubView {
        StubView {
            song_id: self.song_id@,
            path: self.path@,
            title: self.title@,
            artist: self.artist@,
            album: self.album@,
            album_artist: self.album_artist@,
            genre: self.genre@,
            year: self.year@,
            track_number: self.track_number@,
            sort_title: self.sort_title@,
            sort_artist: self.sort_artist@,
            sort_album: self.sort_album@,
            modified_unix_ms: self.modified_unix_ms,
            file_size_bytes: self.file_size_bytes,
            metadata_ready: self.metadata_ready,
            last_scanned_unix_ms: self.last_scanned_unix_ms,
        }
    }
}

/// The row that is stored for a file once its tags have been read.
#[derive(Debug, PartialEq, Eq)]
pub struct LibraryTrackMetadataUpdate {
    pub path: String,
    pub title: String,
    pub artist: String,
    pub album: String,
    pub album_artist: String,
    pub genre: String,
    pub year: String,
    pub track_number: String,
    pub sort_title: String,
    pub sort_artist: String,
    pub sort_album: String,
    pub modified_unix_ms: i64,
    pub file_size_bytes: i64,
    pub metadata_ready: bool,
    pub last_scanned_unix_ms: i64,
}

/// The contents of a [`LibraryTrackMetadataUpdate`].
#[verifier::ext_equal]
pub struct UpdateView {
    pub path: Seq<char>,
    pub title: Seq<char>,
    pub artist: Seq<char>,
    pub album: Seq<char>,
    pub album_artist: Seq<char>,
    pub genre: Seq<char>,
    pub year: Seq<char>,
    pub track_number: Seq<char>,
    pub sort_title: Seq<char>,
    pub sort_artist: Seq<char>,
    pub sort_album: Seq<char>,
    pub modified_unix_ms: i64,
    pub file_size_bytes: i64,
    pub metadata_ready: bool,
    pub last_scanned_unix_ms: i64,
}

impl View for LibraryTrackMetadataUpdate {
    type V = UpdateView;

    open spec fn view(&self) -> UpdateView {
        UpdateView {
            path: self.path@,
            title: self.title@,
            artist: self.artist@,
            album: self.album@,
            album_artist: self.album_artist@,
            genre: self.genre@,
            year: self.year@,
            track_number: self.track_number@,
            sort_title: self.sort_title@,
            sort_artist: self.sort_artist@,
            sort_album: self.sort_album@,
            modified_unix_ms: self.modified_unix_ms,
            file_size_bytes: self.file_size_bytes,
            metadata_ready: self.metadata_ready,
            last_scanned_unix_ms: self.last_scanned_unix_ms,
        }
    }
}

/// The tags of a file.
#[derive(Debug, PartialEq, Eq)]
pub struct CommonTrackMetadata {
    pub title: String,
    pub artist: String,
    pub album: String,
    pub album_artist: String,
    pub date: String,
    pub year: String,
    pub genre: String,
    pub track_number: String,
}

/// The contents of a [`CommonTrackMetadata`].
#[verifier::ext_equal]
pub struct TagsView {
    pub title: Seq<char>,
    pub artist: Seq<char>,
    pub album: Seq<char>,
    pub album_artist: Seq<char>,
    pub date: Seq<char>,
    pub year: Seq<char>,
    pub genre: Seq<char>,
    pub track_number: Seq<char>,
}

impl View for CommonTrackMetadata {
    type V = TagsView;

    open spec fn view(&self) -> TagsView {
        TagsView {
            title: self.title@,
            artist: self.artist@,
            album: self.album@,
            album_artist: self.album_artist@,
            date: self.date@,
            year: self.year@,
            genre: self.genre@,
            track_number: self.track_number@,
        }
    }
}

/// What is shown of a track.
#[derive(Debug, PartialEq, Eq)]
pub struct LibraryTrackMetadata {
    pub title: String,
    pub artist: String,
    pub album: String,
    pub album_artist: String,
    pub genre: String,
    pub year: String,
    pub track_number: String,
}

/// The contents of a [`LibraryTrackMetadata`].
#[verifier::ext_equal]
pub struct MetadataView {
    pub title: Seq<char>,
    pub artist: Seq<char>,
    pub album: Seq<char>,
    pub album_artist: Seq<char>,
    pub genre: Seq<char>,
    pub year: Seq<char>,
    pub track_number: Seq<char>,
}

impl View for LibraryTrackMetadata {
    type V = MetadataView;

    open spec fn view(&self) -> MetadataView {
        MetadataView {
            title: self.title@,
            artist: self.artist@,
            album: self.album@,
            album_artist: self.album_artist@,
            genre: self.genre@,
            year: self.year@,
            track_number: self.track_number@,
        }
    }
}

/// A file as the scan finds it.
#[derive(Debug, PartialEq, Eq)]
pub struct ScannedFile {
    pub path: String,
    pub track_id: String,
    pub modified_unix_ms: i64,
    pub file_size_bytes: i64,
}

/// The contents of a [`ScannedFile`].
#[verifier::ext_equal]
pub struct FileView {
    pub path: Seq<char>,
    pub track_id: Seq<char>,
    pub modified_unix_ms: i64,
    pub file_size_bytes: i64,
}

impl View for ScannedFile {
    type V = FileView;

    open spec fn view(&self) -> FileView {
        FileView {
            path: self.path@,
            track_id: self.track_id@,
            modified_unix_ms: self.modified_unix_ms,
            file_size_bytes: self.file_size_bytes,
        }
    }
}

/// A file whose tags are to be read.
#[derive(Debug, PartialEq, Eq)]
pub struct BackfillTarget {
    pub path: String,
    pub modified_unix_ms: i64,
    pub file_size_bytes: i64,
}

/// The contents of a [`BackfillTarget`].
#[verifier::ext_equal]
pub struct TargetView {
    pub path: Seq<char>,
    pub modified_unix_ms: i64,
    pub file_size_bytes: i64,
}

impl View for BackfillTarget {
    type V = TargetView;

    open spec fn view(&self) -> TargetView {
        TargetView {
            path: self.path@,
            modified_unix_ms: self.modified_unix_ms,
            file_size_bytes: self.file_size_bytes,
        }
    }
}

/// A text for sorting: without white space around it and in small letters.
pub open spec fn sort_key(value: Seq<char>, fallback: Seq<char>) -> Seq<char> {
    if trim(value).len() == 0 {
        fallback
    } else {
        lower(trim(value))
    }
}

pub fn normalize_sort_key(value: &str, fallback: &str) -> (r: String)
    ensures
        r@ == sort_key(value@, fallback@),
{
    let trimmed = trim_text(value);
    if trimmed.as_str().is_empty() {
        assert(trimmed@.len() == 0);
        owned(fallback)
    } else {
        assert(trimmed@.len() > 0);
        lower_text(trimmed.as_str())
    }
}

pub open spec fn non_empty_or(value: Seq<char>, other: Seq<char>) -> Seq<char> {
    if value.len() > 0 {
        value
    } else {
        other
    }
}

/// What is shown of the track in a file: its tags, and where they are missing what can be said
/// without them.
pub open spec fn shown_metadata(path: Seq<char>, tags: Option<TagsView>) -> MetadataView {
    match tags {
        None => MetadataView {
            title: fallback_title(path),
            artist: "Unknown Artist"@,
            album: "Unknown Album"@,
            album_artist: "Unknown Artist"@,
            genre: Seq::empty(),
            year: Seq::empty(),
            track_number: Seq::empty(),
        },
        Some(t) => {
            let artist = non_empty_or(t.artist, "Unknown Artist"@);
            MetadataView {
                title: non_empty_or(t.title, fallback_title(path)),
                artist,
                album: non_empty_or(t.album, "Unknown Album"@),
                album_artist: non_empty_or(t.album_artist, artist),
                genre: t.genre,
                year: t.year,
                track_number: t.track_number,
            }
        },
    }
}

fn text_or(value: String, other: &str) -> (r: String)
    ensures
        r@ == non_empty_or(value@, other@),
{
    if value.as_str().is_empty() {
        assert(value@.len() == 0);
        owned(other)
    } else {
        assert(value@.len() > 0);
        value
    }
}

/// What is shown of the track in a file.
pub fn library_track_metadata(path: &str, tags: Option<CommonTrackMetadata>) -> (r:
    LibraryTrackMetadata)
    ensures
        r@ == shown_metadata(
            path@,
            match tags {
                Some(t) => Some(t@),
                None => None,
            },
        ),
{
    let title = fallback_title_from_path(path);
    match tags {
        None => LibraryTrackMetadata {
            title,
            artist: owned("Unknown Artist"),
            album: owned("Unknown Album"),
            album_artist: owned("Unknown Artist"),
            genre: String::new(),
            year: String::new(),
            track_number: String::new(),
        },
        Some(t) => {
            let artist = text_or(t.artist, "Unknown Artist");
            let album_artist = text_or(t.album_artist, artist.as_str());
            LibraryTrackMetadata {
                title: text_or(t.title, title.as_str()),
                artist,
                album: text_or(t.album, "Unknown Album"),
                album_artist,
                genre: t.genre,
                year: t.year,
                track_number: t.track_number,
            }
        },
    }
}

/// The track that a playlist's file makes in the library.
pub open spec fn playlist_track(
    id: Seq<char>,
    path: Seq<char>,
    tags: Option<TagsView>,
) -> TrackView {
    let m = shown_metadata(path, tags);
    TrackView {
        id,
        path,
        title: m.title,
        artist: m.artist,
        album: m.album,
        album_artist: m.album_artist,
        genre: m.genre,
        year: m.year,
        track_number: m.track_number,
    }
}

/// The track that a playlist's file makes in the library.
pub fn playlist_track_from_path(id: String, path: &str, tags: Option<CommonTrackMetadata>) -> (r:
    LibraryTrack)
    ensures
        r@ == playlist_track(
            id@,
            path@,
            match tags {
                Some(t) => Some(t@),
                None => None,
            },
        ),
{
    let m = library_track_metadata(path, tags);
    LibraryTrack {
        id,
        path: owned(path),
        title: m.title,
        artist: m.artist,
        album: m.album,
        album_artist: m.album_artist,
        genre: m.genre,
        year: m.year,
        track_number: m.track_number,
    }
}

/// The row that stands for a file before its tags have been read.
pub open spec fn stub_of(file: FileView, started: i64) -> StubView {
    StubView {
        song_id: file.track_id,
        path: file.path,
        title: fallback_title(file.path),
        artist: "Unknown Artist"@,
        album: "Unknown Album"@,
        album_artist: "Unknown Artist"@,
        genre: Seq::empty(),
        year: Seq::empty(),
        track_number: Seq::empty(),
        sort_title: sort_key(fallback_title(file.path), "unknown title"@),
        sort_artist: sort_key("Unknown Artist"@, "unknown artist"@),
        sort_album: sort_key("Unknown Album"@, "unknown album"@),
        modified_unix_ms: file.modified_unix_ms,
        file_size_bytes: file.file_size_bytes,
        metadata_ready: false,
        last_scanned_unix_ms: started,
    }
}

pub fn fallback_scan_stub(file: &ScannedFile, scan_started_unix_ms: i64) -> (r:
    LibraryTrackScanStub)
    ensures
        r@ == stub_of(file@, scan_started_unix_ms),
{
    let title = fallback_title_from_path(file.path.as_str());
    let sort_title = normalize_sort_key(title.as_str(), "unknown title");
    LibraryTrackScanStub {
        song_id: file.track_id.clone(),
        path: file.path.clone(),
        title,
        artist: owned("Unknown Artist"),
        album: owned("Unknown Album"),
        album_artist: owned("Unknown Artist"),
        genre: String::new(),
        year: String::new(),
        track_number: String::new(),
        sort_title,
        sort_artist: normalize_sort_key("Unknown Artist", "unknown artist"),
        sort_album: normalize_sort_key("Unknown Album", "unknown album"),
        modified_unix_ms: file.modified_unix_ms,
        file_size_bytes: file.file_size_bytes,
        metadata_ready: false,
        last_scanned_unix_ms: scan_started_unix_ms,
    }
}

/// The row that stands for a file once its tags have been read.
pub open spec fn update_of(target: TargetView, tags: Option<TagsView>, started: i64) -> UpdateView {
    let m = shown_metadata(target.path, tags);
    UpdateView {
        path: target.path,
        title: m.title,
        artist: m.artist,
        album: m.album,
        album_artist: m.album_artist,
        genre: m.genre,
        year: m.year,
        track_number: m.track_number,
        sort_title: sort_key(m.title, "unknown title"@),
        sort_artist: sort_key(m.artist, "unknown artist"@),
        sort_album: sort_key(m.album, "unknown album"@),
        modified_unix_ms: target.modified_unix_ms,
        file_size_bytes: target.file_size_bytes,
        metadata_ready: true,
        last_scanned_unix_ms: started,
    }
}

pub fn metadata_update(
    target: &BackfillTarget,
    tags: Option<CommonTrackMetadata>,
    scan_started_unix_ms: i64,
) -> (r: LibraryTrackMetadataUpdate)
    ensures
        r@ == update_of(
            target@,
            match tags {
                Some(t) => Some(t@),
                None => None,
            },
            scan_started_unix_ms,
        ),
{
    let m = library_track_metadata(target.path.as_str(), tags);
    let sort_title = normalize_sort_key(m.title.as_str(), "unknown title");
    let sort_artist = normalize_sort_key(m.artist.as_str(), "unknown artist");
    let sort_album = normalize_sort_key(m.album.as_str(), "unknown album");
    LibraryTrackMetadataUpdate {
        path: target.path.clone(),
        title: m.title,
        artist: m.artist,
        album: m.album,
        album_artist: m.album_artist,
        genre: m.genre,
        year: m.year,
        track_number: m.track_number,
        sort_title,
        sort_artist,
        sort_album,
        modified_unix_ms: target.modified_unix_ms,
        file_size_bytes: target.file_size_bytes,
        metadata_ready: true,
        last_scanned_unix_ms: scan_started_unix_ms,
    }
}

/// What a scan reports.
#[derive(Debug, PartialEq, Eq)]
pub enum ScanReport {
    Progress { discovered: usize, indexed: usize, metadata_pending: usize },
    Completed { indexed_tracks: usize },
    MetadataProgress { updated: usize, remaining: usize },
    Failed(String),
}

/// The contents of a [`ScanReport`].
#[verifier::ext_equal]
pub enum ReportView {
    Progress { discovered: usize, indexed: usize, metadata_pending: nat },
    Completed { indexed_tracks: nat },
    MetadataProgress { updated: usize, remaining: nat },
    Failed(Seq<char>),
}

impl View for ScanReport {
    type V = ReportView;

    open spec fn view(&self) -> ReportView {
        match self {
            ScanReport::Progress { discovered, indexed, metadata_pending } => ReportView::Progress {
                discovered: *discovered,
                indexed: *indexed,
                metadata_pending: *metadata_pending as nat,
            },
            ScanReport::Completed { indexed_tracks } => ReportView::Completed {
                indexed_tracks: *indexed_tracks as nat,
            },
            ScanReport::MetadataProgress { updated, remaining } => ReportView::MetadataProgress {
                updated: *updated,
                remaining: *remaining as nat,
            },
            ScanReport::Failed(text) => ReportView::Failed(text@),
        }
    }
}

/// A report that says only how far the scan has come is left out where the receiver is slow.
pub open spec fn droppable(report: ReportView) -> bool {
    report is Progress || report is MetadataProgress
}

pub fn can_be_dropped(report: &ScanReport) -> (r: bool)
    ensures
        r == droppable(report@),
{
    match report {
        ScanReport::Progress { discovered: _, indexed: _, metadata_pending: _ } => true,
        ScanReport::MetadataProgress { updated: _, remaining: _ } => true,
        _ => false,
    }
}

/// What is to be done next.
#[derive(Debug, Clone, Copy, PartialEq, Eq, Structural)]
pub enum ScanNext {
    /// Take the next file, or say that there is none.
    File,
    /// Store the stubs that are gathered.
    StoreStubs,
    /// Remove from the index the files that were not found.
    Prune,
    /// Read the tags of the next target.
    ReadTags,
    /// Store the updates that are gathered.
    StoreUpdates,
    /// The scan is over.
    Finish,
}

/// What a step of the scan comes to: what is reported, whether to make way for playback, and what
/// is to be done next.
#[derive(Debug, PartialEq, Eq)]
pub struct ScanMove {
    pub reports: Vec<ScanReport>,
    pub pause: bool,
    pub next: ScanNext,
}

/// The contents of a [`ScanMove`].
#[verifier::ext_equal]
pub struct MoveView {
    pub reports: Seq<ReportView>,
    pub pause: bool,
    pub next: ScanNext,
}

impl View for ScanMove {
    type V = MoveView;

    open spec fn view(&self) -> MoveView {
        MoveView {
            reports: views(self.reports@),
            pause: self.pause,
            next: self.next,
        }
    }
}

/// Where a scan stands.
#[derive(Debug, Clone, Copy, PartialEq, Eq, Structural)]
pub enum ScanPhase {
    Files,
    StoringStubs,
    StoringLastStubs,
    Pruning,
    ReadingTags,
    StoringUpdates,
    StoringLastUpdates,
    Finished,
}

/// A scan of the library's folders.
pub struct ScanRun {
    started_unix_ms: i64,
    playback_active: bool,
    known: StringHashMap<LibraryScanState>,
    seen: StringHashSet,
    kept: Vec<String>,
    stubs: Vec<LibraryTrackScanStub>,
    targets: Vec<BackfillTarget>,
    discovered: usize,
    indexed: usize,
    next_target: usize,
    updates: Vec<LibraryTrackMetadataUpdate>,
    updated: usize,
    phase: ScanPhase,
}

/// The state of a [`ScanRun`].
#[verifier::ext_equal]
pub struct RunView {
    /// When the scan began.
    pub started: i64,
    /// Playback runs, so that the scan makes way for it now and then.
    pub playback: bool,
    /// What the index knew of each path when the scan began.
    pub known: Map<Seq<char>, LibraryScanState>,
    /// The paths that were found, each once.
    pub kept: Seq<Seq<char>>,
    /// The stubs that are gathered.
    pub stubs: Seq<StubView>,
    /// The files whose tags are to be read.
    pub targets: Seq<TargetView>,
    /// How many files were found.
    pub discovered: usize,
    /// How many files the index holds.
    pub indexed: usize,
    /// How many targets have been taken up.
    pub next_target: nat,
    /// The updates that are gathered.
    pub updates: Seq<UpdateView>,
    /// How many updates are stored.
    pub updated: usize,
    pub phase: ScanPhase,
}

/// The sum, or the largest number there is.
pub open spec fn up_to_max(n: usize, k: nat) -> usize {
    if n + k <= usize::MAX {
        (n + k) as usize
    } else {
        usize::MAX
    }
}

fn saturated(n: usize, k: usize) -> (r: usize)
    ensures
        r == up_to_max(n, k as nat),
{
    if k <= usize::MAX - n {
        n + k
    } else {
        usize::MAX
    }
}

/// The tags of a file are read where the index does not know it as it is.
pub open spec fn needs_metadata(known: Map<Seq<char>, LibraryScanState>, file: FileView) -> bool {
    if known.contains_key(file.path) {
        let state = known[file.path];
        state.modified_unix_ms != file.modified_unix_ms || state.file_size_bytes
            != file.file_size_bytes || !state.metadata_ready
    } else {
        true
    }
}

pub open spec fn pauses(s: RunView, units: nat) -> bool {
    s.playback && units % (LIBRARY_SCAN_PLAYBACK_COOPERATE_INTERVAL as nat) == 0
}

/// The scan goes on to the next file.
pub open spec fn after_file(s: RunView) -> MoveView {
    MoveView {
        reports: if s.discovered % LIBRARY_SCAN_PROGRESS_INTERVAL == 0 {
            seq![
                ReportView::Progress {
                    discovered: s.discovered,
                    indexed: s.indexed,
                    metadata_pending: s.targets.len(),
                },
            ]
        } else {
            Seq::empty()
        },
        pause: pauses(s, s.discovered as nat),
        next: ScanNext::File,
    }
}

pub open spec fn quiet(next: ScanNext) -> MoveView {
    MoveView { reports: Seq::empty(), pause: false, next }
}

/// A file is found.
pub open spec fn on_file(s: RunView, file: FileView) -> (RunView, MoveView) {
    let kept = if s.kept.contains(file.path) {
        s.kept
    } else {
        s.kept.push(file.path)
    };
    let discovered = up_to_max(s.discovered, 1);
    if needs_metadata(s.known, file) {
        let stubs = s.stubs.push(stub_of(file, s.started));
        let targets = s.targets.push(
            TargetView {
                path: file.path,
                modified_unix_ms: file.modified_unix_ms,
                file_size_bytes: file.file_size_bytes,
            },
        );
        if stubs.len() >= LIBRARY_SCAN_UPSERT_BATCH_SIZE {
            (
                RunView { kept, discovered, stubs, targets, phase: ScanPhase::StoringStubs, ..s },
                quiet(ScanNext::StoreStubs),
            )
        } else {
            let next = RunView { kept, discovered, stubs, targets, ..s };
            (next, after_file(next))
        }
    } else {
        let next = RunView { kept, discovered, indexed: up_to_max(s.indexed, 1), ..s };
        (next, after_file(next))
    }
}

/// There are no more files.
pub open spec fn on_last_file(s: RunView) -> (RunView, MoveView) {
    if s.stubs.len() > 0 {
        (RunView { phase: ScanPhase::StoringLastStubs, ..s }, quiet(ScanNext::StoreStubs))
    } else {
        (RunView { phase: ScanPhase::Pruning, ..s }, quiet(ScanNext::Prune))
    }
}

/// The scan has failed.
pub open spec fn on_failure(s: RunView, text: Seq<char>) -> (RunView, MoveView) {
    (
        RunView { phase: ScanPhase::Finished, ..s },
        MoveView {
            reports: seq![ReportView::Failed(text)],
            pause: false,
            next: ScanNext::Finish,
        },
    )
}

/// The text of a failure that names a number of rows.
pub open spec fn rows_failure(what: Seq<char>, rows: nat, error: Seq<char>) -> Seq<char> {
    what + " ("@ + decimal(rows) + " rows): "@ + error
}

/// The gathered stubs have been stored, or not.
pub open spec fn on_stubs_stored(s: RunView, result: Result<(), Seq<char>>) -> (
    RunView,
    MoveView,
) {
    match result {
        Err(e) => on_failure(
            s,
            rows_failure(
                if s.phase == ScanPhase::StoringStubs {
                    "Failed to upsert scan batch"@
                } else {
                    "Failed to upsert final scan batch"@
                },
                s.stubs.len(),
                e,
            ),
        ),
        Ok(_) => if s.phase == ScanPhase::StoringStubs {
            let next = RunView {
                indexed: up_to_max(s.indexed, s.stubs.len()),
                stubs: Seq::empty(),
                phase: ScanPhase::Files,
                ..s
            };
            (next, after_file(next))
        } else {
            (
                RunView { stubs: Seq::empty(), phase: ScanPhase::Pruning, ..s },
                quiet(ScanNext::Prune),
            )
        },
    }
}

pub open spec fn remaining(s: RunView) -> nat {
    if s.updated <= s.targets.len() {
        (s.targets.len() - s.updated) as nat
    } else {
        0
    }
}

pub open spec fn metadata_report(s: RunView) -> ReportView {
    ReportView::MetadataProgress { updated: s.updated, remaining: remaining(s) }
}

/// The scan goes on to the next target, with reports and a pause. At its end it says how many
/// updates were stored, if there were any to store.
pub open spec fn after_target(s: RunView, reports: Seq<ReportView>, pause: bool) -> (
    RunView,
    MoveView,
) {
    if s.next_target < s.targets.len() {
        (
            RunView { phase: ScanPhase::ReadingTags, ..s },
            MoveView { reports, pause, next: ScanNext::ReadTags },
        )
    } else if s.updates.len() > 0 {
        (
            RunView { phase: ScanPhase::StoringLastUpdates, ..s },
            MoveView { reports, pause, next: ScanNext::StoreUpdates },
        )
    } else {
        (
            RunView { phase: ScanPhase::Finished, ..s },
            MoveView {
                reports: if s.targets.len() > 0 {
                    reports.push(metadata_report(s))
                } else {
                    reports
                },
                pause,
                next: ScanNext::Finish,
            },
        )
    }
}

/// The index has been rid of what was not found, or not.
pub open spec fn on_pruned(s: RunView, result: Result<(), Seq<char>>) -> (RunView, MoveView) {
    match result {
        Err(e) => on_failure(s, "Failed to prune removed library files: "@ + e),
        Ok(_) => after_target(
            s,
            seq![ReportView::Completed { indexed_tracks: s.kept.len() }],
            false,
        ),
    }
}

/// The tags of the next target have been read.
pub open spec fn on_tags(s: RunView, tags: Option<TagsView>) -> (RunView, MoveView) {
    let update = update_of(s.targets[s.next_target as int], tags, s.started);
    let next = RunView {
        next_target: s.next_target + 1,
        updates: s.updates.push(update),
        ..s
    };
    if next.updates.len() >= LIBRARY_SCAN_METADATA_BATCH_SIZE {
        (RunView { phase: ScanPhase::StoringUpdates, ..next }, quiet(ScanNext::StoreUpdates))
    } else {
        after_target(next, Seq::empty(), pauses(next, next.next_target))
    }
}

/// The gathered updates have been stored, or not.
pub open spec fn on_updates_stored(s: RunView, result: Result<(), Seq<char>>) -> (
    RunView,
    MoveView,
) {
    match result {
        Err(e) => on_failure(
            s,
            rows_failure(
                if s.phase == ScanPhase::StoringUpdates {
                    "Failed metadata backfill batch"@
                } else {
                    "Failed final metadata backfill batch"@
                },
                s.updates.len(),
                e,
            ),
        ),
        Ok(_) => {
            let next = RunView {
                updated: up_to_max(s.updated, s.updates.len()),
                updates: Seq::empty(),
                ..s
            };
            after_target(
                next,
                if s.phase == ScanPhase::StoringUpdates {
                    seq![metadata_report(next)]
                } else {
                    Seq::empty()
                },
                s.phase == ScanPhase::StoringUpdates && pauses(next, next.next_target),
            )
        },
    }
}

/// The state in which a scan begins.
pub open spec fn fresh_run(
    started: i64,
    playback: bool,
    known: Map<Seq<char>, LibraryScanState>,
) -> RunView {
    RunView {
        started,
        playback,
        known,
        kept: Seq::empty(),
        stubs: Seq::empty(),
        targets: Seq::empty(),
        discovered: 0,
        indexed: 0,
        next_target: 0,
        updates: Seq::empty(),
        updated: 0,
        phase: ScanPhase::Files,
    }
}

/// What a list of rows says of paths: the last row of a path counts.
pub open spec fn states_map(rows: Seq<(String, LibraryScanState)>) -> Map<
    Seq<char>,
    LibraryScanState,
>
    decreases rows.len(),
{
    if rows.len() == 0 {
        Map::empty()
    } else {
        states_map(rows.drop_last()).insert(rows.last().0@, rows.last().1)
    }
}

pub open spec fn tags_view(tags: Option<CommonTrackMetadata>) -> Option<TagsView> {
    match tags {
        Some(t) => Some(t@),
        None => None,
    }
}

fn rows_failure_text(what: &str, rows: usize, error: &str) -> (r: String)
    ensures
        r@ == rows_failure(what@, rows as nat, error@),
{
    let mut text = owned(what);
    append(&mut text, " (");
    append(&mut text, decimal_text(rows as u64).as_str());
    append(&mut text, " rows): ");
    append(&mut text, error);
    text
}

impl View for ScanRun {
    type V = RunView;

    closed spec fn view(&self) -> RunView {
        RunView {
            started: self.started_unix_ms,
            playback: self.playback_active,
            known: self.known@,
            kept: texts(self.kept@),
            stubs: views(self.stubs@),
            targets: views(self.targets@),
            discovered: self.discovered,
            indexed: self.indexed,
            next_target: self.next_target as nat,
            updates: views(self.updates@),
            updated: self.updated,
            phase: self.phase,
        }
    }
}

impl ScanRun {
    /// What holds of every scan: each path that was found is kept once, and while tags are read a
    /// target is left.
    pub closed spec fn well_formed(&self) -> bool {
        &&& forall|p: Seq<char>| #[trigger]
            self.seen@.contains(p) <==> texts(self.kept@).contains(p)
        &&& self.next_target <= self.targets.len()
        &&& self.phase == ScanPhase::ReadingTags ==> self.next_target < self.targets.len()
    }

    /// Begins a scan. The rows are what the index knows of the files.
    pub fn begin(
        started_unix_ms: i64,
        playback_active: bool,
        baseline: Result<Vec<(String, LibraryScanState)>, String>,
    ) -> (r: Result<ScanRun, String>)
        ensures
            match baseline {
                Ok(rows) => r is Ok && r->Ok_0.well_formed() && r->Ok_0@ == fresh_run(
                    started_unix_ms,
                    playback_active,
                    states_map(rows@),
                ),
                Err(e) => r is Err && r->Err_0@ == "Failed to load scan baseline: "@ + e@,
            },
    {
        let rows = match baseline {
            Ok(rows) => rows,
            Err(error) => {
                let mut text = owned("Failed to load scan baseline: ");
                append(&mut text, error.as_str());
                return Err(text);
            },
        };
        let mut known: StringHashMap<LibraryScanState> = StringHashMap::new();
        let mut i: usize = 0;
        assert(rows@.take(0) =~= Seq::empty());
        while i < rows.len()
            invariant
                i <= rows.len(),
                known@ == states_map(rows@.take(i as int)),
            decreases rows.len() - i,
        {
            assert(rows@.take(i + 1).drop_last() =~= rows@.take(i as int));
            known.insert(rows[i].0.clone(), rows[i].1);
            i += 1;
        }
        assert(rows@.take(i as int) =~= rows@);
        let run = ScanRun {
            started_unix_ms,
            playback_active,
            known,
            seen: StringHashSet::new(),
            kept: Vec::new(),
            stubs: Vec::new(),
            targets: Vec::new(),
            discovered: 0,
            indexed: 0,
            next_target: 0,
            updates: Vec::new(),
            updated: 0,
            phase: ScanPhase::Files,
        };
        assert(run@ =~= fresh_run(started_unix_ms, playback_active, states_map(rows@)));
        Ok(run)
    }

    pub fn phase(&self) -> (r: ScanPhase)
        ensures
            r == self@.phase,
    {
        self.phase
    }

    /// The stubs that are to be stored.
    pub fn stubs(&self) -> (r: &Vec<LibraryTrackScanStub>)
        ensures
            views(r@) == self@.stubs,
    {
        &self.stubs
    }

    /// The updates that are to be stored.
    pub fn updates(&self) -> (r: &Vec<LibraryTrackMetadataUpdate>)
        ensures
            views(r@) == self@.updates,
    {
        &self.updates
    }

    /// The paths that were found, each once.
    pub fn kept_paths(&self) -> (r: &Vec<String>)
        ensures
            texts(r@) == self@.kept,
    {
        &self.kept
    }

    /// The path of the target whose tags are to be read.
    pub fn target_path(&self) -> (r: Option<&String>)
        ensures
            match r {
                Some(path) => self@.next_target < self@.targets.len() && path@
                    == self@.targets[self@.next_target as int].path,
                None => self@.next_target >= self@.targets.len(),
            },
    {
        if self.next_target < self.targets.len() {
            assert(self@.targets[self.next_target as int] == self.targets@[self.next_target as int]@);
            Some(&self.targets[self.next_target].path)
        } else {
            None
        }
    }

    fn pause_after(&self, units: usize) -> (r: bool)
        ensures
            r == pauses(self@, units as nat),
    {
        self.playback_active && units % LIBRARY_SCAN_PLAYBACK_COOPERATE_INTERVAL == 0
    }

    fn go_on_with_files(&self) -> (r: ScanMove)
        ensures
            r@ == after_file(self@),
    {
        let mut reports: Vec<ScanReport> = Vec::new();
        if self.discovered % LIBRARY_SCAN_PROGRESS_INTERVAL == 0 {
            reports.push(
                ScanReport::Progress {
                    discovered: self.discovered,
                    indexed: self.indexed,
                    metadata_pending: self.targets.len(),
                },
            );
        }
        assert(views(reports@) =~= after_file(self@).reports);
        ScanMove { reports, pause: self.pause_after(self.discovered), next: ScanNext::File }
    }

    fn fail(&mut self, text: String) -> (r: ScanMove)
        requires
            old(self).well_formed(),
        ensures
            final(self).well_formed(),
            (final(self)@, r@) == on_failure(old(self)@, text@),
    {
        self.phase = ScanPhase::Finished;
        let mut reports: Vec<ScanReport> = Vec::new();
        reports.push(ScanReport::Failed(text));
        assert(views(reports@) =~= seq![ReportView::Failed(text@)]);
        ScanMove { reports, pause: false, next: ScanNext::Finish }
    }

    fn silent(next: ScanNext) -> (r: ScanMove)
        ensures
            r@ == quiet(next),
    {
        let reports: Vec<ScanReport> = Vec::new();
        assert(views(reports@) =~= Seq::empty());
        ScanMove { reports, pause: false, next }
    }

    fn keep_path(&mut self, path: &String)
        requires
            old(self).well_formed(),
        ensures
            final(self).well_formed(),
            final(self)@ == (RunView {
                kept: if old(self)@.kept.contains(path@) {
                    old(self)@.kept
                } else {
                    old(self)@.kept.push(path@)
                },
                ..old(self)@
            }),
    {
        let ghost before = texts(self.kept@);
        let ghost known = self.seen@;
        if self.seen.insert(path.clone()) {
            self.kept.push(path.clone());
            proof {
                let now = texts(self.kept@);
                assert(now =~= before.push(path@));
                assert forall|p: Seq<char>| #[trigger]
                    self.seen@.contains(p) <==> now.contains(p) by {
                    if p == path@ {
                        assert(now[before.len() as int] == p);
                    } else {
                        assert(self.seen@.contains(p) == known.contains(p));
                        if before.contains(p) {
                            assert(now[before.index_of(p)] == p);
                        }
                        if now.contains(p) {
                            assert(before[now.index_of(p)] == p);
                        }
                    }
                }
            }
        } else {
            assert(self.seen@ =~= known);
        }
    }

    fn needs_tags(&self, file: &ScannedFile) -> (r: bool)
        ensures
            r == needs_metadata(self@.known, file@),
    {
        match self.known.get(file.path.as_str()) {
            Some(state) => state.modified_unix_ms != file.modified_unix_ms || state.file_size_bytes
                != file.file_size_bytes || !state.metadata_ready,
            None => true,
        }
    }

    /// Takes up a file that was found.
    pub fn take_file(&mut self, file: ScannedFile) -> (r: ScanMove)
        requires
            old(self).well_formed(),
            old(self)@.phase == ScanPhase::Files,
        ensures
            final(self).well_formed(),
            (final(self)@, r@) == on_file(old(self)@, file@),
    {
        self.keep_path(&file.path);
        self.discovered = saturated(self.discovered, 1);
        if self.needs_tags(&file) {
            let ghost stubs_before = views(self.stubs@);
            let ghost targets_before = views(self.targets@);
            self.stubs.push(fallback_scan_stub(&file, self.started_unix_ms));
            self.targets.push(
                BackfillTarget {
                    path: file.path,
                    modified_unix_ms: file.modified_unix_ms,
                    file_size_bytes: file.file_size_bytes,
                },
            );
            assert(views(self.stubs@) =~= stubs_before.push(
                stub_of(file@, self.started_unix_ms),
            ));
            assert(views(self.targets@) =~= targets_before.push(
                TargetView {
                    path: file@.path,
                    modified_unix_ms: file.modified_unix_ms,
                    file_size_bytes: file.file_size_bytes,
                },
            ));
            if self.stubs.len() >= LIBRARY_SCAN_UPSERT_BATCH_SIZE {
                self.phase = ScanPhase::StoringStubs;
                return Self::silent(ScanNext::StoreStubs);
            }
        } else {
            self.indexed = saturated(self.indexed, 1);
        }
        self.go_on_with_files()
    }

    /// There are no more files.
    pub fn end_files(&mut self) -> (r: ScanMove)
        requires
            old(self).well_formed(),
            old(self)@.phase == ScanPhase::Files,
        ensures
            final(self).well_formed(),
            (final(self)@, r@) == on_last_file(old(self)@),
    {
        if self.stubs.len() > 0 {
            self.phase = ScanPhase::StoringLastStubs;
            Self::silent(ScanNext::StoreStubs)
        } else {
            self.phase = ScanPhase::Pruning;
            Self::silent(ScanNext::Prune)
        }
    }

    /// The gathered stubs have been stored, or not.
    pub fn stubs_stored(&mut self, result: Result<(), String>) -> (r: ScanMove)
        requires
            old(self).well_formed(),
            old(self)@.phase == ScanPhase::StoringStubs || old(self)@.phase
                == ScanPhase::StoringLastStubs,
        ensures
            final(self).well_formed(),
            (final(self)@, r@) == on_stubs_stored(old(self)@, unit_result(result)),
    {
        match result {
            Err(error) => {
                let what: &str = if self.phase == ScanPhase::StoringStubs {
                    "Failed to upsert scan batch"
                } else {
                    "Failed to upsert final scan batch"
                };
                let text = rows_failure_text(what, self.stubs.len(), error.as_str());
                self.fail(text)
            },
            Ok(_) => {
                let rows: usize = self.stubs.len();
                assert(views(self.stubs@).len() == rows);
                self.stubs = Vec::new();
                assert(views(self.stubs@) =~= Seq::empty());
                if self.phase == ScanPhase::StoringStubs {
                    self.indexed = saturated(self.indexed, rows);
                    self.phase = ScanPhase::Files;
                    self.go_on_with_files()
                } else {
                    self.phase = ScanPhase::Pruning;
                    Self::silent(ScanNext::Prune)
                }
            },
        }
    }

    fn metadata_progress(&self) -> (r: ScanReport)
        ensures
            r@ == metadata_report(self@),
    {
        let left: usize = if self.updated <= self.targets.len() {
            self.targets.len() - self.updated
        } else {
            0
        };
        ScanReport::MetadataProgress { updated: self.updated, remaining: left }
    }

    fn go_on_with_targets(&mut self, reports: Vec<ScanReport>, pause: bool) -> (r: ScanMove)
        requires
            old(self).well_formed(),
        ensures
            final(self).well_formed(),
            (final(self)@, r@) == after_target(old(self)@, views(reports@), pause),
    {
        if self.next_target < self.targets.len() {
            self.phase = ScanPhase::ReadingTags;
            ScanMove { reports, pause, next: ScanNext::ReadTags }
        } else if self.updates.len() > 0 {
            self.phase = ScanPhase::StoringLastUpdates;
            ScanMove { reports, pause, next: ScanNext::StoreUpdates }
        } else {
            self.phase = ScanPhase::Finished;
            let ghost before = views(reports@);
            let mut all = reports;
            if self.targets.len() > 0 {
                let last = self.metadata_progress();
                all.push(last);
                assert(views(all@) =~= before.push(last@));
            }
            ScanMove { reports: all, pause, next: ScanNext::Finish }
        }
    }

    /// The index has been rid of what was not found, or not.
    pub fn pruned(&mut self, result: Result<(), String>) -> (r: ScanMove)
        requires
            old(self).well_formed(),
            old(self)@.phase == ScanPhase::Pruning,
        ensures
            final(self).well_formed(),
            (final(self)@, r@) == on_pruned(old(self)@, unit_result(result)),
    {
        match result {
            Err(error) => {
                let mut text = owned("Failed to prune removed library files: ");
                append(&mut text, error.as_str());
                self.fail(text)
            },
            Ok(_) => {
                let indexed_tracks: usize = self.kept.len();
                assert(texts(self.kept@).len() == indexed_tracks);
                let mut reports: Vec<ScanReport> = Vec::new();
                reports.push(ScanReport::Completed { indexed_tracks });
                assert(views(reports@) =~= seq![
                    ReportView::Completed { indexed_tracks: indexed_tracks as nat },
                ]);
                self.go_on_with_targets(reports, false)
            },
        }
    }

    /// The tags of the next target have been read.
    pub fn take_tags(&mut self, tags: Option<CommonTrackMetadata>) -> (r: ScanMove)
        requires
            old(self).well_formed(),
            old(self)@.phase == ScanPhase::ReadingTags,
        ensures
            final(self).well_formed(),
            (final(self)@, r@) == on_tags(old(self)@, tags_view(tags)),
    {
        let ghost before = views(self.updates@);
        let ghost target = self.targets@[self.next_target as int]@;
        let update = metadata_update(&self.targets[self.next_target], tags, self.started_unix_ms);
        assert(update@ == update_of(target, tags_view(tags), self.started_unix_ms));
        assert(self@.targets[self.next_target as int] == target);
        self.updates.push(update);
        assert(views(self.updates@) =~= before.push(update@));
        self.next_target = self.next_target + 1;
        if self.updates.len() >= LIBRARY_SCAN_METADATA_BATCH_SIZE {
            self.phase = ScanPhase::StoringUpdates;
            Self::silent(ScanNext::StoreUpdates)
        } else {
            let pause = self.pause_after(self.next_target);
            self.phase = ScanPhase::Finished;
            let reports: Vec<ScanReport> = Vec::new();
            assert(views(reports@) =~= Seq::empty());
            self.go_on_with_targets(reports, pause)
        }
    }

    /// The gathered updates have been stored, or not.
    pub fn updates_stored(&mut self, result: Result<(), String>) -> (r: ScanMove)
        requires
            old(self).well_formed(),
            old(self)@.phase == ScanPhase::StoringUpdates || old(self)@.phase
                == ScanPhase::StoringLastUpdates,
        ensures
            final(self).well_formed(),
            (final(self)@, r@) == on_updates_stored(old(self)@, unit_result(result)),
    {
        match result {
            Err(error) => {
                let what: &str = if self.phase == ScanPhase::StoringUpdates {
                    "Failed metadata backfill batch"
                } else {
                    "Failed final metadata backfill batch"
                };
                let text = rows_failure_text(what, self.updates.len(), error.as_str());
                self.fail(text)
            },
            Ok(_) => {
                let rows: usize = self.updates.len();
                assert(views(self.updates@).len() == rows);
                self.updates = Vec::new();
                assert(views(self.updates@) =~= Seq::empty());
                self.updated = saturated(self.updated, rows);
                let mut reports: Vec<ScanReport> = Vec::new();
                if self.phase == ScanPhase::StoringUpdates {
                    reports.push(self.metadata_progress());
                }
                assert(views(reports@) =~= if self.phase == ScanPhase::StoringUpdates {
                    seq![metadata_report(self@)]
                } else {
                    Seq::empty()
                });
                assert(metadata_report(self@) == metadata_report(
                    RunView {
                        updated: up_to_max(old(self)@.updated, rows as nat),
                        updates: Seq::empty(),
                        ..old(self)@
                    },
                ));
                let pause = self.phase == ScanPhase::StoringUpdates && self.pause_after(
                    self.next_target,
                );
                self.go_on_with_targets(reports, pause)
            },
        }
    }
}

/// A folder is scanned where it has a name.
pub fn is_scanned_folder(folder: &str) -> (r: bool)
    ensures
        r == !blank(folder@),
{
    !is_blank(folder)
}

/// What an entry of a folder is.
#[derive(Debug, Clone, Copy, PartialEq, Eq, Structural)]
pub enum EntryKind {
    Directory,
    File,
    Other,
}

/// A walk through a folder and the folders in it.
#[derive(Debug, PartialEq, Eq)]
pub struct FolderWalk {
    /// The folders that are still to be read.
    pub pending: Vec<String>,
    /// The audio files that were found.
    pub found: Vec<String>,
}

/// The contents of a [`FolderWalk`].
#[verifier::ext_equal]
pub struct WalkView {
    pub pending: Seq<Seq<char>>,
    pub found: Seq<Seq<char>>,
}

impl View for FolderWalk {
    type V = WalkView;

    open spec fn view(&self) -> WalkView {
        WalkView { pending: texts(self.pending@), found: texts(self.found@) }
    }
}

/// An entry was found: folders are read later, audio files are kept.
pub open spec fn walk_entry(w: WalkView, path: Seq<char>, kind: EntryKind) -> WalkView {
    match kind {
        EntryKind::Directory => WalkView { pending: w.pending.push(path), ..w },
        EntryKind::File => if supported_audio_file(path) {
            WalkView { found: w.found.push(path), ..w }
        } else {
            w
        },
        EntryKind::Other => w,
    }
}

pub open spec fn path_keys() -> spec_fn(Seq<char>) -> Seq<Seq<u32>> {
    |path: Seq<char>| path_key(path)
}

/// Paths in their order.
pub open spec fn sorted_paths(paths: Seq<Seq<char>>) -> Seq<Seq<char>> {
    sorted_by(paths, path_keys())
}

/// Sorts paths.
pub fn sort_paths(paths: &Vec<String>) -> (r: Vec<String>)
    ensures
        texts(r@) == sorted_paths(texts(paths@)),
{
    let mut keys: Vec<Vec<Vec<u32>>> = Vec::new();
    let mut i: usize = 0;
    while i < paths.len()
        invariant
            i <= paths.len(),
            keys.len() == i,
            forall|k: int| 0 <= k < i ==> key_view((#[trigger] keys@[k])@) == path_key(paths@[k]@),
        decreases paths.len() - i,
    {
        let mut key: Vec<Vec<u32>> = Vec::new();
        push_path_key(&mut key, paths[i].as_str());
        assert(key_view(Seq::<Vec<u32>>::empty()) =~= Seq::empty());
        assert(key_view(key@) =~= path_key(paths@[i as int]@));
        keys.push(key);
        i += 1;
    }
    let sorted = sort_by_keys(paths, &keys, Ghost(path_keys()));
    assert(views(paths@) =~= texts(paths@));
    assert(views(sorted@) =~= texts(sorted@));
    sorted
}

impl FolderWalk {
    pub fn new(folder: String) -> (r: FolderWalk)
        ensures
            r@ == (WalkView { pending: seq![folder@], found: Seq::empty() }),
    {
        let mut pending: Vec<String> = Vec::new();
        pending.push(folder);
        let r = FolderWalk { pending, found: Vec::new() };
        assert(r@ =~= WalkView { pending: seq![folder@], found: Seq::empty() });
        r
    }

    /// The folder to read next.
    pub fn next_folder(&mut self) -> (r: Option<String>)
        ensures
            match r {
                Some(folder) => old(self)@.pending.len() > 0 && folder@ == old(self)@.pending.last()
                    && final(self)@ == (WalkView {
                    pending: old(self)@.pending.drop_last(),
                    ..old(self)@
                }),
                None => old(self)@.pending.len() == 0 && final(self)@ == old(self)@,
            },
    {
        let ghost before = texts(self.pending@);
        let folder = self.pending.pop();
        proof {
            if folder is Some {
                assert(texts(self.pending@) =~= before.drop_last());
            }
        }
        folder
    }

    /// Takes up an entry of the folder that is read.
    pub fn take_entry(&mut self, path: String, kind: EntryKind)
        ensures
            final(self)@ == walk_entry(old(self)@, path@, kind),
    {
        let ghost pending = texts(self.pending@);
        let ghost found = texts(self.found@);
        match kind {
            EntryKind::Directory => {
                self.pending.push(path);
                assert(texts(self.pending@) =~= pending.push(path@));
            },
            EntryKind::File => {
                if is_supported_audio_file(path.as_str()) {
                    self.found.push(path);
                    assert(texts(self.found@) =~= found.push(path@));
                }
            },
            EntryKind::Other => {},
        }
    }

    /// The files that were found, in the order of their paths.
    pub fn files(&self) -> (r: Vec<String>)
        ensures
            texts(r@) == sorted_paths(self@.found),
    {
        sort_paths(&self.found)
    }
}

/// A number in hexadecimal digits, without leading zeros.
pub open spec fn hex_text(n: nat) -> Seq<char>
    decreases n,
{
    if n < 16 {
        seq![hex_digit(n)]
    } else {
        hex_text(n / 16).push(hex_digit(n % 16))
    }
}

fn hex_text_of(n: u64) -> (r: Vec<char>)
    ensures
        r@ == hex_text(n as nat),
    decreases n,
{
    let mut out: Vec<char> = if n < 16 {
        Vec::new()
    } else {
        hex_text_of(n / 16)
    };
    let digit: u8 = (n % 16) as u8;
    let c: char = if digit < 10 {
        ('0' as u8 + digit) as char
    } else {
        ('a' as u8 + (digit - 10)) as char
    };
    out.push(c);
    assert(out@ =~= hex_text(n as nat));
    out
}

/// The id of an indexed track, made of a hash of its path.
pub fn library_track_id(hash: u64) -> (r: String)
    ensures
        r@ == "lib-"@ + hex_text(hash as nat),
{
    let mut out = owned("lib-");
    append(&mut out, string_of(&hex_text_of(hash)).as_str());
    out
}

} // verus!
