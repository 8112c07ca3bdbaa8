//! What holds of whole scans.

use crate::library::catalog::firsts;
use crate::library::catalog_laws::sorting_keeps_the_items;
use crate::library::order::key_less;
use crate::library::paths::{audio_extensions, fallback_title, file_name, path_key};
use crate::library::scan::{
    droppable, fresh_run, needs_metadata, on_file, on_last_file, on_pruned, on_stubs_stored, on_tags,
    on_updates_stored, playlist_track, shown_metadata, sorted_paths, states_map, stub_of, update_of, walk_entry, EntryKind,
    FileView, LibraryScanState, ReportView, RunView, ScanNext, ScanPhase, StubView, TagsView,
    TargetView, UpdateView, WalkView, LIBRARY_SCAN_METADATA_BATCH_SIZE,
    LIBRARY_SCAN_UPSERT_BATCH_SIZE,
};
use crate::text::{blank, decimal, last_of, lower, trim};
use vstd::prelude::*;

verus! {

/// The scan goes through a list of files; where it asks for stubs to be stored, they are. Gives
/// the state of the scan after the last file and the stubs that were stored.
pub open spec fn scan_files(s: RunView, files: Seq<FileView>) -> (RunView, Seq<StubView>)
    decreases files.len(),
{
    if files.len() == 0 {
        (s, Seq::empty())
    } else {
        let (before, stored) = scan_files(s, files.drop_last());
        let (next, step) = on_file(before, files.last());
        if step.next == ScanNext::StoreStubs {
            (on_stubs_stored(next, Ok(())).0, stored + next.stubs)
        } else {
            (next, stored)
        }
    }
}

pub open spec fn changed(known: Map<Seq<char>, LibraryScanState>) -> spec_fn(FileView) -> bool {
    |file: FileView| needs_metadata(known, file)
}

/// The files that are new or have changed.
pub open spec fn changed_files(
    known: Map<Seq<char>, LibraryScanState>,
    files: Seq<FileView>,
) -> Seq<FileView> {
    files.filter(changed(known))
}

pub open spec fn stubs_from(started: i64) -> spec_fn(FileView) -> StubView {
    |file: FileView| stub_of(file, started)
}

pub open spec fn target_from() -> spec_fn(FileView) -> TargetView {
    |file: FileView|
        TargetView {
            path: file.path,
            modified_unix_ms: file.modified_unix_ms,
            file_size_bytes: file.file_size_bytes,
        }
}

pub open spec fn file_path() -> spec_fn(FileView) -> Seq<char> {
    |file: FileView| file.path
}

/// What a scan has come to after its files: a stub is stored or gathered for each file that is
/// new or has changed, and for no other; the tags of exactly these files are still to be read;
/// each path is kept once; and every file counts.
pub proof fn changed_files_are_stored_once(
    started: i64,
    playback: bool,
    known: Map<Seq<char>, LibraryScanState>,
    files: Seq<FileView>,
)
    requires
        files.len() <= usize::MAX,
    ensures
        ({
            let (s, stored) = scan_files(fresh_run(started, playback, known), files);
            &&& s.phase == ScanPhase::Files
            &&& s.started == started && s.playback == playback && s.known == known
            &&& stored + s.stubs == changed_files(known, files).map_values(stubs_from(started))
            &&& s.targets == changed_files(known, files).map_values(target_from())
            &&& s.kept == firsts(files.map_values(file_path()))
            &&& s.stubs.len() < LIBRARY_SCAN_UPSERT_BATCH_SIZE
            &&& s.discovered == files.len()
            &&& s.indexed + s.stubs.len() == files.len()
            &&& s.next_target == 0 && s.updates.len() == 0 && s.updated == 0
        }),
    decreases files.len(),
{
    reveal(Seq::filter);
    let s0 = fresh_run(started, playback, known);
    if files.len() == 0 {
        assert(changed_files(known, files).map_values(stubs_from(started)) =~= Seq::empty());
        assert(changed_files(known, files).map_values(target_from()) =~= Seq::empty());
        assert(files.map_values(file_path()) =~= Seq::empty());
        assert(Seq::<StubView>::empty() + s0.stubs =~= Seq::empty());
    } else {
        let rest = files.drop_last();
        let file = files.last();
        changed_files_are_stored_once(started, playback, known, rest);
        let (s, stored) = scan_files(s0, rest);
        let old = changed_files(known, rest);
        assert(files.map_values(file_path()).drop_last() =~= rest.map_values(file_path()));
        assert(old.push(file).map_values(stubs_from(started)) =~= old.map_values(
            stubs_from(started),
        ).push(stub_of(file, started)));
        assert(old.push(file).map_values(target_from()) =~= old.map_values(target_from()).push(
            target_from()(file),
        ));
        let (next, step) = on_file(s, file);
        if needs_metadata(known, file) {
            let stubs = s.stubs.push(stub_of(file, started));
            assert((stored + s.stubs).push(stub_of(file, started)) =~= stored + stubs);
            if stubs.len() >= LIBRARY_SCAN_UPSERT_BATCH_SIZE {
                assert((stored + stubs) + Seq::<StubView>::empty() =~= stored + stubs);
            }
        }
    }
}

/// The scan reads tags; where it asks for updates to be stored, they are. Gives the state of the
/// scan after the last tags and the updates that were stored.
pub open spec fn scan_tags(s: RunView, tags: Seq<Option<TagsView>>) -> (RunView, Seq<UpdateView>)
    decreases tags.len(),
{
    if tags.len() == 0 {
        (s, Seq::empty())
    } else {
        let (before, stored) = scan_tags(s, tags.drop_last());
        let (next, step) = on_tags(before, tags.last());
        if step.next == ScanNext::StoreUpdates {
            (on_updates_stored(next, Ok(())).0, stored + next.updates)
        } else {
            (next, stored)
        }
    }
}

/// The updates for the first targets.
pub open spec fn first_updates(
    targets: Seq<TargetView>,
    tags: Seq<Option<TagsView>>,
    started: i64,
) -> Seq<UpdateView> {
    Seq::new(tags.len(), |i: int| update_of(targets[i], tags[i], started))
}

proof fn lemma_scan_tags(s: RunView, tags: Seq<Option<TagsView>>)
    requires
        s.phase == ScanPhase::ReadingTags,
        s.next_target == 0,
        s.updates.len() == 0,
        s.updated == 0,
        tags.len() <= s.targets.len() <= usize::MAX,
        s.targets.len() > 0,
    ensures
        ({
            let (end, stored) = scan_tags(s, tags);
            &&& end.targets == s.targets && end.started == s.started && end.playback == s.playback
            &&& end.next_target == tags.len()
            &&& end.updated == stored.len()
            &&& end.updates.len() < LIBRARY_SCAN_METADATA_BATCH_SIZE
            &&& stored + end.updates == first_updates(s.targets, tags, s.started)
            &&& end.phase == if tags.len() < s.targets.len() {
                ScanPhase::ReadingTags
            } else {
                ScanPhase::Finished
            }
            &&& tags.len() == s.targets.len() ==> end.updates.len() == 0
        }),
    decreases tags.len(),
{
    if tags.len() == 0 {
        assert(Seq::<UpdateView>::empty() + s.updates =~= first_updates(s.targets, tags, s.started));
    } else {
        let rest = tags.drop_last();
        lemma_scan_tags(s, rest);
        let (before, stored) = scan_tags(s, rest);
        let (next, step) = on_tags(before, tags.last());
        let update = update_of(s.targets[rest.len() as int], tags.last(), s.started);
        let updates = before.updates.push(update);
        assert(stored + updates =~= (stored + before.updates).push(update));
        assert(first_updates(s.targets, tags, s.started) =~= first_updates(
            s.targets,
            rest,
            s.started,
        ).push(update));
        assert(stored.len() + updates.len() == tags.len());
        assert((stored + updates) + Seq::<UpdateView>::empty() =~= stored + updates);
    }
}

/// Once the tags of all targets have been read, an update has been stored for each target, in
/// their order, and the scan is over.
pub proof fn every_target_is_updated(s: RunView, tags: Seq<Option<TagsView>>)
    requires
        s.phase == ScanPhase::ReadingTags,
        s.next_target == 0,
        s.updates.len() == 0,
        s.updated == 0,
        s.targets.len() <= usize::MAX,
        tags.len() == s.targets.len(),
        s.targets.len() > 0,
    ensures
        scan_tags(s, tags).0.phase == ScanPhase::Finished,
        scan_tags(s, tags).0.updated == s.targets.len(),
        scan_tags(s, tags).1 == first_updates(s.targets, tags, s.started),
{
    lemma_scan_tags(s, tags);
    let (end, stored) = scan_tags(s, tags);
    assert(stored + end.updates =~= stored);
}

/// A file that the index knows as it is, with its tags, is left alone by the next scan.
pub proof fn known_files_are_left_alone(
    known: Map<Seq<char>, LibraryScanState>,
    file: FileView,
)
    requires
        known.contains_key(file.path),
        known[file.path] == (LibraryScanState {
            modified_unix_ms: file.modified_unix_ms,
            file_size_bytes: file.file_size_bytes,
            metadata_ready: true,
        }),
    ensures
        !needs_metadata(known, file),
{
}

/// A file is read again exactly where it is not known, or its time or size has changed, or its
/// tags have not been read yet.
pub proof fn changed_files_are_read_again(
    known: Map<Seq<char>, LibraryScanState>,
    file: FileView,
)
    ensures
        needs_metadata(known, file) <==> !known.contains_key(file.path)
            || known[file.path].modified_unix_ms != file.modified_unix_ms
            || known[file.path].file_size_bytes != file.file_size_bytes
            || !known[file.path].metadata_ready,
{
}

/// What is shown of a file: each tag that is not empty under its own name. A missing title is
/// made from the path; a missing artist or album is unknown; and a missing album artist is the
/// artist that is shown.
pub proof fn tags_are_shown_as_they_are(path: Seq<char>, t: TagsView)
    ensures
        ({
            let m = shown_metadata(path, Some(t));
            &&& t.title.len() > 0 ==> m.title == t.title
            &&& t.title.len() == 0 ==> m.title == fallback_title(path)
            &&& t.artist.len() > 0 ==> m.artist == t.artist
            &&& t.artist.len() == 0 ==> m.artist == "Unknown Artist"@
            &&& t.album.len() > 0 ==> m.album == t.album
            &&& t.album.len() == 0 ==> m.album == "Unknown Album"@
            &&& t.album_artist.len() > 0 ==> m.album_artist == t.album_artist
            &&& t.album_artist.len() == 0 && t.artist.len() > 0 ==> m.album_artist == t.artist
            &&& t.album_artist.len() == 0 && t.artist.len() == 0 ==> m.album_artist
                == "Unknown Artist"@
            &&& m.genre == t.genre
            &&& m.year == t.year
            &&& m.track_number == t.track_number
        }),
{
}

/// A file whose tags cannot be read is shown by its name alone.
pub proof fn untagged_files_are_shown_by_name(path: Seq<char>)
    ensures
        ({
            let m = shown_metadata(path, None);
            &&& m.title == fallback_title(path)
            &&& m.artist == "Unknown Artist"@
            &&& m.album == "Unknown Album"@
            &&& m.album_artist == "Unknown Artist"@
            &&& m.genre.len() == 0
            &&& m.year.len() == 0
            &&& m.track_number.len() == 0
        }),
{
}

/// The indexed row of a file holds each of the file's tags under its own name, where it is not
/// empty; the file's own path, time and size; and is sorted by its title, artist and album in
/// lower case, without white space at the ends.
pub proof fn rows_hold_their_tags(target: TargetView, t: TagsView, started: i64)
    ensures
        ({
            let u = update_of(target, Some(t), started);
            &&& t.title.len() > 0 ==> u.title == t.title
            &&& t.title.len() == 0 ==> u.title == fallback_title(target.path)
            &&& t.artist.len() > 0 ==> u.artist == t.artist
            &&& t.artist.len() == 0 ==> u.artist == "Unknown Artist"@
            &&& t.album.len() > 0 ==> u.album == t.album
            &&& t.album.len() == 0 ==> u.album == "Unknown Album"@
            &&& t.album_artist.len() > 0 ==> u.album_artist == t.album_artist
            &&& t.album_artist.len() == 0 ==> u.album_artist == u.artist
            &&& u.genre == t.genre
            &&& u.year == t.year
            &&& u.track_number == t.track_number
            &&& u.path == target.path
            &&& u.modified_unix_ms == target.modified_unix_ms
            &&& u.file_size_bytes == target.file_size_bytes
            &&& u.metadata_ready
            &&& u.last_scanned_unix_ms == started
            &&& !blank(u.title) ==> u.sort_title == lower(trim(u.title))
            &&& blank(u.title) ==> u.sort_title == "unknown title"@
            &&& !blank(u.artist) ==> u.sort_artist == lower(trim(u.artist))
            &&& blank(u.artist) ==> u.sort_artist == "unknown artist"@
            &&& !blank(u.album) ==> u.sort_album == lower(trim(u.album))
            &&& blank(u.album) ==> u.sort_album == "unknown album"@
        }),
        ({
            let u = update_of(target, None, started);
            &&& u.title == fallback_title(target.path)
            &&& u.artist == "Unknown Artist"@
            &&& u.album == "Unknown Album"@
            &&& u.album_artist == "Unknown Artist"@
            &&& u.genre.len() == 0
            &&& u.year.len() == 0
            &&& u.track_number.len() == 0
            &&& u.path == target.path
            &&& u.metadata_ready
        }),
{
}

/// A track for a playlist holds each of the file's tags under its own name, where it is not
/// empty, and the id and path that were asked for.
pub proof fn playlist_tracks_hold_their_tags(id: Seq<char>, path: Seq<char>, t: TagsView)
    ensures
        ({
            let track = playlist_track(id, path, Some(t));
            &&& track.id == id
            &&& track.path == path
            &&& t.title.len() > 0 ==> track.title == t.title
            &&& t.title.len() == 0 ==> track.title == fallback_title(path)
            &&& t.artist.len() > 0 ==> track.artist == t.artist
            &&& t.artist.len() == 0 ==> track.artist == "Unknown Artist"@
            &&& t.album.len() > 0 ==> track.album == t.album
            &&& t.album.len() == 0 ==> track.album == "Unknown Album"@
            &&& t.album_artist.len() > 0 ==> track.album_artist == t.album_artist
            &&& t.album_artist.len() == 0 ==> track.album_artist == track.artist
            &&& track.genre == t.genre
            &&& track.year == t.year
            &&& track.track_number == t.track_number
        }),
{
}

/// Until its tags are read, a file is listed by its name, with its own id, path, time and size.
pub proof fn new_files_are_listed_by_name(file: FileView, started: i64)
    ensures
        ({
            let s = stub_of(file, started);
            &&& s.song_id == file.track_id
            &&& s.path == file.path
            &&& s.title == fallback_title(file.path)
            &&& s.artist == "Unknown Artist"@
            &&& s.album == "Unknown Album"@
            &&& s.album_artist == "Unknown Artist"@
            &&& s.genre.len() == 0
            &&& s.year.len() == 0
            &&& s.track_number.len() == 0
            &&& !blank(s.title) ==> s.sort_title == lower(trim(s.title))
            &&& s.modified_unix_ms == file.modified_unix_ms
            &&& s.file_size_bytes == file.file_size_bytes
            &&& !s.metadata_ready
            &&& s.last_scanned_unix_ms == started
        }),
{
}

/// The title made from a path is the file's name up to its last dot, unless that is blank or
/// begins the name.
pub proof fn titles_are_made_from_names(path: Seq<char>, name: Seq<char>)
    requires
        file_name(path) == Some(name),
    ensures
        last_of(name, '.') > 0 && !blank(name.take(last_of(name, '.'))) ==> fallback_title(path)
            == name.take(last_of(name, '.')),
        last_of(name, '.') <= 0 && !blank(name) ==> fallback_title(path) == name,
        last_of(name, '.') > 0 && blank(name.take(last_of(name, '.'))) ==> fallback_title(path)
            == "Unknown Title"@,
{
}

/// A file is taken up exactly where its name ends in a dot and one of seven endings, in any
/// case. Directories are walked into; what is neither is passed over.
pub proof fn audio_files_are_found(w: WalkView, path: Seq<char>, name: Seq<char>)
    requires
        file_name(path) == Some(name),
    ensures
        walk_entry(w, path, EntryKind::Directory).pending == w.pending.push(path),
        walk_entry(w, path, EntryKind::Directory).found == w.found,
        walk_entry(w, path, EntryKind::Other) == w,
        walk_entry(w, path, EntryKind::File).pending == w.pending,
        ({
            let ending = lower(name.skip(last_of(name, '.') + 1));
            let audio = last_of(name, '.') > 0 && (ending == "mp3"@ || ending == "wav"@ || ending
                == "ogg"@ || ending == "flac"@ || ending == "aac"@ || ending == "m4a"@ || ending
                == "mp4"@);
            &&& audio ==> walk_entry(w, path, EntryKind::File).found == w.found.push(path)
            &&& !audio ==> walk_entry(w, path, EntryKind::File).found == w.found
        }),
{
    let ending = lower(name.skip(last_of(name, '.') + 1));
    let all = audio_extensions();
    assert(all[0] == "mp3"@ && all[1] == "wav"@ && all[2] == "ogg"@ && all[3] == "flac"@ && all[4]
        == "aac"@ && all[5] == "m4a"@ && all[6] == "mp4"@);
    assert(all.len() == 7);
}

/// Each file counts once as discovered. It is kept; a known one counts as indexed at once, and
/// a changed one waits for its stub to be stored and its tags to be read.
pub proof fn files_are_counted(s: RunView, file: FileView)
    requires
        s.discovered < usize::MAX,
        s.indexed < usize::MAX,
    ensures
        ({
            let (next, step) = on_file(s, file);
            &&& next.discovered == s.discovered + 1
            &&& next.kept.contains(file.path)
            &&& forall|p: Seq<char>| s.kept.contains(p) ==> #[trigger] next.kept.contains(p)
            &&& !needs_metadata(s.known, file) ==> next.indexed == s.indexed + 1 && next.stubs
                == s.stubs && next.targets == s.targets
            &&& needs_metadata(s.known, file) ==> next.indexed == s.indexed && next.stubs
                == s.stubs.push(stub_of(file, s.started)) && next.targets.len()
                == s.targets.len() + 1 && next.targets.last().path == file.path
            &&& step.next == ScanNext::StoreStubs <==> needs_metadata(s.known, file)
                && s.stubs.len() + 1 >= 256
            &&& step.next == ScanNext::StoreStubs || step.next == ScanNext::File
            &&& step.next == ScanNext::File && (s.discovered + 1) % 256 == 0
                ==> step.reports.len() == 1 && step.reports[0] == (ReportView::Progress {
                discovered: next.discovered,
                indexed: next.indexed,
                metadata_pending: next.targets.len(),
            })
            &&& (s.discovered + 1) % 256 != 0 ==> step.reports.len() == 0
            &&& step.pause ==> s.playback
            &&& step.next == ScanNext::File && s.playback && (s.discovered + 1) % 96 == 0
                ==> step.pause
        }),
{
    let (next, step) = on_file(s, file);
    assert(next.kept.contains(file.path)) by {
        if !s.kept.contains(file.path) {
            assert(next.kept[s.kept.len() as int] == file.path);
        }
    }
    assert forall|p: Seq<char>| s.kept.contains(p) implies #[trigger] next.kept.contains(p) by {
        let i = choose|i: int| 0 <= i < s.kept.len() && s.kept[i] == p;
        assert(next.kept[i] == p);
    }
}

/// Stored stubs count as indexed; and only after the last of them is what is gone pruned.
pub proof fn stored_stubs_are_indexed(s: RunView)
    requires
        s.indexed + s.stubs.len() <= usize::MAX,
    ensures
        s.phase == ScanPhase::StoringStubs ==> on_stubs_stored(s, Ok(())).0.indexed == s.indexed
            + s.stubs.len() && on_stubs_stored(s, Ok(())).1.next == ScanNext::File,
        s.phase != ScanPhase::StoringStubs ==> on_stubs_stored(s, Ok(())).1.next
            == ScanNext::Prune,
        on_stubs_stored(s, Ok(())).0.stubs.len() == 0,
        on_stubs_stored(s, Ok(())).0.targets == s.targets,
        s.stubs.len() > 0 ==> on_last_file(s).1.next == ScanNext::StoreStubs,
        s.stubs.len() == 0 ==> on_last_file(s).1.next == ScanNext::Prune,
{
}

/// Once what is gone is pruned, the number of kept files is told; then tags are read for each
/// target, in order, and the scan ends when none is left.
pub proof fn tags_follow_the_pruning(s: RunView, error: Seq<char>)
    requires
        s.updates.len() == 0,
        s.next_target == 0,
    ensures
        on_pruned(s, Ok(())).1.reports.len() > 0,
        on_pruned(s, Ok(())).1.reports[0] == (ReportView::Completed {
            indexed_tracks: s.kept.len(),
        }),
        s.targets.len() > 0 ==> on_pruned(s, Ok(())).1.next == ScanNext::ReadTags,
        s.targets.len() == 0 ==> on_pruned(s, Ok(())).1.next == ScanNext::Finish,
        on_pruned(s, Err(error)).1.next == ScanNext::Finish,
        on_pruned(s, Err(error)).1.reports.len() == 1,
        on_pruned(s, Err(error)).1.reports[0] == ReportView::Failed(
            "Failed to prune removed library files: "@ + error,
        ),
{
}

/// A failed store ends the scan, with the number of rows and the error told.
pub proof fn failed_stores_end_the_scan(s: RunView, error: Seq<char>)
    ensures
        on_stubs_stored(s, Err(error)).1.next == ScanNext::Finish,
        on_updates_stored(s, Err(error)).1.next == ScanNext::Finish,
        s.phase == ScanPhase::StoringStubs ==> on_stubs_stored(s, Err(error)).1.reports == seq![
            ReportView::Failed(
                "Failed to upsert scan batch"@ + " ("@ + decimal(s.stubs.len()) + " rows): "@
                    + error,
            ),
        ],
        s.phase == ScanPhase::StoringLastStubs ==> on_stubs_stored(s, Err(error)).1.reports
            == seq![
            ReportView::Failed(
                "Failed to upsert final scan batch"@ + " ("@ + decimal(s.stubs.len())
                    + " rows): "@ + error,
            ),
        ],
        s.phase == ScanPhase::StoringUpdates ==> on_updates_stored(s, Err(error)).1.reports
            == seq![
            ReportView::Failed(
                "Failed metadata backfill batch"@ + " ("@ + decimal(s.updates.len())
                    + " rows): "@ + error,
            ),
        ],
        s.phase == ScanPhase::StoringLastUpdates ==> on_updates_stored(s, Err(error)).1.reports
            == seq![
            ReportView::Failed(
                "Failed final metadata backfill batch"@ + " ("@ + decimal(s.updates.len())
                    + " rows): "@ + error,
            ),
        ],
{
}

/// What was stored counts as updated, and what is left is told with it.
pub proof fn stored_updates_are_told(s: RunView)
    requires
        s.phase == ScanPhase::StoringUpdates,
        s.updated + s.updates.len() <= s.targets.len() <= usize::MAX,
    ensures
        on_updates_stored(s, Ok(())).0.updated == s.updated + s.updates.len(),
        on_updates_stored(s, Ok(())).0.updates.len() == 0,
        on_updates_stored(s, Ok(())).1.reports.len() > 0,
        on_updates_stored(s, Ok(())).1.reports[0] == (ReportView::MetadataProgress {
            updated: (s.updated + s.updates.len()) as usize,
            remaining: (s.targets.len() - s.updated - s.updates.len()) as nat,
        }),
{
}

/// What is known of a path is what its last row says.
pub proof fn the_last_row_counts(
    rows: Seq<(String, LibraryScanState)>,
    row: (String, LibraryScanState),
    path: Seq<char>,
)
    ensures
        states_map(rows.push(row)).contains_key(row.0@),
        states_map(rows.push(row))[row.0@] == row.1,
        path != row.0@ ==> (states_map(rows.push(row)).contains_key(path) <==> states_map(
            rows,
        ).contains_key(path)) && (states_map(rows).contains_key(path) ==> states_map(
            rows.push(row),
        )[path] == states_map(rows)[path]),
        states_map(Seq::empty()) == Map::<Seq<char>, LibraryScanState>::empty(),
{
    assert(rows.push(row).drop_last() =~= rows);
}

/// Found paths are gone through in the order of paths, each as often as it was found.
pub proof fn paths_are_gone_through_in_order(paths: Seq<Seq<char>>, i: int, j: int)
    ensures
        sorted_paths(paths).to_multiset() == paths.to_multiset(),
        sorted_paths(paths).len() == paths.len(),
        0 <= i < j < sorted_paths(paths).len() ==> !key_less(
            path_key(sorted_paths(paths)[j]),
            path_key(sorted_paths(paths)[i]),
        ),
{
    let keys = crate::library::scan::path_keys();
    sorting_keeps_the_items(paths, keys);
    if 0 <= i < j < sorted_paths(paths).len() {
        let all = sorted_paths(paths).map_values(keys);
        assert(!key_less(all[j], all[i]));
    }
}

/// Only reports of progress may be dropped.
pub proof fn results_are_never_dropped(report: ReportView)
    ensures
        report is Completed ==> !droppable(report),
        report is Failed ==> !droppable(report),
        report is Progress ==> droppable(report),
        report is MetadataProgress ==> droppable(report),
{
}

} // verus!
