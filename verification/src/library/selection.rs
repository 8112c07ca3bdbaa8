//! What a selection in the library stands for, and what is done with it.

use crate::library::catalog::{
    album_tracks, artist_tracks, decade_tracks, firsts, genre_tracks, lemma_firsts, tracks_for_album_detail,
    tracks_for_artist_detail, tracks_for_decade_detail, tracks_for_genre_detail,
};
use crate::library::pages::tracks_or_error;
use crate::protocol::{views, LibrarySelectionSpec, LibraryTrack, TrackView};
use crate::text::{append, owned, texts};
use vstd::hash_set::StringHashSet;
use vstd::prelude::*;

verus! {

pub open spec fn path_of() -> spec_fn(TrackView) -> Seq<char> {
    |t: TrackView| t.path
}

/// The paths that one selected item stands for.
pub open spec fn item_paths(item: LibrarySelectionSpec, tracks: Seq<TrackView>) -> Seq<Seq<char>> {
    match item {
        LibrarySelectionSpec::Track { path } => seq![path@],
        LibrarySelectionSpec::Artist { artist } => artist_tracks(tracks, artist@).map_values(
            path_of(),
        ),
        LibrarySelectionSpec::Album { album, album_artist } => album_tracks(
            tracks,
            album@,
            album_artist@,
        ).map_values(path_of()),
        LibrarySelectionSpec::Genre { genre } => genre_tracks(tracks, genre@).map_values(path_of()),
        LibrarySelectionSpec::Decade { decade } => decade_tracks(tracks, decade@).map_values(
            path_of(),
        ),
    }
}

/// The paths that the selected items stand for, item by item.
pub open spec fn all_item_paths(
    items: Seq<LibrarySelectionSpec>,
    tracks: Seq<TrackView>,
) -> Seq<Seq<char>>
    decreases items.len(),
{
    if items.len() == 0 {
        Seq::empty()
    } else {
        all_item_paths(items.drop_last(), tracks) + item_paths(items.last(), tracks)
    }
}

/// The paths that a selection stands for, each once.
pub open spec fn selected_paths(
    items: Seq<LibrarySelectionSpec>,
    tracks: Seq<TrackView>,
) -> Seq<Seq<char>> {
    firsts(all_item_paths(items, tracks))
}

fn add_path(paths: &mut Vec<String>, seen: &mut StringHashSet, path: &String, front: Ghost<
    Seq<Seq<char>>,
>)
    requires
        texts(old(paths)@) == firsts(front@),
        forall|p: Seq<char>| #[trigger]
            old(seen)@.contains(p) <==> texts(old(paths)@).contains(p),
    ensures
        texts(final(paths)@) == firsts(front@.push(path@)),
        forall|p: Seq<char>| #[trigger]
            final(seen)@.contains(p) <==> texts(final(paths)@).contains(p),
{
    let ghost before = texts(paths@);
    let ghost known = seen@;
    assert(front@.push(path@).drop_last() =~= front@);
    if seen.insert(path.clone()) {
        paths.push(path.clone());
        proof {
            let now = texts(paths@);
            assert(now =~= before.push(path@));
            assert forall|p: Seq<char>| #[trigger] seen@.contains(p) <==> now.contains(p) by {
                if p == path@ {
                    assert(now[before.len() as int] == p);
                } else {
                    assert(seen@.contains(p) == known.contains(p));
                    if before.contains(p) {
                        assert(now[before.index_of(p)] == p);
                    }
                    if now.contains(p) {
                        assert(before[now.index_of(p)] == p);
                    }
                }
            }
        }
    } else {
        assert(seen@ =~= known);
    }
}

fn add_track_paths(
    paths: &mut Vec<String>,
    seen: &mut StringHashSet,
    tracks: &Vec<LibraryTrack>,
    front: Ghost<Seq<Seq<char>>>,
)
    requires
        texts(old(paths)@) == firsts(front@),
        forall|p: Seq<char>| #[trigger]
            old(seen)@.contains(p) <==> texts(old(paths)@).contains(p),
    ensures
        texts(final(paths)@) == firsts(
            front@ + views(tracks@).map_values(path_of()),
        ),
        forall|p: Seq<char>| #[trigger]
            final(seen)@.contains(p) <==> texts(final(paths)@).contains(p),
{
    let ghost back = views(tracks@).map_values(path_of());
    let mut i: usize = 0;
    assert(front@ + back.take(0) =~= front@);
    while i < tracks.len()
        invariant
            i <= tracks.len(),
            back == views(tracks@).map_values(path_of()),
            texts(paths@) == firsts(front@ + back.take(i as int)),
            forall|p: Seq<char>| #[trigger] seen@.contains(p) <==> texts(paths@).contains(p),
        decreases tracks.len() - i,
    {
        assert((front@ + back.take(i as int)).push(back[i as int]) =~= front@ + back.take(i + 1));
        assert(back[i as int] == tracks@[i as int].path@);
        add_path(paths, seen, &tracks[i].path, Ghost(front@ + back.take(i as int)));
        i += 1;
    }
    assert(back.take(i as int) =~= back);
}

/// The paths that a selection stands for, or why the library's tracks could not be loaded.
pub fn resolve_selection_paths(
    selections: &Vec<LibrarySelectionSpec>,
    tracks: Result<Vec<LibraryTrack>, String>,
) -> (r: Result<Vec<String>, String>)
    ensures
        match r {
            Ok(paths) => tracks is Ok && texts(paths@) == selected_paths(
                selections@,
                tracks_or_error(tracks)->Ok_0,
            ),
            Err(e) => tracks is Err && e@ == tracks_or_error(tracks)->Err_0,
        },
{
    let all = match tracks {
        Ok(t) => t,
        Err(e) => {
            return Err(e);
        },
    };
    let ghost library = views(all@);
    let mut paths: Vec<String> = Vec::new();
    let mut seen = StringHashSet::new();
    let mut i: usize = 0;
    assert(selections@.take(0) =~= Seq::empty());
    assert(texts(paths@) =~= Seq::empty());
    while i < selections.len()
        invariant
            i <= selections.len(),
            library == views(all@),
            texts(paths@) == selected_paths(selections@.take(i as int), library),
            forall|p: Seq<char>| #[trigger] seen@.contains(p) <==> texts(paths@).contains(p),
        decreases selections.len() - i,
    {
        let ghost front = all_item_paths(selections@.take(i as int), library);
        proof {
            assert(selections@.take(i + 1).drop_last() =~= selections@.take(i as int));
            assert(selections@.take(i + 1).last() == selections@[i as int]);
        }
        match &selections[i] {
            LibrarySelectionSpec::Track { path } => {
                assert(front.push(path@) =~= front + seq![path@]);
                add_path(&mut paths, &mut seen, path, Ghost(front));
            },
            LibrarySelectionSpec::Artist { artist } => {
                let found = tracks_for_artist_detail(&all, artist.as_str());
                add_track_paths(&mut paths, &mut seen, &found, Ghost(front));
            },
            LibrarySelectionSpec::Album { album, album_artist } => {
                let found = tracks_for_album_detail(&all, album.as_str(), album_artist.as_str());
                add_track_paths(&mut paths, &mut seen, &found, Ghost(front));
            },
            LibrarySelectionSpec::Genre { genre } => {
                let found = tracks_for_genre_detail(&all, genre.as_str());
                add_track_paths(&mut paths, &mut seen, &found, Ghost(front));
            },
            LibrarySelectionSpec::Decade { decade } => {
                let found = tracks_for_decade_detail(&all, decade.as_str());
                add_track_paths(&mut paths, &mut seen, &found, Ghost(front));
            },
        }
        i += 1;
    }
    assert(selections@.take(i as int) =~= selections@);
    Ok(paths)
}

/// What comes of a selection: the paths it stands for, or a message.
pub open spec fn selection_outcome(
    items: Seq<LibrarySelectionSpec>,
    tracks: Result<Seq<TrackView>, Seq<char>>,
) -> Result<Seq<Seq<char>>, Seq<char>> {
    if items.len() == 0 {
        Err("No library items selected"@)
    } else {
        match tracks {
            Err(e) => Err(e),
            Ok(t) => if selected_paths(items, t).len() == 0 {
                Err("No tracks matched the selected library items"@)
            } else {
                Ok(selected_paths(items, t))
            },
        }
    }
}

pub open spec fn paths_or_error(r: Result<Vec<String>, String>) -> Result<
    Seq<Seq<char>>,
    Seq<char>,
> {
    match r {
        Ok(paths) => Ok(texts(paths@)),
        Err(e) => Err(e@),
    }
}

/// The paths to paste into the active playlist or to take out of the library.
pub fn selection_paths(
    selections: &Vec<LibrarySelectionSpec>,
    tracks: Result<Vec<LibraryTrack>, String>,
) -> (r: Result<Vec<String>, String>)
    ensures
        paths_or_error(r) == selection_outcome(selections@, tracks_or_error(tracks)),
{
    if selections.len() == 0 {
        return Err(owned("No library items selected"));
    }
    match resolve_selection_paths(selections, tracks) {
        Err(e) => Err(e),
        Ok(paths) => {
            assert(texts(paths@).len() == paths.len());
            if paths.len() == 0 {
                Err(owned("No tracks matched the selected library items"))
            } else {
                Ok(paths)
            }
        },
    }
}

/// The paths to add to playlists: besides items, playlists must have been chosen.
pub open spec fn addition_outcome(
    items: Seq<LibrarySelectionSpec>,
    playlists: nat,
    tracks: Result<Seq<TrackView>, Seq<char>>,
) -> Result<Seq<Seq<char>>, Seq<char>> {
    if items.len() > 0 && playlists == 0 {
        Err("No target playlists selected"@)
    } else {
        selection_outcome(items, tracks)
    }
}

/// The paths to add to the chosen playlists.
pub fn addition_paths(
    selections: &Vec<LibrarySelectionSpec>,
    playlist_ids: &Vec<String>,
    tracks: Result<Vec<LibraryTrack>, String>,
) -> (r: Result<Vec<String>, String>)
    ensures
        paths_or_error(r) == addition_outcome(
            selections@,
            playlist_ids@.len(),
            tracks_or_error(tracks),
        ),
{
    if selections.len() > 0 && playlist_ids.len() == 0 {
        return Err(owned("No target playlists selected"));
    }
    selection_paths(selections, tracks)
}

/// What is said where the selected items could not be removed.
pub fn removal_failure(error: &str) -> (r: String)
    ensures
        r@ == "Failed to remove selected library items: "@ + error@,
{
    let mut message = owned("Failed to remove selected library items: ");
    append(&mut message, error);
    message
}

/// A selection stands for every path once.
pub proof fn selected_paths_differ(items: Seq<LibrarySelectionSpec>, tracks: Seq<TrackView>)
    ensures
        selected_paths(items, tracks).no_duplicates(),
        forall|p: Seq<char>|
            #![trigger selected_paths(items, tracks).contains(p)]
            #![trigger all_item_paths(items, tracks).contains(p)]
            selected_paths(items, tracks).contains(p) <==> all_item_paths(items, tracks).contains(
                p,
            ),
{
    lemma_firsts(all_item_paths(items, tracks));
}

} // verus!
