//! Laws of paths: what a file's name is, and when two paths are the same.

use crate::library::paths::{
    extension, fallback_title, file_name, kept_pieces, path_identity, path_parts, small_extension,
    stem, supported_audio_file,
};
use crate::text::{blank, first_of, last_of, lower, pieces};
use crate::text_laws::{first_places_come_first, last_places_come_last};
use vstd::prelude::*;

verus! {

/// Cutting two texts that are joined by a separator gives the pieces of the one and then those
/// of the other.
pub proof fn joined_texts_keep_their_pieces(a: Seq<char>, b: Seq<char>, c: char)
    ensures
        pieces(a + seq![c] + b, c) == pieces(a, c) + pieces(b, c),
    decreases a.len(),
{
    first_places_come_first(a, c);
    let whole = a + seq![c] + b;
    first_places_come_first(whole, c);
    let i = first_of(a, c) as int;
    let w = first_of(whole, c) as int;
    assert(w == i) by {
        if w < i {
            assert(whole[w] == a[w]);
        } else if w > i {
            if i < a.len() {
                assert(whole[i] == a[i]);
            } else {
                assert(whole[i] == c);
            }
        }
    }
    if i >= a.len() {
        assert(whole.take(i) =~= a);
        assert(whole.skip(i + 1) =~= b);
        assert(pieces(a, c) =~= seq![a]);
        assert(pieces(whole, c) =~= pieces(a, c) + pieces(b, c));
    } else {
        let rest = a.skip(i + 1);
        joined_texts_keep_their_pieces(rest, b, c);
        assert(whole.take(i) =~= a.take(i));
        assert(whole.skip(i + 1) =~= rest + seq![c] + b);
        assert(pieces(whole, c) =~= pieces(a, c) + pieces(b, c));
    }
}

/// The name of a file in a folder is the name.
pub proof fn files_have_their_name(folder: Seq<char>, name: Seq<char>)
    requires
        name.len() > 0,
        name != seq!['.'],
        name != seq!['.', '.'],
        forall|i: int| 0 <= i < name.len() ==> #[trigger] name[i] != '/',
    ensures
        file_name(folder + seq!['/'] + name) == Some(name),
{
    let path = folder + seq!['/'] + name;
    joined_texts_keep_their_pieces(folder, name, '/');
    first_places_come_first(name, '/');
    assert(pieces(name, '/') =~= seq![name]);
    let all = pieces(path, '/');
    assert(all == pieces(folder, '/') + seq![name]);
    assert(all.last() == name);
    let rooted = crate::library::paths::rooted(path);
    let kept = kept_pieces(all, rooted, all.len());
    let before = kept_pieces(all, rooted, (all.len() - 1) as nat);
    assert(all[all.len() - 1] == name);
    assert(kept == before.push(name));
    assert(path_parts(path).last() == name);
    assert(name != seq!['/']) by {
        if name == seq!['/'] {
            assert(name[0] == '/');
        }
    }
}

/// A name is cut at its last dot into what it is called and its ending.
pub proof fn names_are_cut_at_the_last_dot(called: Seq<char>, ending: Seq<char>)
    requires
        called.len() > 0,
        forall|i: int| 0 <= i < ending.len() ==> #[trigger] ending[i] != '.',
    ensures
        stem(called + seq!['.'] + ending) == called,
        extension(called + seq!['.'] + ending) == Some(ending),
{
    let name = called + seq!['.'] + ending;
    last_places_come_last(name, '.');
    let at = last_of(name, '.');
    assert(name[called.len() as int] == '.');
    if at > called.len() {
        assert(name[at] == ending[at - called.len() - 1]);
    }
    assert(at == called.len());
    assert(name.take(at) =~= called);
    assert(name.skip(at + 1) =~= ending);
}

/// A file is an audio file exactly where it has one of seven endings, in any case; its title
/// is what stands before the ending.
pub proof fn audio_files_have_their_ending(folder: Seq<char>, called: Seq<char>, ending: Seq<char>)
    requires
        called.len() > 0,
        forall|i: int| 0 <= i < called.len() ==> #[trigger] called[i] != '/',
        forall|i: int| 0 <= i < ending.len() ==> #[trigger] ending[i] != '.' && ending[i] != '/',
        ending.len() > 0,
    ensures
        ({
            let path = folder + seq!['/'] + (called + seq!['.'] + ending);
            &&& supported_audio_file(path) <==> (lower(ending) == "mp3"@ || lower(ending)
                == "wav"@ || lower(ending) == "ogg"@ || lower(ending) == "flac"@ || lower(ending)
                == "aac"@ || lower(ending) == "m4a"@ || lower(ending) == "mp4"@)
            &&& small_extension(path) == Some(lower(ending))
            &&& !blank(called) ==> fallback_title(path) == called
            &&& blank(called) ==> fallback_title(path) == "Unknown Title"@
        }),
{
    let name = called + seq!['.'] + ending;
    assert(name.len() >= 3);
    assert forall|i: int| 0 <= i < name.len() implies #[trigger] name[i] != '/' by {
        if i < called.len() {
            assert(name[i] == called[i]);
        } else if i > called.len() {
            assert(name[i] == ending[i - called.len() - 1]);
        }
    }
    files_have_their_name(folder, name);
    names_are_cut_at_the_last_dot(called, ending);
    let all = crate::library::paths::audio_extensions();
    assert(all[0] == "mp3"@ && all[1] == "wav"@ && all[2] == "ogg"@ && all[3] == "flac"@ && all[4]
        == "aac"@ && all[5] == "m4a"@ && all[6] == "mp4"@);
    assert(all.len() == 7);
}

/// A slash at the end of a path does not make it another one.
pub proof fn end_slashes_do_not_count(path: Seq<char>)
    requires
        path.len() > 0,
    ensures
        path_identity(path.push('/')) == path_identity(path),
        path_parts(path.push('/')) == path_parts(path),
{
    let longer = path.push('/');
    let empty = Seq::<char>::empty();
    assert(longer =~= path + seq!['/'] + empty);
    joined_texts_keep_their_pieces(path, empty, '/');
    assert(pieces(empty, '/') =~= seq![empty]);
    let all = pieces(path, '/');
    let more = pieces(longer, '/');
    assert(more == all.push(empty));
    let rooted = crate::library::paths::rooted(path);
    lemma_same_kept(all, more, rooted, all.len());
    assert(kept_pieces(more, rooted, more.len()) == kept_pieces(more, rooted, all.len()));
}

proof fn lemma_same_kept(a: Seq<Seq<char>>, b: Seq<Seq<char>>, rooted: bool, n: nat)
    requires
        n <= a.len() <= b.len(),
        forall|i: int| 0 <= i < a.len() ==> #[trigger] a[i] == b[i],
    ensures
        kept_pieces(a, rooted, n) == kept_pieces(b, rooted, n),
    decreases n,
{
    if n > 0 {
        lemma_same_kept(a, b, rooted, (n - 1) as nat);
        assert(a[n - 1] == b[n - 1]);
    }
}

} // verus!
