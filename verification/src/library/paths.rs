//! Paths of tracks: texts whose parts stand between slashes.

use crate::library::order::text_part;
use crate::text::{
    append_chars, char_texts, chars_equal, chars_of, copy_range, find_last_char, is_blank,
    last_of, lower, lower_chars, owned, pieces, split_pieces, string_of, blank,
};
use vstd::prelude::*;

verus! {

/// A path that starts at the root.
pub open spec fn rooted(path: Seq<char>) -> bool {
    path.len() > 0 && path[0] == '/'
}

/// The parts among the first `n` pieces that count: empty pieces and single dots do not,
/// except a dot at the start of a path that is not rooted.
pub open spec fn kept_pieces(all: Seq<Seq<char>>, from_root: bool, n: nat) -> Seq<Seq<char>>
    decreases n,
{
    if n == 0 || n > all.len() {
        Seq::empty()
    } else {
        let before = kept_pieces(all, from_root, (n - 1) as nat);
        let piece = all[n - 1];
        if piece.len() == 0 || (piece == seq!['.'] && !(n == 1 && !from_root)) {
            before
        } else {
            before.push(piece)
        }
    }
}

/// The parts of a path; the root is a part of its own.
pub open spec fn path_parts(path: Seq<char>) -> Seq<Seq<char>> {
    let all = pieces(path, '/');
    let kept = kept_pieces(all, rooted(path), all.len());
    if rooted(path) {
        seq![seq!['/']] + kept
    } else {
        kept
    }
}

/// Parts with a slash behind each.
pub open spec fn slashed(parts: Seq<Seq<char>>) -> Seq<char>
    decreases parts.len(),
{
    if parts.len() == 0 {
        Seq::empty()
    } else {
        slashed(parts.drop_last()) + parts.last() + seq!['/']
    }
}

/// A text that paths with the same parts have in common.
pub open spec fn path_identity(path: Seq<char>) -> Seq<char> {
    slashed(path_parts(path))
}

/// The part of a sort key that stands for a part of a path: the root comes first, then a dot,
/// then two dots, then names.
pub open spec fn component_part(component: Seq<char>) -> Seq<u32> {
    if component == seq!['/'] {
        seq![1u32]
    } else if component == seq!['.'] {
        seq![2u32]
    } else if component == seq!['.', '.'] {
        seq![3u32]
    } else {
        seq![4u32] + text_part(component)
    }
}

/// The sort key of a path.
pub open spec fn path_key(path: Seq<char>) -> Seq<Seq<u32>> {
    path_parts(path).map_values(|c: Seq<char>| component_part(c))
}

/// The last part of a path, if it is a name.
pub open spec fn file_name(path: Seq<char>) -> Option<Seq<char>> {
    let parts = path_parts(path);
    if parts.len() == 0 || component_part(parts.last())[0] != 4 {
        None
    } else {
        Some(parts.last())
    }
}

/// A file name without what stands behind its last dot; a dot in front does not count.
pub open spec fn stem(name: Seq<char>) -> Seq<char> {
    if last_of(name, '.') <= 0 {
        name
    } else {
        name.take(last_of(name, '.'))
    }
}

/// What stands behind the last dot of a file name.
pub open spec fn extension(name: Seq<char>) -> Option<Seq<char>> {
    if last_of(name, '.') <= 0 {
        None
    } else {
        Some(name.skip(last_of(name, '.') + 1))
    }
}

/// The extensions of the files that can be played.
pub open spec fn audio_extensions() -> Seq<Seq<char>> {
    seq!["mp3"@, "wav"@, "ogg"@, "flac"@, "aac"@, "m4a"@, "mp4"@]
}

pub open spec fn supported_audio_file(path: Seq<char>) -> bool {
    match file_name(path) {
        Some(name) => match extension(name) {
            Some(ending) => audio_extensions().contains(lower(ending)),
            None => false,
        },
        None => false,
    }
}

/// The title of a file without a title of its own.
pub open spec fn fallback_title(path: Seq<char>) -> Seq<char> {
    match file_name(path) {
        Some(name) => if blank(stem(name)) {
            "Unknown Title"@
        } else {
            stem(name)
        },
        None => "Unknown Title"@,
    }
}

fn kept_pieces_of(all: &Vec<Vec<char>>, from_root: bool) -> (r: Vec<Vec<char>>)
    ensures
        char_texts(r@) == kept_pieces(char_texts(all@), from_root, all.len() as nat),
{
    let ghost texts = char_texts(all@);
    let mut out: Vec<Vec<char>> = Vec::new();
    let mut n: usize = 0;
    assert(char_texts(out@) =~= Seq::empty());
    while n < all.len()
        invariant
            n <= all.len(),
            texts == char_texts(all@),
            char_texts(out@) == kept_pieces(texts, from_root, n as nat),
        decreases all.len() - n,
    {
        let piece = &all[n];
        assert(texts[n as int] == piece@);
        let dot = piece.len() == 1 && piece[0] == '.';
        assert(dot == (piece@ == seq!['.'])) by {
            if dot {
                assert(piece@ =~= seq!['.']);
            }
        }
        if !(piece.len() == 0 || (dot && !(n == 0 && !from_root))) {
            let copy = copy_range(piece, 0, piece.len());
            assert(copy@ =~= piece@);
            assert(char_texts(out@.push(copy)) =~= char_texts(out@).push(piece@));
            out.push(copy);
        }
        n += 1;
    }
    out
}

/// The parts of a path.
pub fn split_path(path: &Vec<char>) -> (r: Vec<Vec<char>>)
    ensures
        char_texts(r@) == path_parts(path@),
{
    let from_root = path.len() > 0 && path[0] == '/';
    let all = split_pieces(path, '/');
    let kept = kept_pieces_of(&all, from_root);
    if !from_root {
        return kept;
    }
    let mut root: Vec<char> = Vec::new();
    root.push('/');
    assert(root@ =~= seq!['/']);
    let mut out: Vec<Vec<char>> = Vec::new();
    out.push(root);
    let mut i: usize = 0;
    while i < kept.len()
        invariant
            i <= kept.len(),
            out.len() == i + 1,
            out@[0]@ == seq!['/'],
            forall|k: int| 0 <= k < i ==> (#[trigger] out@[k + 1])@ == kept@[k]@,
        decreases kept.len() - i,
    {
        let copy = copy_range(&kept[i], 0, kept[i].len());
        assert(copy@ =~= kept@[i as int]@);
        out.push(copy);
        i += 1;
    }
    proof {
        let whole = seq![seq!['/']] + char_texts(kept@);
        assert(char_texts(out@).len() == whole.len());
        assert forall|k: int| 0 <= k < whole.len() implies char_texts(out@)[k] == whole[k] by {
            if k > 0 {
                assert(out@[(k - 1) + 1]@ == kept@[k - 1]@);
            }
        }
        assert(char_texts(out@) =~= whole);
    }
    out
}

/// A text that paths with the same parts have in common.
pub fn path_identity_of(path: &str) -> (r: String)
    ensures
        r@ == path_identity(path@),
{
    let parts = split_path(&chars_of(path));
    let ghost all = char_texts(parts@);
    let mut out: Vec<char> = Vec::new();
    let mut i: usize = 0;
    assert(out@ =~= slashed(all.take(0)));
    while i < parts.len()
        invariant
            i <= parts.len(),
            all == char_texts(parts@),
            out@ == slashed(all.take(i as int)),
        decreases parts.len() - i,
    {
        proof {
            assert(all.take(i + 1).drop_last() =~= all.take(i as int));
            assert(all.take(i + 1).last() == parts@[i as int]@);
        }
        append_chars(&mut out, &parts[i]);
        let ghost before = out@;
        out.push('/');
        assert(out@ =~= before + seq!['/']);
        i += 1;
    }
    assert(all.take(parts.len() as int) =~= all);
    string_of(&out)
}

fn component_part_of(component: &Vec<char>) -> (r: Vec<u32>)
    ensures
        r@ == component_part(component@),
{
    let mut out: Vec<u32> = Vec::new();
    if component.len() == 1 && component[0] == '/' {
        assert(component@ =~= seq!['/']);
        out.push(1);
        assert(out@ =~= seq![1u32]);
        return out;
    }
    if component.len() == 1 && component[0] == '.' {
        assert(component@ =~= seq!['.']);
        out.push(2);
        assert(out@ =~= seq![2u32]);
        return out;
    }
    if component.len() == 2 && component[0] == '.' && component[1] == '.' {
        assert(component@ =~= seq!['.', '.']);
        out.push(3);
        assert(out@ =~= seq![3u32]);
        return out;
    }
    out.push(4);
    let mut i: usize = 0;
    while i < component.len()
        invariant
            i <= component.len(),
            out.len() == i + 1,
            out@[0] == 4,
            forall|k: int| 0 <= k < i ==> out@[k + 1] == component@[k] as u32,
        decreases component.len() - i,
    {
        out.push(component[i] as u32);
        i += 1;
    }
    proof {
        let whole = seq![4u32] + text_part(component@);
        assert forall|k: int| 0 <= k < whole.len() implies out@[k] == whole[k] by {
            if k > 0 {
                assert(out@[(k - 1) + 1] == component@[k - 1] as u32);
            }
        }
        assert(out@ =~= whole);
        assert(component@ != seq!['/']) by {
            if component@ == seq!['/'] {
                assert(component@.len() == 1 && component@[0] == '/');
            }
        }
        assert(component@ != seq!['.']) by {
            if component@ == seq!['.'] {
                assert(component@.len() == 1 && component@[0] == '.');
            }
        }
        assert(component@ != seq!['.', '.']) by {
            if component@ == seq!['.', '.'] {
                assert(component@.len() == 2 && component@[0] == '.' && component@[1] == '.');
            }
        }
    }
    out
}

/// Appends the sort key of a path to a sort key.
pub fn push_path_key(key: &mut Vec<Vec<u32>>, path: &str)
    ensures
        crate::library::order::key_view(final(key)@) == crate::library::order::key_view(old(key)@)
            + path_key(path@),
{
    let parts = split_path(&chars_of(path));
    let ghost all = char_texts(parts@);
    let ghost start = crate::library::order::key_view(key@);
    let mut i: usize = 0;
    assert(path_key(path@).take(0) =~= Seq::empty());
    assert(start =~= start + path_key(path@).take(0));
    while i < parts.len()
        invariant
            i <= parts.len(),
            all == char_texts(parts@),
            all == path_parts(path@),
            start == crate::library::order::key_view(old(key)@),
            crate::library::order::key_view(key@) == start + path_key(path@).take(i as int),
        decreases parts.len() - i,
    {
        let part = component_part_of(&parts[i]);
        proof {
            let whole = path_key(path@);
            assert(whole[i as int] == component_part(all[i as int]));
            assert(all[i as int] == parts@[i as int]@);
            assert(crate::library::order::key_view(key@.push(part))
                =~= crate::library::order::key_view(key@).push(part@));
            assert(start + whole.take(i + 1) =~= (start + whole.take(i as int)).push(
                whole[i as int],
            ));
        }
        key.push(part);
        i += 1;
    }
    assert(path_key(path@).take(parts.len() as int) =~= path_key(path@));
}

fn file_name_of(path: &str) -> (r: Option<Vec<char>>)
    ensures
        match r {
            Some(name) => file_name(path@) == Some(name@),
            None => file_name(path@) is None,
        },
{
    let mut parts = split_path(&chars_of(path));
    let ghost all = char_texts(parts@);
    if parts.len() == 0 {
        return None;
    }
    let last = parts.pop().unwrap();
    assert(all.last() == last@);
    let part = component_part_of(&last);
    if part[0] != 4 {
        return None;
    }
    Some(last)
}

/// The extension of the file that a path names, in small letters.
pub open spec fn small_extension(path: Seq<char>) -> Option<Seq<char>> {
    match file_name(path) {
        Some(name) => match extension(name) {
            Some(ending) => Some(lower(ending)),
            None => None,
        },
        None => None,
    }
}

/// The extension of the file that a path names, in small letters.
pub fn small_extension_of(path: &str) -> (r: Option<Vec<char>>)
    ensures
        (match r {
            Some(ending) => Some(ending@),
            None => None,
        }) == small_extension(path@),
{
    let name = match file_name_of(path) {
        Some(name) => name,
        None => {
            return None;
        },
    };
    match find_last_char(&name, '.') {
        Some(dot) => {
            if dot == 0 {
                None
            } else {
                let ending = copy_range(&name, dot + 1, name.len());
                assert(ending@ =~= name@.skip(dot + 1));
                Some(lower_chars(&ending))
            }
        },
        None => None,
    }
}

/// Whether a path names a file that can be played.
pub fn is_supported_audio_file(path: &str) -> (r: bool)
    ensures
        r == supported_audio_file(path@),
{
    let low = match small_extension_of(path) {
        Some(low) => low,
        None => {
            return false;
        },
    };
    let known: [&'static str; 7] = ["mp3", "wav", "ogg", "flac", "aac", "m4a", "mp4"];
    let ghost all = audio_extensions();
    let mut i: usize = 0;
    while i < 7
        invariant
            i <= 7,
            supported_audio_file(path@) == all.contains(low@),
            all.len() == 7,
            known@.len() == 7,
            forall|k: int| 0 <= k < 7 ==> (#[trigger] known@[k])@ == all[k],
            forall|k: int| 0 <= k < i ==> #[trigger] all[k] != low@,
        decreases 7 - i,
    {
        if chars_equal(&chars_of(known[i]), &low) {
            assert(all[i as int] == low@);
            assert(all.contains(low@));
            return true;
        }
        i += 1;
    }
    assert(!all.contains(low@));
    false
}

/// The title of a file without a title of its own.
pub fn fallback_title_from_path(path: &str) -> (r: String)
    ensures
        r@ == fallback_title(path@),
{
    let name = match file_name_of(path) {
        Some(name) => name,
        None => {
            return owned("Unknown Title");
        },
    };
    let title = match find_last_char(&name, '.') {
        Some(dot) => {
            if dot == 0 {
                string_of(&name)
            } else {
                let front = copy_range(&name, 0, dot);
                assert(front@ =~= name@.take(dot as int));
                string_of(&front)
            }
        },
        None => string_of(&name),
    };
    if is_blank(&title) {
        owned("Unknown Title")
    } else {
        title
    }
}

} // verus!
