//! Track addresses of remote servers, written as URIs in place of file paths.

use crate::percent::{
    encoded_char, percent_decode, percent_decoded, percent_encode, percent_encoded,
};
use crate::text::{
    append, blank, char_texts, chars_equal, chars_occur_at, chars_of, copy_range, find_char,
    first_of, has_prefix, is_blank, lower, lower_chars, option_text, pieces, split_pieces,
    string_of, trim, trim_chars, trim_text,
};
use vstd::prelude::*;

verus! {

/// Decoded OpenSubsonic track locator encoded in a synthetic track path.
#[derive(Debug, PartialEq, Eq)]
pub struct OpenSubsonicTrackLocator {
    pub profile_id: String,
    pub song_id: String,
    pub endpoint: String,
    pub username: String,
    pub format_hint: Option<String>,
}

/// The contents of an [`OpenSubsonicTrackLocator`].
#[verifier::ext_equal]
pub struct LocatorView {
    pub profile_id: Seq<char>,
    pub song_id: Seq<char>,
    pub endpoint: Seq<char>,
    pub username: Seq<char>,
    pub format_hint: Option<Seq<char>>,
}

impl View for OpenSubsonicTrackLocator {
    type V = LocatorView;

    open spec fn view(&self) -> LocatorView {
        LocatorView {
            profile_id: self.profile_id@,
            song_id: self.song_id@,
            endpoint: self.endpoint@,
            username: self.username@,
            format_hint: option_text(self.format_hint),
        }
    }
}

/// Text without the slashes behind.
pub open spec fn drop_slashes(s: Seq<char>) -> Seq<char>
    decreases s.len(),
{
    if s.len() > 0 && s.last() == '/' {
        drop_slashes(s.drop_last())
    } else {
        s
    }
}

/// A server address as it is stored: trimmed, and without slashes behind.
pub open spec fn server_address(s: Seq<char>) -> Seq<char> {
    drop_slashes(trim(s))
}

/// What follows the scheme and host of a track address, whatever their case.
pub open spec fn after_scheme(raw: Seq<char>) -> Option<Seq<char>> {
    if has_prefix(lower(raw), "rtq://open_subsonic/"@) {
        Some(raw.skip("rtq://open_subsonic/"@.len() as int))
    } else if has_prefix(lower(raw), "rtq://opensubsonic/"@) {
        Some(raw.skip("rtq://opensubsonic/"@.len() as int))
    } else {
        None
    }
}

/// The text before the first `c`, and the text behind it if there is one.
pub open spec fn cut(s: Seq<char>, c: char) -> (Seq<char>, Option<Seq<char>>) {
    let i = first_of(s, c) as int;
    if i >= s.len() {
        (s, None)
    } else {
        (s.take(i), Some(s.skip(i + 1)))
    }
}

/// The values of a query that a track address uses.
#[verifier::ext_equal]
pub struct QueryView {
    pub endpoint: Seq<char>,
    pub username: Seq<char>,
    pub format_hint: Option<Seq<char>>,
}

pub open spec fn or_empty(s: Option<Seq<char>>) -> Seq<char> {
    match s {
        Some(t) => t,
        None => Seq::empty(),
    }
}

/// A query with one more `key=value` part read. Keys are case-insensitive and have other
/// spellings; an unknown key is ignored; a value that does not decode is taken as written.
pub open spec fn query_step(q: QueryView, part: Seq<char>) -> QueryView {
    let (raw_key, rest) = cut(part, '=');
    let key = lower(trim(raw_key));
    let raw_value = or_empty(rest);
    let value = match percent_decoded(raw_value) {
        Some(decoded) => decoded,
        None => raw_value,
    };
    if blank(part) {
        q
    } else if key == "endpoint"@ || key == "url"@ || key == "server"@ {
        QueryView { endpoint: server_address(value), ..q }
    } else if key == "username"@ || key == "user"@ || key == "u"@ {
        QueryView { username: trim(value), ..q }
    } else if (key == "format"@ || key == "suffix"@) && !blank(value) {
        QueryView { format_hint: Some(lower(trim(value))), ..q }
    } else {
        q
    }
}

pub open spec fn query_of(parts: Seq<Seq<char>>) -> QueryView
    decreases parts.len(),
{
    if parts.len() == 0 {
        QueryView { endpoint: Seq::empty(), username: Seq::empty(), format_hint: None }
    } else {
        query_step(query_of(parts.drop_last()), parts.last())
    }
}

/// The track that an address names; none for a text that is no track address.
pub open spec fn located(raw: Seq<char>) -> Option<LocatorView> {
    match after_scheme(raw) {
        None => None,
        Some(rest) => {
            let (path, query) = cut(rest, '?');
            let (profile, song) = cut(path, '/');
            let values = query_of(pieces(or_empty(query), '&'));
            if song is None {
                None
            } else {
                match (percent_decoded(profile), percent_decoded(song->Some_0)) {
                    (Some(profile_id), Some(song_id)) => {
                        if blank(profile_id) || blank(song_id) {
                            None
                        } else {
                            Some(
                                LocatorView {
                                    profile_id,
                                    song_id,
                                    endpoint: values.endpoint,
                                    username: values.username,
                                    format_hint: values.format_hint,
                                },
                            )
                        }
                    },
                    _ => None,
                }
            }
        },
    }
}

/// The address of a track.
pub open spec fn address(
    profile_id: Seq<char>,
    song_id: Seq<char>,
    endpoint: Seq<char>,
    username: Seq<char>,
    format_hint: Option<Seq<char>>,
) -> Seq<char> {
    let hint = trim(or_empty(format_hint));
    "rtq://open_subsonic/"@ + percent_encoded(profile_id) + "/"@ + percent_encoded(song_id) + "?"@
        + ("endpoint="@ + percent_encoded(server_address(endpoint)) + "&username="@
        + percent_encoded(trim(username)) + (if hint.len() == 0 {
        Seq::empty()
    } else {
        "&format="@ + percent_encoded(hint)
    }))
}

pub fn strip_trailing_slash(endpoint: &str) -> (r: String)
    ensures
        r@ == server_address(endpoint@),
{
    let v = trim_chars(&chars_of(endpoint));
    let mut to: usize = v.len();
    assert(v@.take(v.len() as int) =~= v@);
    while to > 0 && v[to - 1] == '/'
        invariant
            to <= v.len(),
            drop_slashes(v@) == drop_slashes(v@.take(to as int)),
        decreases to,
    {
        proof {
            assert(v@.take(to as int).drop_last() =~= v@.take(to - 1));
        }
        to -= 1;
    }
    let head = copy_range(&v, 0, to);
    assert(head@ =~= v@.take(to as int));
    string_of(&head)
}

fn strip_opensubsonic_prefix(raw: &Vec<char>) -> (r: Option<Vec<char>>)
    ensures
        (match r {
            Some(rest) => Some(rest@),
            None => None,
        }) == after_scheme(raw@),
{
    let low = lower_chars(raw);
    let first = chars_of("rtq://open_subsonic/");
    if chars_occur_at(&low, &first, 0) {
        let rest = copy_range(raw, first.len(), raw.len());
        assert(rest@ =~= raw@.skip(first.len() as int));
        return Some(rest);
    }
    let second = chars_of("rtq://opensubsonic/");
    if chars_occur_at(&low, &second, 0) {
        let rest = copy_range(raw, second.len(), raw.len());
        assert(rest@ =~= raw@.skip(second.len() as int));
        return Some(rest);
    }
    None
}

pub fn cut_chars(v: &Vec<char>, c: char) -> (r: (Vec<char>, Option<Vec<char>>))
    ensures
        r.0@ == cut(v@, c).0,
        (match r.1 {
            Some(rest) => Some(rest@),
            None => None,
        }) == cut(v@, c).1,
{
    match find_char(v, c) {
        Some(i) => {
            let head = copy_range(v, 0, i);
            let rest = copy_range(v, i + 1, v.len());
            assert(head@ =~= v@.take(i as int));
            assert(rest@ =~= v@.skip(i + 1));
            (head, Some(rest))
        },
        None => {
            let head = copy_range(v, 0, v.len());
            assert(head@ =~= v@);
            (head, None)
        },
    }
}

/// Encodes an OpenSubsonic track locator as a synthetic path URI.
pub fn encode_opensubsonic_track_uri(
    profile_id: &str,
    song_id: &str,
    endpoint: &str,
    username: &str,
    format_hint: Option<&str>,
) -> (r: String)
    ensures
        r@ == address(
            profile_id@,
            song_id@,
            endpoint@,
            username@,
            match format_hint {
                Some(hint) => Some(hint@),
                None => None,
            },
        ),
{
    let mut query = String::new();
    append(&mut query, "endpoint=");
    append(&mut query, &percent_encode(&strip_trailing_slash(endpoint)));
    append(&mut query, "&username=");
    append(&mut query, &percent_encode(&trim_text(username)));
    let hint = match format_hint {
        Some(hint) => trim_text(hint),
        None => trim_text(""),
    };
    proof {
        reveal_strlit("");
        assert(""@ =~= Seq::<char>::empty());
    }
    if !hint.as_str().is_empty() {
        append(&mut query, "&format=");
        append(&mut query, &percent_encode(&hint));
    }
    let mut out = String::new();
    append(&mut out, "rtq://open_subsonic/");
    append(&mut out, &percent_encode(profile_id));
    append(&mut out, "/");
    append(&mut out, &percent_encode(song_id));
    append(&mut out, "?");
    append(&mut out, &query);
    proof {
        let spec_hint = match format_hint {
            Some(h) => Some(h@),
            None => None,
        };
        assert(hint@ == trim(or_empty(spec_hint)));
        assert(out@ =~= address(profile_id@, song_id@, endpoint@, username@, spec_hint));
    }
    out
}

/// Returns true if the provided path encodes a synthetic remote track URI.
pub fn is_remote_track_path(path: &str) -> (r: bool)
    ensures
        r == after_scheme(path@) is Some,
{
    strip_opensubsonic_prefix(&chars_of(path)).is_some()
}

fn key_is(key: &Vec<char>, name: &str) -> (r: bool)
    ensures
        r == (key@ == name@),
{
    chars_equal(key, &chars_of(name))
}

struct Query {
    endpoint: String,
    username: String,
    format_hint: Option<String>,
}

impl Query {
    spec fn view(&self) -> QueryView {
        QueryView {
            endpoint: self.endpoint@,
            username: self.username@,
            format_hint: option_text(self.format_hint),
        }
    }

    fn read(self, part: &Vec<char>) -> (r: Query)
        ensures
            r.view() == query_step(self.view(), part@),
    {
        if trim_chars(part).len() == 0 {
            return self;
        }
        let (raw_key, rest) = cut_chars(part, '=');
        let key = lower_chars(&trim_chars(&raw_key));
        let raw_value = match rest {
            Some(text) => string_of(&text),
            None => String::new(),
        };
        let value = match percent_decode(&raw_value) {
            Some(decoded) => decoded,
            None => raw_value,
        };
        if key_is(&key, "endpoint") || key_is(&key, "url") || key_is(&key, "server") {
            Query { endpoint: strip_trailing_slash(&value), ..self }
        } else if key_is(&key, "username") || key_is(&key, "user") || key_is(&key, "u") {
            Query { username: trim_text(&value), ..self }
        } else if key_is(&key, "format") || key_is(&key, "suffix") {
            let hint = trim_chars(&chars_of(&value));
            if hint.len() == 0 {
                self
            } else {
                Query { format_hint: Some(string_of(&lower_chars(&hint))), ..self }
            }
        } else {
            self
        }
    }
}

/// Parses a synthetic OpenSubsonic track URI from a path.
pub fn parse_opensubsonic_track_uri(path: &str) -> (r: Option<OpenSubsonicTrackLocator>)
    ensures
        (match r {
            Some(locator) => Some(locator@),
            None => None,
        }) == located(path@),
{
    let raw = chars_of(path);
    let rest = match strip_opensubsonic_prefix(&raw) {
        Some(rest) => rest,
        None => {
            return None;
        },
    };
    let (path_part, query_part) = cut_chars(&rest, '?');
    let (profile, song) = cut_chars(&path_part, '/');
    let song = match song {
        Some(song) => song,
        None => {
            return None;
        },
    };
    let profile_id = match percent_decode(&string_of(&profile)) {
        Some(text) => text,
        None => {
            return None;
        },
    };
    let song_id = match percent_decode(&string_of(&song)) {
        Some(text) => text,
        None => {
            return None;
        },
    };
    if is_blank(&profile_id) || is_blank(&song_id) {
        return None;
    }
    let query_chars: Vec<char> = match query_part {
        Some(text) => text,
        None => Vec::new(),
    };
    let ghost query_text = or_empty(cut(rest@, '?').1);
    assert(query_chars@ =~= query_text);
    let parts = split_pieces(&query_chars, '&');
    let mut query = Query { endpoint: String::new(), username: String::new(), format_hint: None };
    let mut i: usize = 0;
    assert(char_texts(parts@).take(0) =~= Seq::empty());
    while i < parts.len()
        invariant
            i <= parts.len(),
            query.view() == query_of(char_texts(parts@).take(i as int)),
        decreases parts.len() - i,
    {
        proof {
            assert(char_texts(parts@).take(i + 1).drop_last() =~= char_texts(parts@).take(
                i as int,
            ));
        }
        query = query.read(&parts[i]);
        i += 1;
    }
    assert(char_texts(parts@).take(parts.len() as int) =~= char_texts(parts@));
    Some(
        OpenSubsonicTrackLocator {
            profile_id,
            song_id,
            endpoint: query.endpoint,
            username: query.username,
            format_hint: query.format_hint,
        },
    )
}

/// A character that trimming and lower-casing leave alone, and that separates nothing.
spec fn plain(c: char) -> bool {
    ('a' <= c && c <= 'z') || c == '_'
}

spec fn all_plain(s: Seq<char>) -> bool {
    forall|i: int| 0 <= i < s.len() ==> plain(#[trigger] s[i])
}

proof fn lemma_plain_key(s: Seq<char>)
    requires
        all_plain(s),
    ensures
        lower(trim(s)) == s,
        s.len() > 0 ==> forall|t: Seq<char>| !blank(#[trigger] (s + t)),
{
    if s.len() > 0 {
        assert(plain(s[0]) && plain(s[s.len() - 1]));
        assert(!crate::text::white_space(s[0]));
        assert(!crate::text::white_space(s.last()));
        assert forall|t: Seq<char>| !blank(#[trigger] (s + t)) by {
            crate::text::lemma_not_blank(s + t);
        }
    }
    assert(trim(s) == s);
    assert(lower(s) =~= s);
}

/// One `key=value` part with a plain key and an encoded value.
proof fn lemma_part(q: QueryView, key: Seq<char>, value: Seq<char>)
    requires
        all_plain(key),
        key.len() > 0,
    ensures
        query_step(q, key + seq!['='] + percent_encoded(value)) == (if key == "endpoint"@ || key
            == "url"@ || key == "server"@ {
            QueryView { endpoint: server_address(value), ..q }
        } else if key == "username"@ || key == "user"@ || key == "u"@ {
            QueryView { username: trim(value), ..q }
        } else if (key == "format"@ || key == "suffix"@) && !blank(value) {
            QueryView { format_hint: Some(lower(trim(value))), ..q }
        } else {
            q
        }),
{
    let encoded = percent_encoded(value);
    let part = key + seq!['='] + encoded;
    assert forall|i: int| 0 <= i < key.len() implies #[trigger] key[i] != '=' by {
        assert(plain(key[i]));
    }
    crate::text::lemma_first_of_concat(key, encoded, '=');
    assert(part.take(key.len() as int) =~= key);
    assert(part.skip(key.len() as int + 1) =~= encoded);
    lemma_plain_key(key);
    assert(part =~= key + (seq!['='] + encoded));
    crate::percent::percent_decoding_inverts_encoding(value);
}

proof fn lemma_no_separator(key: Seq<char>, value: Seq<char>, c: char)
    requires
        all_plain(key),
        c == '&' || c == '?' || c == '/',
    ensures
        forall|i: int|
            0 <= i < (key + seq!['='] + percent_encoded(value)).len() ==> #[trigger] (key + seq!['=']
                + percent_encoded(value))[i] != c,
{
    let part = key + seq!['='] + percent_encoded(value);
    crate::percent::percent_encoded_has_no_separators(value);
    assert forall|i: int| 0 <= i < part.len() implies #[trigger] part[i] != c by {
        if i < key.len() {
            assert(plain(key[i]));
            assert(part[i] == key[i]);
        } else if i > key.len() {
            assert(part[i] == percent_encoded(value)[i - key.len() - 1]);
            assert(encoded_char(percent_encoded(value)[i - key.len() - 1]));
        }
    }
}

proof fn lemma_scheme(rest: Seq<char>)
    ensures
        after_scheme("rtq://open_subsonic/"@ + rest) == Some(rest),
{
    reveal_strlit("rtq://open_subsonic/");
    let prefix = "rtq://open_subsonic/"@;
    let raw = prefix + rest;
    assert(prefix.len() == 20);
    assert(lower(raw).subrange(0, 20) =~= prefix);
    assert(raw.skip(20) =~= rest);
}

proof fn lemma_key_texts()
    ensures
        "endpoint="@ == "endpoint"@ + seq!['='],
        "&username="@ == seq!['&'] + "username"@ + seq!['='],
        "&format="@ == seq!['&'] + "format"@ + seq!['='],
        all_plain("endpoint"@),
        all_plain("username"@),
        all_plain("format"@),
        "endpoint"@.len() > 0,
        "username"@.len() > 0,
        "format"@.len() > 0,
{
    reveal_strlit("endpoint=");
    reveal_strlit("&username=");
    reveal_strlit("&format=");
    reveal_strlit("endpoint");
    reveal_strlit("username");
    reveal_strlit("format");
    assert("endpoint="@ =~= "endpoint"@ + seq!['=']);
    assert("&username="@ =~= seq!['&'] + "username"@ + seq!['=']);
    assert("&format="@ =~= seq!['&'] + "format"@ + seq!['=']);
}

proof fn lemma_keys_differ()
    ensures
        "username"@ != "endpoint"@ && "username"@ != "url"@ && "username"@ != "server"@,
        "format"@ != "endpoint"@ && "format"@ != "url"@ && "format"@ != "server"@,
        "format"@ != "username"@ && "format"@ != "user"@ && "format"@ != "u"@,
{
    reveal_strlit("endpoint");
    reveal_strlit("username");
    reveal_strlit("format");
    reveal_strlit("url");
    reveal_strlit("server");
    reveal_strlit("user");
    reveal_strlit("u");
    assert("username"@[0] != "endpoint"@[0]);
    assert("format"@[0] != "server"@[0]);
    assert("username"@.len() == 8 && "endpoint"@.len() == 8 && "format"@.len() == 6);
    assert("url"@.len() == 3 && "server"@.len() == 6 && "user"@.len() == 4 && "u"@.len() == 1);
}

spec fn without_amp(s: Seq<char>) -> bool {
    forall|i: int| 0 <= i < s.len() ==> #[trigger] s[i] != '&'
}

proof fn lemma_one_piece(a: Seq<char>)
    requires
        without_amp(a),
    ensures
        pieces(a, '&') == seq![a],
{
    crate::text::lemma_first_of_concat(a, Seq::empty(), '&');
}

proof fn lemma_pieces_step(a: Seq<char>, b: Seq<char>)
    requires
        without_amp(a),
    ensures
        pieces(a + seq!['&'] + b, '&') == seq![a] + pieces(b, '&'),
{
    let whole = a + seq!['&'] + b;
    crate::text::lemma_first_of_concat(a, b, '&');
    assert(whole.take(a.len() as int) =~= a);
    assert(whole.skip(a.len() as int + 1) =~= b);
}

spec fn no_values() -> QueryView {
    QueryView { endpoint: Seq::empty(), username: Seq::empty(), format_hint: None }
}

proof fn lemma_query_of_parts(a: Seq<char>, b: Seq<char>, c: Seq<char>)
    ensures
        query_of(seq![a, b]) == query_step(query_step(no_values(), a), b),
        query_of(seq![a, b, c]) == query_step(query_step(query_step(no_values(), a), b), c),
{
    assert(seq![a, b, c].drop_last() =~= seq![a, b]);
    assert(seq![a, b].drop_last() =~= seq![a]);
    assert(seq![a].drop_last() =~= Seq::<Seq<char>>::empty());
    assert(query_of(Seq::<Seq<char>>::empty()) == no_values());
    assert(query_of(seq![a]) == query_step(no_values(), a));
}

/// The query of an address reads back as it was written.
proof fn lemma_query(endpoint: Seq<char>, username: Seq<char>, hint: Seq<char>)
    ensures
        query_of(
            pieces(
                "endpoint="@ + percent_encoded(endpoint) + "&username="@ + percent_encoded(username)
                    + (if hint.len() == 0 {
                    Seq::empty()
                } else {
                    "&format="@ + percent_encoded(hint)
                }),
                '&',
            ),
        ) == (QueryView {
            endpoint: server_address(endpoint),
            username: trim(username),
            format_hint: if blank(hint) {
                None
            } else {
                Some(lower(trim(hint)))
            },
        }),
{
    lemma_key_texts();
    lemma_keys_differ();
    let p1 = "endpoint"@ + seq!['='] + percent_encoded(endpoint);
    let p2 = "username"@ + seq!['='] + percent_encoded(username);
    let p3 = "format"@ + seq!['='] + percent_encoded(hint);
    lemma_part(no_values(), "endpoint"@, endpoint);
    let q1 = query_step(no_values(), p1);
    lemma_part(q1, "username"@, username);
    let q2 = query_step(q1, p2);
    lemma_part(q2, "format"@, hint);
    lemma_no_separator("endpoint"@, endpoint, '&');
    lemma_no_separator("username"@, username, '&');
    lemma_no_separator("format"@, hint, '&');
    lemma_query_of_parts(p1, p2, p3);
    let whole = "endpoint="@ + percent_encoded(endpoint) + "&username="@ + percent_encoded(username)
        + (if hint.len() == 0 {
        Seq::empty()
    } else {
        "&format="@ + percent_encoded(hint)
    });
    if hint.len() == 0 {
        assert(whole =~= p1 + seq!['&'] + p2);
        lemma_pieces_step(p1, p2);
        lemma_one_piece(p2);
        assert(seq![p1] + seq![p2] =~= seq![p1, p2]);
        crate::text::trimming_twice_changes_nothing(hint);
    } else {
        let tail = p2 + seq!['&'] + p3;
        assert(whole =~= p1 + seq!['&'] + tail);
        lemma_pieces_step(p1, tail);
        lemma_pieces_step(p2, p3);
        lemma_one_piece(p3);
        assert(seq![p1] + (seq![p2] + seq![p3]) =~= seq![p1, p2, p3]);
    }
}

/// Parsing the address of a track gives back the track: the two identifiers as they were,
/// the server address and the user name trimmed, the format hint trimmed and in lower case.
pub proof fn parsing_inverts_encoding(
    profile_id: Seq<char>,
    song_id: Seq<char>,
    endpoint: Seq<char>,
    username: Seq<char>,
    format_hint: Option<Seq<char>>,
)
    requires
        !blank(profile_id),
        !blank(song_id),
    ensures
        located(address(profile_id, song_id, endpoint, username, format_hint)) == Some(
            LocatorView {
                profile_id,
                song_id,
                endpoint: server_address(server_address(endpoint)),
                username: trim(username),
                format_hint: if format_hint is Some && !blank(format_hint->Some_0) {
                    Some(lower(trim(format_hint->Some_0)))
                } else {
                    None
                },
            },
        ),
{
    let hint = trim(or_empty(format_hint));
    let e1 = percent_encoded(profile_id);
    let e2 = percent_encoded(song_id);
    let query = "endpoint="@ + percent_encoded(server_address(endpoint)) + "&username="@
        + percent_encoded(trim(username)) + (if hint.len() == 0 {
        Seq::empty()
    } else {
        "&format="@ + percent_encoded(hint)
    });
    reveal_strlit("/");
    reveal_strlit("?");
    assert("/"@ =~= seq!['/']);
    assert("?"@ =~= seq!['?']);
    let path = e1 + seq!['/'] + e2;
    let rest = path + seq!['?'] + query;
    let raw = address(profile_id, song_id, endpoint, username, format_hint);
    assert(raw =~= "rtq://open_subsonic/"@ + rest);
    lemma_scheme(rest);
    crate::percent::percent_encoded_has_no_separators(profile_id);
    crate::percent::percent_encoded_has_no_separators(song_id);
    crate::percent::percent_decoding_inverts_encoding(profile_id);
    crate::percent::percent_decoding_inverts_encoding(song_id);
    assert forall|i: int| 0 <= i < path.len() implies #[trigger] path[i] != '?' by {
        if i < e1.len() {
            assert(encoded_char(e1[i]));
        } else if i > e1.len() {
            assert(encoded_char(e2[i - e1.len() - 1]));
        }
    }
    assert forall|i: int| 0 <= i < e1.len() implies #[trigger] e1[i] != '/' by {
        assert(encoded_char(e1[i]));
    }
    crate::text::lemma_first_of_concat(path, query, '?');
    assert(rest.take(path.len() as int) =~= path);
    assert(rest.skip(path.len() as int + 1) =~= query);
    crate::text::lemma_first_of_concat(e1, e2, '/');
    assert(path.take(e1.len() as int) =~= e1);
    assert(path.skip(e1.len() as int + 1) =~= e2);
    lemma_query(server_address(endpoint), trim(username), hint);
    crate::text::trimming_twice_changes_nothing(username);
    crate::text::trimming_twice_changes_nothing(or_empty(format_hint));
}

/// The address of a track is recognised as a remote path.
pub proof fn addresses_are_remote_paths(
    profile_id: Seq<char>,
    song_id: Seq<char>,
    endpoint: Seq<char>,
    username: Seq<char>,
    format_hint: Option<Seq<char>>,
)
    ensures
        after_scheme(address(profile_id, song_id, endpoint, username, format_hint)) is Some,
{
    let raw = address(profile_id, song_id, endpoint, username, format_hint);
    reveal_strlit("rtq://open_subsonic/");
    let rest = raw.skip(20);
    assert(raw =~= "rtq://open_subsonic/"@ + rest);
    lemma_scheme(rest);
}

/// Only a remote path names a track.
pub proof fn only_remote_paths_name_tracks(raw: Seq<char>)
    ensures
        located(raw) is Some ==> after_scheme(raw) is Some,
{
}

proof fn lemma_step(q: QueryView, key: Seq<char>, value: Seq<char>, decoded: Seq<char>)
    requires
        key.len() > 0,
        all_plain(key),
        percent_decoded(value) == Some(decoded),
    ensures
        query_step(q, key + seq!['='] + value) == (if key == "endpoint"@ || key == "url"@ || key
            == "server"@ {
            QueryView { endpoint: server_address(decoded), ..q }
        } else if key == "username"@ || key == "user"@ || key == "u"@ {
            QueryView { username: trim(decoded), ..q }
        } else if (key == "format"@ || key == "suffix"@) && !blank(decoded) {
            QueryView { format_hint: Some(lower(trim(decoded))), ..q }
        } else {
            q
        }),
{
    let part = key + seq!['='] + value;
    assert forall|i: int| 0 <= i < key.len() implies #[trigger] key[i] != '=' by {
        assert(plain(key[i]));
    }
    crate::text::lemma_first_of_concat(key, value, '=');
    assert(part.take(key.len() as int) =~= key);
    assert(part.skip(key.len() as int + 1) =~= value);
    lemma_plain_key(key);
    assert(part =~= key + (seq!['='] + value));
}

proof fn lemma_server_keys()
    ensures
        all_plain("endpoint"@) && "endpoint"@.len() == 8 && "endpoint"@[0] == 'e',
        all_plain("url"@) && "url"@.len() == 3,
        all_plain("server"@) && "server"@.len() == 6 && "server"@[1] == 'e' && "server"@[0] == 's',
{
    reveal_strlit("endpoint");
    reveal_strlit("url");
    reveal_strlit("server");
}

proof fn lemma_user_keys()
    ensures
        all_plain("username"@) && "username"@.len() == 8 && "username"@[0] == 'u',
        all_plain("user"@) && "user"@.len() == 4,
        all_plain("u"@) && "u"@.len() == 1,
{
    reveal_strlit("username");
    reveal_strlit("user");
    reveal_strlit("u");
}

proof fn lemma_format_keys()
    ensures
        all_plain("format"@) && "format"@.len() == 6 && "format"@[0] == 'f',
        all_plain("suffix"@) && "suffix"@.len() == 6 && "suffix"@[1] == 'u',
{
    reveal_strlit("format");
    reveal_strlit("suffix");
}

/// The server and the user of an address may be given under their older names as well; each
/// sets its own value, decoded, and leaves the others.
pub proof fn older_names_are_understood(q: QueryView, value: Seq<char>, decoded: Seq<char>)
    requires
        percent_decoded(value) == Some(decoded),
    ensures
        query_step(q, "endpoint"@ + seq!['='] + value) == (QueryView {
            endpoint: server_address(decoded),
            ..q
        }),
        query_step(q, "url"@ + seq!['='] + value) == (QueryView {
            endpoint: server_address(decoded),
            ..q
        }),
        query_step(q, "server"@ + seq!['='] + value) == (QueryView {
            endpoint: server_address(decoded),
            ..q
        }),
        query_step(q, "username"@ + seq!['='] + value) == (QueryView {
            username: trim(decoded),
            ..q
        }),
        query_step(q, "user"@ + seq!['='] + value) == (QueryView { username: trim(decoded), ..q }),
        query_step(q, "u"@ + seq!['='] + value) == (QueryView { username: trim(decoded), ..q }),
        !blank(decoded) ==> query_step(q, "format"@ + seq!['='] + value) == (QueryView {
            format_hint: Some(lower(trim(decoded))),
            ..q
        }),
        !blank(decoded) ==> query_step(q, "suffix"@ + seq!['='] + value) == (QueryView {
            format_hint: Some(lower(trim(decoded))),
            ..q
        }),
        blank(decoded) ==> query_step(q, "format"@ + seq!['='] + value) == q,
{
    lemma_server_keys();
    lemma_user_keys();
    lemma_format_keys();
    lemma_step(q, "endpoint"@, value, decoded);
    lemma_step(q, "url"@, value, decoded);
    lemma_step(q, "server"@, value, decoded);
    lemma_step(q, "username"@, value, decoded);
    lemma_step(q, "user"@, value, decoded);
    lemma_step(q, "u"@, value, decoded);
    lemma_step(q, "format"@, value, decoded);
    lemma_step(q, "suffix"@, value, decoded);
}

/// An address names, in this order, the profile, the song, the server, the user and, where it
/// is known, the format, each encoded.
pub proof fn addresses_name_their_parts(
    profile_id: Seq<char>,
    song_id: Seq<char>,
    endpoint: Seq<char>,
    username: Seq<char>,
    format: Seq<char>,
)
    ensures
        address(profile_id, song_id, endpoint, username, None) == "rtq://open_subsonic/"@
            + percent_encoded(profile_id) + "/"@ + percent_encoded(song_id) + "?"@ + ("endpoint="@
            + percent_encoded(server_address(endpoint)) + "&username="@ + percent_encoded(
            trim(username),
        )),
        !blank(format) ==> address(profile_id, song_id, endpoint, username, Some(format))
            == "rtq://open_subsonic/"@ + percent_encoded(profile_id) + "/"@ + percent_encoded(
            song_id,
        ) + "?"@ + ("endpoint="@ + percent_encoded(server_address(endpoint)) + "&username="@
            + percent_encoded(trim(username)) + ("&format="@ + percent_encoded(trim(format)))),
{
    let base = "endpoint="@ + percent_encoded(server_address(endpoint)) + "&username="@
        + percent_encoded(trim(username));
    assert(base + Seq::<char>::empty() =~= base);
    assert(trim(Seq::<char>::empty()).len() == 0);
}

/// A server's address is told without white space and slashes at its end.
pub proof fn server_addresses_end_without_slash(s: Seq<char>)
    ensures
        server_address(s).len() > 0 ==> server_address(s).last() != '/',
        server_address(s).len() <= trim(s).len(),
        server_address(s) == trim(s).take(server_address(s).len() as int),
        forall|i: int|
            server_address(s).len() <= i < trim(s).len() ==> #[trigger] trim(s)[i] == '/',
{
    lemma_drop_slashes(trim(s));
}

proof fn lemma_drop_slashes(s: Seq<char>)
    ensures
        drop_slashes(s).len() > 0 ==> drop_slashes(s).last() != '/',
        drop_slashes(s).len() <= s.len(),
        drop_slashes(s) == s.take(drop_slashes(s).len() as int),
        forall|i: int| drop_slashes(s).len() <= i < s.len() ==> #[trigger] s[i] == '/',
    decreases s.len(),
{
    if s.len() > 0 && s.last() == '/' {
        let rest = s.drop_last();
        lemma_drop_slashes(rest);
        assert(rest.take(drop_slashes(rest).len() as int) =~= s.take(
            drop_slashes(s).len() as int,
        ));
        assert forall|i: int| drop_slashes(s).len() <= i < s.len() implies #[trigger] s[i]
            == '/' by {
            if i < rest.len() {
                assert(rest[i] == s[i]);
            }
        }
    } else {
        assert(s.take(s.len() as int) =~= s);
    }
}

} // verus!
