//! Serving a file to a cast device: requests, ranges and response headers.

use crate::integration::uri::{cut, cut_chars, or_empty};
use crate::library::paths::{small_extension, small_extension_of};
use crate::text::{
    append, blank, chars_of, copy_range, decimal, decimal_text, has_prefix, is_blank,
    lower, lower_text, owned, parse_whole_number, split_words, string_of, text_equal,
    text_has_prefix, trim, trim_chars, trim_text, whole_number, words,
};
use vstd::prelude::*;
use vstd::string::StrSliceExecFns;
use vstd::utf8::encode_utf8;

verus! {

/// How long a file stays registered, in milliseconds.
pub const STREAM_TOKEN_TTL_MS: u64 = 1_800_000;

/// The name and value of a header line.
pub open spec fn header_of(line: Seq<char>) -> Option<(Seq<char>, Seq<char>)> {
    match cut(line, ':') {
        (name, Some(value)) => Some((trim(name), trim(value))),
        (_, None) => None,
    }
}

pub open spec fn pair_view(p: Option<(String, String)>) -> Option<(Seq<char>, Seq<char>)> {
    match p {
        Some((a, b)) => Some((a@, b@)),
        None => None,
    }
}

/// The name and value of a header line.
pub fn parse_header_line(line: &str) -> (r: Option<(String, String)>)
    ensures
        pair_view(r) == header_of(line@),
{
    match cut_chars(&chars_of(line), ':') {
        (name, Some(value)) => Some(
            (string_of(&trim_chars(&name)), string_of(&trim_chars(&value))),
        ),
        (_, None) => None,
    }
}

/// The line that ends the headers of a request.
pub open spec fn ends_headers(line: Seq<char>) -> bool {
    line == "\r\n"@ || line == "\n"@ || line.len() == 0
}

/// Whether a line ends the headers of a request.
pub fn is_end_of_headers(line: &str) -> (r: bool)
    ensures
        r == ends_headers(line@),
{
    let nothing = line.is_empty();
    assert(nothing == (line@.len() == 0));
    text_equal(line, "\r\n") || text_equal(line, "\n") || nothing
}

/// A request, with the value of its last header of each name. Names are in small letters.
#[derive(Debug, PartialEq, Eq)]
pub struct HttpRequest {
    pub method: String,
    pub path: String,
    pub headers: Vec<(String, String)>,
}

/// The method and path of a request line, or what is wrong with it.
pub open spec fn request_line(line: Seq<char>) -> Result<(Seq<char>, Seq<char>), Seq<char>> {
    if blank(line) {
        Err("empty request"@)
    } else if words(line).len() == 0 {
        Err("missing request method"@)
    } else if words(line).len() == 1 {
        Err("missing request path"@)
    } else {
        Ok((words(line)[0], words(line)[1]))
    }
}

/// The headers of a list of lines: names in small letters, lines that are no headers left out.
pub open spec fn headers_of(lines: Seq<Seq<char>>) -> Seq<(Seq<char>, Seq<char>)>
    decreases lines.len(),
{
    if lines.len() == 0 {
        Seq::empty()
    } else {
        let rest = headers_of(lines.drop_last());
        match header_of(lines.last()) {
            Some((name, value)) => rest.push((lower(name), value)),
            None => rest,
        }
    }
}

/// The value of the last header with a name.
pub open spec fn header_value(headers: Seq<(Seq<char>, Seq<char>)>, name: Seq<char>) -> Option<
    Seq<char>,
>
    decreases headers.len(),
{
    if headers.len() == 0 {
        None
    } else if headers.last().0 == name {
        Some(headers.last().1)
    } else {
        header_value(headers.drop_last(), name)
    }
}

pub open spec fn pairs_of(v: Seq<(String, String)>) -> Seq<(Seq<char>, Seq<char>)> {
    v.map_values(|p: (String, String)| (p.0@, p.1@))
}

/// The method and path of a request line.
pub fn parse_request_line(line: &str) -> (r: Result<(String, String), String>)
    ensures
        match r {
            Ok((method, path)) => request_line(line@) == Ok::<_, Seq<char>>((method@, path@)),
            Err(e) => request_line(line@) == Err::<(Seq<char>, Seq<char>), _>(e@),
        },
{
    if is_blank(line) {
        return Err(owned("empty request"));
    }
    let parts = split_words(&chars_of(line));
    assert(crate::text::char_texts(parts@) == words(line@));
    assert(crate::text::char_texts(parts@).len() == parts.len());
    if parts.len() == 0 {
        return Err(owned("missing request method"));
    }
    if parts.len() == 1 {
        return Err(owned("missing request path"));
    }
    assert(crate::text::char_texts(parts@)[0] == parts@[0]@);
    assert(crate::text::char_texts(parts@)[1] == parts@[1]@);
    Ok((string_of(&parts[0]), string_of(&parts[1])))
}

/// A request, from its first line and the lines of its headers.
pub fn parse_http_request(line: &str, header_lines: &Vec<String>) -> (r: Result<
    HttpRequest,
    String,
>)
    ensures
        match r {
            Ok(request) => request_line(line@) == Ok::<_, Seq<char>>(
                (request.method@, request.path@),
            ) && pairs_of(request.headers@) == headers_of(crate::text::texts(header_lines@)),
            Err(e) => request_line(line@) == Err::<(Seq<char>, Seq<char>), _>(e@),
        },
{
    let (method, path) = match parse_request_line(line) {
        Ok(parts) => parts,
        Err(e) => {
            return Err(e);
        },
    };
    let ghost all = crate::text::texts(header_lines@);
    let mut headers: Vec<(String, String)> = Vec::new();
    let mut i: usize = 0;
    assert(all.take(0) =~= Seq::empty());
    assert(pairs_of(headers@) =~= Seq::empty());
    while i < header_lines.len()
        invariant
            i <= header_lines.len(),
            all == crate::text::texts(header_lines@),
            pairs_of(headers@) == headers_of(all.take(i as int)),
        decreases header_lines.len() - i,
    {
        let ghost before = pairs_of(headers@);
        proof {
            assert(all.take(i + 1).drop_last() =~= all.take(i as int));
            assert(all.take(i + 1).last() == header_lines@[i as int]@);
        }
        if let Some((name, value)) = parse_header_line(header_lines[i].as_str()) {
            let small = lower_text(name.as_str());
            headers.push((small, value));
            assert(pairs_of(headers@) =~= before.push((lower(name@), value@)));
        }
        i += 1;
    }
    assert(all.take(i as int) =~= all);
    Ok(HttpRequest { method, path, headers })
}

impl HttpRequest {
    /// The value of the last header with a name in small letters.
    pub fn header(&self, name: &str) -> (r: Option<&String>)
        ensures
            (match r {
                Some(value) => Some(value@),
                None => None,
            }) == header_value(pairs_of(self.headers@), name@),
    {
        let ghost all = pairs_of(self.headers@);
        let mut i: usize = self.headers.len();
        assert(all.take(i as int) =~= all);
        while i > 0
            invariant
                i <= self.headers.len(),
                all == pairs_of(self.headers@),
                header_value(all.take(i as int), name@) == header_value(all, name@),
            decreases i,
        {
            i -= 1;
            proof {
                assert(all.take(i + 1).drop_last() =~= all.take(i as int));
                assert(all.take(i + 1).last() == (
                    self.headers@[i as int].0@,
                    self.headers@[i as int].1@,
                ));
            }
            if text_equal(self.headers[i].0.as_str(), name) {
                return Some(&self.headers[i].1);
            }
        }
        None
    }
}

/// The first and last byte of a range that lies in a file; any other range header is not heeded.
pub open spec fn range_of(header: Option<Seq<char>>, file_size: u64) -> Option<(u64, u64)> {
    match header {
        None => None,
        Some(value) => if !has_prefix(value, "bytes="@) {
            None
        } else {
            match cut(value.skip("bytes="@.len() as int), '-') {
                (_, None) => None,
                (first, Some(last)) => {
                    let start = if blank(first) {
                        Some(0u64)
                    } else {
                        whole_number(trim(first))
                    };
                    let end = if blank(last) {
                        Some(
                            if file_size > 0 {
                                (file_size - 1) as u64
                            } else {
                                0u64
                            },
                        )
                    } else {
                        whole_number(trim(last))
                    };
                    match (start, end) {
                        (Some(s), Some(e)) => if s > e || e >= file_size {
                            None
                        } else {
                            Some((s, e))
                        },
                        _ => None,
                    }
                },
            }
        },
    }
}

/// The range that a header asks for.
pub fn parse_range_header(range_header: Option<&str>, file_size: u64) -> (r: Option<(u64, u64)>)
    ensures
        r == range_of(
            match range_header {
                Some(value) => Some(value@),
                None => None,
            },
            file_size,
        ),
{
    let value = match range_header {
        Some(value) => value,
        None => {
            return None;
        },
    };
    if !text_has_prefix(value, "bytes=") {
        return None;
    }
    let v = chars_of(value);
    proof {
        reveal_strlit("bytes=");
        assert(v@.subrange(6, v@.len() as int) =~= v@.skip(6));
    }
    let (first, last) = cut_chars(&copy_range(&v, 6, v.len()), '-');
    let last = match last {
        Some(last) => last,
        None => {
            return None;
        },
    };
    let first_text = trim_chars(&first);
    let last_text = trim_chars(&last);
    let start: u64 = if first_text.len() == 0 {
        0
    } else {
        match parse_whole_number(&first_text) {
            Some(n) => n,
            None => {
                return None;
            },
        }
    };
    let end: u64 = if last_text.len() == 0 {
        if file_size > 0 {
            file_size - 1
        } else {
            0
        }
    } else {
        match parse_whole_number(&last_text) {
            Some(n) => n,
            None => {
                return None;
            },
        }
    };
    if start > end || end >= file_size {
        None
    } else {
        Some((start, end))
    }
}

/// The type under which a file is served, by its extension.
pub open spec fn content_type_of(path: Seq<char>) -> Seq<char> {
    let ext = or_empty(small_extension(path));
    if ext == "flac"@ {
        "audio/flac"@
    } else if ext == "mp3"@ {
        "audio/mpeg"@
    } else if ext == "wav"@ {
        "audio/wav"@
    } else if ext == "ogg"@ {
        "audio/ogg"@
    } else if ext == "m4a"@ || ext == "mp4"@ {
        "audio/mp4"@
    } else if ext == "aac"@ {
        "audio/aac"@
    } else {
        "application/octet-stream"@
    }
}

/// The type under which a file is served.
pub fn extension_to_content_type(path: &str) -> (r: String)
    ensures
        r@ == content_type_of(path@),
{
    let ext = match small_extension_of(path) {
        Some(ext) => string_of(&ext),
        None => String::new(),
    };
    assert(ext@ =~= or_empty(small_extension(path@)));
    let e = ext.as_str();
    let found: &str = if text_equal(e, "flac") {
        "audio/flac"
    } else if text_equal(e, "mp3") {
        "audio/mpeg"
    } else if text_equal(e, "wav") {
        "audio/wav"
    } else if text_equal(e, "ogg") {
        "audio/ogg"
    } else if text_equal(e, "m4a") || text_equal(e, "mp4") {
        "audio/mp4"
    } else if text_equal(e, "aac") {
        "audio/aac"
    } else {
        "application/octet-stream"
    };
    owned(found)
}

/// A file that a cast device may fetch.
#[derive(Debug, PartialEq, Eq)]
pub struct StreamResource {
    pub path: String,
    pub content_type: String,
    pub allowed_ip: String,
    pub created_ms: u64,
}

/// The contents of a [`StreamResource`].
#[verifier::ext_equal]
pub struct ResourceView {
    pub path: Seq<char>,
    pub content_type: Seq<char>,
    pub allowed_ip: Seq<char>,
    pub created_ms: u64,
}

impl View for StreamResource {
    type V = ResourceView;

    open spec fn view(&self) -> ResourceView {
        ResourceView {
            path: self.path@,
            content_type: self.content_type@,
            allowed_ip: self.allowed_ip@,
            created_ms: self.created_ms,
        }
    }
}

/// The files that cast devices may fetch, under their tokens.
#[derive(Debug, PartialEq, Eq)]
pub struct StreamTable {
    pub entries: Vec<(String, StreamResource)>,
}

pub open spec fn entry_view(e: (String, StreamResource)) -> (Seq<char>, ResourceView) {
    (e.0@, e.1@)
}

impl View for StreamTable {
    type V = Seq<(Seq<char>, ResourceView)>;

    open spec fn view(&self) -> Seq<(Seq<char>, ResourceView)> {
        self.entries@.map_values(|e: (String, StreamResource)| entry_view(e))
    }
}

/// Where a token stands, or how many tokens there are.
pub open spec fn token_slot(entries: Seq<(Seq<char>, ResourceView)>, token: Seq<char>) -> nat
    decreases entries.len(),
{
    if entries.len() == 0 || entries[0].0 == token {
        0
    } else {
        1 + token_slot(entries.skip(1), token)
    }
}

/// The file of a token.
pub open spec fn resource_of(entries: Seq<(Seq<char>, ResourceView)>, token: Seq<char>) -> Option<
    ResourceView,
> {
    let slot = token_slot(entries, token) as int;
    if slot < entries.len() {
        Some(entries[slot].1)
    } else {
        None
    }
}

/// A table with one more file; a file with the same token is replaced.
pub open spec fn with_resource(
    entries: Seq<(Seq<char>, ResourceView)>,
    token: Seq<char>,
    resource: ResourceView,
) -> Seq<(Seq<char>, ResourceView)> {
    let slot = token_slot(entries, token) as int;
    if slot < entries.len() {
        entries.update(slot, (token, resource))
    } else {
        entries.push((token, resource))
    }
}

/// A file that has not been registered for too long.
pub open spec fn is_fresh(now_ms: u64) -> spec_fn((Seq<char>, ResourceView)) -> bool {
    |e: (Seq<char>, ResourceView)| now_ms <= e.1.created_ms + STREAM_TOKEN_TTL_MS
}

proof fn lemma_token_slot(entries: Seq<(Seq<char>, ResourceView)>, token: Seq<char>, i: int)
    requires
        0 <= i <= entries.len(),
        forall|k: int| 0 <= k < i ==> (#[trigger] entries[k]).0 != token,
        i < entries.len() ==> entries[i].0 == token,
    ensures
        token_slot(entries, token) == i,
    decreases entries.len(),
{
    if i > 0 {
        assert(entries[0].0 != token);
        let rest = entries.skip(1);
        assert forall|k: int| 0 <= k < i - 1 implies (#[trigger] rest[k]).0 != token by {
            assert(entries[k + 1].0 != token);
        }
        if i < entries.len() {
            assert(rest[i - 1] == entries[i]);
        }
        lemma_token_slot(rest, token, i - 1);
    }
}

impl StreamTable {
    pub fn new() -> (r: StreamTable)
        ensures
            r@ == Seq::<(Seq<char>, ResourceView)>::empty(),
    {
        let r = StreamTable { entries: Vec::new() };
        assert(r@ =~= Seq::empty());
        r
    }

    fn slot_of(&self, token: &str) -> (r: usize)
        ensures
            r == token_slot(self@, token@),
            r <= self.entries.len(),
    {
        let ghost all = self@;
        let mut i: usize = 0;
        while i < self.entries.len()
            invariant
                i <= self.entries.len(),
                all == self@,
                forall|k: int| 0 <= k < i ==> (#[trigger] all[k]).0 != token@,
            decreases self.entries.len() - i,
        {
            assert(all[i as int] == entry_view(self.entries@[i as int]));
            if text_equal(self.entries[i].0.as_str(), token) {
                proof {
                    lemma_token_slot(all, token@, i as int);
                }
                return i;
            }
            i += 1;
        }
        proof {
            lemma_token_slot(all, token@, i as int);
        }
        i
    }

    /// Registers a file under a token.
    pub fn register(&mut self, token: String, resource: StreamResource)
        ensures
            final(self)@ == with_resource(old(self)@, token@, resource@),
    {
        let ghost before = self@;
        let slot: usize = self.slot_of(token.as_str());
        if slot < self.entries.len() {
            self.entries.set(slot, (token, resource));
            assert(self@ =~= before.update(slot as int, (token@, resource@)));
        } else {
            self.entries.push((token, resource));
            assert(self@ =~= before.push((token@, resource@)));
        }
    }

    /// The file of a token.
    pub fn find(&self, token: &str) -> (r: Option<&StreamResource>)
        ensures
            (match r {
                Some(resource) => Some(resource@),
                None => None,
            }) == resource_of(self@, token@),
    {
        let slot: usize = self.slot_of(token);
        if slot < self.entries.len() {
            assert(self@[slot as int] == entry_view(self.entries@[slot as int]));
            Some(&self.entries[slot].1)
        } else {
            None
        }
    }

    /// Removes the files that have been registered for too long.
    pub fn prune(&mut self, now_ms: u64)
        ensures
            final(self)@ == old(self)@.filter(is_fresh(now_ms)),
    {
        let ghost all = self@;
        let mut kept: Vec<(String, StreamResource)> = Vec::new();
        let mut i: usize = 0;
        proof {
            reveal(Seq::filter);
            assert(all.take(0) =~= Seq::empty());
        }
        let ghost mut kept_view: Seq<(Seq<char>, ResourceView)> = Seq::empty();
        while i < self.entries.len()
            invariant
                i <= self.entries.len(),
                *self == *old(self),
                all == self@,
                kept_view == all.take(i as int).filter(is_fresh(now_ms)),
                kept.len() == kept_view.len(),
                forall|k: int| 0 <= k < kept.len() ==> entry_view(#[trigger] kept@[k]) == kept_view[k],
            decreases self.entries.len() - i,
        {
            let entry = &self.entries[i];
            proof {
                reveal(Seq::filter);
                assert(all.take(i + 1).drop_last() =~= all.take(i as int));
                assert(all.take(i + 1).last() == entry_view(*entry));
            }
            let fresh = now_ms <= entry.1.created_ms || now_ms - entry.1.created_ms
                <= STREAM_TOKEN_TTL_MS;
            if fresh {
                kept.push(
                    (
                        entry.0.clone(),
                        StreamResource {
                            path: entry.1.path.clone(),
                            content_type: entry.1.content_type.clone(),
                            allowed_ip: entry.1.allowed_ip.clone(),
                            created_ms: entry.1.created_ms,
                        },
                    ),
                );
                proof {
                    kept_view = kept_view.push(entry_view(*entry));
                    assert(entry_view(kept@[kept.len() - 1]) == entry_view(*entry));
                }
            }
            i += 1;
        }
        assert(all.take(i as int) =~= all);
        self.entries = kept;
        assert(self@ =~= kept_view);
    }
}

/// A file is found under its token as it was registered, and the files of other tokens stay.
pub proof fn registered_files_are_found(
    entries: Seq<(Seq<char>, ResourceView)>,
    token: Seq<char>,
    resource: ResourceView,
    other: Seq<char>,
)
    requires
        other != token,
    ensures
        resource_of(with_resource(entries, token, resource), token) == Some(resource),
        resource_of(with_resource(entries, token, resource), other) == resource_of(entries, other),
{
    lemma_slot_is_first(entries, token);
    lemma_slot_is_first(entries, other);
    let after = with_resource(entries, token, resource);
    let slot = token_slot(entries, token) as int;
    assert forall|k: int| 0 <= k < slot implies (#[trigger] after[k]).0 != token by {
        assert(after[k] == entries[k]);
    }
    lemma_token_slot(after, token, slot);
    let place = token_slot(entries, other) as int;
    if place < entries.len() {
        assert forall|k: int| 0 <= k < place implies (#[trigger] after[k]).0 != other by {
            if k != slot {
                assert(after[k] == entries[k]);
            }
        }
        lemma_token_slot(after, other, place);
    } else {
        assert forall|k: int| 0 <= k < after.len() implies (#[trigger] after[k]).0 != other by {
            if k != slot {
                assert(after[k] == entries[k]);
            }
        }
        lemma_token_slot(after, other, after.len() as int);
    }
}

proof fn lemma_slot_is_first(entries: Seq<(Seq<char>, ResourceView)>, token: Seq<char>)
    ensures
        token_slot(entries, token) <= entries.len(),
        token_slot(entries, token) < entries.len() ==> entries[token_slot(entries, token) as int].0
            == token,
        forall|k: int| 0 <= k < token_slot(entries, token) ==> (#[trigger] entries[k]).0 != token,
    decreases entries.len(),
{
    if entries.len() > 0 && entries[0].0 != token {
        let rest = entries.skip(1);
        lemma_slot_is_first(rest, token);
        assert forall|k: int| 0 <= k < token_slot(entries, token) implies (#[trigger] entries[k]).0
            != token by {
            if k > 0 {
                assert(rest[k - 1] == entries[k]);
            }
        }
    }
}

/// The address of a file that is registered under a token.
pub open spec fn stream_address(local_ip: Seq<char>, port: u16, token: Seq<char>) -> Seq<char> {
    "http://"@ + local_ip + ":"@ + decimal(port as nat) + "/cast/"@ + token
}

/// The address of a file that is registered under a token.
pub fn media_url(local_ip: &str, port: u16, token: &str) -> (r: String)
    ensures
        r@ == stream_address(local_ip@, port, token@),
{
    let mut out = owned("http://");
    append(&mut out, local_ip);
    append(&mut out, ":");
    append(&mut out, decimal_text(port as u64).as_str());
    append(&mut out, "/cast/");
    append(&mut out, token);
    out
}

/// A short response.
#[derive(Debug, PartialEq, Eq)]
pub struct SimpleResponse {
    pub status_line: String,
    pub content_type: String,
    pub body: String,
}

/// The contents of a [`SimpleResponse`].
#[verifier::ext_equal]
pub struct ResponseView {
    pub status_line: Seq<char>,
    pub content_type: Seq<char>,
    pub body: Seq<char>,
}

impl View for SimpleResponse {
    type V = ResponseView;

    open spec fn view(&self) -> ResponseView {
        ResponseView {
            status_line: self.status_line@,
            content_type: self.content_type@,
            body: self.body@,
        }
    }
}

/// The head of a short response whose body has a length in bytes.
pub open spec fn simple_head(
    status_line: Seq<char>,
    content_type: Seq<char>,
    body_length: nat,
) -> Seq<char> {
    status_line + "\r\nContent-Type: "@ + content_type + "\r\nContent-Length: "@ + decimal(
        body_length,
    ) + "\r\nConnection: close\r\n\r\n"@
}

impl SimpleResponse {
    /// The head of the response.
    pub fn head(&self) -> (r: String)
        ensures
            r@ == simple_head(
                self@.status_line,
                self@.content_type,
                encode_utf8(self@.body).len(),
            ),
    {
        let length: usize = self.body.as_str().as_bytes_vec().len();
        let mut out = self.status_line.clone();
        append(&mut out, "\r\nContent-Type: ");
        append(&mut out, self.content_type.as_str());
        append(&mut out, "\r\nContent-Length: ");
        append(&mut out, decimal_text(length as u64).as_str());
        append(&mut out, "\r\nConnection: close\r\n\r\n");
        out
    }
}

/// The token that a path asks for.
pub open spec fn token_of(path: Seq<char>) -> Option<Seq<char>> {
    let t = trim(path);
    if has_prefix(t, "/cast/"@) && !blank(t.skip("/cast/"@.len() as int)) {
        Some(trim(t.skip("/cast/"@.len() as int)))
    } else {
        None
    }
}

/// What a request comes to before its file is looked up.
#[derive(Debug, PartialEq, Eq)]
pub enum StreamStep {
    Respond(SimpleResponse),
    Fail(String),
    LookUp(String),
}

/// The contents of a [`StreamStep`].
#[verifier::ext_equal]
pub enum StepView {
    Respond(ResponseView),
    Fail(Seq<char>),
    LookUp(Seq<char>),
}

impl View for StreamStep {
    type V = StepView;

    open spec fn view(&self) -> StepView {
        match self {
            StreamStep::Respond(response) => StepView::Respond(response@),
            StreamStep::Fail(text) => StepView::Fail(text@),
            StreamStep::LookUp(token) => StepView::LookUp(token@),
        }
    }
}

pub open spec fn step_of(method: Seq<char>, path: Seq<char>) -> StepView {
    if method != "GET"@ {
        StepView::Respond(
            ResponseView {
                status_line: "HTTP/1.1 405 Method Not Allowed"@,
                content_type: "text/plain; charset=utf-8"@,
                body: "Method Not Allowed\n"@,
            },
        )
    } else {
        match token_of(path) {
            Some(token) => StepView::LookUp(token),
            None => StepView::Fail("invalid cast stream path"@),
        }
    }
}

/// What a request comes to before its file is looked up.
pub fn stream_step(method: &str, path: &str) -> (r: StreamStep)
    ensures
        r@ == step_of(method@, path@),
{
    if !text_equal(method, "GET") {
        return StreamStep::Respond(
            SimpleResponse {
                status_line: owned("HTTP/1.1 405 Method Not Allowed"),
                content_type: owned("text/plain; charset=utf-8"),
                body: owned("Method Not Allowed\n"),
            },
        );
    }
    let trimmed = trim_text(path);
    if text_has_prefix(trimmed.as_str(), "/cast/") {
        let v = chars_of(trimmed.as_str());
        proof {
            reveal_strlit("/cast/");
            assert(v@.subrange(6, v@.len() as int) =~= v@.skip(6));
        }
        let token = trim_chars(&copy_range(&v, 6, v.len()));
        if token.len() > 0 {
            return StreamStep::LookUp(string_of(&token));
        }
    }
    StreamStep::Fail(owned("invalid cast stream path"))
}

/// The response where no file is registered under the token.
pub fn not_found() -> (r: SimpleResponse)
    ensures
        r@ == (ResponseView {
            status_line: "HTTP/1.1 404 Not Found"@,
            content_type: "text/plain; charset=utf-8"@,
            body: "Not Found\n"@,
        }),
{
    SimpleResponse {
        status_line: owned("HTTP/1.1 404 Not Found"),
        content_type: owned("text/plain; charset=utf-8"),
        body: owned("Not Found\n"),
    }
}

/// How a file is served.
#[derive(Debug, PartialEq, Eq)]
pub enum StreamPlan {
    /// An empty file has no contents to serve.
    Respond(SimpleResponse),
    /// The bytes from the first position on, as many as the length says, behind a head.
    Serve { start: u64, length: u64, head: String },
}

/// The contents of a [`StreamPlan`].
#[verifier::ext_equal]
pub enum PlanView {
    Respond(ResponseView),
    Serve { start: u64, length: u64, head: Seq<char> },
}

impl View for StreamPlan {
    type V = PlanView;

    open spec fn view(&self) -> PlanView {
        match self {
            StreamPlan::Respond(response) => PlanView::Respond(response@),
            StreamPlan::Serve { start, length, head } => PlanView::Serve {
                start: *start,
                length: *length,
                head: head@,
            },
        }
    }
}

/// The head under which bytes of a file are served.
pub open spec fn stream_head(
    status_line: Seq<char>,
    content_type: Seq<char>,
    length: nat,
    part: Option<(u64, u64)>,
    file_size: nat,
) -> Seq<char> {
    let start = status_line + "\r\nContent-Type: "@ + content_type
        + "\r\nAccept-Ranges: bytes\r\nContent-Length: "@ + decimal(length)
        + "\r\nConnection: close\r\n"@;
    (match part {
        Some((first, last)) => start + "Content-Range: bytes "@ + decimal(first as nat) + "-"@
            + decimal(last as nat) + "/"@ + decimal(file_size) + "\r\n"@,
        None => start,
    }) + "\r\n"@
}

/// How a file of a size is served for a range header.
pub open spec fn plan_of(
    content_type: Seq<char>,
    range_header: Option<Seq<char>>,
    file_size: u64,
) -> PlanView {
    if file_size == 0 {
        PlanView::Respond(
            ResponseView {
                status_line: "HTTP/1.1 204 No Content"@,
                content_type,
                body: Seq::empty(),
            },
        )
    } else {
        match range_of(range_header, file_size) {
            Some((start, end)) => {
                let length = (end - start + 1) as u64;
                PlanView::Serve {
                    start,
                    length,
                    head: stream_head(
                        "HTTP/1.1 206 Partial Content"@,
                        content_type,
                        length as nat,
                        Some((start, end)),
                        file_size as nat,
                    ),
                }
            },
            None => PlanView::Serve {
                start: 0,
                length: file_size,
                head: stream_head(
                    "HTTP/1.1 200 OK"@,
                    content_type,
                    file_size as nat,
                    None,
                    file_size as nat,
                ),
            },
        }
    }
}

fn stream_head_text(
    status_line: &str,
    content_type: &str,
    length: u64,
    part: Option<(u64, u64)>,
    file_size: u64,
) -> (r: String)
    ensures
        r@ == stream_head(status_line@, content_type@, length as nat, part, file_size as nat),
{
    let mut out = owned(status_line);
    append(&mut out, "\r\nContent-Type: ");
    append(&mut out, content_type);
    append(&mut out, "\r\nAccept-Ranges: bytes\r\nContent-Length: ");
    append(&mut out, decimal_text(length).as_str());
    append(&mut out, "\r\nConnection: close\r\n");
    match part {
        Some((first, last)) => {
            append(&mut out, "Content-Range: bytes ");
            append(&mut out, decimal_text(first).as_str());
            append(&mut out, "-");
            append(&mut out, decimal_text(last).as_str());
            append(&mut out, "/");
            append(&mut out, decimal_text(file_size).as_str());
            append(&mut out, "\r\n");
        },
        None => {},
    }
    append(&mut out, "\r\n");
    out
}

/// How a file of a size is served for a range header.
pub fn stream_plan(content_type: &str, range_header: Option<&str>, file_size: u64) -> (r:
    StreamPlan)
    ensures
        r@ == plan_of(
            content_type@,
            match range_header {
                Some(value) => Some(value@),
                None => None,
            },
            file_size,
        ),
{
    if file_size == 0 {
        let body = String::new();
        assert(body@ =~= Seq::empty());
        return StreamPlan::Respond(
            SimpleResponse {
                status_line: owned("HTTP/1.1 204 No Content"),
                content_type: owned(content_type),
                body,
            },
        );
    }
    match parse_range_header(range_header, file_size) {
        Some((start, end)) => {
            let length: u64 = end - start + 1;
            StreamPlan::Serve {
                start,
                length,
                head: stream_head_text(
                    "HTTP/1.1 206 Partial Content",
                    content_type,
                    length,
                    Some((start, end)),
                    file_size,
                ),
            }
        },
        None => StreamPlan::Serve {
            start: 0,
            length: file_size,
            head: stream_head_text("HTTP/1.1 200 OK", content_type, file_size, None, file_size),
        },
    }
}

/// What is served lies in the file, and is never empty.
pub proof fn served_bytes_lie_in_the_file(
    content_type: Seq<char>,
    range_header: Option<Seq<char>>,
    file_size: u64,
)
    requires
        file_size > 0,
    ensures
        match plan_of(content_type, range_header, file_size) {
            PlanView::Serve { start, length, head } => length > 0 && start + length <= file_size,
            PlanView::Respond(_) => false,
        },
{
}

/// How many bytes are read next.
pub fn next_read(remaining: u64, buffer_length: usize) -> (r: usize)
    ensures
        r as int == if remaining <= buffer_length {
            remaining as int
        } else {
            buffer_length as int
        },
{
    if remaining <= buffer_length as u64 {
        remaining as usize
    } else {
        buffer_length
    }
}

/// A number in hexadecimal digits, as many as asked for.
pub open spec fn hex_digits(n: nat, width: nat) -> Seq<char>
    decreases width,
{
    if width == 0 {
        Seq::empty()
    } else {
        hex_digits(n / 16, (width - 1) as nat).push(hex_digit(n % 16))
    }
}

pub open spec fn hex_digit(n: nat) -> char {
    if n < 10 {
        ('0' as u8 + n) as u8 as char
    } else {
        ('a' as u8 + (n - 10)) as u8 as char
    }
}

fn hex_chars(n: u128, width: usize) -> (r: Vec<char>)
    ensures
        r@ == hex_digits(n as nat, width as nat),
    decreases width,
{
    if width == 0 {
        let out: Vec<char> = Vec::new();
        assert(out@ =~= Seq::empty());
        out
    } else {
        let mut out = hex_chars(n / 16, width - 1);
        let digit: u8 = (n % 16) as u8;
        let c: char = if digit < 10 {
            ('0' as u8 + digit) as char
        } else {
            ('a' as u8 + (digit - 10)) as char
        };
        out.push(c);
        out
    }
}

/// The token that a time makes: its nanoseconds in 32 hexadecimal digits.
pub fn token_from_nanos(nanos: u128) -> (r: String)
    ensures
        r@ == hex_digits(nanos as nat, 32),
{
    string_of(&hex_chars(nanos, 32))
}

/// The name of the file that a transcoded track is kept in.
pub fn wav_file_name(hash: u64) -> (r: String)
    ensures
        r@ == hex_digits(hash as nat, 16) + ".wav"@,
{
    let mut out = string_of(&hex_chars(hash as u128, 16));
    append(&mut out, ".wav");
    out
}

/// What tells transcoded tracks apart: the path, size and age of their source.
pub fn transcode_key(path: &str, size: u64, modified_secs: u64) -> (r: String)
    ensures
        r@ == path@ + ":"@ + decimal(size as nat) + ":"@ + decimal(modified_secs as nat),
{
    let mut out = owned(path);
    append(&mut out, ":");
    append(&mut out, decimal_text(size).as_str());
    append(&mut out, ":");
    append(&mut out, decimal_text(modified_secs).as_str());
    out
}

} // verus!
