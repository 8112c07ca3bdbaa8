//! Laws of the stream server: which bytes a request gets, and under which head.

use crate::cast::http::{
    content_type_of, header_value, headers_of, hex_digits, is_fresh, plan_of, range_of, request_line,
    simple_head, step_of, stream_address, token_of, PlanView, ResourceView, StepView,
};
use crate::integration::uri::cut;
use crate::library::paths::small_extension;
use crate::text::{ascii_digit, blank, decimal, has_prefix, lower, trim, white_space, words};
use crate::text_laws::{decimals_read_back, trimmed_texts_stay};
use vstd::prelude::*;

verus! {

proof fn lemma_cut(a: Seq<char>, b: Seq<char>)
    requires
        forall|i: int| 0 <= i < a.len() ==> #[trigger] a[i] != '-',
    ensures
        cut(a + seq!['-'] + b, '-') == (a, Some(b)),
{
    crate::text::lemma_first_of_concat(a, b, '-');
    let whole = a + seq!['-'] + b;
    assert(whole.take(a.len() as int) =~= a);
    assert(whole.skip(a.len() as int + 1) =~= b);
}

proof fn lemma_range(a: Seq<char>, b: Seq<char>, file_size: u64)
    requires
        forall|i: int| 0 <= i < a.len() ==> #[trigger] a[i] != '-',
    ensures
        has_prefix("bytes="@ + a + "-"@ + b, "bytes="@),
        cut(("bytes="@ + a + "-"@ + b).skip("bytes="@.len() as int), '-') == (a, Some(b)),
{
    reveal_strlit("bytes=");
    reveal_strlit("-");
    let whole = "bytes="@ + a + "-"@ + b;
    assert(whole.subrange(0, "bytes="@.len() as int) =~= "bytes="@);
    assert(whole.skip("bytes="@.len() as int) =~= a + seq!['-'] + b);
    lemma_cut(a, b);
}

proof fn lemma_no_dash(n: nat)
    ensures
        forall|i: int| 0 <= i < decimal(n).len() ==> #[trigger] decimal(n)[i] != '-',
{
    decimals_read_back(n);
    assert forall|i: int| 0 <= i < decimal(n).len() implies #[trigger] decimal(n)[i] != '-' by {
        assert(ascii_digit(decimal(n)[i]));
    }
}

/// A request for the bytes from one place to another, both in the file, gets exactly those,
/// under a head of their own; one for the bytes from a place on gets the rest of the file; and
/// one without a range the whole file.
pub proof fn asked_bytes_are_served(content_type: Seq<char>, first: u64, last: u64, file_size: u64)
    requires
        first <= last < file_size,
    ensures
        range_of(Some("bytes="@ + decimal(first as nat) + "-"@ + decimal(last as nat)), file_size)
            == Some((first, last)),
        range_of(Some("bytes="@ + decimal(first as nat) + "-"@ + ""@), file_size) == Some(
            (first, (file_size - 1) as u64),
        ),
        range_of(None, file_size) is None,
        ({
            let header = Some("bytes="@ + decimal(first as nat) + "-"@ + decimal(last as nat));
            &&& plan_of(content_type, header, file_size) matches PlanView::Serve {
                start,
                length,
                head,
            }
            &&& start == first
            &&& length == last - first + 1
            &&& head == "HTTP/1.1 206 Partial Content"@ + "\r\nContent-Type: "@ + content_type
                + "\r\nAccept-Ranges: bytes\r\nContent-Length: "@ + decimal(length as nat)
                + "\r\nConnection: close\r\n"@ + "Content-Range: bytes "@ + decimal(first as nat)
                + "-"@ + decimal(last as nat) + "/"@ + decimal(file_size as nat) + "\r\n"@
                + "\r\n"@
        }),
        ({
            &&& plan_of(content_type, None, file_size) matches PlanView::Serve {
                start,
                length,
                head,
            }
            &&& start == 0
            &&& length == file_size
            &&& head == "HTTP/1.1 200 OK"@ + "\r\nContent-Type: "@ + content_type
                + "\r\nAccept-Ranges: bytes\r\nContent-Length: "@ + decimal(file_size as nat)
                + "\r\nConnection: close\r\n"@ + "\r\n"@
        }),
{
    lemma_no_dash(first as nat);
    decimals_read_back(first as nat);
    decimals_read_back(last as nat);
    lemma_range(decimal(first as nat), decimal(last as nat), file_size);
    lemma_range(decimal(first as nat), ""@, file_size);
    reveal_strlit("");
    assert(""@ =~= Seq::<char>::empty());
    assert(blank(""@));
}

/// A range that ends before it begins, or behind the file, is passed over: the whole file is
/// served.
pub proof fn bad_ranges_get_the_whole_file(
    content_type: Seq<char>,
    first: u64,
    last: u64,
    file_size: u64,
)
    requires
        first > last || last >= file_size,
        file_size > 0,
    ensures
        ({
            let header = Some("bytes="@ + decimal(first as nat) + "-"@ + decimal(last as nat));
            plan_of(content_type, header, file_size) == plan_of(content_type, None, file_size)
        }),
{
    lemma_no_dash(first as nat);
    decimals_read_back(first as nat);
    decimals_read_back(last as nat);
    lemma_range(decimal(first as nat), decimal(last as nat), file_size);
}

/// An empty file has no contents to serve.
pub proof fn empty_files_have_no_content(content_type: Seq<char>, range: Option<Seq<char>>)
    ensures
        ({
            &&& plan_of(content_type, range, 0) matches PlanView::Respond(response)
            &&& response.status_line == "HTTP/1.1 204 No Content"@
            &&& response.content_type == content_type
            &&& response.body.len() == 0
        }),
{
}

/// A token without white space at its ends is found in its own path, and looked up when its
/// path is asked for.
pub proof fn tokens_are_looked_up(token: Seq<char>)
    requires
        token.len() > 0,
        !white_space(token[0]),
        !white_space(token.last()),
    ensures
        token_of("/cast/"@ + token) == Some(token),
        step_of("GET"@, "/cast/"@ + token) == StepView::LookUp(token),
{
    reveal_strlit("/cast/");
    let path = "/cast/"@ + token;
    assert(path[0] == '/');
    assert(!white_space('/'));
    assert(path.last() == token.last());
    trimmed_texts_stay(path);
    trimmed_texts_stay(token);
    assert(path.subrange(0, "/cast/"@.len() as int) =~= "/cast/"@);
    assert(path.skip("/cast/"@.len() as int) =~= token);
}

/// Only GET is answered; a path outside the streams fails.
pub proof fn other_requests_are_refused(method: Seq<char>, path: Seq<char>)
    ensures
        method != "GET"@ ==> (step_of(method, path) matches StepView::Respond(response)
            && response.status_line == "HTTP/1.1 405 Method Not Allowed"@),
        method == "GET"@ && !has_prefix(trim(path), "/cast/"@) ==> step_of(method, path)
            is Fail,
{
}

/// The address of a stream names the host, the port and the token.
pub proof fn stream_addresses_name_their_token(ip: Seq<char>, port: u16, token: Seq<char>)
    ensures
        stream_address(ip, port, token) == "http://"@ + ip + ":"@ + decimal(port as nat)
            + "/cast/"@ + token,
{
}

/// A file is served for half an hour after it was registered, to the millisecond.
pub proof fn files_are_served_for_half_an_hour(
    token: Seq<char>,
    resource: ResourceView,
    now_ms: u64,
)
    ensures
        is_fresh(now_ms)((token, resource)) <==> now_ms - resource.created_ms <= 30 * 60 * 1000,
{
}

/// The header that is asked for is the last one of its name.
pub proof fn the_last_header_counts(headers: Seq<(Seq<char>, Seq<char>)>, name: Seq<char>)
    ensures
        header_value(headers, name) is None <==> forall|i: int|
            0 <= i < headers.len() ==> (#[trigger] headers[i]).0 != name,
        header_value(headers, name) matches Some(value) ==> exists|i: int|
            0 <= i < headers.len() && #[trigger] headers[i] == (name, value) && forall|j: int|
                i < j < headers.len() ==> (#[trigger] headers[j]).0 != name,
    decreases headers.len(),
{
    if headers.len() > 0 {
        let n = headers.len() - 1;
        if headers[n].0 == name {
            assert(headers[n] == (name, header_value(headers, name)->Some_0));
        } else {
            let rest = headers.drop_last();
            the_last_header_counts(rest, name);
            if header_value(headers, name) is None {
                assert forall|i: int| 0 <= i < headers.len() implies (#[trigger] headers[i]).0
                    != name by {
                    if i < n {
                        assert(rest[i] == headers[i]);
                    }
                }
            } else {
                let value = header_value(headers, name)->Some_0;
                let i = choose|i: int|
                    0 <= i < rest.len() && #[trigger] rest[i] == (name, value) && forall|j: int|
                        i < j < rest.len() ==> (#[trigger] rest[j]).0 != name;
                assert(headers[i] == (name, value));
                assert forall|j: int| i < j < headers.len() implies (#[trigger] headers[j]).0
                    != name by {
                    if j < n {
                        assert(rest[j] == headers[j]);
                    }
                }
            }
        }
    }
}

/// A line with a colon is a header: its name in lower case before the first colon, its value
/// behind it, both trimmed. A line without one is none.
pub proof fn lines_with_colons_are_headers(lines: Seq<Seq<char>>, name: Seq<char>, value: Seq<char>)
    requires
        forall|i: int| 0 <= i < name.len() ==> #[trigger] name[i] != ':',
    ensures
        headers_of(lines.push(name + seq![':'] + value)) == headers_of(lines).push(
            (lower(trim(name)), trim(value)),
        ),
        headers_of(lines.push(name)) == headers_of(lines),
{
    crate::text::lemma_first_of_concat(name, value, ':');
    let line = name + seq![':'] + value;
    assert(line.take(name.len() as int) =~= name);
    assert(line.skip(name.len() as int + 1) =~= value);
    assert(lines.push(line).drop_last() =~= lines);
    assert(lines.push(name).drop_last() =~= lines);
}

/// A request line gives its first two words.
pub proof fn requests_name_method_and_path(line: Seq<char>)
    ensures
        request_line(line) matches Ok((method, path)) ==> words(line).len() >= 2 && method
            == words(line)[0] && path == words(line)[1],
        blank(line) ==> request_line(line) is Err,
        words(line).len() < 2 ==> request_line(line) is Err,
{
}

/// Each kind of audio file is served as what it is, in any case of its ending.
pub proof fn audio_files_tell_their_type(path: Seq<char>)
    ensures
        small_extension(path) == Some("flac"@) ==> content_type_of(path) == "audio/flac"@,
        small_extension(path) == Some("mp3"@) ==> content_type_of(path) == "audio/mpeg"@,
        small_extension(path) == Some("wav"@) ==> content_type_of(path) == "audio/wav"@,
        small_extension(path) == Some("ogg"@) ==> content_type_of(path) == "audio/ogg"@,
        small_extension(path) == Some("m4a"@) ==> content_type_of(path) == "audio/mp4"@,
        small_extension(path) == Some("mp4"@) ==> content_type_of(path) == "audio/mp4"@,
        small_extension(path) == Some("aac"@) ==> content_type_of(path) == "audio/aac"@,
        small_extension(path) is None ==> content_type_of(path) == "application/octet-stream"@,
{
    reveal_strlit("flac");
    reveal_strlit("mp3");
    reveal_strlit("wav");
    reveal_strlit("ogg");
    reveal_strlit("m4a");
    reveal_strlit("mp4");
    reveal_strlit("aac");
    assert("flac"@.len() == 4);
    assert("mp3"@.len() == 3 && "mp3"@[0] == 'm' && "mp3"@[1] == 'p' && "mp3"@[2] == '3');
    assert("wav"@.len() == 3 && "wav"@[0] == 'w');
    assert("ogg"@.len() == 3 && "ogg"@[0] == 'o');
    assert("m4a"@.len() == 3 && "m4a"@[1] == '4' && "m4a"@[0] == 'm');
    assert("mp4"@.len() == 3 && "mp4"@[0] == 'm' && "mp4"@[2] == '4');
    assert("aac"@.len() == 3 && "aac"@[0] == 'a');
}

/// A plain answer is told with its status, its type and its length.
pub proof fn plain_answers_tell_their_length(
    status: Seq<char>,
    content_type: Seq<char>,
    length: nat,
)
    ensures
        simple_head(status, content_type, length) == status + "\r\nContent-Type: "@ + content_type
            + "\r\nContent-Length: "@ + decimal(length) + "\r\nConnection: close\r\n\r\n"@,
{
}

/// The value of a digit of base sixteen in lower case.
pub open spec fn hex_value(c: char) -> nat {
    if c <= '9' {
        (c as nat - '0' as nat) as nat
    } else {
        (c as nat - 'a' as nat + 10) as nat
    }
}

/// The value of digits of base sixteen.
pub open spec fn hex_number(s: Seq<char>) -> nat
    decreases s.len(),
{
    if s.len() == 0 {
        0
    } else {
        16 * hex_number(s.drop_last()) + hex_value(s.last())
    }
}

/// The largest number that some digits of base sixteen can tell, and one more.
pub open spec fn hex_limit(width: nat) -> nat
    decreases width,
{
    if width == 0 {
        1
    } else {
        16 * hex_limit((width - 1) as nat)
    }
}

/// A number that fits is written in exactly as many digits as asked for, and they tell the
/// number.
pub proof fn hex_digits_tell_the_number(n: nat, width: nat)
    requires
        n < hex_limit(width),
    ensures
        hex_digits(n, width).len() == width,
        hex_number(hex_digits(n, width)) == n,
    decreases width,
{
    if width > 0 {
        assert(n / 16 < hex_limit((width - 1) as nat));
        hex_digits_tell_the_number(n / 16, (width - 1) as nat);
        let all = hex_digits(n, width);
        assert(all.drop_last() =~= hex_digits(n / 16, (width - 1) as nat));
        assert(hex_value(all.last()) == n % 16);
    }
}

} // verus!
