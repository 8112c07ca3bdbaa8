//! The frames in which a cast device and the player exchange messages.
//!
//! A frame is a length in four bytes, the most significant first, and a body. The body is a list
//! of numbered fields, each of them a number or a text.

use crate::text::owned;
use vstd::prelude::*;
use vstd::string::StrSliceExecFns;
use vstd::utf8::{decode_utf8, encode_utf8, valid_utf8};

verus! {

/// A number in groups of seven bits, the lowest first; each byte but the last is marked.
pub open spec fn varint(n: nat) -> Seq<u8>
    decreases n,
{
    if n < 128 {
        seq![n as u8]
    } else {
        seq![(n % 128 + 128) as u8] + varint(n / 128)
    }
}

/// The number that bytes write, whatever their marks.
pub open spec fn groups_value(bytes: Seq<u8>) -> nat
    decreases bytes.len(),
{
    if bytes.len() == 0 {
        0
    } else {
        (bytes[0] % 128) as nat + 128 * groups_value(bytes.skip(1))
    }
}

/// The position behind the first byte without a mark among the next `count` bytes.
pub open spec fn varint_end(bytes: Seq<u8>, at: int, count: nat) -> Option<int>
    decreases count,
{
    if count == 0 || at >= bytes.len() {
        None
    } else if bytes[at] < 128 {
        Some(at + 1)
    } else {
        varint_end(bytes, at + 1, (count - 1) as nat)
    }
}

/// One more than the largest number.
pub open spec fn word_limit() -> nat {
    0x1_0000_0000_0000_0000
}

/// The number that stands at a position, in 64 bits, and the position behind it. A number has at
/// most ten bytes.
pub open spec fn varint_at(bytes: Seq<u8>, at: int) -> Option<(nat, int)> {
    match varint_end(bytes, at, 10) {
        Some(end) => Some((groups_value(bytes.subrange(at, end)) % word_limit(), end)),
        None => None,
    }
}

/// Writes a number.
pub fn write_varint(out: &mut Vec<u8>, value: u64)
    ensures
        final(out)@ == old(out)@ + varint(value as nat),
{
    let ghost start = out@;
    let mut left: u64 = value;
    let ghost mut written: Seq<u8> = Seq::empty();
    assert(written + varint(left as nat) =~= varint(value as nat));
    assert(out@ =~= start + written);
    while left >= 128
        invariant
            written + varint(left as nat) == varint(value as nat),
            out@ == start + written,
        decreases left,
    {
        let byte: u8 = (left % 128 + 128) as u8;
        out.push(byte);
        proof {
            let next = written.push(byte);
            assert(next + varint((left / 128) as nat) =~= written + varint(left as nat));
            assert(out@ =~= start + next);
            written = next;
        }
        left = left / 128;
    }
    out.push(left as u8);
    assert(varint(left as nat) =~= seq![left as u8]);
    assert(out@ =~= start + (written + varint(left as nat)));
}

proof fn lemma_groups_push(bytes: Seq<u8>, byte: u8)
    ensures
        groups_value(bytes.push(byte)) == groups_value(bytes) + (byte % 128) as nat * scale(
            bytes.len(),
        ),
    decreases bytes.len(),
{
    let all = bytes.push(byte);
    if bytes.len() == 0 {
        assert(all.skip(1) =~= Seq::empty());
        assert(groups_value(all.skip(1)) == 0);
        assert(scale(0) == 1);
        assert(all[0] == byte);
        assert((byte % 128) as nat * 1 == (byte % 128) as nat);
    } else {
        assert(all.skip(1) =~= bytes.skip(1).push(byte));
        lemma_groups_push(bytes.skip(1), byte);
        let low = (byte % 128) as nat;
        let s = scale((bytes.len() - 1) as nat);
        assert(scale(bytes.len()) == 128 * s);
        assert(128 * (low * s) == low * (128 * s)) by (nonlinear_arith);
        assert(all[0] == bytes[0]);
    }
}

/// What the group at a place counts.
pub open spec fn scale(n: nat) -> nat
    decreases n,
{
    if n == 0 {
        1
    } else {
        128 * scale((n - 1) as nat)
    }
}

proof fn lemma_scale_small()
    ensures
        scale(0) == 1,
        scale(10) == 0x40_0000_0000_0000_0000,
{
    reveal_with_fuel(scale, 11);
}

proof fn lemma_scale_bound(n: nat)
    requires
        n <= 10,
    ensures
        1 <= scale(n) <= 0x40_0000_0000_0000_0000,
{
    lemma_scale_small();
    lemma_scale_grows(n, 10);
}

proof fn lemma_scale_grows(n: nat, m: nat)
    requires
        n <= m,
    ensures
        1 <= scale(n) <= scale(m),
    decreases m,
{
    if n < m {
        lemma_scale_grows(n, (m - 1) as nat);
    } else if n > 0 {
        lemma_scale_grows((n - 1) as nat, (n - 1) as nat);
    }
}

proof fn lemma_groups_bound(bytes: Seq<u8>)
    ensures
        groups_value(bytes) < scale(bytes.len()),
    decreases bytes.len(),
{
    if bytes.len() > 0 {
        lemma_groups_bound(bytes.skip(1));
        assert(groups_value(bytes) <= 127 + 128 * (scale((bytes.len() - 1) as nat) - 1));
    }
}

/// Where a search for a number at a position ends without one: at the end, or ten bytes on.
pub open spec fn varint_stop(bytes: Seq<u8>, at: int) -> int {
    if at >= bytes.len() {
        at
    } else if at + 10 < bytes.len() {
        at + 10
    } else {
        bytes.len() as int
    }
}

/// Reads a number and moves the position behind it. Without a number there, the position moves
/// behind the bytes that were looked at.
pub fn read_varint(bytes: &Vec<u8>, cursor: &mut usize) -> (r: Option<u64>)
    ensures
        match r {
            Some(value) => varint_at(bytes@, *old(cursor) as int) == Some(
                (value as nat, *final(cursor) as int),
            ),
            None => varint_at(bytes@, *old(cursor) as int) is None && *final(cursor)
                == varint_stop(bytes@, *old(cursor) as int),
        },
        r is Some ==> *old(cursor) < *final(cursor) <= bytes.len(),
{
    let start: usize = *cursor;
    let mut at: usize = *cursor;
    let mut count: usize = 0;
    let mut total: u128 = 0;
    let mut unit: u128 = 1;
    proof {
        lemma_scale_small();
        if start <= bytes.len() {
            assert(bytes@.subrange(start as int, start as int) =~= Seq::empty());
        }
    }
    if at >= bytes.len() {
        return None;
    }
    while at < bytes.len() && count < 10
        invariant
            start <= at <= bytes.len(),
            start < bytes.len(),
            at == start + count,
            count <= 10,
            *cursor == start,
            start == *old(cursor),
            varint_end(bytes@, start as int, 10) == varint_end(
                bytes@,
                at as int,
                (10 - count) as nat,
            ),
            unit == scale(count as nat),
            total == groups_value(bytes@.subrange(start as int, at as int)),
            total < unit,
            scale(10) == 0x40_0000_0000_0000_0000,
        decreases bytes.len() - at,
    {
        let byte: u8 = bytes[at];
        proof {
            lemma_scale_bound(count as nat);
            let before = bytes@.subrange(start as int, at as int);
            assert(bytes@.subrange(start as int, at + 1) =~= before.push(byte));
            lemma_groups_push(before, byte);
            lemma_groups_bound(before.push(byte));
            assert(before.push(byte).len() == count + 1);
            lemma_scale_bound((count + 1) as nat);
        }
        assert((byte % 128) as nat * unit <= 127 * unit) by (nonlinear_arith)
            requires
                (byte % 128) as nat <= 127,
        ;
        total = total + (byte % 128) as u128 * unit;
        at += 1;
        if byte < 128 {
            *cursor = at;
            let value: u128 = total % 0x1_0000_0000_0000_0000u128;
            return Some(value as u64);
        }
        count += 1;
        unit = unit * 128;
    }
    *cursor = at;
    None
}

/// A numbered field that holds a number.
pub open spec fn number_field(field: nat, value: nat) -> Seq<u8> {
    varint(8 * field) + varint(value)
}

/// A numbered field that holds a text.
pub open spec fn text_field(field: nat, text: Seq<char>) -> Seq<u8> {
    varint(8 * field + 2) + varint(encode_utf8(text).len()) + encode_utf8(text)
}

/// The body of a frame that carries a text message.
pub open spec fn frame_body(
    source_id: Seq<char>,
    destination_id: Seq<char>,
    namespace: Seq<char>,
    payload: Seq<char>,
) -> Seq<u8> {
    number_field(1, 0) + text_field(2, source_id) + text_field(3, destination_id) + text_field(
        4,
        namespace,
    ) + number_field(5, 0) + text_field(6, payload)
}

/// A length in four bytes, the most significant first.
pub open spec fn length_bytes(n: nat) -> Seq<u8> {
    seq![
        (n / 0x100_0000 % 0x100) as u8,
        (n / 0x1_0000 % 0x100) as u8,
        (n / 0x100 % 0x100) as u8,
        (n % 0x100) as u8,
    ]
}

/// The length that four bytes write.
pub open spec fn length_value(b: Seq<u8>) -> nat {
    b[0] as nat * 0x100_0000 + b[1] as nat * 0x1_0000 + b[2] as nat * 0x100 + b[3] as nat
}

fn append_bytes(out: &mut Vec<u8>, bytes: &Vec<u8>)
    ensures
        final(out)@ == old(out)@ + bytes@,
{
    let ghost start = out@;
    let mut i: usize = 0;
    assert(start + bytes@.take(0) =~= start);
    while i < bytes.len()
        invariant
            i <= bytes.len(),
            out@ == start + bytes@.take(i as int),
        decreases bytes.len() - i,
    {
        out.push(bytes[i]);
        assert(start + bytes@.take(i + 1) =~= (start + bytes@.take(i as int)).push(
            bytes@[i as int],
        ));
        i += 1;
    }
    assert(bytes@.take(i as int) =~= bytes@);
}

/// Writes a field that holds a number.
pub fn write_varint_field(out: &mut Vec<u8>, field_number: u32, value: u64)
    ensures
        final(out)@ == old(out)@ + number_field(field_number as nat, value as nat),
{
    let ghost start = out@;
    write_varint(out, field_number as u64 * 8);
    write_varint(out, value);
    assert(out@ =~= start + number_field(field_number as nat, value as nat));
}

/// Writes a field that holds a text.
pub fn write_string_field(out: &mut Vec<u8>, field_number: u32, value: &str)
    ensures
        final(out)@ == old(out)@ + text_field(field_number as nat, value@),
{
    let ghost start = out@;
    let bytes = value.as_bytes_vec();
    write_varint(out, field_number as u64 * 8 + 2);
    write_varint(out, bytes.len() as u64);
    append_bytes(out, &bytes);
    assert(out@ =~= start + text_field(field_number as nat, value@));
}

/// The frame that carries a text message; a body whose length does not fit has none.
pub fn encode_cast_frame(
    source_id: &str,
    destination_id: &str,
    namespace: &str,
    payload_utf8: &str,
) -> (r: Result<Vec<u8>, String>)
    ensures
        ({
            let body = frame_body(source_id@, destination_id@, namespace@, payload_utf8@);
            match r {
                Ok(frame) => body.len() <= u32::MAX && frame@ == length_bytes(body.len()) + body,
                Err(e) => body.len() > u32::MAX && e@ == "cast frame too large"@,
            }
        }),
{
    let mut body: Vec<u8> = Vec::new();
    write_varint_field(&mut body, 1, 0);
    write_string_field(&mut body, 2, source_id);
    write_string_field(&mut body, 3, destination_id);
    write_string_field(&mut body, 4, namespace);
    write_varint_field(&mut body, 5, 0);
    write_string_field(&mut body, 6, payload_utf8);
    assert(body@ =~= frame_body(source_id@, destination_id@, namespace@, payload_utf8@));
    if body.len() > u32::MAX as usize {
        return Err(owned("cast frame too large"));
    }
    let n: usize = body.len();
    let mut frame: Vec<u8> = Vec::new();
    frame.push((n / 0x100_0000 % 0x100) as u8);
    frame.push((n / 0x1_0000 % 0x100) as u8);
    frame.push((n / 0x100 % 0x100) as u8);
    frame.push((n % 0x100) as u8);
    assert(frame@ =~= length_bytes(n as nat));
    append_bytes(&mut frame, &body);
    Ok(frame)
}

/// The length of the body that follows the first four bytes of a frame.
pub fn frame_length(head: &Vec<u8>) -> (r: u32)
    requires
        head.len() == 4,
    ensures
        r == length_value(head@),
{
    head[0] as u32 * 0x100_0000 + head[1] as u32 * 0x1_0000 + head[2] as u32 * 0x100
        + head[3] as u32
}

/// A message that came in a frame.
#[derive(Debug, PartialEq, Eq)]
pub struct DecodedFrame {
    pub source_id: String,
    pub namespace: String,
    pub payload_utf8: String,
}

/// The contents of a [`DecodedFrame`].
#[verifier::ext_equal]
pub struct FrameView {
    pub source_id: Seq<char>,
    pub namespace: Seq<char>,
    pub payload_utf8: Seq<char>,
}

impl View for DecodedFrame {
    type V = FrameView;

    open spec fn view(&self) -> FrameView {
        FrameView {
            source_id: self.source_id@,
            namespace: self.namespace@,
            payload_utf8: self.payload_utf8@,
        }
    }
}

/// A message with the text of one more field.
pub open spec fn with_field(f: FrameView, field: nat, text: Seq<char>) -> FrameView {
    if field == 2 {
        FrameView { source_id: text, ..f }
    } else if field == 4 {
        FrameView { namespace: text, ..f }
    } else if field == 6 {
        FrameView { payload_utf8: text, ..f }
    } else {
        f
    }
}

pub proof fn lemma_varint_end(bytes: Seq<u8>, at: int, count: nat)
    ensures
        match varint_end(bytes, at, count) {
            Some(end) => at < end <= bytes.len(),
            None => true,
        },
    decreases count,
{
    if count > 0 && at < bytes.len() && bytes[at] >= 128 {
        lemma_varint_end(bytes, at + 1, (count - 1) as nat);
    }
}

/// The message that the fields from a position on complete, or what is wrong with them.
pub open spec fn fields_from(bytes: Seq<u8>, at: int, f: FrameView) -> Result<FrameView, Seq<char>>
    decreases bytes.len() - at,
{
    if at >= bytes.len() {
        Ok(f)
    } else {
        proof {
            lemma_varint_end(bytes, at, 10);
        }
        match varint_at(bytes, at) {
            None => Err("invalid cast protobuf key"@),
            Some((key, behind_key)) => {
                proof {
                    lemma_varint_end(bytes, behind_key, 10);
                }
                if key % 8 == 0 {
                    match varint_at(bytes, behind_key) {
                        None => Err("invalid cast protobuf varint field"@),
                        Some((_, next)) => fields_from(bytes, next, f),
                    }
                } else if key % 8 == 2 {
                    match varint_at(bytes, behind_key) {
                        None => Err("invalid cast protobuf length"@),
                        Some((length, from)) => {
                            let part = bytes.subrange(from, from + length);
                            if from + length > bytes.len() {
                                Err("cast protobuf string out of bounds"@)
                            } else if !valid_utf8(part) {
                                Err("cast protobuf invalid utf8"@)
                            } else {
                                fields_from(
                                    bytes,
                                    from + length,
                                    with_field(f, key / 8 % 0x1_0000_0000, decode_utf8(part)),
                                )
                            }
                        },
                    }
                } else {
                    Err("unsupported cast protobuf wire type"@)
                }
            },
        }
    }
}

/// The message in a body, or what is wrong with it.
pub open spec fn decoded_body(bytes: Seq<u8>) -> Result<FrameView, Seq<char>> {
    fields_from(
        bytes,
        0,
        FrameView {
            source_id: Seq::empty(),
            namespace: Seq::empty(),
            payload_utf8: Seq::empty(),
        },
    )
}

/// Calls `String::from_utf8`, which gives the text that the bytes encode, and nothing where they
/// are no UTF-8.
#[verifier::external_body]
fn text_from_utf8(bytes: Vec<u8>) -> (r: Option<String>)
    ensures
        match r {
            Some(text) => valid_utf8(bytes@) && text@ == decode_utf8(bytes@),
            None => !valid_utf8(bytes@),
        },
{
    String::from_utf8(bytes).ok()
}

fn copy_bytes(bytes: &Vec<u8>, from: usize, to: usize) -> (r: Vec<u8>)
    requires
        from <= to <= bytes.len(),
    ensures
        r@ == bytes@.subrange(from as int, to as int),
{
    let mut out: Vec<u8> = Vec::new();
    let mut i: usize = from;
    while i < to
        invariant
            from <= i <= to <= bytes.len(),
            out@ == bytes@.subrange(from as int, i as int),
        decreases to - i,
    {
        out.push(bytes[i]);
        assert(bytes@.subrange(from as int, i + 1) =~= bytes@.subrange(from as int, i as int).push(
            bytes@[i as int],
        ));
        i += 1;
    }
    out
}

/// The message in a body, or what is wrong with it.
pub fn decode_cast_frame(bytes: &Vec<u8>) -> (r: Result<DecodedFrame, String>)
    ensures
        (match r {
            Ok(frame) => Ok(frame@),
            Err(e) => Err(e@),
        }) == decoded_body(bytes@),
{
    let mut frame = DecodedFrame {
        source_id: String::new(),
        namespace: String::new(),
        payload_utf8: String::new(),
    };
    assert(frame@ =~= FrameView {
        source_id: Seq::empty(),
        namespace: Seq::empty(),
        payload_utf8: Seq::empty(),
    });
    let mut cursor: usize = 0;
    while cursor < bytes.len()
        invariant
            cursor <= bytes.len(),
            fields_from(bytes@, cursor as int, frame@) == decoded_body(bytes@),
        decreases bytes.len() - cursor,
    {
        let key: u64 = match read_varint(bytes, &mut cursor) {
            Some(key) => key,
            None => {
                return Err(owned("invalid cast protobuf key"));
            },
        };
        let field_number: u64 = key / 8 % 0x1_0000_0000;
        let wire_type: u64 = key % 8;
        if wire_type == 0 {
            match read_varint(bytes, &mut cursor) {
                Some(_) => {},
                None => {
                    return Err(owned("invalid cast protobuf varint field"));
                },
            }
        } else if wire_type == 2 {
            let length: u64 = match read_varint(bytes, &mut cursor) {
                Some(length) => length,
                None => {
                    return Err(owned("invalid cast protobuf length"));
                },
            };
            if length > (bytes.len() - cursor) as u64 {
                return Err(owned("cast protobuf string out of bounds"));
            }
            let end: usize = cursor + length as usize;
            let value = match text_from_utf8(copy_bytes(bytes, cursor, end)) {
                Some(value) => value,
                None => {
                    return Err(owned("cast protobuf invalid utf8"));
                },
            };
            if field_number == 2 {
                frame.source_id = value;
            } else if field_number == 4 {
                frame.namespace = value;
            } else if field_number == 6 {
                frame.payload_utf8 = value;
            }
            cursor = end;
        } else {
            return Err(owned("unsupported cast protobuf wire type"));
        }
    }
    Ok(frame)
}

proof fn lemma_varint_len(n: nat, k: nat)
    requires
        k >= 1,
        n < scale(k),
    ensures
        1 <= varint(n).len() <= k,
    decreases n,
{
    if n >= 128 {
        assert(scale(k) == 128 * scale((k - 1) as nat));
        if k == 1 {
            assert(scale(0) == 1);
        }
        lemma_varint_len(n / 128, (k - 1) as nat);
    }
}

proof fn lemma_varint_value(n: nat)
    ensures
        groups_value(varint(n)) == n,
    decreases n,
{
    if n < 128 {
        assert(varint(n).skip(1) =~= Seq::empty());
        assert(groups_value(varint(n).skip(1)) == 0);
    } else {
        lemma_varint_value(n / 128);
        assert(varint(n).skip(1) =~= varint(n / 128));
        assert(varint(n)[0] == (n % 128 + 128) as u8);
    }
}

proof fn lemma_varint_found(bytes: Seq<u8>, at: int, n: nat, count: nat)
    requires
        0 <= at,
        at + varint(n).len() <= bytes.len(),
        bytes.subrange(at, at + varint(n).len()) == varint(n),
        varint(n).len() <= count,
    ensures
        varint_end(bytes, at, count) == Some(at + varint(n).len()),
    decreases n,
{
    let v = varint(n);
    assert(bytes.subrange(at, at + v.len())[0] == bytes[at]);
    if n >= 128 {
        assert(v[0] >= 128);
        let rest = varint(n / 128);
        assert(v.len() == rest.len() + 1);
        assert(bytes.subrange(at + 1, at + 1 + rest.len()) =~= bytes.subrange(
            at,
            at + v.len(),
        ).skip(1));
        assert(v.skip(1) =~= rest);
        lemma_varint_found(bytes, at + 1, n / 128, (count - 1) as nat);
    }
}

/// A number is read back as it was written, wherever it stands.
pub proof fn numbers_come_back(front: Seq<u8>, n: u64, back: Seq<u8>)
    ensures
        varint_at(front + varint(n as nat) + back, front.len() as int) == Some(
            (n as nat, (front.len() + varint(n as nat).len()) as int),
        ),
{
    let bytes = front + varint(n as nat) + back;
    assert(bytes.subrange(front.len() as int, (front.len() + varint(n as nat).len()) as int)
        =~= varint(n as nat));
    lemma_number_at(bytes, front.len() as int, n as nat);
}

proof fn lemma_number_at(bytes: Seq<u8>, at: int, n: nat)
    requires
        0 <= at,
        n < word_limit(),
        at + varint(n).len() <= bytes.len(),
        bytes.subrange(at, at + varint(n).len()) == varint(n),
    ensures
        varint_at(bytes, at) == Some((n, at + varint(n).len())),
        varint(n).len() >= 1,
{
    lemma_scale_small();
    lemma_varint_len(n, 10);
    lemma_varint_found(bytes, at, n, 10);
    lemma_varint_value(n);
}

proof fn lemma_number_field(bytes: Seq<u8>, at: int, field: nat, value: nat, f: FrameView)
    requires
        0 <= at,
        field < 0x1000,
        value < word_limit(),
        at + number_field(field, value).len() <= bytes.len(),
        bytes.subrange(at, at + number_field(field, value).len()) == number_field(field, value),
    ensures
        fields_from(bytes, at, f) == fields_from(
            bytes,
            at + number_field(field, value).len(),
            f,
        ),
{
    let whole = number_field(field, value);
    let key = varint(8 * field);
    let part = bytes.subrange(at, at + whole.len());
    assert(bytes.subrange(at, at + key.len()) =~= part.take(key.len() as int));
    assert(part.take(key.len() as int) =~= key);
    lemma_number_at(bytes, at, 8 * field);
    let next = at + key.len();
    assert(bytes.subrange(next, next + varint(value).len()) =~= part.skip(key.len() as int));
    assert(part.skip(key.len() as int) =~= varint(value));
    lemma_number_at(bytes, next, value);
}

proof fn lemma_text_field(bytes: Seq<u8>, at: int, field: nat, text: Seq<char>, f: FrameView)
    requires
        0 <= at,
        field < 0x1000,
        encode_utf8(text).len() < word_limit(),
        at + text_field(field, text).len() <= bytes.len(),
        bytes.subrange(at, at + text_field(field, text).len()) == text_field(field, text),
    ensures
        fields_from(bytes, at, f) == fields_from(
            bytes,
            at + text_field(field, text).len(),
            with_field(f, field, text),
        ),
{
    broadcast use vstd::utf8::encode_utf8_valid_utf8, vstd::utf8::encode_utf8_decode_utf8;

    let whole = text_field(field, text);
    let key = varint(8 * field + 2);
    let data = encode_utf8(text);
    let length = varint(data.len());
    let part = bytes.subrange(at, at + whole.len());
    assert(whole =~= key + (length + data));
    assert(bytes.subrange(at, at + key.len()) =~= part.take(key.len() as int));
    assert(part.take(key.len() as int) =~= key);
    lemma_number_at(bytes, at, 8 * field + 2);
    let next = at + key.len();
    let rest = part.skip(key.len() as int);
    assert(rest =~= length + data);
    assert(bytes.subrange(next, next + length.len()) =~= rest.take(length.len() as int));
    assert(rest.take(length.len() as int) =~= length);
    lemma_number_at(bytes, next, data.len());
    let from = next + length.len();
    assert(bytes.subrange(from, from + data.len()) =~= rest.skip(length.len() as int));
    assert(rest.skip(length.len() as int) =~= data);
}

/// A message is read back as it was sent, and its length too.
pub proof fn messages_come_back(
    source_id: Seq<char>,
    destination_id: Seq<char>,
    namespace: Seq<char>,
    payload: Seq<char>,
)
    requires
        frame_body(source_id, destination_id, namespace, payload).len() <= u32::MAX,
    ensures
        decoded_body(frame_body(source_id, destination_id, namespace, payload)) == Ok::<
            FrameView,
            Seq<char>,
        >(FrameView { source_id, namespace, payload_utf8: payload }),
        length_value(
            length_bytes(frame_body(source_id, destination_id, namespace, payload).len()),
        ) == frame_body(source_id, destination_id, namespace, payload).len(),
{
    let a = number_field(1, 0);
    let b = text_field(2, source_id);
    let c = text_field(3, destination_id);
    let d = text_field(4, namespace);
    let e = number_field(5, 0);
    let g = text_field(6, payload);
    let bytes = frame_body(source_id, destination_id, namespace, payload);
    let p1 = a.len() as int;
    let p2 = p1 + b.len();
    let p3 = p2 + c.len();
    let p4 = p3 + d.len();
    let p5 = p4 + e.len();
    let p6 = p5 + g.len();
    assert(bytes.len() == p6);
    let f0 = FrameView {
        source_id: Seq::empty(),
        namespace: Seq::empty(),
        payload_utf8: Seq::empty(),
    };
    assert(bytes.subrange(0, p1) =~= a);
    lemma_number_field(bytes, 0, 1, 0, f0);
    assert(bytes.subrange(p1, p2) =~= b);
    lemma_text_field(bytes, p1, 2, source_id, f0);
    let f1 = with_field(f0, 2, source_id);
    assert(bytes.subrange(p2, p3) =~= c);
    lemma_text_field(bytes, p2, 3, destination_id, f1);
    assert(bytes.subrange(p3, p4) =~= d);
    lemma_text_field(bytes, p3, 4, namespace, f1);
    let f2 = with_field(f1, 4, namespace);
    assert(bytes.subrange(p4, p5) =~= e);
    lemma_number_field(bytes, p4, 5, 0, f2);
    assert(bytes.subrange(p5, p6) =~= g);
    lemma_text_field(bytes, p5, 6, payload, f2);
    lemma_length_bytes(bytes.len());
}

proof fn lemma_length_bytes(n: nat)
    requires
        n <= u32::MAX,
    ensures
        length_value(length_bytes(n)) == n,
{
    let b = length_bytes(n);
    assert(b[0] as nat == n / 0x100_0000 % 0x100);
    assert(b[1] as nat == n / 0x1_0000 % 0x100);
    assert(b[2] as nat == n / 0x100 % 0x100);
    assert(b[3] as nat == n % 0x100);
}

} // verus!
