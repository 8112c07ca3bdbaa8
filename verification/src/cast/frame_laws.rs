//! Laws of frames: at which place each part of a message stands.

use crate::cast::frame::{frame_body, length_bytes, varint, with_field, FrameView};
use vstd::prelude::*;
use vstd::utf8::encode_utf8;

verus! {

/// A message is written field by field: its version, who sends it, who is to get it, its
/// namespace, that it is a text, and the text; each text behind its length in bytes.
pub proof fn messages_are_written_in_order(
    source: Seq<char>,
    destination: Seq<char>,
    namespace: Seq<char>,
    payload: Seq<char>,
)
    ensures
        frame_body(source, destination, namespace, payload) == seq![0x08u8, 0x00] + (seq![0x12u8]
            + varint(encode_utf8(source).len()) + encode_utf8(source)) + (seq![0x1au8] + varint(
            encode_utf8(destination).len(),
        ) + encode_utf8(destination)) + (seq![0x22u8] + varint(encode_utf8(namespace).len())
            + encode_utf8(namespace)) + seq![0x28u8, 0x00] + (seq![0x32u8] + varint(
            encode_utf8(payload).len(),
        ) + encode_utf8(payload)),
{
    assert(varint(8) =~= seq![0x08u8]);
    assert(varint(0) =~= seq![0x00u8]);
    assert(varint(18) =~= seq![0x12u8]);
    assert(varint(26) =~= seq![0x1au8]);
    assert(varint(34) =~= seq![0x22u8]);
    assert(varint(40) =~= seq![0x28u8]);
    assert(varint(50) =~= seq![0x32u8]);
    assert(varint(8) + varint(0) =~= seq![0x08u8, 0x00]);
    assert(varint(40) + varint(0) =~= seq![0x28u8, 0x00]);
}

/// A number is written in groups of seven bits, the lowest first; every group but the last has
/// its high bit set.
pub proof fn numbers_are_written_in_groups(n: nat)
    ensures
        n < 128 ==> varint(n) == seq![n as u8],
        n >= 128 ==> varint(n) == seq![(n % 128 + 128) as u8] + varint(n / 128),
{
}

/// The length of a frame is written in four bytes, the highest first.
pub proof fn lengths_are_written_highest_first(a: u8, b: u8, c: u8, d: u8)
    ensures
        length_bytes((a * 0x100_0000 + b * 0x1_0000 + c * 0x100 + d) as nat) == seq![a, b, c, d],
{
    let n = (a * 0x100_0000 + b * 0x1_0000 + c * 0x100 + d) as nat;
    assert(n / 0x100_0000 % 0x100 == a);
    assert(n / 0x1_0000 % 0x100 == b);
    assert(n / 0x100 % 0x100 == c);
    assert(n % 0x100 == d);
    assert(length_bytes(n) =~= seq![a, b, c, d]);
}

/// Of a message that comes in, the second field is who sends it, the fourth its namespace and
/// the sixth its text; a later one of the same number counts, and others are passed over.
pub proof fn fields_are_told_apart_by_number(f: FrameView, field: nat, text: Seq<char>)
    ensures
        with_field(f, 2, text) == (FrameView { source_id: text, ..f }),
        with_field(f, 4, text) == (FrameView { namespace: text, ..f }),
        with_field(f, 6, text) == (FrameView { payload_utf8: text, ..f }),
        field != 2 && field != 4 && field != 6 ==> with_field(f, field, text) == f,
{
}

} // verus!
