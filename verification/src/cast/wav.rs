//! The header of a WAV file.

use vstd::prelude::*;

verus! {

/// The low bytes of a number, the lowest first.
pub open spec fn little_endian(n: nat, count: nat) -> Seq<u8>
    decreases count,
{
    if count == 0 {
        Seq::empty()
    } else {
        seq![(n % 0x100) as u8] + little_endian(n / 0x100, (count - 1) as nat)
    }
}

/// The number that bytes write, the lowest byte first.
pub open spec fn little_endian_value(bytes: Seq<u8>) -> nat
    decreases bytes.len(),
{
    if bytes.len() == 0 {
        0
    } else {
        bytes[0] as nat + 0x100 * little_endian_value(bytes.skip(1))
    }
}

/// The header of a WAV file that holds samples of 16 bits. Sizes that do not fit are cut to 32
/// bits.
pub open spec fn wav_head(sample_rate: nat, channels: nat, data_bytes: nat) -> Seq<u8> {
    seq![0x52u8, 0x49u8, 0x46u8, 0x46u8] + little_endian(riff_size(data_bytes), 4) + seq![
        0x57u8,
        0x41u8,
        0x56u8,
        0x45u8,
        0x66u8,
        0x6du8,
        0x74u8,
        0x20u8,
    ] + little_endian(16, 4) + little_endian(1, 2) + little_endian(channels, 2) + little_endian(
        sample_rate,
        4,
    ) + little_endian(sample_rate * channels * 2, 4) + little_endian(channels * 2, 2)
        + little_endian(16, 2) + seq![0x64u8, 0x61u8, 0x74u8, 0x61u8] + little_endian(data_bytes, 4)
}

/// The size of what follows the first eight bytes.
pub open spec fn riff_size(data_bytes: nat) -> nat {
    if 36 + data_bytes <= u64::MAX {
        36 + data_bytes
    } else {
        u64::MAX as nat
    }
}

fn push_little_endian(out: &mut Vec<u8>, n: u64, count: usize)
    ensures
        final(out)@ == old(out)@ + little_endian(n as nat, count as nat),
{
    let ghost start = out@;
    let ghost mut written: Seq<u8> = Seq::empty();
    let mut left: u64 = n;
    let mut i: usize = 0;
    assert(written + little_endian(left as nat, count as nat) =~= little_endian(
        n as nat,
        count as nat,
    ));
    assert(out@ =~= start + written);
    while i < count
        invariant
            i <= count,
            written + little_endian(left as nat, (count - i) as nat) == little_endian(
                n as nat,
                count as nat,
            ),
            out@ == start + written,
        decreases count - i,
    {
        let byte: u8 = (left % 0x100) as u8;
        out.push(byte);
        proof {
            let next = written.push(byte);
            assert(next + little_endian((left / 0x100) as nat, (count - i - 1) as nat) =~= written
                + little_endian(left as nat, (count - i) as nat));
            assert(out@ =~= start + next);
            written = next;
        }
        left = left / 0x100;
        i += 1;
    }
    assert(written + little_endian(left as nat, 0) =~= written);
}

/// The header of a WAV file that holds samples of 16 bits.
pub fn wav_header(sample_rate: u32, channels: u16, bytes_written: u64) -> (r: Vec<u8>)
    requires
        channels <= 0x7fff,
    ensures
        r@ == wav_head(sample_rate as nat, channels as nat, bytes_written as nat),
        r.len() == 44,
{
    let riff: u64 = if bytes_written <= u64::MAX - 36 {
        36 + bytes_written
    } else {
        u64::MAX
    };
    assert(sample_rate * channels * 2 <= u64::MAX) by (nonlinear_arith)
        requires
            sample_rate <= u32::MAX,
            channels <= 0x7fff,
    ;
    assert(0 <= sample_rate * channels <= u64::MAX) by (nonlinear_arith)
        requires
            sample_rate <= u32::MAX,
            channels <= 0x7fff,
    ;
    let byte_rate: u64 = sample_rate as u64 * channels as u64 * 2;
    let mut out: Vec<u8> = Vec::new();
    out.push(0x52);
    out.push(0x49);
    out.push(0x46);
    out.push(0x46);
    push_little_endian(&mut out, riff, 4);
    out.push(0x57);
    out.push(0x41);
    out.push(0x56);
    out.push(0x45);
    out.push(0x66);
    out.push(0x6d);
    out.push(0x74);
    out.push(0x20);
    push_little_endian(&mut out, 16, 4);
    push_little_endian(&mut out, 1, 2);
    push_little_endian(&mut out, channels as u64, 2);
    push_little_endian(&mut out, sample_rate as u64, 4);
    push_little_endian(&mut out, byte_rate, 4);
    push_little_endian(&mut out, channels as u64 * 2, 2);
    push_little_endian(&mut out, 16, 2);
    out.push(0x64);
    out.push(0x61);
    out.push(0x74);
    out.push(0x61);
    push_little_endian(&mut out, bytes_written, 4);
    proof {
        lemma_little_endian_len(riff as nat, 4);
        lemma_little_endian_len(16, 4);
        lemma_little_endian_len(1, 2);
        lemma_little_endian_len(channels as nat, 2);
        lemma_little_endian_len(sample_rate as nat, 4);
        lemma_little_endian_len(byte_rate as nat, 4);
        lemma_little_endian_len((channels * 2) as nat, 2);
        lemma_little_endian_len(16, 2);
        lemma_little_endian_len(bytes_written as nat, 4);
        assert(out@ =~= wav_head(sample_rate as nat, channels as nat, bytes_written as nat));
    }
    out
}

proof fn lemma_little_endian_len(n: nat, count: nat)
    ensures
        little_endian(n, count).len() == count,
    decreases count,
{
    if count > 0 {
        lemma_little_endian_len(n / 0x100, (count - 1) as nat);
    }
}

/// The sample rate and the number of channels that a stream is sent with.
pub open spec fn format_of(sample_rate: Option<u32>, channels: Option<u16>) -> (u32, u16) {
    (
        match sample_rate {
            Some(rate) => rate,
            None => 44_100,
        },
        match channels {
            Some(count) => if count == 0 {
                1
            } else {
                count
            },
            None => 2,
        },
    )
}

/// A stream is sent with the rate and the channels of its file, but with at least one channel;
/// what is not known is as on a compact disc.
pub proof fn streams_keep_their_format(rate: u32, channels: u16)
    ensures
        format_of(Some(rate), None).0 == rate,
        format_of(None, None) == (44_100u32, 2u16),
        channels > 0 ==> format_of(Some(rate), Some(channels)) == (rate, channels),
        format_of(Some(rate), Some(0)) == (rate, 1u16),
{
}

/// The sample rate and the number of channels of a decoded track; what the track does not say is
/// taken to be usual.
pub fn stream_format(sample_rate: Option<u32>, channels: Option<u16>) -> (r: (u32, u16))
    ensures
        r == format_of(sample_rate, channels),
        r.0 == (match sample_rate {
            Some(rate) => rate,
            None => 44_100,
        }),
        r.1 == (match channels {
            Some(count) => if count == 0 {
                1
            } else {
                count
            },
            None => 2,
        }),
{
    let rate: u32 = match sample_rate {
        Some(rate) => rate,
        None => 44_100,
    };
    let count: u16 = match channels {
        Some(count) => if count == 0 {
            1
        } else {
            count
        },
        None => 2,
    };
    (rate, count)
}

/// A number that fits into its bytes is read back as it was written.
pub proof fn written_numbers_come_back(n: nat, count: nat)
    requires
        n < byte_limit(count),
    ensures
        little_endian_value(little_endian(n, count)) == n,
        little_endian(n, count).len() == count,
    decreases count,
{
    if count > 0 {
        assert(n / 0x100 < byte_limit((count - 1) as nat));
        written_numbers_come_back(n / 0x100, (count - 1) as nat);
        assert(little_endian(n, count).skip(1) =~= little_endian(n / 0x100, (count - 1) as nat));
    }
}

/// One more than the largest number that fits into a number of bytes.
pub open spec fn byte_limit(count: nat) -> nat
    decreases count,
{
    if count == 0 {
        1
    } else {
        0x100 * byte_limit((count - 1) as nat)
    }
}

/// The last four bytes of a header say how many bytes of samples follow.
pub proof fn headers_tell_their_data(sample_rate: nat, channels: nat, data_bytes: nat)
    requires
        data_bytes <= u32::MAX,
    ensures
        wav_head(sample_rate, channels, data_bytes).len() == 44,
        little_endian_value(wav_head(sample_rate, channels, data_bytes).skip(40)) == data_bytes,
{
    reveal_with_fuel(byte_limit, 5);
    lemma_little_endian_len(riff_size(data_bytes), 4);
    lemma_little_endian_len(16, 4);
    lemma_little_endian_len(1, 2);
    lemma_little_endian_len(channels, 2);
    lemma_little_endian_len(sample_rate, 4);
    lemma_little_endian_len(sample_rate * channels * 2, 4);
    lemma_little_endian_len(channels * 2, 2);
    lemma_little_endian_len(16, 2);
    written_numbers_come_back(data_bytes, 4);
    assert(wav_head(sample_rate, channels, data_bytes).skip(40) =~= little_endian(data_bytes, 4));
}

/// A header tells the number of channels, the sample rate, the bytes of a second and of a
/// frame, and that a sample has 16 bits, each at its place; it begins and goes on as a wave
/// file does.
pub proof fn headers_tell_their_format(sample_rate: nat, channels: nat, data_bytes: nat)
    requires
        data_bytes <= u32::MAX,
        channels < 0x8000,
        sample_rate * channels * 2 <= u32::MAX,
        sample_rate <= u32::MAX,
    ensures
        ({
            let head = wav_head(sample_rate, channels, data_bytes);
            &&& head.len() == 44
            &&& head.subrange(0, 4) == seq![0x52u8, 0x49, 0x46, 0x46]
            &&& head.subrange(8, 16) == seq![0x57u8, 0x41, 0x56, 0x45, 0x66, 0x6d, 0x74, 0x20]
            &&& little_endian_value(head.subrange(22, 24)) == channels
            &&& little_endian_value(head.subrange(24, 28)) == sample_rate
            &&& little_endian_value(head.subrange(28, 32)) == sample_rate * channels * 2
            &&& little_endian_value(head.subrange(32, 34)) == channels * 2
            &&& little_endian_value(head.subrange(34, 36)) == 16
            &&& head.subrange(36, 40) == seq![0x64u8, 0x61, 0x74, 0x61]
            &&& data_bytes + 36 <= u32::MAX ==> little_endian_value(head.subrange(4, 8))
                == data_bytes + 36
        }),
{
    reveal_with_fuel(byte_limit, 5);
    let head = wav_head(sample_rate, channels, data_bytes);
    lemma_little_endian_len(riff_size(data_bytes), 4);
    lemma_little_endian_len(16, 4);
    lemma_little_endian_len(1, 2);
    lemma_little_endian_len(channels, 2);
    lemma_little_endian_len(sample_rate, 4);
    lemma_little_endian_len(sample_rate * channels * 2, 4);
    lemma_little_endian_len(channels * 2, 2);
    lemma_little_endian_len(16, 2);
    lemma_little_endian_len(data_bytes, 4);
    written_numbers_come_back(channels, 2);
    written_numbers_come_back(sample_rate, 4);
    written_numbers_come_back(sample_rate * channels * 2, 4);
    written_numbers_come_back(channels * 2, 2);
    written_numbers_come_back(16, 2);
    assert(head.subrange(0, 4) =~= seq![0x52u8, 0x49, 0x46, 0x46]);
    assert(head.subrange(8, 16) =~= seq![0x57u8, 0x41, 0x56, 0x45, 0x66, 0x6d, 0x74, 0x20]);
    assert(head.subrange(22, 24) =~= little_endian(channels, 2));
    assert(head.subrange(24, 28) =~= little_endian(sample_rate, 4));
    assert(head.subrange(28, 32) =~= little_endian(sample_rate * channels * 2, 4));
    assert(head.subrange(32, 34) =~= little_endian(channels * 2, 2));
    assert(head.subrange(34, 36) =~= little_endian(16, 2));
    assert(head.subrange(36, 40) =~= seq![0x64u8, 0x61, 0x74, 0x61]);
    assert(head.subrange(4, 8) =~= little_endian(riff_size(data_bytes), 4));
    if data_bytes + 36 <= u32::MAX {
        written_numbers_come_back(data_bytes + 36, 4);
    }
}

} // verus!
