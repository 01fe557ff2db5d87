//! Sound files: 16-bit mono PCM in a RIFF/WAVE container.

use vstd::prelude::*;

verus! {

/// Bytes in front of the samples of a sound file.
pub const WAV_HEADER_LEN: usize = 44;

/// The lowest `count` bytes of a number, the least significant first.
pub open spec fn le_bytes(n: nat, count: nat) -> Seq<u8>
    decreases count,
{
    if count == 0 {
        Seq::empty()
    } else {
        seq![(n % 256) as u8] + le_bytes(n / 256, (count - 1) as nat)
    }
}

/// The number that some bytes stand for, the least significant first.
pub open spec fn from_le_bytes(bytes: Seq<u8>) -> nat
    decreases bytes.len(),
{
    if bytes.len() == 0 {
        0
    } else {
        bytes[0] as nat + 256 * from_le_bytes(bytes.skip(1))
    }
}

/// A sample as an unsigned 16-bit number in two's complement.
pub open spec fn sample_code(sample: i16) -> nat {
    if sample < 0 {
        (sample + 0x1_0000) as nat
    } else {
        sample as nat
    }
}

/// The sample that an unsigned 16-bit number stands for in two's complement.
pub open spec fn coded_sample(code: nat) -> int {
    if code < 0x8000 {
        code as int
    } else {
        code - 0x1_0000
    }
}

/// The samples' bytes, one sample behind the other.
pub open spec fn sample_bytes(samples: Seq<i16>) -> Seq<u8>
    decreases samples.len(),
{
    if samples.len() == 0 {
        Seq::empty()
    } else {
        sample_bytes(samples.drop_last()) + le_bytes(sample_code(samples.last()), 2)
    }
}

/// How many bytes the header says that `n` samples take: their number of bytes in 32 bits.
pub open spec fn data_len(n: nat) -> nat {
    (2 * n) % 0x1_0000_0000
}

/// `RIFF`, the length of what follows and `WAVEfmt `, then the format: 16 bytes of it,
/// PCM, one channel, samples and bytes per second, bytes and bits per sample; then
/// `data` and the length of the samples.
pub open spec fn wav_header(n: nat, sample_rate: u32) -> Seq<u8> {
    seq![0x52u8, 0x49u8, 0x46u8, 0x46u8] + le_bytes((36 + data_len(n)) as nat, 4) + seq![
        0x57u8,
        0x41u8,
        0x56u8,
        0x45u8,
        0x66u8,
        0x6du8,
        0x74u8,
        0x20u8,
    ] + le_bytes(16, 4) + le_bytes(1, 2) + le_bytes(1, 2) + le_bytes(sample_rate as nat, 4)
        + le_bytes((2 * sample_rate) as nat, 4) + le_bytes(2, 2) + le_bytes(16, 2) + seq![
        0x64u8,
        0x61u8,
        0x74u8,
        0x61u8,
    ] + le_bytes(data_len(n), 4)
}

/// The sound file of the given samples.
pub open spec fn wav_file(samples: Seq<i16>, sample_rate: u32) -> Seq<u8> {
    wav_header(samples.len(), sample_rate) + sample_bytes(samples)
}

/// Whether the header's numbers fit in 32 bits and the file in memory.
pub open spec fn wav_fits(n: nat, sample_rate: u32) -> bool {
    &&& WAV_HEADER_LEN + 2 * n <= usize::MAX
    &&& 36 + data_len(n) <= u32::MAX
    &&& 2 * sample_rate <= u32::MAX
}

/// Whether a file of `n` samples can be written at the given rate.
pub fn fits_wav(n: usize, sample_rate: u32) -> (fits: bool)
    ensures
        fits == wav_fits(n as nat, sample_rate),
{
    if n > (usize::MAX - WAV_HEADER_LEN) / 2 {
        return false;
    }
    let len: u64 = (n as u64 * 2) % 0x1_0000_0000;
    len + 36 <= u32::MAX as u64 && sample_rate <= u32::MAX / 2
}

fn push_u16(bytes: &mut Vec<u8>, n: u16)
    ensures
        final(bytes)@ == old(bytes)@ + le_bytes(n as nat, 2),
{
    bytes.push((n % 256) as u8);
    bytes.push((n / 256) as u8);
    proof {
        reveal_with_fuel(le_bytes, 3);
        assert(bytes@ =~= old(bytes)@ + le_bytes(n as nat, 2));
    }
}

fn push_u32(bytes: &mut Vec<u8>, n: u32)
    ensures
        final(bytes)@ == old(bytes)@ + le_bytes(n as nat, 4),
{
    bytes.push((n % 256) as u8);
    bytes.push((n / 256 % 256) as u8);
    bytes.push((n / 256 / 256 % 256) as u8);
    bytes.push((n / 256 / 256 / 256) as u8);
    proof {
        reveal_with_fuel(le_bytes, 5);
        assert(bytes@ =~= old(bytes)@ + le_bytes(n as nat, 4));
    }
}

fn push_tag(bytes: &mut Vec<u8>, a: u8, b: u8, c: u8, d: u8)
    ensures
        final(bytes)@ == old(bytes)@ + seq![a, b, c, d],
{
    bytes.push(a);
    bytes.push(b);
    bytes.push(c);
    bytes.push(d);
    assert(bytes@ =~= old(bytes)@ + seq![a, b, c, d]);
}

/// Writes samples as a sound file.
pub fn encode_wav(samples: &Vec<i16>, sample_rate: u32) -> (bytes: Vec<u8>)
    requires
        wav_fits(samples@.len(), sample_rate),
    ensures
        bytes@ == wav_file(samples@, sample_rate),
        bytes@.len() == WAV_HEADER_LEN + 2 * samples@.len(),
{
    let mut bytes: Vec<u8> = Vec::with_capacity(WAV_HEADER_LEN + samples.len() * 2);
    let data: u32 = ((samples.len() as u64 * 2) % 0x1_0000_0000) as u32;
    push_tag(&mut bytes, 0x52, 0x49, 0x46, 0x46);
    push_u32(&mut bytes, 36 + data);
    push_tag(&mut bytes, 0x57, 0x41, 0x56, 0x45);
    push_tag(&mut bytes, 0x66, 0x6d, 0x74, 0x20);
    push_u32(&mut bytes, 16);
    push_u16(&mut bytes, 1);
    push_u16(&mut bytes, 1);
    push_u32(&mut bytes, sample_rate);
    push_u32(&mut bytes, sample_rate * 2);
    push_u16(&mut bytes, 2);
    push_u16(&mut bytes, 16);
    push_tag(&mut bytes, 0x64, 0x61, 0x74, 0x61);
    push_u32(&mut bytes, data);
    let ghost header = wav_header(samples@.len(), sample_rate);
    assert(bytes@ =~= header);
    for i in 0..samples.len()
        invariant
            bytes@ == header + sample_bytes(samples@.take(i as int)),
    {
        let ghost before = bytes@;
        let s: i16 = samples[i];
        let code: u16 = if s < 0 {
            (s as i32 + 0x1_0000) as u16
        } else {
            s as u16
        };
        push_u16(&mut bytes, code);
        assert(samples@.take(i + 1).drop_last() =~= samples@.take(i as int));
        assert(bytes@ =~= header + sample_bytes(samples@.take(i + 1)));
    }
    assert(samples@.take(samples@.len() as int) =~= samples@);
    proof {
        lemma_wav_len(samples@, sample_rate);
    }
    bytes
}

proof fn lemma_le_bytes(n: nat, count: nat)
    ensures
        le_bytes(n, count).len() == count,
        from_le_bytes(le_bytes(n, count)) == n % vstd::arithmetic::power::pow(256, count) as nat,
    decreases count,
{
    vstd::arithmetic::power::lemma_pow_positive(256, count);
    if count == 0 {
        vstd::arithmetic::power::lemma_pow0(256);
    } else {
        let m = (count - 1) as nat;
        lemma_le_bytes(n / 256, m);
        vstd::arithmetic::power::lemma_pow_positive(256, m);
        reveal(vstd::arithmetic::power::pow);
        let p = vstd::arithmetic::power::pow(256, m);
        assert(le_bytes(n, count).skip(1) =~= le_bytes(n / 256, m));
        vstd::arithmetic::div_mod::lemma_mod_breakdown(n as int, 256, p);
        assert(n % (256 * p) as nat == 256 * ((n / 256) % p as nat) + n % 256);
    }
}

proof fn lemma_sample_bytes_len(samples: Seq<i16>)
    ensures
        sample_bytes(samples).len() == 2 * samples.len(),
    decreases samples.len(),
{
    if samples.len() > 0 {
        lemma_sample_bytes_len(samples.drop_last());
        lemma_le_bytes(sample_code(samples.last()), 2);
    }
}

/// The header takes 44 bytes, and each sample two.
pub proof fn lemma_wav_len(samples: Seq<i16>, sample_rate: u32)
    ensures
        wav_header(samples.len(), sample_rate).len() == WAV_HEADER_LEN,
        wav_file(samples, sample_rate).len() == WAV_HEADER_LEN + 2 * samples.len(),
{
    reveal_with_fuel(le_bytes, 5);
    lemma_sample_bytes_len(samples);
}

// ---------------------------------------------------------------------------
// Laws
// ---------------------------------------------------------------------------

/// The number in a file that starts at byte `at` and takes `count` bytes.
pub open spec fn field(file: Seq<u8>, at: int, count: int) -> nat {
    from_le_bytes(file.subrange(at, at + count))
}

proof fn lemma_pow_256()
    ensures
        vstd::arithmetic::power::pow(256, 2) == 0x1_0000,
        vstd::arithmetic::power::pow(256, 4) == 0x1_0000_0000,
{
    reveal_with_fuel(vstd::arithmetic::power::pow, 5);
}

proof fn lemma_field(file: Seq<u8>, at: int, count: nat, n: nat)
    requires
        file.subrange(at, at + count) == le_bytes(n, count),
        count == 2 && n < 0x1_0000 || count == 4 && n < 0x1_0000_0000,
    ensures
        field(file, at, count as int) == n,
{
    lemma_pow_256();
    lemma_le_bytes(n, count);
    vstd::arithmetic::div_mod::lemma_small_mod(
        n,
        vstd::arithmetic::power::pow(256, count) as nat,
    );
}

proof fn lemma_header_fields(n: nat, sample_rate: u32, rest: Seq<u8>)
    ensures
        (wav_header(n, sample_rate) + rest).subrange(4, 8) == le_bytes((36 + data_len(n)) as nat, 4),
        (wav_header(n, sample_rate) + rest).subrange(20, 22) == le_bytes(1, 2),
        (wav_header(n, sample_rate) + rest).subrange(22, 24) == le_bytes(1, 2),
        (wav_header(n, sample_rate) + rest).subrange(24, 28) == le_bytes(sample_rate as nat, 4),
        (wav_header(n, sample_rate) + rest).subrange(28, 32) == le_bytes(
            (2 * sample_rate) as nat,
            4,
        ),
        (wav_header(n, sample_rate) + rest).subrange(34, 36) == le_bytes(16, 2),
        (wav_header(n, sample_rate) + rest).subrange(40, 44) == le_bytes(data_len(n), 4),
{
    lemma_le_bytes((36 + data_len(n)) as nat, 4);
    lemma_le_bytes(16, 4);
    lemma_le_bytes(1, 2);
    lemma_le_bytes(2, 2);
    lemma_le_bytes(16, 2);
    lemma_le_bytes(sample_rate as nat, 4);
    lemma_le_bytes((2 * sample_rate) as nat, 4);
    lemma_le_bytes(data_len(n), 4);
    let file = wav_header(n, sample_rate) + rest;
    assert(file.subrange(4, 8) =~= le_bytes((36 + data_len(n)) as nat, 4));
    assert(file.subrange(20, 22) =~= le_bytes(1, 2));
    assert(file.subrange(22, 24) =~= le_bytes(1, 2));
    assert(file.subrange(24, 28) =~= le_bytes(sample_rate as nat, 4));
    assert(file.subrange(28, 32) =~= le_bytes((2 * sample_rate) as nat, 4));
    assert(file.subrange(34, 36) =~= le_bytes(16, 2));
    assert(file.subrange(40, 44) =~= le_bytes(data_len(n), 4));
}

/// A written file says that it is PCM with one channel of 16 bits, and gives back the
/// rate it was written with.
pub proof fn wav_format_reads_back(samples: Seq<i16>, sample_rate: u32)
    requires
        wav_fits(samples.len(), sample_rate),
    ensures
        field(wav_file(samples, sample_rate), 20, 2) == 1,
        field(wav_file(samples, sample_rate), 22, 2) == 1,
        field(wav_file(samples, sample_rate), 24, 4) == sample_rate,
        field(wav_file(samples, sample_rate), 28, 4) == 2 * sample_rate,
        field(wav_file(samples, sample_rate), 34, 2) == 16,
{
    let file = wav_file(samples, sample_rate);
    lemma_header_fields(samples.len(), sample_rate, sample_bytes(samples));
    lemma_field(file, 20, 2, 1);
    lemma_field(file, 22, 2, 1);
    lemma_field(file, 24, 4, sample_rate as nat);
    lemma_field(file, 28, 4, (2 * sample_rate) as nat);
    lemma_field(file, 34, 2, 16);
}

/// The lengths in a written file are those of the file behind its first eight bytes and
/// of its samples, as long as they fit in 32 bits.
pub proof fn wav_lengths_read_back(samples: Seq<i16>, sample_rate: u32)
    requires
        wav_fits(samples.len(), sample_rate),
        36 + 2 * samples.len() <= u32::MAX,
    ensures
        field(wav_file(samples, sample_rate), 4, 4) == wav_file(samples, sample_rate).len() - 8,
        field(wav_file(samples, sample_rate), 40, 4) == 2 * samples.len(),
{
    let file = wav_file(samples, sample_rate);
    lemma_wav_len(samples, sample_rate);
    lemma_header_fields(samples.len(), sample_rate, sample_bytes(samples));
    lemma_field(file, 4, 4, (36 + data_len(samples.len())) as nat);
    lemma_field(file, 40, 4, data_len(samples.len()));
}

proof fn lemma_sample_at(samples: Seq<i16>, i: int)
    requires
        0 <= i < samples.len(),
    ensures
        sample_bytes(samples).subrange(2 * i, 2 * i + 2) == le_bytes(sample_code(samples[i]), 2),
    decreases samples.len(),
{
    lemma_sample_bytes_len(samples);
    lemma_sample_bytes_len(samples.drop_last());
    lemma_le_bytes(sample_code(samples.last()), 2);
    if i == samples.len() - 1 {
        assert(sample_bytes(samples).subrange(2 * i, 2 * i + 2) =~= le_bytes(
            sample_code(samples[i]),
            2,
        ));
    } else {
        lemma_sample_at(samples.drop_last(), i);
        assert(sample_bytes(samples).subrange(2 * i, 2 * i + 2) =~= sample_bytes(
            samples.drop_last(),
        ).subrange(2 * i, 2 * i + 2));
    }
}

/// Every sample that was written can be read back from its place in the file.
pub proof fn wav_samples_read_back(samples: Seq<i16>, sample_rate: u32, i: int)
    requires
        0 <= i < samples.len(),
    ensures
        coded_sample(field(wav_file(samples, sample_rate), WAV_HEADER_LEN + 2 * i, 2))
            == samples[i],
{
    lemma_pow_256();
    lemma_wav_len(samples, sample_rate);
    lemma_sample_at(samples, i);
    lemma_le_bytes(sample_code(samples[i]), 2);
    let at = WAV_HEADER_LEN + 2 * i;
    assert(wav_file(samples, sample_rate).subrange(at, at + 2) =~= sample_bytes(samples).subrange(
        2 * i,
        2 * i + 2,
    ));
}

/// A written file has the four tags of its kind in their places, says that its format takes
/// 16 bytes and a sample two, and has nothing behind the samples.
pub proof fn wav_tags_read_back(samples: Seq<i16>, sample_rate: u32)
    ensures
        ({
            let file = wav_file(samples, sample_rate);
            &&& file.len() == 44 + 2 * samples.len()
            &&& file.subrange(0, 4) == seq![82u8, 73u8, 70u8, 70u8]
            &&& file.subrange(8, 12) == seq![87u8, 65u8, 86u8, 69u8]
            &&& file.subrange(12, 16) == seq![102u8, 109u8, 116u8, 32u8]
            &&& file.subrange(36, 40) == seq![100u8, 97u8, 116u8, 97u8]
            &&& field(file, 16, 4) == 16
            &&& field(file, 32, 2) == 2
        }),
{
    let file = wav_file(samples, sample_rate);
    lemma_wav_len(samples, sample_rate);
    let n = samples.len();
    lemma_le_bytes((36 + data_len(n)) as nat, 4);
    lemma_le_bytes(16, 4);
    lemma_le_bytes(1, 2);
    lemma_le_bytes(2, 2);
    lemma_le_bytes(16, 2);
    lemma_le_bytes(sample_rate as nat, 4);
    lemma_le_bytes((2 * sample_rate) as nat, 4);
    lemma_le_bytes(data_len(n), 4);
    assert(file.subrange(0, 4) =~= seq![82u8, 73u8, 70u8, 70u8]);
    assert(file.subrange(8, 12) =~= seq![87u8, 65u8, 86u8, 69u8]);
    assert(file.subrange(12, 16) =~= seq![102u8, 109u8, 116u8, 32u8]);
    assert(file.subrange(36, 40) =~= seq![100u8, 97u8, 116u8, 97u8]);
    assert(file.subrange(16, 20) =~= le_bytes(16, 4));
    assert(file.subrange(32, 34) =~= le_bytes(2, 2));
    lemma_field(file, 16, 4, 16);
    lemma_field(file, 32, 2, 2);
}

/// Bytes count by 256: a byte in front of others is added to 256 times their number.
pub proof fn bytes_count_by_256(byte: u8, bytes: Seq<u8>)
    ensures
        from_le_bytes(Seq::<u8>::empty()) == 0,
        from_le_bytes(seq![byte] + bytes) == byte + 256 * from_le_bytes(bytes),
{
    assert((seq![byte] + bytes).skip(1) =~= bytes);
}

/// Codes stand for samples in two's complement.
pub proof fn codes_are_in_twos_complement(code: nat)
    requires
        code < 0x1_0000,
    ensures
        code < 0x8000 ==> coded_sample(code) == code,
        code >= 0x8000 ==> coded_sample(code) == code - 0x1_0000,
{
}

/// A file can be written unless its lengths do not fit in 32 bits or it does not fit in
/// memory: at any rate up to two thousand million, every clip of up to two thousand million
/// samples can be, memory allowing.
pub proof fn files_of_usual_size_fit(n: nat, sample_rate: u32)
    requires
        n <= 2_000_000_000,
        sample_rate <= 2_000_000_000,
        44 + 2 * n <= usize::MAX,
    ensures
        wav_fits(n, sample_rate),
{
}

/// The lengths in a written file are those of its samples in 32 bits, and of 36 bytes more.
pub proof fn wav_lengths_have_32_bits(samples: Seq<i16>, sample_rate: u32)
    requires
        wav_fits(samples.len(), sample_rate),
    ensures
        field(wav_file(samples, sample_rate), 40, 4) == (2 * samples.len()) % 0x1_0000_0000,
        field(wav_file(samples, sample_rate), 4, 4) == 36 + (2 * samples.len()) % 0x1_0000_0000,
{
    let file = wav_file(samples, sample_rate);
    lemma_wav_len(samples, sample_rate);
    lemma_header_fields(samples.len(), sample_rate, sample_bytes(samples));
    lemma_field(file, 4, 4, (36 + data_len(samples.len())) as nat);
    lemma_field(file, 40, 4, data_len(samples.len()));
}

/// What keeps a file from being written: that it does not fit in memory, or that one of its
/// lengths or its bytes per second do not fit in 32 bits. Nothing else does.
pub proof fn what_keeps_a_file_from_being_written(n: nat, sample_rate: u32)
    ensures
        wav_fits(n, sample_rate) <==> 44 + 2 * n <= usize::MAX && 36 + (2 * n) % 0x1_0000_0000
            <= 0xffff_ffff && 2 * sample_rate <= 0xffff_ffff,
{
}

} // verus!
