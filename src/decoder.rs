use vstd::prelude::*;

use vstd::arithmetic::div_mod::{lemma_fundamental_div_mod, lemma_fundamental_div_mod_converse};
use vstd::slice::slice_subrange;

verus! {

/// Size in bytes of one coded IMA ADPCM block of the audio corpora.
pub const BLOCK_SIZE: usize = 1024;

/// Number of linear samples decoded from one mono block: one from the
/// block header, two from each following byte.
pub const SAMPLES_PER_BLOCK: usize = 2 * BLOCK_SIZE - 7;

/// Offset of the first chunk after the RIFF/WAVE header.
pub const FIRST_CHUNK_OFFSET: usize = 12;

/// Sample `index` of the decoding of one mono Microsoft IMA ADPCM block.
pub uninterp spec fn adpcm_sample(block: Seq<u8>, index: int) -> i16;

/// The error type of `audio_codec_algorithms`, carried through opaquely.
#[verifier::external_type_specification]
#[verifier::external_body]
pub struct ExCodecError(audio_codec_algorithms::Error);

/// Relies on `audio_codec_algorithms::decode_adpcm_ima_ms` for one channel:
/// for a block of 4 to 65535 bytes and an output of `2 * len - 7` samples it
/// returns `Ok` and writes every output sample, as a function of the block's
/// bytes alone.
#[verifier::external_body]
fn decode_block(block: &[u8], out: &mut Vec<i16>) -> (r: Result<(), audio_codec_algorithms::Error>)
    requires
        4 <= block@.len() <= 0xffff,
        old(out)@.len() == 2 * block@.len() - 7,
    ensures
        r is Ok,
        final(out)@.len() == old(out)@.len(),
        forall|i: int|
            0 <= i < final(out)@.len() ==> #[trigger] final(out)@[i] == adpcm_sample(block@, i),
{
    audio_codec_algorithms::decode_adpcm_ima_ms(block, false, out.as_mut_slice())
}

/// Little-endian `u32` stored at `i`.
pub open spec fn le_u32(s: Seq<u8>, i: int) -> int {
    s[i] + 256 * s[i + 1] + 65536 * s[i + 2] + 16777216 * s[i + 3]
}

/// Whether the four bytes at `i` read `data`.
pub open spec fn is_data_tag(s: Seq<u8>, i: int) -> bool {
    s[i] == 0x64u8 && s[i + 1] == 0x61u8 && s[i + 2] == 0x74u8 && s[i + 3] == 0x61u8
}

/// Walks the RIFF chunks from `offset` (each an id, a little-endian length
/// and a body) and gives the byte range of the body of the first `data`
/// chunk, or nothing when the walk leaves the file first.
pub open spec fn find_data(s: Seq<u8>, offset: int) -> Option<(int, int)>
    decreases s.len() - offset,
{
    if offset < 0 || offset + 8 > s.len() {
        None
    } else {
        let len = le_u32(s, offset + 4);
        if is_data_tag(s, offset) {
            if offset + 8 + len <= s.len() {
                Some((offset + 8, offset + 8 + len))
            } else {
                None
            }
        } else if offset + 8 + len + 8 > s.len() {
            None
        } else {
            find_data(s, offset + 8 + len)
        }
    }
}

/// Body of the `data` chunk of a WAVE file.
pub open spec fn wav_payload(wav: Seq<u8>) -> Option<Seq<u8>> {
    match find_data(wav, FIRST_CHUNK_OFFSET as int) {
        Some(range) => Some(wav.subrange(range.0, range.1)),
        None => None,
    }
}

/// Number of whole coded blocks in a payload; trailing bytes are ignored.
pub open spec fn block_count_of(payload: Seq<u8>) -> nat {
    payload.len() / (BLOCK_SIZE as nat)
}

/// Coded block `b` of a payload.
pub open spec fn block_of(payload: Seq<u8>, b: int) -> Seq<u8> {
    payload.subrange(b * BLOCK_SIZE, b * BLOCK_SIZE + BLOCK_SIZE)
}

/// The whole corpus decoded at once: the decodings of its blocks, one after
/// the other.
pub open spec fn decoded_corpus(payload: Seq<u8>) -> Seq<i16> {
    Seq::new(
        block_count_of(payload) * (SAMPLES_PER_BLOCK as nat),
        |k: int|
            adpcm_sample(
                block_of(payload, k / (SAMPLES_PER_BLOCK as int)),
                k % (SAMPLES_PER_BLOCK as int),
            ),
    )
}

/// Why a corpus cannot be streamed.
#[derive(PartialEq, Eq, Structural, Copy, Clone, Debug)]
pub enum DecodeError {
    /// The container holds no well-formed `data` chunk.
    NoDataChunk,
    /// The `data` chunk holds no whole coded block.
    NoWholeBlock,
}

/// Index `b * S + c` splits back into block `b` and offset `c`.
proof fn lemma_split_index(b: int, c: int)
    requires
        0 <= c < SAMPLES_PER_BLOCK,
    ensures
        (b * SAMPLES_PER_BLOCK + c) / (SAMPLES_PER_BLOCK as int) == b,
        (b * SAMPLES_PER_BLOCK + c) % (SAMPLES_PER_BLOCK as int) == c,
{
    lemma_fundamental_div_mod_converse(
        b * SAMPLES_PER_BLOCK + c,
        SAMPLES_PER_BLOCK as int,
        b,
        c,
    );
}

/// Block `b` lies inside a payload of `len` bytes.
proof fn lemma_block_in_bounds(len: int, b: int)
    requires
        0 <= len,
        0 <= b < len / (BLOCK_SIZE as int),
    ensures
        b * BLOCK_SIZE + BLOCK_SIZE <= len,
{
    lemma_fundamental_div_mod(len, BLOCK_SIZE as int);
    let n = len / (BLOCK_SIZE as int);
    assert(b * BLOCK_SIZE + BLOCK_SIZE <= n * BLOCK_SIZE) by (nonlinear_arith)
        requires
            b < n,
    ;
}

/// Little-endian `u32` read from four bytes.
fn read_le_u32(s: &[u8], i: usize) -> (r: u32)
    requires
        i + 4 <= s@.len(),
    ensures
        r == le_u32(s@, i as int),
{
    s[i] as u32 + 256 * (s[i + 1] as u32) + 65536 * (s[i + 2] as u32) + 16777216 * (
    s[i + 3] as u32)
}

/// Body of the `data` chunk of a WAVE file, found by walking its chunks.
///
/// Gives nothing when no `data` chunk is reached before the end of the file,
/// or when its declared length runs past the end.
pub fn data_chunk(wav: &[u8]) -> (r: Option<&[u8]>)
    ensures
        match wav_payload(wav@) {
            Some(p) => r is Some && r->Some_0@ == p,
            None => r is None,
        },
{
    let mut offset: usize = FIRST_CHUNK_OFFSET;
    loop
        invariant
            find_data(wav@, offset as int) == find_data(wav@, FIRST_CHUNK_OFFSET as int),
        decreases wav@.len() - offset,
    {
        if wav.len() < 8 || offset > wav.len() - 8 {
            return None;
        }
        let len = read_le_u32(wav, offset + 4);
        let room: usize = wav.len() - offset - 8;
        let is_data = wav[offset] == 0x64u8 && wav[offset + 1] == 0x61u8 && wav[offset + 2]
            == 0x74u8 && wav[offset + 3] == 0x61u8;
        if len as u64 > room as u64 {
            return None;
        }
        let len = len as usize;
        if is_data {
            return Some(slice_subrange(wav, offset + 8, offset + 8 + len));
        }
        offset = offset + 8 + len;
    }
}

/// Decodes a whole corpus at once: the samples of every whole block of the
/// `data` chunk, one block after the other.
pub fn decode_all(wav: &[u8]) -> (r: Result<Vec<i16>, DecodeError>)
    ensures
        match wav_payload(wav@) {
            None => r == Err::<Vec<i16>, DecodeError>(DecodeError::NoDataChunk),
            Some(p) => if block_count_of(p) == 0 {
                r == Err::<Vec<i16>, DecodeError>(DecodeError::NoWholeBlock)
            } else {
                r is Ok && r->Ok_0@ == decoded_corpus(p)
            },
        },
{
    let payload = match data_chunk(wav) {
        Some(p) => p,
        None => return Err(DecodeError::NoDataChunk),
    };
    let count = payload.len() / BLOCK_SIZE;
    if count == 0 {
        return Err(DecodeError::NoWholeBlock);
    }
    let ghost p = payload@;
    let plen = payload.len();
    assert(plen == p.len());
    let mut buffer: Vec<i16> = vec![0i16; SAMPLES_PER_BLOCK];
    let mut out: Vec<i16> = Vec::new();
    let mut b: usize = 0;
    while b < count
        invariant
            p == payload@,
            p.len() <= usize::MAX,
            count == block_count_of(p),
            b <= count,
            buffer@.len() == SAMPLES_PER_BLOCK,
            out@.len() == b * SAMPLES_PER_BLOCK,
            forall|k: int|
                0 <= k < b * SAMPLES_PER_BLOCK ==> #[trigger] out@[k] == decoded_corpus(p)[k],
        decreases count - b,
    {
        proof {
            lemma_block_in_bounds(p.len() as int, b as int);
        }
        let start = b * BLOCK_SIZE;
        let block = slice_subrange(payload, start, start + BLOCK_SIZE);
        // a whole block meets the decoder's size requirements, so this is `Ok`
        let _ = decode_block(block, &mut buffer);
        let mut i: usize = 0;
        while i < SAMPLES_PER_BLOCK
            invariant
                p == payload@,
                p.len() <= usize::MAX,
                count == block_count_of(p),
                b < count,
                block@ == block_of(p, b as int),
                buffer@.len() == SAMPLES_PER_BLOCK,
                forall|j: int|
                    0 <= j < SAMPLES_PER_BLOCK ==> #[trigger] buffer@[j] == adpcm_sample(
                        block@,
                        j,
                    ),
                i <= SAMPLES_PER_BLOCK,
                out@.len() == b * SAMPLES_PER_BLOCK + i,
                forall|k: int|
                    0 <= k < b * SAMPLES_PER_BLOCK + i ==> #[trigger] out@[k] == decoded_corpus(
                        p,
                    )[k],
            decreases SAMPLES_PER_BLOCK - i,
        {
            let ghost k = b * SAMPLES_PER_BLOCK + i;
            proof {
                lemma_split_index(b as int, i as int);
                assert(b * SAMPLES_PER_BLOCK + i < count * SAMPLES_PER_BLOCK) by (nonlinear_arith)
                    requires
                        b < count,
                        i < SAMPLES_PER_BLOCK,
                ;
            }
            out.push(buffer[i]);
            assert(out@[k] == decoded_corpus(p)[k]);
            i += 1;
        }
        b += 1;
        assert(b * SAMPLES_PER_BLOCK == (b - 1) * SAMPLES_PER_BLOCK + SAMPLES_PER_BLOCK)
            by (nonlinear_arith);
    }
    assert(out@ =~= decoded_corpus(p));
    Ok(out)
}

/// An endless, restartable stream of linear samples over a corpus of coded
/// blocks.
///
/// One block is decoded at a time into a buffer that is then walked; the next
/// block (the first again after the last) is decoded only when the buffer is
/// used up, so the stream wraps round without a gap.
pub struct CompressedStreamDecoder<'a> {
    payload: &'a [u8],
    block_count: usize,
    block_index: usize,
    buffer: Vec<i16>,
    cursor: usize,
}

impl<'a> CompressedStreamDecoder<'a> {
    /// The coded bytes that are streamed.
    pub closed spec fn corpus(&self) -> Seq<u8> {
        self.payload@
    }

    /// Index, into the decoded corpus, of the sample the next call returns.
    pub closed spec fn position(&self) -> int {
        (self.block_index * SAMPLES_PER_BLOCK + self.cursor) % (decoded_corpus(
            self.payload@,
        ).len() as int)
    }

    /// The buffer holds the decoding of the current block, of which the
    /// samples before the cursor have been handed out.
    pub closed spec fn wf(&self) -> bool {
        &&& self.payload@.len() <= usize::MAX
        &&& self.block_count == block_count_of(self.payload@)
        &&& self.block_count >= 1
        &&& self.block_index < self.block_count
        &&& self.cursor <= SAMPLES_PER_BLOCK
        &&& self.buffer@.len() == SAMPLES_PER_BLOCK
        &&& forall|j: int|
            0 <= j < SAMPLES_PER_BLOCK ==> #[trigger] self.buffer@[j] == adpcm_sample(
                block_of(self.payload@, self.block_index as int),
                j,
            )
    }

    /// Decodes the current block into the buffer.
    fn refill(&mut self)
        requires
            old(self).payload@.len() <= usize::MAX,
            old(self).block_index < old(self).block_count,
            old(self).block_count == block_count_of(old(self).payload@),
            old(self).buffer@.len() == SAMPLES_PER_BLOCK,
        ensures
            final(self).payload == old(self).payload,
            final(self).block_count == old(self).block_count,
            final(self).block_index == old(self).block_index,
            final(self).cursor == old(self).cursor,
            final(self).buffer@.len() == SAMPLES_PER_BLOCK,
            forall|j: int|
                0 <= j < SAMPLES_PER_BLOCK ==> #[trigger] final(self).buffer@[j] == adpcm_sample(
                    block_of(final(self).payload@, final(self).block_index as int),
                    j,
                ),
    {
        proof {
            lemma_block_in_bounds(self.payload@.len() as int, self.block_index as int);
        }
        let start = self.block_index * BLOCK_SIZE;
        let block = slice_subrange(self.payload, start, start + BLOCK_SIZE);
        // a whole block meets the decoder's size requirements, so this is `Ok`
        let _ = decode_block(block, &mut self.buffer);
    }

    /// A stream over the `data` chunk of a WAVE file of mono IMA ADPCM blocks,
    /// starting `sample_offset` samples in (counted round the corpus).
    ///
    /// Streams over different corpora can be offset so that their block
    /// decodes do not fall on the same call.
    pub fn new(wav: &'a [u8], sample_offset: usize) -> (r: Result<Self, DecodeError>)
        ensures
            match wav_payload(wav@) {
                None => r == Err::<Self, DecodeError>(DecodeError::NoDataChunk),
                Some(p) => if block_count_of(p) == 0 {
                    r == Err::<Self, DecodeError>(DecodeError::NoWholeBlock)
                } else {
                    &&& r is Ok
                    &&& r->Ok_0.wf()
                    &&& r->Ok_0.corpus() == p
                    &&& r->Ok_0.position() == (sample_offset as int) % (decoded_corpus(p).len() as int)
                },
            },
    {
        let payload = match data_chunk(wav) {
            Some(p) => p,
            None => return Err(DecodeError::NoDataChunk),
        };
        let plen = payload.len();
        assert(plen == payload@.len());
        let count = plen / BLOCK_SIZE;
        if count == 0 {
            return Err(DecodeError::NoWholeBlock);
        }
        let quotient = sample_offset / SAMPLES_PER_BLOCK;
        let block_index = quotient % count;
        let cursor = sample_offset % SAMPLES_PER_BLOCK;
        let mut d = CompressedStreamDecoder {
            payload,
            block_count: count,
            block_index,
            buffer: vec![0i16; SAMPLES_PER_BLOCK],
            cursor,
        };
        d.refill();
        proof {
            let s = SAMPLES_PER_BLOCK as int;
            let n = count as int;
            let x = sample_offset as int;
            let q = quotient as int;
            lemma_fundamental_div_mod(x, s);
            lemma_fundamental_div_mod(q, n);
            // x == s * q + c and q == n * (q / n) + bi, so x == (n * s) * (q / n) + (bi * s + c)
            assert(x == (n * s) * (q / n) + (block_index * s + cursor)) by (nonlinear_arith)
                requires
                    x == s * q + cursor,
                    q == n * (q / n) + block_index,
            ;
            assert(block_index * s + cursor < n * s) by (nonlinear_arith)
                requires
                    block_index < n,
                    cursor < s,
                    s > 0,
            ;
            lemma_fundamental_div_mod_converse(x, n * s, q / n, block_index * s + cursor);
            lemma_fundamental_div_mod_converse(
                block_index * s + cursor,
                n * s,
                0,
                block_index * s + cursor,
            );
        }
        Ok(d)
    }

    /// The next sample of the stream. The stream never ends: after the last
    /// sample of the corpus it starts again from the first.
    pub fn next(&mut self) -> (r: i16)
        requires
            old(self).wf(),
        ensures
            final(self).wf(),
            final(self).corpus() == old(self).corpus(),
            r == decoded_corpus(old(self).corpus())[old(self).position()],
            final(self).position() == (old(self).position() + 1) % (decoded_corpus(
                old(self).corpus(),
            ).len() as int),
    {
        let ghost total = decoded_corpus(self.payload@).len() as int;
        let ghost s = SAMPLES_PER_BLOCK as int;
        let ghost start = self.position();
        assert(start == (self.block_index * s + self.cursor) % total);
        if self.cursor == SAMPLES_PER_BLOCK {
            let ghost old_index = self.block_index as int;
            assert(start == (old_index * s + s) % total);
            if self.block_index + 1 == self.block_count {
                self.block_index = 0;
                proof {
                    assert(old_index * s + s == total) by (nonlinear_arith)
                        requires
                            old_index + 1 == self.block_count,
                            total == self.block_count * s,
                    ;
                    lemma_fundamental_div_mod_converse(total, total, 1, 0);
                    assert(start == 0);
                }
            } else {
                self.block_index = self.block_index + 1;
                proof {
                    assert(old_index * s + s == self.block_index * s) by (nonlinear_arith)
                        requires
                            old_index + 1 == self.block_index,
                    ;
                    assert(start == (self.block_index * s) % total);
                }
            }
            self.cursor = 0;
            self.refill();
        }
        let ghost bi = self.block_index as int;
        let ghost c = self.cursor as int;
        proof {
            assert(bi * s + c < total) by (nonlinear_arith)
                requires
                    bi < self.block_count,
                    c < s,
                    s > 0,
                    total == self.block_count * s,
            ;
            lemma_fundamental_div_mod_converse(bi * s + c, total, 0, bi * s + c);
            lemma_split_index(bi, c);
            assert(start == bi * s + c);
        }
        let r = self.buffer[self.cursor];
        self.cursor = self.cursor + 1;
        r
    }
}

} // verus!

verus! {

/// Position of a stream after `n` calls of `next`, each of which moves it on
/// by one round a corpus of `len` samples, starting from `start`.
pub open spec fn position_after_calls(start: int, len: int, n: nat) -> int
    decreases n,
{
    if n == 0 {
        start
    } else {
        (position_after_calls(start, len, (n - 1) as nat) + 1) % len
    }
}

/// From the first sample, `n` calls leave a stream at `n` round the corpus.
proof fn lemma_position_wraps(len: int, n: nat)
    requires
        len >= 1,
    ensures
        position_after_calls(0, len, n) == (n as int) % len,
    decreases n,
{
    lemma_fundamental_div_mod_converse(0, len, 0, 0);
    if n > 0 {
        lemma_position_wraps(len, (n - 1) as nat);
        let m = (n - 1) as int;
        lemma_fundamental_div_mod(m, len);
        let q = m / len;
        let r = m % len;
        if r + 1 < len {
            lemma_fundamental_div_mod_converse(n as int, len, q, r + 1);
            lemma_fundamental_div_mod_converse(r + 1, len, 0, r + 1);
        } else {
            assert(n == (q + 1) * len) by (nonlinear_arith)
                requires
                    m == len * q + r,
                    r + 1 == len,
                    n == m + 1,
            ;
            lemma_fundamental_div_mod_converse(n as int, len, q + 1, 0);
            lemma_fundamental_div_mod_converse(r + 1, len, 1, 0);
        }
    }
}

/// Restart: a stream started at the first sample of a corpus of at least one
/// block hands out, on calls `0 .. total`, the one-shot decoding of the whole
/// corpus sample for sample, and on calls `total .. 2 * total` the same
/// samples again from the first.
pub proof fn lemma_stream_restarts(payload: Seq<u8>, k: nat)
    requires
        block_count_of(payload) >= 1,
        k < decoded_corpus(payload).len(),
    ensures
        decoded_corpus(payload)[position_after_calls(0, decoded_corpus(payload).len() as int, k)]
            == decoded_corpus(payload)[k as int],
        decoded_corpus(payload)[position_after_calls(
            0,
            decoded_corpus(payload).len() as int,
            k + decoded_corpus(payload).len(),
        )] == decoded_corpus(payload)[k as int],
{
    let total = decoded_corpus(payload).len() as int;
    assert(total >= 1) by (nonlinear_arith)
        requires
            total == block_count_of(payload) * SAMPLES_PER_BLOCK,
            block_count_of(payload) >= 1,
    ;
    lemma_position_wraps(total, k);
    lemma_position_wraps(total, k + total as nat);
    lemma_fundamental_div_mod_converse(k as int, total, 0, k as int);
    lemma_fundamental_div_mod_converse(k + total, total, 1, k as int);
}

} // verus!
