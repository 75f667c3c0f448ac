//! The move and game-end cues: 16-bit mono PCM at 22050 Hz in a WAV container.
use vstd::prelude::*;

verus! {

/// Samples per second of the cues.
pub const RATE: u32 = 22050;

/// The number of samples of a cue: longer when the game has finished.
pub open spec fn spec_cue_samples(finished: bool) -> nat {
    if finished { 6600 } else { 1800 }
}

pub fn cue_samples(finished: bool) -> (r: usize)
    ensures
        r == spec_cue_samples(finished),
{
    if finished { 6600 } else { 1800 }
}

/// Little-endian bytes of a 16-bit value.
pub open spec fn le16(v: nat) -> Seq<u8> {
    seq![(v % 256) as u8, ((v / 256) % 256) as u8]
}

/// Little-endian bytes of a 32-bit value.
pub open spec fn le32(v: nat) -> Seq<u8> {
    seq![
        (v % 256) as u8,
        ((v / 256) % 256) as u8,
        ((v / 65536) % 256) as u8,
        ((v / 16777216) % 256) as u8,
    ]
}

/// The 44-byte WAV header of `n` samples of 16-bit mono PCM at `RATE`.
pub open spec fn wav_header(n: nat) -> Seq<u8> {
    "RIFF"@.map_values(|c: char| c as u8) + le32(36 + n * 2) + "WAVEfmt "@.map_values(
        |c: char| c as u8,
    ) + le32(16) + le16(1) + le16(1) + le32(RATE as nat) + le32(RATE as nat * 2) + le16(2) + le16(
        16,
    ) + "data"@.map_values(|c: char| c as u8) + le32(n * 2)
}

/// The PCM bytes of the samples `s`, each in two's complement little-endian.
pub open spec fn pcm(s: Seq<i16>) -> Seq<u8>
    decreases s.len(),
{
    if s.len() == 0 {
        seq![]
    } else {
        pcm(s.drop_last()) + le16((s.last() as u16) as nat)
    }
}

fn push_le16(v: &mut Vec<u8>, x: u16)
    ensures
        final(v)@ == old(v)@ + le16(x as nat),
{
    v.push((x % 256) as u8);
    v.push(((x / 256) % 256) as u8);
    assert(final(v)@ =~= old(v)@ + le16(x as nat)) by {
        assert(v@.len() == old(v)@.len() + 2);
    }
}

fn push_le32(v: &mut Vec<u8>, x: u32)
    ensures
        final(v)@ == old(v)@ + le32(x as nat),
{
    v.push((x % 256) as u8);
    v.push(((x / 256) % 256) as u8);
    v.push(((x / 65536) % 256) as u8);
    v.push(((x / 16777216) % 256) as u8);
    assert(final(v)@ =~= old(v)@ + le32(x as nat)) by {
        assert(v@.len() == old(v)@.len() + 4);
    }
}

fn push_ascii(v: &mut Vec<u8>, a: u8, b: u8, c: u8, d: u8)
    ensures
        final(v)@ == old(v)@ + seq![a, b, c, d],
{
    v.push(a);
    v.push(b);
    v.push(c);
    v.push(d);
    assert(final(v)@ =~= old(v)@ + seq![a, b, c, d]);
}

/// The WAV file of a cue whose samples are `tone`: the header for that many
/// samples, then the samples.
pub fn cue(finished: bool, tone: &[i16]) -> (r: Vec<u8>)
    requires
        tone@.len() == spec_cue_samples(finished),
    ensures
        r@ == wav_header(tone@.len()) + pcm(tone@),
        r@.len() == 44 + 2 * tone@.len(),
{
    let n = tone.len() as u32;
    let mut bytes: Vec<u8> = Vec::new();
    push_ascii(&mut bytes, 82, 73, 70, 70);
    push_le32(&mut bytes, 36 + n * 2);
    push_ascii(&mut bytes, 87, 65, 86, 69);
    push_ascii(&mut bytes, 102, 109, 116, 32);
    push_le32(&mut bytes, 16);
    push_le16(&mut bytes, 1);
    push_le16(&mut bytes, 1);
    push_le32(&mut bytes, RATE);
    push_le32(&mut bytes, RATE * 2);
    push_le16(&mut bytes, 2);
    push_le16(&mut bytes, 16);
    push_ascii(&mut bytes, 100, 97, 116, 97);
    push_le32(&mut bytes, n * 2);
    proof {
        reveal_strlit("RIFF");
        reveal_strlit("WAVEfmt ");
        reveal_strlit("data");
        assert("RIFF"@.map_values(|c: char| c as u8) =~= seq![82u8, 73, 70, 70]);
        assert("WAVEfmt "@.map_values(|c: char| c as u8) =~= seq![87u8, 65, 86, 69, 102, 109, 116, 32]);
        assert("data"@.map_values(|c: char| c as u8) =~= seq![100u8, 97, 116, 97]);
        assert(bytes@ =~= wav_header(tone@.len()));
    }
    let ghost head = bytes@;
    for i in 0..tone.len()
        invariant
            bytes@ == head + pcm(tone@.take(i as int)),
            head.len() == 44,
    {
        push_le16(&mut bytes, tone[i] as u16);
        assert(tone@.take(i + 1).drop_last() == tone@.take(i as int));
        proof {
            lemma_pcm_len(tone@.take(i + 1));
        }
    }
    assert(tone@.take(tone.len() as int) == tone@);
    proof {
        lemma_pcm_len(tone@);
    }
    bytes
}

proof fn lemma_pcm_len(s: Seq<i16>)
    ensures
        pcm(s).len() == 2 * s.len(),
    decreases s.len(),
{
    if s.len() > 0 {
        lemma_pcm_len(s.drop_last());
    }
}

} // verus!
