use vstd::prelude::*;
use crate::demod::{iq_magnitude, magnitude_of};
use crate::preamble::{find_adsb_preambles, preamble_offsets, PREAMBLE_LEN};

verus! {

/// Samples in one long Mode-S message window: the preamble and 112 bits of two samples each.
pub const FRAME_LEN: usize = 512;

/// Bits in one long Mode-S message.
pub const BIT_COUNT: usize = 112;

/// The windows cut at each offset of `starts` that leaves room for a whole frame, in order.
pub open spec fn windows_of(s: Seq<u16>, starts: Seq<usize>) -> Seq<Seq<u16>>
    decreases starts.len(),
{
    if starts.len() == 0 {
        Seq::empty()
    } else {
        let rest = windows_of(s, starts.drop_last());
        let st = starts.last() as int;
        if st + FRAME_LEN <= s.len() {
            rest.push(s.subrange(st, st + FRAME_LEN))
        } else {
            rest
        }
    }
}

/// Sample index of the first half of bit `b`.
pub open spec fn bit_pos(b: int) -> int {
    PREAMBLE_LEN + 2 * b
}

/// The character that bit `b` of a window decodes to, when its two samples differ.
pub open spec fn bit_char(w: Seq<u16>, b: int) -> char {
    if w[bit_pos(b)] > w[bit_pos(b) + 1] {
        '0'
    } else {
        '1'
    }
}

/// Some bit of the window has two equal samples.
pub open spec fn has_tie(w: Seq<u16>) -> bool {
    exists|b: int| 0 <= b < BIT_COUNT && #[trigger] w[bit_pos(b)] == w[bit_pos(b) + 1]
}

/// The bit string of a window, absent when it is short or holds a tie.
pub open spec fn bits_of(w: Seq<u16>) -> Option<Seq<char>> {
    if w.len() < FRAME_LEN || has_tie(w) {
        None
    } else {
        Some(Seq::new(BIT_COUNT as nat, |b: int| bit_char(w, b)))
    }
}

/// The windows that decode, each paired with its bit string, in order.
pub open spec fn frames_of(ws: Seq<Seq<u16>>) -> Seq<(Seq<char>, Seq<u16>)>
    decreases ws.len(),
{
    if ws.len() == 0 {
        Seq::empty()
    } else {
        let rest = frames_of(ws.drop_last());
        match bits_of(ws.last()) {
            Some(b) => rest.push((b, ws.last())),
            None => rest,
        }
    }
}

/// What the whole pipeline yields for an I/Q buffer.
pub open spec fn pipeline_of(iq: Seq<i16>) -> Seq<(Seq<char>, Seq<u16>)> {
    let m = magnitude_of(iq);
    frames_of(windows_of(m, preamble_offsets(m)))
}

/// A window shorter than a frame, or one with a bit whose two samples are
/// equal, has no bit string.
pub proof fn lemma_short_or_tied_window_has_no_bits(w: Seq<u16>, b: int)
    requires
        w.len() < FRAME_LEN || (0 <= b < BIT_COUNT && w[bit_pos(b)] == w[bit_pos(b) + 1]),
    ensures
        bits_of(w) is None,
{
    if w.len() >= FRAME_LEN {
        assert(has_tie(w));
    }
}

/// Copies out a frame-length window at each start offset that leaves room for one;
/// the others are skipped.
pub fn extract_messages(magnitude: &[u16], preambles: &[usize]) -> (r: Vec<Vec<u16>>)
    ensures
        r@.len() == windows_of(magnitude@, preambles@).len(),
        forall|k: int| 0 <= k < r@.len() ==> #[trigger] r@[k]@ == windows_of(magnitude@, preambles@)[k],
{
    let len: usize = magnitude.len();
    let mut out: Vec<Vec<u16>> = Vec::new();
    let mut j: usize = 0;
    while j < preambles.len()
        invariant
            len == magnitude@.len(),
            j <= preambles@.len(),
            out@.len() == windows_of(magnitude@, preambles@.subrange(0, j as int)).len(),
            forall|k: int| 0 <= k < out@.len() ==>
                #[trigger] out@[k]@ == windows_of(magnitude@, preambles@.subrange(0, j as int))[k],
        decreases preambles@.len() - j,
    {
        let start = preambles[j];
        assert(preambles@.subrange(0, j + 1).drop_last() =~= preambles@.subrange(0, j as int));
        if start <= len && len - start >= FRAME_LEN {
            let mut w: Vec<u16> = Vec::with_capacity(FRAME_LEN);
            let mut t: usize = start;
            while t < start + FRAME_LEN
                invariant
                    len == magnitude@.len(),
                    start + FRAME_LEN <= len,
                    start <= t <= start + FRAME_LEN,
                    w@ =~= magnitude@.subrange(start as int, t as int),
                decreases start + FRAME_LEN - t,
            {
                w.push(magnitude[t]);
                t = t + 1;
            }
            out.push(w);
        }
        j = j + 1;
    }
    assert(preambles@.subrange(0, preambles@.len() as int) =~= preambles@);
    out
}

/// Decodes the 112 bits of a window by comparing the two samples of each bit:
/// a greater first sample is '0', a greater second one '1'. A window shorter
/// than a frame, or any bit with equal samples, gives `None`.
pub fn decode_bits(magnitude: &[u16]) -> (r: Option<String>)
    ensures
        match r {
            Some(s) => bits_of(magnitude@) == Some(s@),
            None => bits_of(magnitude@) is None,
        },
{
    if magnitude.len() < FRAME_LEN {
        return None;
    }
    let mut bits = String::new();
    let mut bit: usize = 0;
    while bit < BIT_COUNT
        invariant
            magnitude@.len() >= FRAME_LEN,
            bit <= BIT_COUNT,
            bits@ =~= Seq::new(bit as nat, |b: int| bit_char(magnitude@, b)),
            forall|b: int| 0 <= b < bit ==> #[trigger] magnitude@[bit_pos(b)] != magnitude@[bit_pos(b) + 1],
        decreases BIT_COUNT - bit,
    {
        let i: usize = PREAMBLE_LEN + bit * 2;
        let s0 = magnitude[i];
        let s1 = magnitude[i + 1];
        if s0 > s1 {
            proof { reveal_strlit("0"); }
            bits.append("0");
        } else if s0 < s1 {
            proof { reveal_strlit("1"); }
            bits.append("1");
        } else {
            assert(magnitude@[bit_pos(bit as int)] == magnitude@[bit_pos(bit as int) + 1]);
            return None;
        }
        bit = bit + 1;
    }
    Some(bits)
}

/// Runs the pipeline over one I/Q buffer: demodulation, preamble search,
/// window extraction and bit decoding. Each window that decodes is returned
/// with its bit string, in order of offset.
pub fn process_adsb_frames(iq: &[i16]) -> (r: Vec<(String, Vec<u16>)>)
    ensures
        r@.len() == pipeline_of(iq@).len(),
        forall|k: int| 0 <= k < r@.len() ==>
            (#[trigger] r@[k]).0@ == pipeline_of(iq@)[k].0 && r@[k].1@ == pipeline_of(iq@)[k].1,
{
    let magnitude = iq_magnitude(iq);
    let preambles = find_adsb_preambles(magnitude.as_slice());
    let windows = extract_messages(magnitude.as_slice(), preambles.as_slice());
    let ghost ws = windows_of(magnitude@, preambles@);
    let mut out: Vec<(String, Vec<u16>)> = Vec::new();
    let mut j: usize = 0;
    while j < windows.len()
        invariant
            ws == windows_of(magnitude_of(iq@), preamble_offsets(magnitude_of(iq@))),
            windows@.len() == ws.len(),
            forall|k: int| 0 <= k < windows@.len() ==> #[trigger] windows@[k]@ == ws[k],
            j <= windows@.len(),
            out@.len() == frames_of(ws.subrange(0, j as int)).len(),
            forall|k: int| 0 <= k < out@.len() ==>
                (#[trigger] out@[k]).0@ == frames_of(ws.subrange(0, j as int))[k].0
                    && out@[k].1@ == frames_of(ws.subrange(0, j as int))[k].1,
        decreases windows@.len() - j,
    {
        assert(ws.subrange(0, j + 1).drop_last() =~= ws.subrange(0, j as int));
        assert(ws.subrange(0, j + 1).last() == windows@[j as int]@);
        match decode_bits(windows[j].as_slice()) {
            Some(bits) => {
                let w = windows[j].clone();
                assert(w@ =~= windows@[j as int]@);
                out.push((bits, w));
            },
            None => {},
        }
        j = j + 1;
    }
    assert(ws.subrange(0, ws.len() as int) =~= ws);
    out
}

} // verus!
