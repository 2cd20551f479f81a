use vstd::prelude::*;

verus! {

/// Number of samples in a preamble window.
pub const PREAMBLE_LEN: usize = 16;

/// Offsets within a preamble window where a pulse is expected.
pub open spec fn is_pulse(k: int) -> bool {
    k == 0 || k == 2 || k == 7 || k == 9
}

/// A preamble starts at `i`: the window fits, and every pulse sample is
/// strictly greater than every gap sample.
pub open spec fn preamble_at(s: Seq<u16>, i: int) -> bool {
    &&& 0 <= i
    &&& i + PREAMBLE_LEN <= s.len()
    &&& forall|p: int, g: int|
        #![trigger s[i + p], s[i + g]]
        0 <= p < PREAMBLE_LEN && 0 <= g < PREAMBLE_LEN && is_pulse(p) && !is_pulse(g)
            ==> s[i + p] > s[i + g]
}

/// Ascending offsets below `n` at which a preamble starts.
pub open spec fn preambles_below(s: Seq<u16>, n: nat) -> Seq<usize>
    decreases n,
{
    if n == 0 {
        Seq::empty()
    } else {
        let rest = preambles_below(s, (n - 1) as nat);
        if preamble_at(s, n - 1) {
            rest.push((n - 1) as usize)
        } else {
            rest
        }
    }
}

/// Number of offsets that the scanner examines: `[0, len - 16)`.
pub open spec fn scan_limit(s: Seq<u16>) -> nat {
    if s.len() > PREAMBLE_LEN {
        (s.len() - PREAMBLE_LEN) as nat
    } else {
        0
    }
}

/// Every preamble offset in `[0, len - 16)`, ascending.
pub open spec fn preamble_offsets(s: Seq<u16>) -> Seq<usize> {
    preambles_below(s, scan_limit(s))
}

/// Tests the window at `i` against the preamble pattern, giving up as soon
/// as the smallest pulse seen is no greater than the largest gap seen.
pub fn detect_preamble(buf: &[u16], i: usize) -> (r: bool)
    ensures
        r == preamble_at(buf@, i as int),
{
    let len: usize = buf.len();
    if i > len || len - i < PREAMBLE_LEN {
        return false;
    }
    let mut low: u16 = 0;
    let mut high: u16 = 65535;
    // Witnesses: a pulse no greater than `high` and a gap no smaller than `low`.
    let ghost mut hp: int = 0;
    let ghost mut lg: int = 1;
    let mut k: usize = 0;
    while k < PREAMBLE_LEN
        invariant
            len == buf@.len(),
            i + PREAMBLE_LEN <= len,
            k <= PREAMBLE_LEN,
            high > low,
            0 <= hp < PREAMBLE_LEN && is_pulse(hp) && buf@[i + hp] <= high,
            0 <= lg < PREAMBLE_LEN && !is_pulse(lg) && low <= buf@[i + lg],
            forall|p: int| 0 <= p < k && is_pulse(p) ==> high <= buf@[i + p],
            forall|g: int| 0 <= g < k && !is_pulse(g) ==> buf@[i + g] <= low,
        decreases PREAMBLE_LEN - k,
    {
        let sample = buf[i + k];
        if k == 0 || k == 2 || k == 7 || k == 9 {
            if sample < high {
                high = sample;
                proof { hp = k as int; }
            }
        } else {
            if sample > low {
                low = sample;
                proof { lg = k as int; }
            }
        }
        if high <= low {
            assert(!preamble_at(buf@, i as int)) by {
                if preamble_at(buf@, i as int) {
                    assert(buf@[i + hp] > buf@[i + lg]);
                }
            }
            return false;
        }
        k = k + 1;
    }
    true
}

/// Every offset in `[0, len - 16)` at which a preamble starts, ascending.
pub fn find_adsb_preambles(magnitude: &[u16]) -> (r: Vec<usize>)
    ensures
        r@ == preamble_offsets(magnitude@),
{
    let len: usize = magnitude.len();
    let limit: usize = if len > PREAMBLE_LEN { len - PREAMBLE_LEN } else { 0 };
    let mut out: Vec<usize> = Vec::new();
    let mut i: usize = 0;
    while i < limit
        invariant
            len == magnitude@.len(),
            limit == scan_limit(magnitude@),
            i <= limit,
            out@ == preambles_below(magnitude@, i as nat),
        decreases limit - i,
    {
        if detect_preamble(magnitude, i) {
            out.push(i);
        }
        i = i + 1;
    }
    out
}

/// A window is rejected as soon as a pulse sample is no greater than a gap
/// sample seen before it.
pub proof fn lemma_preamble_rejects_low_pulse(s: Seq<u16>, i: int, p: int, g: int)
    requires
        0 <= g < p < PREAMBLE_LEN,
        is_pulse(p),
        !is_pulse(g),
        0 <= i,
        i + PREAMBLE_LEN <= s.len(),
        s[i + p] <= s[i + g],
    ensures
        !preamble_at(s, i),
{
}

/// A series of zero samples holds no preamble.
pub proof fn lemma_no_preamble_in_silence(s: Seq<u16>)
    requires
        forall|k: int| 0 <= k < s.len() ==> s[k] == 0,
    ensures
        preamble_offsets(s) == Seq::<usize>::empty(),
{
    lemma_silence_below(s, scan_limit(s));
}

proof fn lemma_silence_below(s: Seq<u16>, n: nat)
    requires
        forall|k: int| 0 <= k < s.len() ==> s[k] == 0,
    ensures
        preambles_below(s, n) == Seq::<usize>::empty(),
    decreases n,
{
    if n > 0 {
        lemma_silence_below(s, (n - 1) as nat);
        let i = n - 1;
        if preamble_at(s, i) {
            assert(s[i + 0] > s[i + 1]);
        }
    }
}

} // verus!
