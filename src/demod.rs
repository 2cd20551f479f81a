use vstd::prelude::*;

verus! {

/// Largest value a magnitude sample can take.
pub const MAG_MAX: u16 = 65535;

/// `r` is the scaled magnitude of the pair `(i, q)`: the integer part of
/// `10 * sqrt(i*i + q*q)`, clamped to `MAG_MAX`.
pub open spec fn is_scaled_magnitude(r: int, i: int, q: int) -> bool {
    &&& 0 <= r <= MAG_MAX as int
    &&& r * r <= 100 * (i * i + q * q)
    &&& (r == MAG_MAX as int || 100 * (i * i + q * q) < (r + 1) * (r + 1))
}

/// The scaled, clamped magnitude of one I/Q pair.
pub open spec fn scaled_magnitude(i: int, q: int) -> int {
    choose|r: int| is_scaled_magnitude(r, i, q)
}

/// The magnitude series of an interleaved I/Q buffer; a trailing odd sample is ignored.
pub open spec fn magnitude_of(iq: Seq<i16>) -> Seq<u16> {
    Seq::new(iq.len() / 2, |k: int| scaled_magnitude(iq[2 * k] as int, iq[2 * k + 1] as int) as u16)
}

/// At most one value meets the definition of a scaled magnitude, so
/// `scaled_magnitude` names it.
pub proof fn lemma_scaled_magnitude_unique(r1: int, r2: int, i: int, q: int)
    requires
        is_scaled_magnitude(r1, i, q),
        is_scaled_magnitude(r2, i, q),
    ensures
        r1 == r2,
{
    if r1 < r2 {
        assert((r1 + 1) * (r1 + 1) <= r2 * r2) by (nonlinear_arith)
            requires 0 <= r1 < r2;
    } else if r2 < r1 {
        assert((r2 + 1) * (r2 + 1) <= r1 * r1) by (nonlinear_arith)
            requires 0 <= r2 < r1;
    }
}

/// Integer part of `10 * sqrt(i*i + q*q)`, clamped to `MAG_MAX`, found by
/// bisection on the squared value.
fn pair_magnitude(i: i16, q: i16) -> (r: u16)
    ensures
        r as int == scaled_magnitude(i as int, q as int),
{
    let ii: i64 = i as i64;
    let qq: i64 = q as i64;
    assert(0 <= ii * ii <= 32768 * 32768) by (nonlinear_arith)
        requires -32768 <= ii <= 32767;
    assert(0 <= qq * qq <= 32768 * 32768) by (nonlinear_arith)
        requires -32768 <= qq <= 32767;
    let v: u64 = (100 * (ii * ii + qq * qq)) as u64;
    // Invariant: lo*lo <= v, and hi is either past the clamp or hi*hi > v.
    let mut lo: u64 = 0;
    let mut hi: u64 = 65536;
    while lo + 1 < hi
        invariant
            lo < hi <= 65536,
            lo * lo <= v,
            hi == 65536 || v < hi * hi,
            v == 100 * (i as int * i as int + q as int * q as int),
        decreases hi - lo,
    {
        let mid: u64 = lo + (hi - lo) / 2;
        assert(mid * mid <= 65536 * 65536) by (nonlinear_arith)
            requires mid <= 65536;
        if mid * mid <= v {
            lo = mid;
        } else {
            hi = mid;
        }
    }
    proof {
        assert(is_scaled_magnitude(lo as int, i as int, q as int));
        lemma_scaled_magnitude_unique(
            lo as int,
            scaled_magnitude(i as int, q as int),
            i as int,
            q as int,
        );
    }
    lo as u16
}

/// Demodulates interleaved I/Q samples into a magnitude series: one sample
/// per pair, scaled by ten and clamped to `MAG_MAX`.
pub fn iq_magnitude(buffer: &[i16]) -> (r: Vec<u16>)
    ensures
        r@ == magnitude_of(buffer@),
        r@.len() == buffer@.len() / 2,
        forall|k: int| 0 <= k < r@.len() ==> #[trigger] r@[k] <= MAG_MAX,
{
    let len: usize = buffer.len();
    let n: usize = len / 2;
    let mut out: Vec<u16> = Vec::with_capacity(n);
    let mut k: usize = 0;
    while k < n
        invariant
            len == buffer@.len(),
            n == len / 2,
            k <= n,
            out@ =~= magnitude_of(buffer@).subrange(0, k as int),
        decreases n - k,
    {
        assert(2 * k + 1 < buffer@.len()) by (nonlinear_arith)
            requires k < n, n == len / 2, len == buffer@.len();
        let m = pair_magnitude(buffer[2 * k], buffer[2 * k + 1]);
        out.push(m);
        k = k + 1;
    }
    out
}

} // verus!
