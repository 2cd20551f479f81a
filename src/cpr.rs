use vstd::prelude::*;
use vstd::arithmetic::div_mod::lemma_hoist_over_denominator;
use std::collections::HashMap;

verus! {

/// Resolution of a CPR coordinate code: codes are 17-bit fractions of a zone.
pub const CPR_SCALE: i64 = 131072;

/// Half of `CPR_SCALE`, for rounding to the nearest zone.
pub const CPR_HALF: i64 = 65536;

/// Why a CPR pair could not be resolved.
#[derive(Debug, Clone, Copy, PartialEq, Eq, Structural)]
pub enum CprError {
    /// The reference parity leaves no longitude zone at the decoded latitude.
    DegenerateLongitudeZone,
}

/// An exact angle in degrees, `num / den`.
#[derive(Debug, Clone, Copy, PartialEq, Eq, Structural)]
pub struct Degrees {
    pub num: i64,
    pub den: i64,
}

/// A CPR even/odd pair ready to be resolved, with the parity of reference.
#[derive(Debug, Clone, Copy, PartialEq, Eq, Structural)]
pub struct CprPair {
    pub lat_even: u32,
    pub lon_even: u32,
    pub lat_odd: u32,
    pub lon_odd: u32,
    /// The odd sample is the newer one and serves as reference.
    pub use_odd: bool,
}

impl CprPair {
    /// All four codes are 17-bit values.
    pub open spec fn codes_in_range(&self) -> bool {
        &&& self.lat_even < CPR_SCALE
        &&& self.lon_even < CPR_SCALE
        &&& self.lat_odd < CPR_SCALE
        &&& self.lon_odd < CPR_SCALE
    }
}

/// Remainder of `a` by `d > 0` that takes the sign of `a`, as `%` does on floats.
pub open spec fn trem(a: int, d: int) -> int {
    if a >= 0 {
        a % d
    } else {
        -((-a) % d)
    }
}

/// Latitude zone index `j = floor(59 * yz_even - 60 * yz_odd + 1/2)`.
pub open spec fn lat_zone_index(lat_even: int, lat_odd: int) -> int {
    (59 * lat_even - 60 * lat_odd + CPR_HALF) / (CPR_SCALE as int)
}

/// Decoded latitude: `(360/60) * ((j rem 60) + yz_even)` with the even sample as
/// reference, `(360/59) * ((j rem 59) + yz_odd)` with the odd one.
pub open spec fn global_latitude(p: CprPair) -> Degrees {
    let j = lat_zone_index(p.lat_even as int, p.lat_odd as int);
    if p.use_odd {
        Degrees {
            num: (360 * (trem(j, 59) * CPR_SCALE + p.lat_odd)) as i64,
            den: (59 * CPR_SCALE) as i64,
        }
    } else {
        Degrees { num: (6 * (trem(j, 60) * CPR_SCALE + p.lat_even)) as i64, den: CPR_SCALE }
    }
}

/// The zone count `NL` as used: at least one.
pub open spec fn guarded_nl(nl: u32) -> int {
    if nl == 0 {
        1
    } else {
        nl as int
    }
}

/// Longitude zones of the reference parity: `NL` for odd, `NL - 1` for even.
pub open spec fn lon_zones(nl: u32, use_odd: bool) -> int {
    if use_odd {
        guarded_nl(nl)
    } else {
        guarded_nl(nl) - 1
    }
}

/// Longitude zone index `m = floor(xz_even * NL - xz_odd * (NL + 1) + 1/2)`.
pub open spec fn lon_zone_index(lon_even: int, lon_odd: int, nl: u32) -> int {
    let n = guarded_nl(nl);
    (lon_even * n - lon_odd * (n + 1) + CPR_HALF) / (CPR_SCALE as int)
}

/// Decoded longitude `(360/ni) * (((m rem ni) + xz_ref) rem ni)`, or an error when
/// the reference parity has no zone (`ni == 0`).
pub open spec fn global_longitude(p: CprPair, nl: u32) -> Result<Degrees, CprError> {
    let ni = lon_zones(nl, p.use_odd);
    if ni == 0 {
        Err(CprError::DegenerateLongitudeZone)
    } else {
        let m = lon_zone_index(p.lon_even as int, p.lon_odd as int, nl);
        let xz = if p.use_odd { p.lon_odd as int } else { p.lon_even as int };
        let n = trem(m, ni) * CPR_SCALE + xz;
        Ok(Degrees { num: (360 * trem(n, ni * CPR_SCALE)) as i64, den: (ni * CPR_SCALE) as i64 })
    }
}

/// Zone count at latitude `lat`: one from 87 degrees towards either pole,
/// otherwise the value that the zone formula gave.
pub open spec fn zone_count(lat: Degrees, formula: u32) -> u32 {
    if lat.num >= 87 * lat.den || -lat.num >= 87 * lat.den {
        1
    } else {
        formula
    }
}

/// `x / d` rounded down, computed on `x + shift * d`, which must not be negative.
fn floor_div(x: i64, shift: i64, d: i64) -> (q: i64)
    requires
        d > 0,
        0 <= shift,
        shift * d <= 0x1000_0000_0000_0000,
        0 <= x + shift * d <= 0x2000_0000_0000_0000,
    ensures
        q == x as int / d as int,
{
    let y: i64 = x + shift * d;
    let qy: i64 = ((y as u64) / (d as u64)) as i64;
    proof {
        lemma_hoist_over_denominator(x as int, shift as int, d as nat);
    }
    qy - shift
}

/// Remainder by `d > 0` with the sign of `a`.
fn trunc_rem(a: i64, d: i64) -> (r: i64)
    requires
        d > 0,
        a > i64::MIN,
    ensures
        r == trem(a as int, d as int),
        -d < r < d,
{
    if a >= 0 {
        ((a as u64) % (d as u64)) as i64
    } else {
        -((((-a) as u64) % (d as u64)) as i64)
    }
}

/// The latitude of a CPR pair, with the reference parity's zone width.
pub fn cpr_global_latitude(pair: &CprPair) -> (r: Degrees)
    requires
        pair.codes_in_range(),
    ensures
        r == global_latitude(*pair),
        r.den > 0,
{
    let le = pair.lat_even as i64;
    let lo = pair.lat_odd as i64;
    let j = floor_div(59 * le - 60 * lo + CPR_HALF, 60, CPR_SCALE);
    assert(-60 <= j <= 59) by {
        assert(-60 * CPR_SCALE <= 59 * le - 60 * lo + CPR_HALF);
        assert(59 * le - 60 * lo + CPR_HALF < 60 * CPR_SCALE);
    }
    if pair.use_odd {
        let z = trunc_rem(j, 59);
        Degrees { num: 360 * (z * CPR_SCALE + lo), den: 59 * CPR_SCALE }
    } else {
        let z = trunc_rem(j, 60);
        Degrees { num: 6 * (z * CPR_SCALE + le), den: CPR_SCALE }
    }
}

/// The longitude of a CPR pair, given the zone count `nl` at its decoded latitude
/// (taken as one where it is zero).
pub fn cpr_global_longitude(pair: &CprPair, nl: u32) -> (r: Result<Degrees, CprError>)
    requires
        pair.codes_in_range(),
    ensures
        r == global_longitude(*pair, nl),
        r matches Ok(d) ==> d.den > 0,
        r is Err <==> (!pair.use_odd && guarded_nl(nl) == 1),
{
    let n: i64 = if nl == 0 { 1 } else { nl as i64 };
    let ni: i64 = if pair.use_odd { n } else { n - 1 };
    if ni == 0 {
        return Err(CprError::DegenerateLongitudeZone);
    }
    let le = pair.lon_even as i64;
    let lo = pair.lon_odd as i64;
    assert(0 <= le * n <= CPR_SCALE * 0x1_0000_0000) by (nonlinear_arith)
        requires 0 <= le < CPR_SCALE, 1 <= n <= 0x1_0000_0000;
    assert(0 <= lo * (n + 1) <= CPR_SCALE * 0x1_0000_0001) by (nonlinear_arith)
        requires 0 <= lo < CPR_SCALE, 1 <= n <= 0x1_0000_0000;
    assert(lo * (n + 1) <= (CPR_SCALE - 1) * (n + 1)) by (nonlinear_arith)
        requires 0 <= lo < CPR_SCALE, 1 <= n;
    assert((n + 1) * CPR_SCALE <= 0x1_0000_0001 * CPR_SCALE) by (nonlinear_arith)
        requires 1 <= n <= 0x1_0000_0000;
    let m = floor_div(le * n - lo * (n + 1) + CPR_HALF, n + 1, CPR_SCALE);
    assert(-(n + 1) <= m <= n) by {
        assert(m == (le * n - lo * (n + 1) + CPR_HALF) / CPR_SCALE as int);
        assert(m * CPR_SCALE <= le * n - lo * (n + 1) + CPR_HALF) by (nonlinear_arith)
            requires m == (le * n - lo * (n + 1) + CPR_HALF) / CPR_SCALE as int;
        assert(le * n - lo * (n + 1) + CPR_HALF < (m + 1) * CPR_SCALE) by (nonlinear_arith)
            requires m == (le * n - lo * (n + 1) + CPR_HALF) / CPR_SCALE as int;
        assert(le * n <= (CPR_SCALE - 1) * n) by (nonlinear_arith)
            requires 0 <= le < CPR_SCALE, 1 <= n;
        assert(m <= n) by (nonlinear_arith)
            requires m * CPR_SCALE <= le * n - lo * (n + 1) + CPR_HALF, le * n <= (CPR_SCALE - 1) * n,
                lo * (n + 1) >= 0, n >= 1;
        assert(m >= -(n + 1)) by (nonlinear_arith)
            requires le * n - lo * (n + 1) + CPR_HALF < (m + 1) * CPR_SCALE,
                lo * (n + 1) <= (CPR_SCALE - 1) * (n + 1), le * n >= 0, n >= 1;
    }
    let zm = trunc_rem(m, ni);
    let xz: i64 = if pair.use_odd { lo } else { le };
    assert(-(ni * CPR_SCALE) < zm * CPR_SCALE < ni * CPR_SCALE) by (nonlinear_arith)
        requires -ni < zm < ni, ni >= 1;
    assert(ni * CPR_SCALE <= 0x1_0000_0000 * CPR_SCALE) by (nonlinear_arith)
        requires 1 <= ni <= 0x1_0000_0000;
    let span: i64 = ni * CPR_SCALE;
    let total: i64 = zm * CPR_SCALE + xz;
    let z = trunc_rem(total, span);
    assert(-0x1_0000_0000 * CPR_SCALE < z < 0x1_0000_0000 * CPR_SCALE);
    Ok(Degrees { num: 360 * z, den: span })
}

/// The zone count to use at latitude `lat`: one from 87 degrees towards either
/// pole, where the zone formula breaks down; `formula` elsewhere.
pub fn longitude_zone_count(lat: &Degrees, formula: u32) -> (r: u32)
    requires
        lat.den > 0,
    ensures
        r == zone_count(*lat, formula),
{
    let num = lat.num as i128;
    let bound = 87 * (lat.den as i128);
    if num >= bound || -num >= bound {
        1
    } else {
        formula
    }
}

/// One CPR sample: its two 17-bit codes and when it was received, in milliseconds.
#[derive(Debug, Clone, Copy, PartialEq, Eq, Structural)]
pub struct CprSample {
    pub lat_cpr: u32,
    pub lon_cpr: u32,
    pub t_ms: u64,
}

/// CPR format of a position message.
#[derive(Debug, Clone, Copy, PartialEq, Eq, Structural)]
pub enum CprParity {
    Even,
    Odd,
}

/// How long a stored sample stays usable, in milliseconds.
pub const FRESH_MS: u64 = 10_000;

/// A sample taken at `t` is still fresh at `now`: less than ten seconds have
/// passed (a sample stamped after `now` counts as just taken).
pub open spec fn is_fresh(t: u64, now: u64) -> bool {
    now < t + FRESH_MS
}

/// The latest even and the latest odd sample of one aircraft.
#[derive(Debug, Clone, Copy, PartialEq, Eq, Structural)]
pub struct CprState {
    pub even: Option<CprSample>,
    pub odd: Option<CprSample>,
}

/// The state after storing `s` in the slot of `parity`.
pub open spec fn recorded(st: CprState, parity: CprParity, s: CprSample) -> CprState {
    match parity {
        CprParity::Even => CprState { even: Some(s), ..st },
        CprParity::Odd => CprState { odd: Some(s), ..st },
    }
}

/// The pair to resolve at `now`: present only when both slots hold a sample
/// and both are fresh; the odd sample is the reference when it is strictly newer.
pub open spec fn resolution(st: CprState, now: u64) -> Option<CprPair> {
    match (st.even, st.odd) {
        (Some(e), Some(o)) => if is_fresh(e.t_ms, now) && is_fresh(o.t_ms, now) {
            Some(
                CprPair {
                    lat_even: e.lat_cpr,
                    lon_even: e.lon_cpr,
                    lat_odd: o.lat_cpr,
                    lon_odd: o.lon_cpr,
                    use_odd: o.t_ms > e.t_ms,
                },
            )
        } else {
            None
        },
        _ => None,
    }
}

impl CprState {
    /// Both slots empty.
    pub fn new() -> (r: CprState)
        ensures
            r.even is None,
            r.odd is None,
    {
        CprState { even: None, odd: None }
    }

    /// Stores `s` in the slot of `parity`, replacing what was there.
    pub fn record(&mut self, parity: CprParity, s: CprSample)
        ensures
            *final(self) == recorded(*old(self), parity, s),
    {
        match parity {
            CprParity::Even => self.even = Some(s),
            CprParity::Odd => self.odd = Some(s),
        }
    }

    /// The pair to resolve at `now`, if both slots are filled and fresh.
    pub fn resolve(&self, now: u64) -> (r: Option<CprPair>)
        ensures
            r == resolution(*self, now),
    {
        match (self.even, self.odd) {
            (Some(e), Some(o)) => {
                let fresh_even = now <= e.t_ms || now - e.t_ms < FRESH_MS;
                let fresh_odd = now <= o.t_ms || now - o.t_ms < FRESH_MS;
                if fresh_even && fresh_odd {
                    Some(
                        CprPair {
                            lat_even: e.lat_cpr,
                            lon_even: e.lon_cpr,
                            lat_odd: o.lat_cpr,
                            lon_odd: o.lon_cpr,
                            use_odd: o.t_ms > e.t_ms,
                        },
                    )
                } else {
                    None
                }
            },
            _ => None,
        }
    }
}

/// A resolution is only ever offered for a state whose two slots are both
/// filled, each with a sample that is fresh at the time of evaluation.
pub proof fn lemma_resolution_needs_both_fresh(st: CprState, now: u64)
    ensures
        resolution(st, now) is Some ==> {
            &&& st.even is Some
            &&& st.odd is Some
            &&& is_fresh(st.even->Some_0.t_ms, now)
            &&& is_fresh(st.odd->Some_0.t_ms, now)
        },
        st.even is None || st.odd is None ==> resolution(st, now) is None,
{
}

/// The state of an aircraft not seen before.
pub open spec fn empty_state() -> CprState {
    CprState { even: None, odd: None }
}

/// Per-aircraft CPR state, keyed by the 24-bit ICAO address.
pub struct AircraftTable {
    states: HashMap<u32, CprState>,
}

impl View for AircraftTable {
    type V = Map<u32, CprState>;

    closed spec fn view(&self) -> Map<u32, CprState> {
        self.states@
    }
}

/// The state stored for `icao`, or the empty state for an aircraft not seen yet.
pub open spec fn state_in(m: Map<u32, CprState>, icao: u32) -> CprState {
    if m.contains_key(icao) {
        m[icao]
    } else {
        empty_state()
    }
}

impl AircraftTable {
    /// A table with no aircraft.
    pub fn new() -> (r: AircraftTable)
        ensures
            r@ == Map::<u32, CprState>::empty(),
    {
        AircraftTable { states: HashMap::new() }
    }

    /// The state held for `icao` (both slots empty if it was never seen).
    pub fn state(&self, icao: u32) -> (r: CprState)
        ensures
            r == state_in(self@, icao),
    {
        broadcast use vstd::std_specs::hash::group_hash_axioms;

        match self.states.get(&icao) {
            Some(st) => *st,
            None => CprState::new(),
        }
    }

    /// Stores a sample received at `now` for `icao` in the slot of its parity,
    /// then offers the pair to resolve if both slots are filled and fresh.
    pub fn observe(&mut self, icao: u32, parity: CprParity, lat_cpr: u32, lon_cpr: u32, now: u64) -> (r:
        Option<CprPair>)
        ensures
            final(self)@ == old(self)@.insert(
                icao,
                recorded(state_in(old(self)@, icao), parity, CprSample { lat_cpr, lon_cpr, t_ms: now }),
            ),
            r == resolution(state_in(final(self)@, icao), now),
    {
        broadcast use vstd::std_specs::hash::group_hash_axioms;

        let mut st = self.state(icao);
        st.record(parity, CprSample { lat_cpr, lon_cpr, t_ms: now });
        self.states.insert(icao, st);
        st.resolve(now)
    }
}

} // verus!
