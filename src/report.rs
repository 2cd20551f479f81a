use vstd::prelude::*;
use adsb_deku::adsb::ME;
use adsb_deku::{CPRFormat, Frame, DF};
use deku::DekuContainerRead;
use crate::cpr::{
    recorded, resolution, state_in, AircraftTable, CprPair, CprParity, CprSample, CPR_SCALE,
};
use crate::pack::{binary_to_bytes, is_bit_char, packed_bytes};

verus! {

/// What the pipeline keeps of an ADS-B position message: the aircraft's
/// address, the CPR format and the two 17-bit coordinate codes.
#[derive(Debug, Clone, Copy, PartialEq, Eq)]
pub struct PositionReport {
    pub icao: [u8; 3],
    pub parity: CprParity,
    pub lat_cpr: u32,
    pub lon_cpr: u32,
}

/// The position report that the Mode-S field decoder finds in a packed message, if any.
pub uninterp spec fn position_report_of(frame: Seq<u8>) -> Option<PositionReport>;

/// Relies on adsb_deku's `Frame::from_bytes` (deku's `DekuContainerRead`): its
/// result depends on the bytes alone, and it reads each CPR code as 17 bits.
/// Only extended squitters carrying a surface or airborne position are kept.
#[verifier::external_body]
fn read_position_report(bytes: &[u8]) -> (r: Option<PositionReport>)
    ensures
        r == position_report_of(bytes@),
        r matches Some(p) ==> p.lat_cpr < CPR_SCALE && p.lon_cpr < CPR_SCALE,
{
    let m = match Frame::from_bytes((bytes, 0)) {
        Ok((_, Frame { df: DF::ADSB(m), .. })) => m,
        _ => return None,
    };
    let (f, lat_cpr, lon_cpr) = match m.me {
        ME::SurfacePosition(p) => (p.f, p.lat_cpr, p.lon_cpr),
        ME::AirbornePositionBaroAltitude(a) | ME::AirbornePositionGNSSAltitude(a) => (a.odd_flag, a.lat_cpr, a.lon_cpr),
        _ => return None,
    };
    let parity = match f {
        CPRFormat::Even => CprParity::Even,
        CPRFormat::Odd => CprParity::Odd,
    };
    Some(PositionReport { icao: m.icao.0, parity, lat_cpr, lon_cpr })
}

/// A string of binary digits whose length is a multiple of eight.
pub open spec fn packs(bits: Seq<char>) -> bool {
    bits.len() % 8 == 0 && forall|k: int| 0 <= k < bits.len() ==> is_bit_char(#[trigger] bits[k])
}

/// The position report carried by a bit string, if it packs and decodes to one.
pub open spec fn report_of_bits(bits: Seq<char>) -> Option<PositionReport> {
    if packs(bits) {
        position_report_of(packed_bytes(bits))
    } else {
        None
    }
}

/// The 24-bit address as an integer, first byte most significant.
pub open spec fn icao_value(b: Seq<u8>) -> u32 {
    (b[0] as int * 65536 + b[1] as int * 256 + b[2] as int) as u32
}

/// The 24-bit address held in three bytes, first byte most significant.
pub fn icao_to_u32(bytes: [u8; 3]) -> (r: u32)
    ensures
        r == icao_value(bytes@),
        r < 0x100_0000,
{
    bytes[0] as u32 * 65536 + bytes[1] as u32 * 256 + bytes[2] as u32
}

/// Packs a decoded bit string and hands it to the field decoder; gives the
/// position report it carries, if any.
pub fn decode_position_report(bits: &str) -> (r: Option<PositionReport>)
    ensures
        r == report_of_bits(bits@),
        r matches Some(p) ==> p.lat_cpr < CPR_SCALE && p.lon_cpr < CPR_SCALE,
{
    match binary_to_bytes(bits) {
        Ok(bytes) => read_position_report(bytes.as_slice()),
        Err(_) => None,
    }
}

/// Feeds one decoded bit string received at `now` into the table. A position
/// message is stored in its aircraft's slot of its parity, and is returned with
/// the pair to resolve, if both slots are now filled and fresh. Anything else
/// leaves the table as it was.
pub fn track_position(table: &mut AircraftTable, bits: &str, now: u64) -> (r: Option<
    (PositionReport, Option<CprPair>),
>)
    ensures
        match report_of_bits(bits@) {
            None => r is None && final(table)@ == old(table)@,
            Some(p) => {
                let key = icao_value(p.icao@);
                let st = recorded(
                    state_in(old(table)@, key),
                    p.parity,
                    CprSample { lat_cpr: p.lat_cpr, lon_cpr: p.lon_cpr, t_ms: now },
                );
                &&& final(table)@ == old(table)@.insert(key, st)
                &&& r == Some((p, resolution(st, now)))
            },
        },
{
    match decode_position_report(bits) {
        Some(p) => {
            let key = icao_to_u32(p.icao);
            let pair = table.observe(key, p.parity, p.lat_cpr, p.lon_cpr, now);
            Some((p, pair))
        },
        None => None,
    }
}

} // verus!
