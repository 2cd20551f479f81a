//! ADS-B / Mode-S receive pipeline: envelope demodulation, preamble search,
//! frame extraction, bit decoding, byte packing and CPR position resolution.

pub mod cpr;
pub mod demod;
pub mod frame;
pub mod pack;
pub mod preamble;
pub mod report;

pub use cpr::{
    cpr_global_latitude, cpr_global_longitude, lemma_resolution_needs_both_fresh,
    longitude_zone_count, AircraftTable, CprError, CprPair, CprParity, CprSample, CprState,
    Degrees, CPR_SCALE, FRESH_MS,
};
pub use demod::{iq_magnitude, lemma_scaled_magnitude_unique, MAG_MAX};
pub use frame::{
    decode_bits, extract_messages, lemma_short_or_tied_window_has_no_bits, process_adsb_frames,
    BIT_COUNT, FRAME_LEN,
};
pub use pack::{binary_to_bytes, icao_bytes_to_hex, PackError};
pub use preamble::{
    detect_preamble, find_adsb_preambles, lemma_no_preamble_in_silence,
    lemma_preamble_rejects_low_pulse, PREAMBLE_LEN,
};
pub use report::{decode_position_report, icao_to_u32, track_position, PositionReport};
