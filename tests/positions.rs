use bladerf_adsb::{
    cpr_global_latitude, cpr_global_longitude, decode_position_report, icao_to_u32,
    longitude_zone_count, track_position, AircraftTable, CprError, CprPair, CprParity, Degrees,
    PositionReport,
};

const EVEN_MSG: &str = "1000110101000000011000100001110101011000110000111000001011010110100100001100100010101100001010000110001110100111";
const ODD_MSG: &str = "1000110101000000011000100001110101011000110000111000011001000011010111001100010000010010011010010010101011010110";

fn pair(use_odd: bool) -> CprPair {
    CprPair { lat_even: 93000, lon_even: 51372, lat_odd: 74158, lon_odd: 50194, use_odd }
}

fn deg(d: Degrees) -> f64 {
    d.num as f64 / d.den as f64
}

#[test]
fn worked_example_latitude_even_reference() {
    let lat = cpr_global_latitude(&pair(false));
    assert_eq!(lat, Degrees { num: 6849456, den: 131072 });
    assert!((deg(lat) - 52.2572).abs() < 0.01);
}

#[test]
fn worked_example_latitude_odd_reference() {
    let lat = cpr_global_latitude(&pair(true));
    assert_eq!(lat, Degrees { num: 404184240, den: 59 * 131072 });
    assert!((deg(lat) - 52.2572).abs() < 0.01);
}

#[test]
fn worked_example_longitude() {
    // 36 longitude zones at 52.26 degrees
    let even = cpr_global_longitude(&pair(false), 36).unwrap();
    assert_eq!(even, Degrees { num: 18493920, den: 35 * 131072 });
    let odd = cpr_global_longitude(&pair(true), 36).unwrap();
    assert_eq!(odd, Degrees { num: 18069840, den: 36 * 131072 });
    assert!((deg(odd) - 3.8295).abs() < 0.0001);
}

#[test]
fn decode_is_repeatable() {
    for use_odd in [false, true] {
        let p = pair(use_odd);
        assert_eq!(cpr_global_latitude(&p), cpr_global_latitude(&p));
        assert_eq!(cpr_global_longitude(&p, 36), cpr_global_longitude(&p, 36));
    }
}

#[test]
fn single_zone_with_even_reference_is_degenerate() {
    assert_eq!(cpr_global_longitude(&pair(false), 1), Err(CprError::DegenerateLongitudeZone));
    assert_eq!(cpr_global_longitude(&pair(false), 0), Err(CprError::DegenerateLongitudeZone));
    assert!(cpr_global_longitude(&pair(true), 0).is_ok());
    assert!(cpr_global_longitude(&pair(true), 1).is_ok());
}

#[test]
fn negative_zone_index_keeps_sign() {
    // j = floor((59*0 - 60*131071 + 65536) / 131072) = -60; -60 rem 60 = 0
    let p = CprPair { lat_even: 0, lon_even: 0, lat_odd: 131071, lon_odd: 131071, use_odd: true };
    let lat = cpr_global_latitude(&p);
    assert_eq!(lat, Degrees { num: 360 * (-131072 + 131071), den: 59 * 131072 });
    let p = CprPair { use_odd: false, ..p };
    assert_eq!(cpr_global_latitude(&p), Degrees { num: 0, den: 131072 });
}

#[test]
fn zone_count_is_one_near_the_poles() {
    let d = 131072;
    assert_eq!(longitude_zone_count(&Degrees { num: 87 * d, den: d }, 2), 1);
    assert_eq!(longitude_zone_count(&Degrees { num: -88 * d, den: d }, 0), 1);
    assert_eq!(longitude_zone_count(&Degrees { num: 86 * d, den: d }, 3), 3);
    assert_eq!(longitude_zone_count(&Degrees { num: 6849456, den: d }, 36), 36);
}

#[test]
fn resolver_needs_both_slots() {
    let mut t = AircraftTable::new();
    assert_eq!(t.observe(7, CprParity::Even, 93000, 51372, 0), None);
    assert_eq!(t.observe(7, CprParity::Even, 93001, 51373, 500), None);
    assert_eq!(t.observe(8, CprParity::Odd, 74158, 50194, 600), None);
    let got = t.observe(7, CprParity::Odd, 74158, 50194, 1000).unwrap();
    assert_eq!(
        got,
        CprPair { lat_even: 93001, lon_even: 51373, lat_odd: 74158, lon_odd: 50194, use_odd: true }
    );
    let st = t.state(7);
    assert_eq!(st.even.unwrap().t_ms, 500);
    assert_eq!(st.odd.unwrap().t_ms, 1000);
    assert!(t.state(9).even.is_none() && t.state(9).odd.is_none());
}

#[test]
fn resolver_needs_fresh_samples() {
    let mut t = AircraftTable::new();
    assert_eq!(t.observe(1, CprParity::Even, 1, 2, 0), None);
    // the even sample is ten seconds old
    assert_eq!(t.observe(1, CprParity::Odd, 3, 4, 10_000), None);
    // a new even sample makes the pair fresh again, with even as reference
    let got = t.observe(1, CprParity::Even, 5, 6, 12_000).unwrap();
    assert_eq!(got, CprPair { lat_even: 5, lon_even: 6, lat_odd: 3, lon_odd: 4, use_odd: false });

    let mut t = AircraftTable::new();
    t.observe(1, CprParity::Even, 1, 2, 0);
    assert!(t.observe(1, CprParity::Odd, 3, 4, 9_999).unwrap().use_odd);
}

#[test]
fn equal_timestamps_use_even_reference() {
    let mut t = AircraftTable::new();
    t.observe(3, CprParity::Odd, 3, 4, 50);
    assert!(!t.observe(3, CprParity::Even, 1, 2, 50).unwrap().use_odd);
}

#[test]
fn field_decoder_reads_position_messages() {
    let even = decode_position_report(EVEN_MSG).unwrap();
    assert_eq!(
        even,
        PositionReport { icao: [0x40, 0x62, 0x1D], parity: CprParity::Even, lat_cpr: 93000, lon_cpr: 51372 }
    );
    let odd = decode_position_report(ODD_MSG).unwrap();
    assert_eq!(
        odd,
        PositionReport { icao: [0x40, 0x62, 0x1D], parity: CprParity::Odd, lat_cpr: 74158, lon_cpr: 50194 }
    );
    assert_eq!(decode_position_report(&"0".repeat(112)), None);
    assert_eq!(decode_position_report("0101"), None);
}

#[test]
fn tracking_pairs_two_messages() {
    let mut t = AircraftTable::new();
    let (r1, p1) = track_position(&mut t, EVEN_MSG, 1_000).unwrap();
    assert_eq!(r1.parity, CprParity::Even);
    assert_eq!(p1, None);
    let (r2, p2) = track_position(&mut t, ODD_MSG, 2_000).unwrap();
    assert_eq!(r2.parity, CprParity::Odd);
    assert_eq!(p2, Some(CprPair { lat_even: 93000, lon_even: 51372, lat_odd: 74158, lon_odd: 50194, use_odd: true }));
    assert_eq!(icao_to_u32(r2.icao), 0x40621D);
    assert!(t.state(0x40621D).even.is_some());
    assert_eq!(track_position(&mut t, "01", 3_000), None);
}
