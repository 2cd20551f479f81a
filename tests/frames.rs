use bladerf_adsb::{decode_bits, extract_messages, process_adsb_frames};

const EVEN_MSG: &str = "1000110101000000011000100001110101011000110000111000001011010110100100001100100010101100001010000110001110100111";

fn window_with_pairs(first: u16, second: u16) -> Vec<u16> {
    let mut w = vec![0u16; 512];
    for bit in 0..112 {
        w[16 + 2 * bit] = first;
        w[16 + 2 * bit + 1] = second;
    }
    w
}

/// Magnitude series with a preamble at `off` followed by the given bits.
fn magnitude_with_frame(len: usize, off: usize, bits: &str) -> Vec<u16> {
    let mut m = vec![0u16; len];
    for p in [0usize, 2, 7, 9] {
        m[off + p] = 100;
    }
    for (b, c) in bits.chars().enumerate() {
        let i = off + 16 + 2 * b;
        if c == '0' {
            m[i] = 100;
        } else {
            m[i + 1] = 100;
        }
    }
    m
}

#[test]
fn second_sample_greater_everywhere_gives_all_ones() {
    let bits = decode_bits(&window_with_pairs(100, 200)).unwrap();
    assert_eq!(bits.len(), 112);
    assert_eq!(bits, "1".repeat(112));
}

#[test]
fn first_sample_greater_everywhere_gives_all_zeros() {
    let bits = decode_bits(&window_with_pairs(200, 100)).unwrap();
    assert_eq!(bits, "0".repeat(112));
}

#[test]
fn short_window_has_no_bits() {
    assert_eq!(decode_bits(&window_with_pairs(100, 200)[..511]), None);
    assert_eq!(decode_bits(&[]), None);
}

#[test]
fn tie_anywhere_discards_window() {
    let mut w = window_with_pairs(100, 200);
    w[16 + 2 * 111 + 1] = 100;
    assert_eq!(decode_bits(&w), None);
    let mut w = window_with_pairs(100, 200);
    w[17] = 100;
    assert_eq!(decode_bits(&w), None);
}

#[test]
fn samples_past_the_frame_are_ignored() {
    let mut w = window_with_pairs(7, 3);
    w.extend_from_slice(&[5, 5, 5]);
    assert_eq!(decode_bits(&w).unwrap(), "0".repeat(112));
}

#[test]
fn extraction_drops_offsets_without_room() {
    let m: Vec<u16> = (0..600u32).map(|v| v as u16).collect();
    let ws = extract_messages(&m, &[0, 88, 89, 100]);
    assert_eq!(ws.len(), 2);
    assert_eq!(ws[0], m[0..512].to_vec());
    assert_eq!(ws[1], m[88..600].to_vec());
    assert!(extract_messages(&m, &[]).is_empty());
}

#[test]
fn pipeline_yields_the_single_frame() {
    let m = magnitude_with_frame(600, 20, EVEN_MSG);
    let iq: Vec<i16> = m.iter().flat_map(|&v| [(v / 10) as i16, 0]).collect();
    let out = process_adsb_frames(&iq);
    assert_eq!(out.len(), 1);
    assert_eq!(out[0].0, EVEN_MSG);
    assert_eq!(out[0].1, m[20..532].to_vec());
}

#[test]
fn pipeline_on_silence_is_empty() {
    assert!(process_adsb_frames(&vec![0i16; 2000]).is_empty());
    assert!(process_adsb_frames(&[]).is_empty());
}

#[test]
fn pipeline_drops_frame_cut_short() {
    let m = magnitude_with_frame(600, 20, EVEN_MSG);
    let iq: Vec<i16> = m[..520].iter().flat_map(|&v| [(v / 10) as i16, 0]).collect();
    assert!(process_adsb_frames(&iq).is_empty());
}
