use dab_radio::dsp::error_correction::{
    check_fire_code, crc16_ccitt, energy_dispersal, ViterbiDecoder,
};

#[test]
fn test_crc16_ccitt() {
    let data = b"Hello";
    let crc = crc16_ccitt(data);
    // Verify CRC is deterministic
    assert_eq!(crc, crc16_ccitt(data));
    assert_ne!(crc, 0);
}

#[test]
fn crc16_known_values() {
    // CRC-16 with initial register 0xFFFF, polynomial 0x1021, inverted output
    assert_eq!(crc16_ccitt(b"123456789"), 0xD64E);
    assert_eq!(crc16_ccitt(b"Hello"), 0x2525);
    assert_eq!(crc16_ccitt(&[]), 0x0000);
}

#[test]
fn test_fire_code_check() {
    // Valid header byte patterns
    assert!(check_fire_code(&[0xC0, 0x00]));
    assert!(check_fire_code(&[0x40, 0x00]));
}

#[test]
fn fire_code_rejects_short_headers() {
    assert!(!check_fire_code(&[]));
    assert!(!check_fire_code(&[0xC0]));
    assert!(check_fire_code(&[0x00, 0x00, 0x00]));
}

#[test]
fn test_energy_dispersal_reversible() {
    let plain = vec![0x55, 0xAA, 0xFF, 0x00, 0x12, 0x34];
    let mut data = plain.clone();

    energy_dispersal(&mut data);
    // Data should be scrambled
    assert_ne!(data, plain);

    // Apply again to descramble
    energy_dispersal(&mut data);
    assert_eq!(data, plain);
}

#[test]
fn energy_dispersal_sequence() {
    // On zeros the output is the PRBS sequence itself
    let mut zeros = vec![0u8; 6];
    energy_dispersal(&mut zeros);
    assert_eq!(zeros, vec![0x07, 0xBE, 0x2E, 0x64, 0x12, 0x9D]);

    let mut data = vec![0x55, 0xAA, 0xFF, 0x00, 0x12, 0x34];
    energy_dispersal(&mut data);
    assert_eq!(data, vec![0x52, 0x14, 0xD1, 0x64, 0x00, 0xA9]);

    let mut empty: Vec<u8> = vec![];
    energy_dispersal(&mut empty);
    assert!(empty.is_empty());
}

#[test]
fn test_viterbi_decoder() {
    let mut decoder = ViterbiDecoder::new();
    // Simple test with zeros
    let encoded = vec![0u8; 32];
    let result = decoder.decode(&encoded, 8);
    assert!(result.is_ok());
}

#[test]
fn viterbi_decoded_values() {
    let mut decoder = ViterbiDecoder::new();
    assert_eq!(decoder.decode(&vec![0u8; 32], 8).unwrap(), vec![0x00]);
    assert_eq!(decoder.decode(&vec![1u8; 40], 8).unwrap(), vec![58]);
    assert_eq!(decoder.decode(&vec![0u8; 12], 8).unwrap(), vec![0x00]);
    let pattern: Vec<u8> = [1u8, 0, 1, 1].iter().cycle().take(40).cloned().collect();
    assert_eq!(decoder.decode(&pattern, 3).unwrap(), vec![0x80]);
    // Fewer than four received bytes: no trellis step, no bits
    assert_eq!(decoder.decode(&[1, 0, 1], 8).unwrap(), Vec::<u8>::new());
    // No bits asked for
    assert_eq!(decoder.decode(&vec![0u8; 32], 0).unwrap(), Vec::<u8>::new());
}

#[test]
fn viterbi_decodes_a_codeword() {
    let mut decoder = ViterbiDecoder::new();
    // the codeword of the message 1,0,0,0,0,0,0,0
    let encoded = vec![1u8, 1, 1, 1, 1, 0, 0, 1, 0, 0, 1, 0, 1, 1, 0, 1, 1, 1, 0, 1, 0, 1, 1, 0, 1, 1, 1, 1, 0, 0, 0, 0];
    assert_eq!(decoder.decode(&encoded, 8).unwrap(), vec![0x80]);
}

#[test]
fn viterbi_corrects_a_flipped_symbol() {
    let mut decoder = ViterbiDecoder::new();
    // the codeword of 1,1,0,1,0,0,1,0,1,1 with received byte 13 flipped
    let encoded = vec![
        1u8, 1, 1, 1, 0, 1, 1, 0, 1, 0, 1, 1, 0, 1, 0, 0, 1, 0, 0, 1, 1, 0, 0, 1, 1, 0, 1, 1, 1, 0, 1, 1, 1, 0, 1, 1,
        0, 1, 0, 0,
    ];
    assert_eq!(decoder.decode(&encoded, 10).unwrap(), vec![0xD2, 0xC0]);
    // a used decoder gives what a fresh one gives
    assert_eq!(decoder.decode(&encoded, 10).unwrap(), ViterbiDecoder::new().decode(&encoded, 10).unwrap());
}

#[test]
fn crc_residue_is_constant() {
    for data in [&b""[..], &b"Hello"[..], &b"123456789"[..], &[0xFFu8, 0x00, 0x7E][..]] {
        let c = crc16_ccitt(data);
        let mut framed = data.to_vec();
        framed.push((c >> 8) as u8);
        framed.push(c as u8);
        assert_eq!(crc16_ccitt(&framed), 0xE2F0);
    }
}
