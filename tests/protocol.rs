use hardwave_bridge::protocol::{
    AudioPacket, DecodeError, FLOOR_DB_BITS, NUM_BANDS, PACKET_SIZE, PACKET_TYPE_FFT,
    PACKET_TYPE_HEARTBEAT,
};

fn sample_packet(timestamp_ms: u64) -> AudioPacket {
    AudioPacket::new_fft(
        48000,
        timestamp_ms,
        [(-60.0f32).to_bits(); NUM_BANDS],
        [(-60.0f32).to_bits(); NUM_BANDS],
        (-3.0f32).to_bits(),
        (-3.0f32).to_bits(),
        0.5f32.to_bits(),
        0.5f32.to_bits(),
    )
}

#[test]
fn test_packet_roundtrip() {
    let packet = sample_packet(12345);

    let bytes = packet.to_bytes();
    let decoded = AudioPacket::from_bytes(&bytes).unwrap();

    assert_eq!(decoded.packet_type, PACKET_TYPE_FFT);
    assert_eq!(decoded.sample_rate, 48000);
    assert_eq!(decoded.timestamp_ms, 12345);
}

#[test]
fn test_packet_size() {
    let packet = sample_packet(0);

    let bytes = packet.to_bytes();
    assert!(bytes.len() < 600, "Packet too large: {} bytes", bytes.len());
}

#[test]
fn encoded_size_is_exact() {
    assert_eq!(sample_packet(7).to_bytes().len(), PACKET_SIZE);
    assert_eq!(AudioPacket::new_heartbeat(44100, 9).to_bytes().len(), 541);
}

#[test]
fn round_trip_keeps_every_field() {
    let mut left = [0u32; NUM_BANDS];
    let mut right = [0u32; NUM_BANDS];
    for i in 0..NUM_BANDS {
        left[i] = (-(i as f32)).to_bits();
        right[i] = (i as f32 * 0.25).to_bits();
    }
    let packet = AudioPacket::new_fft(
        96000,
        u64::MAX - 3,
        left,
        right,
        (-1.5f32).to_bits(),
        (-2.5f32).to_bits(),
        0.125f32.to_bits(),
        0.75f32.to_bits(),
    );
    let decoded = AudioPacket::from_bytes(&packet.to_bytes()).unwrap();
    assert_eq!(decoded, packet);
    assert_eq!(f32::from_bits(decoded.right_bands[8]), 2.0);
}

#[test]
fn heartbeat_round_trips() {
    let hb = AudioPacket::new_heartbeat(0, 0);
    assert_eq!(hb.packet_type, PACKET_TYPE_HEARTBEAT);
    assert_eq!(f32::from_bits(hb.left_peak), -100.0);
    assert_eq!(hb.left_peak, FLOOR_DB_BITS);
    assert_eq!(f32::from_bits(hb.right_peak), -100.0);
    assert!(hb.left_bands.iter().all(|b| f32::from_bits(*b) == 0.0));
    assert_eq!(f32::from_bits(hb.left_rms), 0.0);
    assert_eq!(AudioPacket::from_bytes(&hb.to_bytes()), Ok(hb));
}

#[test]
fn layout_matches_bincode_fields() {
    let p = sample_packet(12345);
    let mut expected: Vec<u8> = Vec::new();
    expected.extend(bincode::serialize(&p.packet_type).unwrap());
    expected.extend(bincode::serialize(&p.sample_rate).unwrap());
    expected.extend(bincode::serialize(&p.timestamp_ms).unwrap());
    for b in p.left_bands.iter().chain(p.right_bands.iter()) {
        expected.extend(bincode::serialize(&f32::from_bits(*b)).unwrap());
    }
    for w in [p.left_peak, p.right_peak, p.left_rms, p.right_rms] {
        expected.extend(bincode::serialize(&f32::from_bits(w)).unwrap());
    }
    assert_eq!(p.to_bytes(), expected);
}

#[test]
fn layout_places_fields() {
    let bytes = sample_packet(0x0102_0304_0506_0708).to_bytes();
    assert_eq!(bytes[0], 0);
    assert_eq!(&bytes[1..5], &48000u32.to_le_bytes());
    assert_eq!(&bytes[5..13], &[8, 7, 6, 5, 4, 3, 2, 1]);
    assert_eq!(&bytes[13..17], &(-60.0f32).to_le_bytes());
    assert_eq!(&bytes[537..541], &0.5f32.to_le_bytes());
}

#[test]
fn decode_rejects_wrong_lengths() {
    let bytes = sample_packet(1).to_bytes();
    assert_eq!(AudioPacket::from_bytes(&bytes[..540]), Err(DecodeError::Length));
    assert_eq!(AudioPacket::from_bytes(&[]), Err(DecodeError::Length));
    let mut longer = bytes.clone();
    longer.push(0);
    assert_eq!(AudioPacket::from_bytes(&longer), Err(DecodeError::Length));
}

#[test]
fn decode_rejects_unknown_kind() {
    let mut bytes = sample_packet(1).to_bytes();
    bytes[0] = 2;
    assert_eq!(AudioPacket::from_bytes(&bytes), Err(DecodeError::Kind));
    bytes[0] = 1;
    let decoded = AudioPacket::from_bytes(&bytes).unwrap();
    assert_eq!(decoded.packet_type, PACKET_TYPE_HEARTBEAT);
}
