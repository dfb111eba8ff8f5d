//! The payload codec and the deterministic reputation double, on
//! concrete values.

use roomfi_bridge::{
    decode_reputation_payload, encode_reputation_payload, mock_reputation_data,
    TenantReputationData, H160, PAYLOAD_LEN,
};

fn sample_snapshot() -> TenantReputationData {
    TenantReputationData {
        tenant_address: H160 { hi: 0xAABBCCDD, lo: 0x0102030405060708090A0B0C0D0E0F10 },
        reputation: 87,
        payments_made: 12,
        disputes_count: 1,
        properties_rented: 3,
        total_rent_paid: 4_500_000_000_000_000_000,
        last_updated: 123456,
    }
}

#[test]
fn encode_has_fixed_length() {
    let payload = encode_reputation_payload(&sample_snapshot());
    assert_eq!(payload.len(), PAYLOAD_LEN);
    assert_eq!(payload.len(), 60);
}

#[test]
fn encode_layout_is_little_endian() {
    let payload = encode_reputation_payload(&sample_snapshot());
    // Address high bytes: 0xAABBCCDD little-endian.
    assert_eq!(&payload[0..4], &[0xDD, 0xCC, 0xBB, 0xAA]);
    // Reputation 87 at offset 20.
    assert_eq!(&payload[20..24], &[87, 0, 0, 0]);
    // Payments 12, disputes 1, properties 3.
    assert_eq!(&payload[24..28], &[12, 0, 0, 0]);
    assert_eq!(&payload[28..32], &[1, 0, 0, 0]);
    assert_eq!(&payload[32..36], &[3, 0, 0, 0]);
    // Last updated 123456 = 0x01E240 at offset 52.
    assert_eq!(&payload[52..60], &[0x40, 0xE2, 0x01, 0, 0, 0, 0, 0]);
}

#[test]
fn decode_inverts_encode() {
    let snapshot = sample_snapshot();
    let payload = encode_reputation_payload(&snapshot);
    assert_eq!(decode_reputation_payload(&payload), Some(snapshot));
}

#[test]
fn decode_inverts_encode_extremes() {
    let snapshot = TenantReputationData {
        tenant_address: H160 { hi: u32::MAX, lo: u128::MAX },
        reputation: 0,
        payments_made: u32::MAX,
        disputes_count: 0,
        properties_rented: u32::MAX,
        total_rent_paid: u128::MAX,
        last_updated: u64::MAX,
    };
    let payload = encode_reputation_payload(&snapshot);
    assert_eq!(decode_reputation_payload(&payload), Some(snapshot));
}

#[test]
fn decode_rejects_malformed_input() {
    assert_eq!(decode_reputation_payload(&Vec::new()), None);
    assert_eq!(decode_reputation_payload(&vec![0u8; 59]), None);
    assert_eq!(decode_reputation_payload(&vec![0u8; 61]), None);
}

#[test]
fn decode_of_any_full_payload_succeeds() {
    let bytes: Vec<u8> = (0..60u8).collect();
    let decoded = decode_reputation_payload(&bytes);
    assert!(decoded.is_some());
    // Re-encoding gives the same bytes back: the codec is a bijection on
    // 60-byte payloads.
    assert_eq!(encode_reputation_payload(&decoded.unwrap()), bytes);
}

#[test]
fn mock_snapshot_formula() {
    // Seed: last four address bytes, big-endian, here 7.
    let tenant = H160 { hi: 0, lo: 7 };
    let data = mock_reputation_data(tenant, 99);
    assert_eq!(data.tenant_address, tenant);
    assert_eq!(data.reputation, 57);
    assert_eq!(data.payments_made, 8);
    assert_eq!(data.disputes_count, 1);
    assert_eq!(data.properties_rented, 3);
    assert_eq!(data.total_rent_paid, 7_000_000_000_000_000_000);
    assert_eq!(data.last_updated, 99);
}

#[test]
fn mock_snapshot_reputation_stays_bounded() {
    let tenants = [
        H160 { hi: 0, lo: 0 },
        H160 { hi: 0, lo: 49 },
        H160 { hi: 0, lo: 50 },
        H160 { hi: 0xFFFF_FFFF, lo: u128::MAX },
    ];
    for t in tenants {
        let data = mock_reputation_data(t, 1);
        assert!(data.reputation >= 50 && data.reputation <= 100);
    }
}
