use libp2p_perf::codec::{decode_receipt, encode_receipt, RECEIPT_LEN};
use libp2p_perf::outcome::FailureReason;

#[test]
fn encode_is_big_endian() {
    assert_eq!(
        encode_receipt(0x0102_0304_0506_0708),
        vec![1u8, 2, 3, 4, 5, 6, 7, 8]
    );
    assert_eq!(encode_receipt(0), vec![0u8; 8]);
    assert_eq!(encode_receipt(1), vec![0u8, 0, 0, 0, 0, 0, 0, 1]);
    assert_eq!(
        encode_receipt(u64::MAX),
        vec![0xffu8, 0xff, 0xff, 0xff, 0xff, 0xff, 0xff, 0xff]
    );
    assert_eq!(encode_receipt(256), vec![0u8, 0, 0, 0, 0, 0, 1, 0]);
}

#[test]
fn decode_reads_first_eight_bytes() {
    assert_eq!(decode_receipt(&[0, 0, 0, 0, 0, 0, 0, 42]), Ok(42));
    assert_eq!(
        decode_receipt(&[1, 2, 3, 4, 5, 6, 7, 8]),
        Ok(0x0102_0304_0506_0708)
    );
    // Bytes past the receipt width are not part of the value.
    assert_eq!(
        decode_receipt(&[0, 0, 0, 0, 0, 0, 0, 7, 0xee, 0xee]),
        Ok(7)
    );
}

#[test]
fn decode_rejects_truncated_receipts() {
    assert_eq!(decode_receipt(&[]), Err(FailureReason::ProtocolViolation));
    assert_eq!(
        decode_receipt(&[1, 2, 3, 4, 5, 6, 7]),
        Err(FailureReason::ProtocolViolation)
    );
}

#[test]
fn round_trip_preserves_every_count() {
    let samples: Vec<u64> = vec![
        0,
        1,
        255,
        256,
        65_535,
        10_000_000_000,
        u64::MAX - 1,
        u64::MAX,
    ];
    for count in samples {
        let bytes = encode_receipt(count);
        assert_eq!(bytes.len(), RECEIPT_LEN);
        assert_eq!(decode_receipt(&bytes), Ok(count));
    }
}
