use chain_network::scale::decode_compact_usize;
use chain_network::warp_sync::{
    decode_grandpa_warp_sync_response, GrandpaWarpSyncRequestError, GrandpaWarpSyncResponseFragment,
};

type Fragment = GrandpaWarpSyncResponseFragment<u16, Vec<u8>>;

/// Two bytes, of which the first one isn't zero.
fn header(bytes: &[u8], start: usize) -> Option<(u16, usize)> {
    let found = bytes.get(start..start + 2)?;
    if found[0] == 0 {
        return None;
    }
    Some((u16::from_be_bytes([found[0], found[1]]), start + 2))
}

/// A byte that tells how many bytes follow, then these bytes.
fn justification(bytes: &[u8], start: usize) -> Option<(Vec<u8>, usize)> {
    let len = usize::from(*bytes.get(start)?);
    let found = bytes.get(start + 1..start + 1 + len)?;
    Some((found.to_vec(), start + 1 + len))
}

fn decode(bytes: &[u8]) -> Result<Vec<Fragment>, GrandpaWarpSyncRequestError<()>> {
    decode_grandpa_warp_sync_response(bytes, header, justification)
}

#[test]
fn compact_single_byte() {
    assert_eq!(decode_compact_usize(&[0x00], 0), Some((0, 1)));
    assert_eq!(decode_compact_usize(&[0x04], 0), Some((1, 1)));
    assert_eq!(decode_compact_usize(&[0xa8, 9], 0), Some((42, 1)));
    assert_eq!(decode_compact_usize(&[0xfc], 0), Some((63, 1)));
}

#[test]
fn compact_two_bytes() {
    assert_eq!(decode_compact_usize(&[0x01, 0x01], 0), Some((64, 2)));
    assert_eq!(decode_compact_usize(&[0x15, 0x01], 0), Some((69, 2)));
    assert_eq!(decode_compact_usize(&[0xfd, 0xff], 0), Some((16383, 2)));
    assert_eq!(decode_compact_usize(&[0x01], 0), None);
}

#[test]
fn compact_four_bytes() {
    assert_eq!(decode_compact_usize(&[0x02, 0x00, 0x01, 0x00], 0), Some((16384, 4)));
    assert_eq!(decode_compact_usize(&[0xfe, 0xff, 0x03, 0x00], 0), Some((65535, 4)));
    assert_eq!(decode_compact_usize(&[0xfe, 0xff, 0xff, 0xff], 0), Some((1073741823, 4)));
    assert_eq!(decode_compact_usize(&[0x02, 0x00, 0x01], 0), None);
}

#[test]
fn compact_many_bytes() {
    assert_eq!(decode_compact_usize(&[0x03, 0x00, 0x00, 0x00, 0x40], 0), Some((1073741824, 5)));
    assert_eq!(
        decode_compact_usize(&[0x03, 0xff, 0xff, 0xff, 0xff, 1], 0),
        Some((4294967295, 5))
    );
    assert_eq!(decode_compact_usize(&[0x03, 0xff, 0xff, 0xff], 0), None);
    assert_eq!(
        decode_compact_usize(&[0x07, 0x00, 0xe4, 0x0b, 0x54, 0x02], 0),
        Some((10000000000, 6))
    );
    assert_eq!(
        decode_compact_usize(&[0x13, 0xff, 0xff, 0xff, 0xff, 0xff, 0xff, 0xff, 0xff], 0),
        Some((usize::MAX, 9))
    );
    assert_eq!(decode_compact_usize(&[0x17, 0, 0, 0, 0, 0, 0, 0, 0, 1], 0), None);
    assert_eq!(decode_compact_usize(&[0xff; 68], 0), None);
}

#[test]
fn compact_elsewhere_than_at_the_start() {
    assert_eq!(decode_compact_usize(&[9, 9, 0x15, 0x01, 9], 2), Some((69, 4)));
    assert_eq!(decode_compact_usize(&[9, 9], 2), None);
    assert_eq!(decode_compact_usize(&[9, 9], 3), None);
    assert_eq!(decode_compact_usize(&[], 0), None);
    assert_eq!(decode_compact_usize(&[], usize::MAX), None);
}

#[test]
fn empty_response() {
    assert_eq!(decode(&[0]), Ok(vec![]));
}

#[test]
fn response_with_fragments() {
    let bytes = [
        8, // two fragments
        1, 2, 0, 0, // empty justification
        3, 4, 0x15, 0x01, 3, 7, 8, 9, // the length in between isn't looked at
    ];
    assert_eq!(
        decode(&bytes),
        Ok(vec![
            GrandpaWarpSyncResponseFragment { header: 0x0102, justification: vec![] },
            GrandpaWarpSyncResponseFragment { header: 0x0304, justification: vec![7, 8, 9] },
        ])
    );
}

#[test]
fn trailing_bytes_are_ignored() {
    assert_eq!(decode(&[0, 1, 2, 3]), Ok(vec![]));
    assert_eq!(
        decode(&[4, 1, 2, 0, 0, 99, 99]),
        Ok(vec![GrandpaWarpSyncResponseFragment { header: 0x0102, justification: vec![] }])
    );
}

#[test]
fn broken_responses() {
    let bad: Result<Vec<Fragment>, _> = Err(GrandpaWarpSyncRequestError::BadResponse);
    // No number of fragments.
    assert_eq!(decode(&[]), bad);
    assert_eq!(decode(&[1]), bad);
    // Missing fragments.
    assert_eq!(decode(&[4]), bad);
    assert_eq!(decode(&[8, 1, 2, 0, 0]), bad);
    // Bad header.
    assert_eq!(decode(&[4, 0, 2, 0, 0]), bad);
    assert_eq!(decode(&[4, 1]), bad);
    // Bad length.
    assert_eq!(decode(&[4, 1, 2]), bad);
    assert_eq!(decode(&[4, 1, 2, 1]), bad);
    // Bad justification.
    assert_eq!(decode(&[4, 1, 2, 0]), bad);
    assert_eq!(decode(&[4, 1, 2, 0, 2, 1]), bad);
    // Bad second fragment.
    assert_eq!(decode(&[8, 1, 2, 0, 0, 0, 2, 0, 0]), bad);
}

#[test]
fn huge_number_of_fragments_is_refused() {
    let bad: Result<Vec<Fragment>, _> = Err(GrandpaWarpSyncRequestError::BadResponse);
    let bytes = [0x13, 0xff, 0xff, 0xff, 0xff, 0xff, 0xff, 0xff, 0xff, 1, 2, 0, 0];
    assert_eq!(decode(&bytes), bad);
}

#[test]
fn decoding_twice_gives_the_same() {
    let bytes = [4, 1, 2, 0, 1, 5];
    assert_eq!(decode(&bytes), decode(&bytes));
}

#[test]
fn value_of_the_length_is_ignored() {
    let expected = Ok(vec![
        GrandpaWarpSyncResponseFragment { header: 0x0102, justification: vec![6] },
        GrandpaWarpSyncResponseFragment { header: 0x0304, justification: vec![7, 8] },
    ]);
    for length in vec![vec![0], vec![0xfc], vec![0x15, 0x01], vec![0xfe, 0xff, 0xff, 0xff]] {
        let mut bytes = vec![8, 1, 2];
        bytes.extend_from_slice(&length);
        bytes.extend_from_slice(&[1, 6, 3, 4, 4, 2, 7, 8]);
        assert_eq!(decode(&bytes), expected);
    }
}
