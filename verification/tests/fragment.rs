//! Fragment headers and splitting.

use ble_gatt::datagram::fragment::{split, FragmentHeader, FRAGMENT_HEADER_LEN};

#[test]
fn header_round_trips_through_the_wire_format() {
    let header = FragmentHeader {
        msg_id: 0xBEEF,
        index: 3,
        total: 9,
    };
    let mut buffer = Vec::new();
    header.write_to(&mut buffer);
    buffer.extend_from_slice(b"body");

    let (parsed, payload) = FragmentHeader::parse(&buffer).expect("parse");
    assert_eq!(parsed, header);
    assert_eq!(payload, b"body");
}

#[test]
fn a_buffer_too_short_for_a_header_is_rejected_not_panicked_on() {
    for len in 0..FRAGMENT_HEADER_LEN {
        assert!(FragmentHeader::parse(&vec![0u8; len]).is_none());
    }
}

#[test]
fn an_empty_payload_still_produces_one_fragment() {
    let fragments = split(1, b"", 100).expect("split");
    assert_eq!(fragments.len(), 1);
    let (header, payload) = FragmentHeader::parse(&fragments[0]).expect("parse");
    assert_eq!(header.total, 1);
    assert_eq!(header.index, 0);
    assert!(payload.is_empty());
}

#[test]
fn a_payload_that_fits_exactly_does_not_gain_a_spurious_fragment() {
    // The classic off-by-one: len exactly == budget must stay one
    // fragment, and budget+1 must become two.
    let exact = split(1, &[0u8; 10], 10).expect("split");
    assert_eq!(exact.len(), 1);

    let over = split(1, &[0u8; 11], 10).expect("split");
    assert_eq!(over.len(), 2);
}

#[test]
fn fragments_carry_sequential_indices_and_a_consistent_total() {
    let fragments = split(7, &[0u8; 25], 10).expect("split");
    assert_eq!(fragments.len(), 3);
    for (i, fragment) in fragments.iter().enumerate() {
        let (header, _) = FragmentHeader::parse(fragment).expect("parse");
        assert_eq!(header.msg_id, 7);
        assert_eq!(header.index, i as u16);
        assert_eq!(header.total, 3);
    }
}

#[test]
fn reassembling_the_split_payload_reproduces_it_byte_for_byte() {
    let original: Vec<u8> = (0..=255u8).cycle().take(1000).collect();
    let fragments = split(1, &original, 64).expect("split");
    let rejoined: Vec<u8> = fragments
        .iter()
        .flat_map(|f| FragmentHeader::parse(f).expect("parse").1.to_vec())
        .collect();
    assert_eq!(rejoined, original);
}

#[test]
fn a_zero_byte_budget_is_an_error_rather_than_an_infinite_split() {
    assert!(split(1, b"data", 0).is_err());
}
