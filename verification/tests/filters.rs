use yellowstone_ingest::subscriptions::{
    decode_request, encode_request, SubscriptionRequest, Subscriptions,
};

#[test]
fn defi_subscription_requests_all_three_categories() {
    let f = Subscriptions::create_defi_subscription();
    assert!(f.accounts);
    assert!(f.transactions);
    assert!(f.slots);
    let expected: Vec<Vec<u8>> = vec![
        b"675kPX9MHTjS2zt1qfr1NYHuzeLXfQM9H24wFSUt1Mp8".to_vec(),
        b"whirLbMiicVdio4qvUfM5KAg6Ct8VwpYzGff3uctyCc".to_vec(),
        b"JUP6LkbZbjS1jKKwapdHNy74zcZ3tLUZoi5QNyVTaV4".to_vec(),
    ];
    assert_eq!(f.programs, expected);
}

#[test]
fn defi_filter_round_trips_through_the_codec() {
    let f = Subscriptions::create_defi_subscription();
    let bytes = encode_request(&f);
    let g = decode_request(&bytes).expect("a filter's encoding must decode");
    assert_eq!(g.accounts, f.accounts);
    assert_eq!(g.transactions, f.transactions);
    assert_eq!(g.slots, f.slots);
    assert_eq!(g.programs, f.programs);
}

#[test]
fn custom_filter_round_trips_through_the_codec() {
    let f = Subscriptions::create_subscription(
        false,
        true,
        false,
        vec![vec![0u8; 32], Vec::new(), vec![255u8]],
    );
    let bytes = encode_request(&f);
    let g = decode_request(&bytes).expect("a filter's encoding must decode");
    assert!(!g.accounts);
    assert!(g.transactions);
    assert!(!g.slots);
    assert_eq!(g.programs, f.programs);
}

#[test]
fn empty_allow_list_round_trips_through_the_codec() {
    let f = Subscriptions::create_subscription(true, false, true, Vec::new());
    let bytes = encode_request(&f);
    assert_eq!(bytes.len(), 9);
    let g = decode_request(&bytes).expect("a filter's encoding must decode");
    assert!(g.accounts);
    assert!(!g.transactions);
    assert!(g.slots);
    assert!(g.programs.is_empty());
}

#[test]
fn encoding_layout_is_as_documented() {
    let f = SubscriptionRequest {
        accounts: true,
        transactions: false,
        slots: true,
        programs: vec![vec![0xAB, 0xCD]],
    };
    let bytes = encode_request(&f);
    let mut expected: Vec<u8> = vec![5];
    expected.extend_from_slice(&1u64.to_le_bytes());
    expected.extend_from_slice(&2u64.to_le_bytes());
    expected.extend_from_slice(&[0xAB, 0xCD]);
    assert_eq!(bytes, expected);
}

#[test]
fn truncated_or_malformed_encodings_are_rejected() {
    assert!(decode_request(&Vec::new()).is_none());
    assert!(decode_request(&vec![1u8; 8]).is_none());

    let mut bad_flags: Vec<u8> = vec![8];
    bad_flags.extend_from_slice(&0u64.to_le_bytes());
    assert!(decode_request(&bad_flags).is_none());

    let f = Subscriptions::create_defi_subscription();
    let mut bytes = encode_request(&f);
    bytes.pop();
    assert!(decode_request(&bytes).is_none());

    let mut trailing = encode_request(&f);
    trailing.push(0);
    assert!(decode_request(&trailing).is_none());
}
