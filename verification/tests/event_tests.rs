use token_core::addr::Addr;
use token_core::amount::Amount;
use token_core::events::{encode_event, Event};

fn word_of_amount(v: &Amount) -> Vec<u8> {
    let mut out = Vec::new();
    out.extend_from_slice(&v.l3.to_be_bytes());
    out.extend_from_slice(&v.l2.to_be_bytes());
    out.extend_from_slice(&v.l1.to_be_bytes());
    out.extend_from_slice(&v.l0.to_be_bytes());
    out
}

fn word_of_addr(a: &Addr) -> Vec<u8> {
    let mut out = vec![0u8; 12];
    out.extend_from_slice(&a.hi.to_be_bytes());
    out.extend_from_slice(&a.lo.to_be_bytes());
    out
}

#[test]
fn transfer_topic_is_the_signature_digest() {
    let e = Event::Transfer {
        from: Addr::from_u64(1),
        to: Addr::from_u64(2),
        value: Amount::from_u64(3),
    };
    let enc = encode_event(&e);
    assert_eq!(enc.topics.len(), 3);
    let expected = alloy_primitives::keccak256(b"Transfer(address,address,uint256)");
    assert_eq!(enc.topics[0], expected.to_vec());
    let well_known =
        alloy_primitives::hex::decode("ddf252ad1be2c89b69c2b068fc378daa952ba7f163c4a11628f55a4df523b3ef")
            .unwrap();
    assert_eq!(enc.topics[0], well_known);
}

#[test]
fn approval_topic_is_the_signature_digest() {
    let e = Event::Approval {
        owner: Addr::from_u64(1),
        spender: Addr::from_u64(2),
        value: Amount::from_u64(3),
    };
    let enc = encode_event(&e);
    assert_eq!(enc.topics.len(), 3);
    let expected = alloy_primitives::keccak256(b"Approval(address,address,uint256)");
    assert_eq!(enc.topics[0], expected.to_vec());
    let well_known =
        alloy_primitives::hex::decode("8c5be1e5ebec7d5bd14f71427d1e84f3dd0314c0f7b2291e5b200ac8c7c3b925")
            .unwrap();
    assert_eq!(enc.topics[0], well_known);
}

#[test]
fn address_topics_are_left_padded_words() {
    let from = Addr { hi: 0x01020304, lo: 0x05060708090a0b0c0d0e0f1011121314 };
    let to = Addr::from_u64(2);
    let value = Amount::from_u64(3);
    let enc = encode_event(&Event::Transfer { from, to, value });
    assert_eq!(enc.topics[1], word_of_addr(&from));
    assert_eq!(enc.topics[2], word_of_addr(&to));
    assert_eq!(enc.topics[1].len(), 32);
    let mut expected = vec![0u8; 12];
    expected.extend_from_slice(&[
        0x01, 0x02, 0x03, 0x04, 0x05, 0x06, 0x07, 0x08, 0x09, 0x0a, 0x0b, 0x0c, 0x0d, 0x0e,
        0x0f, 0x10, 0x11, 0x12, 0x13, 0x14,
    ]);
    assert_eq!(enc.topics[1], expected);
}

#[test]
fn payload_is_the_big_endian_amount() {
    let value = Amount { l0: 0x1122334455667788, l1: 1, l2: 0, l3: 0 };
    let enc = encode_event(&Event::Transfer {
        from: Addr::from_u64(1),
        to: Addr::from_u64(2),
        value,
    });
    assert_eq!(enc.data, word_of_amount(&value));
    assert_eq!(enc.data.len(), 32);
    assert_eq!(&enc.data[24..], &[0x11, 0x22, 0x33, 0x44, 0x55, 0x66, 0x77, 0x88]);
    assert_eq!(enc.data[23], 1);
}
