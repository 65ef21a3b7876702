use account_resolver::address::Address;
use account_resolver::codec::{decode_uleb, decode_value, encode_uleb, encode_value};
use account_resolver::event::decode_event_handle;
use account_resolver::move_types::{
    is_valid_identifier, MoveField, MoveFieldLayout, MoveType, MoveTypeLayout, MoveValue,
    StructTag,
};

fn addr(last: u8) -> Address {
    let mut bytes = vec![0u8; 31];
    bytes.push(last);
    Address::from_bytes(bytes).unwrap()
}

#[test]
fn address_must_be_exactly_thirty_two_bytes() {
    assert!(Address::from_bytes(vec![0u8; 32]).is_some());
    assert!(Address::from_bytes(vec![0u8; 31]).is_none());
    assert!(Address::from_bytes(vec![0u8; 33]).is_none());
}

#[test]
fn leb128_lengths_are_canonical() {
    assert_eq!(encode_uleb(0), vec![0u8]);
    assert_eq!(encode_uleb(127), vec![127u8]);
    assert_eq!(encode_uleb(128), vec![0x80u8, 0x01]);
    assert_eq!(encode_uleb(130), vec![0x82u8, 0x01]);
    assert_eq!(encode_uleb(16384), vec![0x80u8, 0x80, 0x01]);

    let bytes = vec![0x82u8, 0x01];
    assert_eq!(decode_uleb(&bytes, 0), Some((130, 2)));
    // A trailing zero continuation is not canonical and is rejected.
    let bytes = vec![0x80u8, 0x00];
    assert_eq!(decode_uleb(&bytes, 0), None);
}

#[test]
fn primitive_values_encode_to_fixed_widths() {
    assert_eq!(encode_value(&MoveValue::Bool(true)), vec![1u8]);
    assert_eq!(encode_value(&MoveValue::Bool(false)), vec![0u8]);
    assert_eq!(encode_value(&MoveValue::U8(0xab)), vec![0xabu8]);
    assert_eq!(encode_value(&MoveValue::U64(7)), 7u64.to_le_bytes().to_vec());
    assert_eq!(encode_value(&MoveValue::U128(1 << 70)), (1u128 << 70).to_le_bytes().to_vec());
    assert_eq!(encode_value(&MoveValue::Address(addr(9))), {
        let mut b = vec![0u8; 31];
        b.push(9);
        b
    });
}

#[test]
fn vectors_encode_with_a_length_prefix() {
    let v = MoveValue::Vector(vec![MoveValue::U8(1), MoveValue::U8(2), MoveValue::U8(3)]);
    assert_eq!(encode_value(&v), vec![3u8, 1, 2, 3]);
}

#[test]
fn structs_encode_as_their_fields_in_order() {
    let v = MoveValue::Struct(vec![
        MoveField { name: "a".to_string(), value: MoveValue::U8(5) },
        MoveField { name: "b".to_string(), value: MoveValue::U64(6) },
    ]);
    let mut expected = vec![5u8];
    expected.extend_from_slice(&6u64.to_le_bytes());
    assert_eq!(encode_value(&v), expected);
}

#[test]
fn decoding_inverts_encoding_for_a_nested_value() {
    // A struct holding a vector of two-field structs and an address.
    let element_layout = MoveTypeLayout::Struct(vec![
        MoveFieldLayout { name: "x".to_string(), layout: MoveTypeLayout::U64 },
        MoveFieldLayout { name: "flag".to_string(), layout: MoveTypeLayout::Bool },
    ]);
    let layout = MoveTypeLayout::Struct(vec![
        MoveFieldLayout {
            name: "items".to_string(),
            layout: MoveTypeLayout::Vector(Box::new(element_layout)),
        },
        MoveFieldLayout { name: "owner".to_string(), layout: MoveTypeLayout::Address },
    ]);
    let element = |x: u64, flag: bool| {
        MoveValue::Struct(vec![
            MoveField { name: "x".to_string(), value: MoveValue::U64(x) },
            MoveField { name: "flag".to_string(), value: MoveValue::Bool(flag) },
        ])
    };
    let value = MoveValue::Struct(vec![
        MoveField {
            name: "items".to_string(),
            value: MoveValue::Vector(vec![element(1, true), element(300, false)]),
        },
        MoveField { name: "owner".to_string(), value: MoveValue::Address(addr(4)) },
    ]);

    let bytes = encode_value(&value);
    let (decoded, consumed) = decode_value(&layout, &bytes, 0).unwrap();
    assert_eq!(consumed, bytes.len());
    // The decoded value re-encodes to the same bytes, and carries the same
    // structure and field names.
    assert_eq!(encode_value(&decoded), bytes);
    match &decoded {
        MoveValue::Struct(fields) => {
            assert_eq!(fields.len(), 2);
            assert_eq!(fields[0].name, "items");
            assert_eq!(fields[1].name, "owner");
            match &fields[0].value {
                MoveValue::Vector(items) => {
                    assert_eq!(items.len(), 2);
                    match &items[1] {
                        MoveValue::Struct(inner) => {
                            assert!(matches!(inner[0].value, MoveValue::U64(300)));
                            assert!(matches!(inner[1].value, MoveValue::Bool(false)));
                        }
                        other => panic!("unexpected element: {:?}", other),
                    }
                }
                other => panic!("unexpected field: {:?}", other),
            }
        }
        other => panic!("unexpected value: {:?}", other),
    }
}

#[test]
fn decoding_rejects_out_of_range_booleans_and_short_input() {
    let bytes = vec![2u8];
    assert!(decode_value(&MoveTypeLayout::Bool, &bytes, 0).is_none());
    let bytes = vec![1u8, 2, 3];
    assert!(decode_value(&MoveTypeLayout::U64, &bytes, 0).is_none());
    let bytes = vec![0u8; 16];
    assert!(decode_value(&MoveTypeLayout::Address, &bytes, 0).is_none());
}

#[test]
fn uses_generic_type_arguments_in_descriptor_identity() {
    let plain = StructTag {
        address: addr(1),
        module: "coin".to_string(),
        name: "CoinStore".to_string(),
        type_params: Vec::new(),
    };
    let mut generic = plain.duplicate();
    generic.type_params.push(MoveType::Vector(Box::new(MoveType::U8)));
    assert!(plain.matches(&plain.duplicate()));
    assert!(!plain.matches(&generic));
    assert!(generic.matches(&generic.duplicate()));
}

#[test]
fn event_handles_have_a_fixed_wire_shape() {
    let mut bytes = Vec::new();
    bytes.extend_from_slice(&5u64.to_le_bytes());
    bytes.extend_from_slice(&3u64.to_le_bytes());
    bytes.extend_from_slice(addr(0x77).bytes());
    let h = decode_event_handle(&bytes).unwrap();
    assert_eq!(h.counter, 5);
    assert_eq!(h.key.creation_number, 3);
    assert_eq!(h.key.account_address.bytes(), addr(0x77).bytes());

    bytes.pop();
    assert!(decode_event_handle(&bytes).is_none());
}

#[test]
fn identifier_grammar_matches_the_descriptor_validation() {
    assert!(is_valid_identifier(&"account".to_string()));
    assert!(is_valid_identifier(&"_x9".to_string()));
    assert!(is_valid_identifier(&"CoinStore".to_string()));
    assert!(!is_valid_identifier(&"".to_string()));
    assert!(!is_valid_identifier(&"_".to_string()));
    assert!(!is_valid_identifier(&"9lives".to_string()));
    assert!(!is_valid_identifier(&"has space".to_string()));
}
