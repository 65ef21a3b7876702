use account_resolver::account::{
    Account, AccountState, LayoutEntry, ModuleAbi, ResourceEntry,
};
use account_resolver::address::Address;
use account_resolver::error::{ApiError, BadRequestReason, InternalReason, NotFoundCategory};
use account_resolver::ledger::LedgerInfo;
use account_resolver::move_types::{MoveFieldLayout, MoveType, MoveTypeLayout, MoveValue, StructTag};

fn addr(last: u8) -> Address {
    let mut bytes = vec![0u8; 31];
    bytes.push(last);
    Address::from_bytes(bytes).unwrap()
}

fn tag(module: &str, name: &str) -> StructTag {
    StructTag {
        address: addr(1),
        module: module.to_string(),
        name: name.to_string(),
        type_params: Vec::new(),
    }
}

fn info(version: u64) -> LedgerInfo {
    LedgerInfo::new(4, version, 1_000_000)
}

/// The 48 canonical bytes of an event handle: counter, creation number,
/// owner address.
fn handle_bytes(counter: u64, creation: u64, owner_last: u8) -> Vec<u8> {
    let mut bytes = Vec::new();
    bytes.extend_from_slice(&counter.to_le_bytes());
    bytes.extend_from_slice(&creation.to_le_bytes());
    bytes.extend_from_slice(addr(owner_last).bytes());
    bytes
}

/// Layout of a resource with a single event-handle field named `events`.
fn handle_owner_layout() -> MoveTypeLayout {
    MoveTypeLayout::Struct(vec![MoveFieldLayout {
        name: "events".to_string(),
        layout: MoveTypeLayout::Struct(vec![
            MoveFieldLayout { name: "counter".to_string(), layout: MoveTypeLayout::U64 },
            MoveFieldLayout {
                name: "guid".to_string(),
                layout: MoveTypeLayout::Struct(vec![
                    MoveFieldLayout {
                        name: "creation_num".to_string(),
                        layout: MoveTypeLayout::U64,
                    },
                    MoveFieldLayout { name: "addr".to_string(), layout: MoveTypeLayout::Address },
                ]),
            },
        ]),
    }])
}

#[test]
fn resolves_requested_version_at_or_below_latest() {
    let a = Account::new(addr(0xa1), Some(50), Ok(info(100))).unwrap();
    assert_eq!(a.ledger_version, 50);
    assert_eq!(a.latest_ledger_info.version(), 100);
}

#[test]
fn resolves_omitted_version_to_latest() {
    let a = Account::new(addr(0xa1), None, Ok(info(100))).unwrap();
    assert_eq!(a.ledger_version, 100);
}

#[test]
fn version_beyond_latest_is_ledger_not_found() {
    let e = Account::new(addr(0xa1), Some(101), Ok(info(100))).unwrap_err();
    match &e {
        ApiError::LedgerNotFound { version, latest_version } => {
            assert_eq!(*version, 101);
            assert_eq!(*latest_version, 100);
        }
        other => panic!("unexpected error: {:?}", other),
    }
    assert_eq!(e.not_found_category().unwrap().label(), "ledger");
    assert_eq!(e.latest_version(), Some(100));
}

#[test]
fn storage_fault_on_latest_ledger_info_is_internal() {
    let e = Account::new(
        addr(0xa1),
        None,
        Err(account_resolver::error::StorageFault {}),
    )
    .unwrap_err();
    assert!(matches!(
        e,
        ApiError::Internal { reason: InternalReason::ReadFromStorage }
    ));
}

#[test]
fn absent_state_fails_every_query_with_account_not_found() {
    let a = Account::new(addr(0xa1), Some(100), Ok(info(100))).unwrap();
    let layouts: Vec<LayoutEntry> = Vec::new();

    let e = a.resources(Ok(None), &layouts).unwrap_err();
    assert_eq!(e.not_found_category(), Some(NotFoundCategory::Account));

    let abis: Vec<Option<ModuleAbi>> = Vec::new();
    let e = a.modules(Ok(None), &abis).unwrap_err();
    assert_eq!(e.not_found_category(), Some(NotFoundCategory::Account));

    let t = tag("coin", "CoinStore");
    let e = a.find_resource(Ok(None), &layouts, &t).unwrap_err();
    assert_eq!(e.not_found_category(), Some(NotFoundCategory::Account));

    let e = a
        .find_event_key(Ok(None), &layouts, &t, &"events".to_string())
        .unwrap_err();
    assert_eq!(e.not_found_category(), Some(NotFoundCategory::Account));
}

#[test]
fn summary_absent_is_resource_not_found() {
    // Address 0xa1, version 100, latest 100, summary resource absent.
    let a = Account::new(addr(0xa1), Some(100), Ok(info(100))).unwrap();
    let e = a.account(Ok(None)).unwrap_err();
    match &e {
        ApiError::ResourceNotFound { struct_tag, ledger_version, latest_version, .. } => {
            assert_eq!(struct_tag.module, "account");
            assert_eq!(struct_tag.name, "Account");
            assert_eq!(*ledger_version, 100);
            assert_eq!(*latest_version, 100);
        }
        other => panic!("unexpected error: {:?}", other),
    }
    assert_eq!(e.not_found_category().unwrap().label(), "resource");
}

#[test]
fn summary_present_decodes_with_latest_info() {
    // Same address at version 50, valid below latest 100.
    let a = Account::new(addr(0xa1), Some(50), Ok(info(100))).unwrap();
    // Authentication key of two bytes, then the sequence number 7.
    let mut stored = vec![2u8, 0xaa, 0xbb];
    stored.extend_from_slice(&7u64.to_le_bytes());
    let d = a.account(Ok(Some(stored))).unwrap();
    assert_eq!(d.sequence_number, 7);
    assert_eq!(d.authentication_key, vec![0xaa, 0xbb]);
    assert_eq!(a.latest_ledger_info.version(), 100);
}

#[test]
fn corrupt_summary_bytes_are_internal_not_absence() {
    let a = Account::new(addr(0xa1), Some(50), Ok(info(100))).unwrap();
    // Truncated: the length prefix promises more bytes than are there.
    let e = a.account(Ok(Some(vec![9u8, 0xaa]))).unwrap_err();
    assert!(matches!(
        e,
        ApiError::Internal { reason: InternalReason::InvalidStoredData }
    ));
}

#[test]
fn find_by_type_missing_descriptor_is_resource_not_found_and_listing_omits_it() {
    let a = Account::new(addr(0xa1), None, Ok(info(100))).unwrap();
    // One stored resource: a struct with one u8 field.
    let stored_tag = tag("coin", "CoinStore");
    let state = AccountState {
        resources: vec![ResourceEntry { struct_tag: tag("coin", "CoinStore"), bytes: vec![42u8] }],
        modules: Vec::new(),
    };
    let layouts = vec![LayoutEntry {
        struct_tag: tag("coin", "CoinStore"),
        layout: MoveTypeLayout::Struct(vec![MoveFieldLayout {
            name: "value".to_string(),
            layout: MoveTypeLayout::U8,
        }]),
    }];

    let missing = tag("coin", "Other");
    let e = a.find_resource(Ok(Some(state)), &layouts, &missing).unwrap_err();
    match &e {
        ApiError::ResourceNotFound { struct_tag, .. } => assert_eq!(struct_tag.name, "Other"),
        other => panic!("unexpected error: {:?}", other),
    }

    let state = AccountState {
        resources: vec![ResourceEntry { struct_tag: stored_tag, bytes: vec![42u8] }],
        modules: Vec::new(),
    };
    let listed = a.resources(Ok(Some(state)), &layouts).unwrap();
    assert_eq!(listed.len(), 1);
    assert_eq!(listed[0].struct_tag.name, "CoinStore");
    assert!(listed.iter().all(|r| r.struct_tag.name != "Other"));
    assert_eq!(listed[0].data.len(), 1);
    assert_eq!(listed[0].data[0].name, "value");
    assert!(matches!(listed[0].data[0].value, MoveValue::U8(42)));
}

#[test]
fn resource_without_layout_is_internal() {
    let a = Account::new(addr(0xa1), None, Ok(info(100))).unwrap();
    let state = AccountState {
        resources: vec![ResourceEntry { struct_tag: tag("coin", "CoinStore"), bytes: vec![1u8] }],
        modules: Vec::new(),
    };
    let layouts: Vec<LayoutEntry> = Vec::new();
    let e = a.resources(Ok(Some(state)), &layouts).unwrap_err();
    assert!(matches!(
        e,
        ApiError::Internal { reason: InternalReason::InvalidStoredData }
    ));
}

#[test]
fn resource_with_trailing_bytes_is_internal() {
    let a = Account::new(addr(0xa1), None, Ok(info(100))).unwrap();
    let state = AccountState {
        resources: vec![ResourceEntry {
            struct_tag: tag("coin", "CoinStore"),
            bytes: vec![1u8, 2u8],
        }],
        modules: Vec::new(),
    };
    let layouts = vec![LayoutEntry {
        struct_tag: tag("coin", "CoinStore"),
        layout: MoveTypeLayout::Struct(vec![MoveFieldLayout {
            name: "value".to_string(),
            layout: MoveTypeLayout::U8,
        }]),
    }];
    let e = a.resources(Ok(Some(state)), &layouts).unwrap_err();
    assert!(matches!(
        e,
        ApiError::Internal { reason: InternalReason::InvalidStoredData }
    ));
}

#[test]
fn modules_pair_bytecode_with_metadata() {
    let a = Account::new(addr(0xa1), None, Ok(info(100))).unwrap();
    let state = AccountState {
        resources: Vec::new(),
        modules: vec![vec![1u8, 2u8], vec![3u8]],
    };
    let abis = vec![
        Some(ModuleAbi { address: addr(1), name: "coin".to_string() }),
        Some(ModuleAbi { address: addr(1), name: "account".to_string() }),
    ];
    let out = a.modules(Ok(Some(state)), &abis).unwrap();
    assert_eq!(out.len(), 2);
    assert_eq!(out[0].bytecode, vec![1u8, 2u8]);
    assert_eq!(out[0].abi.name, "coin");
    assert_eq!(out[1].bytecode, vec![3u8]);
    assert_eq!(out[1].abi.name, "account");
}

#[test]
fn one_unparsable_module_fails_the_whole_listing() {
    let a = Account::new(addr(0xa1), None, Ok(info(100))).unwrap();
    let state = AccountState {
        resources: Vec::new(),
        modules: vec![vec![1u8], vec![2u8]],
    };
    let abis = vec![Some(ModuleAbi { address: addr(1), name: "coin".to_string() }), None];
    let e = a.modules(Ok(Some(state)), &abis).unwrap_err();
    assert!(matches!(
        e,
        ApiError::Internal { reason: InternalReason::InvalidStoredBytecode }
    ));
}

#[test]
fn find_event_key_returns_the_stored_key() {
    let a = Account::new(addr(0xa1), None, Ok(info(100))).unwrap();
    let owner = tag("account", "Account");
    let state = AccountState {
        resources: vec![ResourceEntry {
            struct_tag: tag("account", "Account"),
            bytes: handle_bytes(5, 3, 0x77),
        }],
        modules: Vec::new(),
    };
    let layouts = vec![LayoutEntry {
        struct_tag: tag("account", "Account"),
        layout: handle_owner_layout(),
    }];
    let key = a
        .find_event_key(Ok(Some(state)), &layouts, &owner, &"events".to_string())
        .unwrap();
    assert_eq!(key.creation_number, 3);
    assert_eq!(key.account_address.bytes(), addr(0x77).bytes());
}

#[test]
fn find_event_key_missing_field_is_not_found() {
    let a = Account::new(addr(0xa1), None, Ok(info(100))).unwrap();
    let owner = tag("account", "Account");
    let state = AccountState {
        resources: vec![ResourceEntry {
            struct_tag: tag("account", "Account"),
            bytes: handle_bytes(5, 3, 0x77),
        }],
        modules: Vec::new(),
    };
    let layouts = vec![LayoutEntry {
        struct_tag: tag("account", "Account"),
        layout: handle_owner_layout(),
    }];
    let e = a
        .find_event_key(Ok(Some(state)), &layouts, &owner, &"absent".to_string())
        .unwrap_err();
    match &e {
        ApiError::FieldNotFound { field_name, .. } => assert_eq!(field_name.as_str(), "absent"),
        other => panic!("unexpected error: {:?}", other),
    }
    assert_eq!(e.not_found_category().unwrap().label(), "resource");
}

#[test]
fn find_event_key_wrong_shape_is_bad_request() {
    let a = Account::new(addr(0xa1), None, Ok(info(100))).unwrap();
    let owner = tag("coin", "CoinStore");
    // A resource whose single field is a plain u8, not an event handle.
    let state = AccountState {
        resources: vec![ResourceEntry { struct_tag: tag("coin", "CoinStore"), bytes: vec![9u8] }],
        modules: Vec::new(),
    };
    let layouts = vec![LayoutEntry {
        struct_tag: tag("coin", "CoinStore"),
        layout: MoveTypeLayout::Struct(vec![MoveFieldLayout {
            name: "value".to_string(),
            layout: MoveTypeLayout::U8,
        }]),
    }];
    let e = a
        .find_event_key(Ok(Some(state)), &layouts, &owner, &"value".to_string())
        .unwrap_err();
    assert!(matches!(
        e,
        ApiError::BadRequest { reason: BadRequestReason::FieldTypeNotEventHandle }
    ));
}

#[test]
fn find_event_key_malformed_descriptor_is_bad_request() {
    let a = Account::new(addr(0xa1), None, Ok(info(100))).unwrap();
    let bad = tag("9coin", "CoinStore");
    let layouts: Vec<LayoutEntry> = Vec::new();
    let state = AccountState { resources: Vec::new(), modules: Vec::new() };
    let e = a
        .find_event_key(Ok(Some(state)), &layouts, &bad, &"events".to_string())
        .unwrap_err();
    assert!(matches!(
        e,
        ApiError::BadRequest { reason: BadRequestReason::InvalidStructTag }
    ));
}

#[test]
fn generic_descriptors_are_distinct_keys() {
    let a = Account::new(addr(0xa1), None, Ok(info(100))).unwrap();
    let mut generic = tag("coin", "CoinStore");
    generic.type_params.push(MoveType::U64);
    let state = AccountState {
        resources: vec![ResourceEntry { struct_tag: tag("coin", "CoinStore"), bytes: vec![1u8] }],
        modules: Vec::new(),
    };
    let layouts: Vec<LayoutEntry> = Vec::new();
    // The stored descriptor has no type arguments, so the generic one is absent.
    let e = a.find_resource(Ok(Some(state)), &layouts, &generic).unwrap_err();
    assert_eq!(e.not_found_category(), Some(NotFoundCategory::Resource));
}
