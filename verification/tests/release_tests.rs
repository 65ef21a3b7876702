use account_resolver::release::ReleaseTarget;

#[test]
fn target_names() {
    assert_eq!(ReleaseTarget::Head.name(), "head");
    assert_eq!(ReleaseTarget::Devnet.name(), "devnet");
    assert_eq!(ReleaseTarget::Testnet.name(), "testnet");
    assert_eq!(ReleaseTarget::Mainnet.name(), "mainnet");
}

#[test]
fn parses_targets_ignoring_ascii_case() {
    assert_eq!(ReleaseTarget::from_str("head"), Ok(ReleaseTarget::Head));
    assert_eq!(ReleaseTarget::from_str("HEAD"), Ok(ReleaseTarget::Head));
    assert_eq!(ReleaseTarget::from_str("Devnet"), Ok(ReleaseTarget::Devnet));
    assert_eq!(ReleaseTarget::from_str("testnet"), Ok(ReleaseTarget::Testnet));
    assert_eq!(ReleaseTarget::from_str("MainNet"), Ok(ReleaseTarget::Mainnet));
    assert!(ReleaseTarget::from_str("prod").is_err());
    assert!(ReleaseTarget::from_str("").is_err());
}

#[test]
fn bundle_file_names_carry_the_extension() {
    assert_eq!(ReleaseTarget::Head.file_name(), "head.mrb");
    assert_eq!(ReleaseTarget::Devnet.file_name(), "devnet.mrb");
    assert_eq!(ReleaseTarget::Testnet.file_name(), "testnet.mrb");
    assert_eq!(ReleaseTarget::Mainnet.file_name(), "mainnet.mrb");
}

#[test]
fn packages_come_in_publishing_order() {
    let ps = ReleaseTarget::Head.packages();
    assert_eq!(ps.len(), 4);
    assert_eq!(ps[0], ("move-stdlib", None));
    assert_eq!(ps[1], ("aptos-stdlib", None));
    assert_eq!(
        ps[2],
        ("aptos-framework", Some("src/generated/aptos_framework_sdk_builder.rs"))
    );
    assert_eq!(ps[3], ("aptos-token", Some("src/generated/aptos_token_sdk_builder.rs")));
}

#[test]
fn release_plan_resolves_paths_and_default_output() {
    let plan = ReleaseTarget::Head.create_release("/fw", true, None);
    assert!(plan.strip);
    assert!(plan.build_options.with_srcs);
    assert!(plan.build_options.with_abis);
    assert!(plan.build_options.with_source_maps);
    assert!(plan.build_options.with_error_map);
    assert_eq!(plan.packages.len(), 4);
    assert_eq!(plan.packages[0], "/fw/move-stdlib");
    assert_eq!(plan.packages[2], "/fw/aptos-framework");
    assert_eq!(plan.rust_bindings[0], "");
    assert_eq!(
        plan.rust_bindings[2],
        "/fw/src/generated/aptos_framework_sdk_builder.rs"
    );
    assert_eq!(plan.output, "/fw/releases/head.mrb");
}

#[test]
fn release_plan_honours_an_explicit_output() {
    let plan = ReleaseTarget::Mainnet.create_release("/fw", false, Some("/out/m.mrb".to_string()));
    assert!(!plan.strip);
    assert_eq!(plan.output, "/out/m.mrb");
}

#[test]
fn named_addresses_cover_the_legacy_aliases() {
    let pairs = account_resolver::release::named_addresses();
    assert_eq!(pairs.len(), 6);
    assert_eq!(pairs[0].0, "std");
    assert_eq!(pairs[0].1.bytes()[31], 1);
    assert_eq!(pairs[3].0, "aptos_token");
    assert_eq!(pairs[3].1.bytes()[31], 2);
    assert_eq!(pairs[4].0, "core_resources");
    assert_eq!(&pairs[4].1.bytes()[28..], &[0x0a, 0x55, 0x0c, 0x18]);
    assert_eq!(pairs[5].0, "vm_reserved");
    assert!(pairs[5].1.bytes().iter().all(|b| *b == 0));
}
