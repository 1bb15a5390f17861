//! The one-shot decisions: configuration building, orchestrator phases,
//! minting gates, collection management, and setup resolution.

use tars_deploy::cache::{Cache, CacheProgram, ItemRecord, COLLECTION_INDEX};
use tars_deploy::collections::{
    apply_remove_collection, apply_set_collection, assert_correct_authority,
    check_remove_collection, check_set_collection,
};
use tars_deploy::config::{
    create_tars_data, scale_price, ConfigData, Creator, EndSettingType, EndSettings,
    WhitelistMintSettings, WhitelistMintMode,
};
use tars_deploy::deploy::{
    check_balance, check_name, check_seller_fee_basis_points, check_symbol, check_url,
    collection_action, dedup_error_messages, deploy_plan, deploy_preflight, ensure_account_action,
    register_collection_attached, register_created_account, tars_account_size,
    validate_cache_items, verify_account_fetch, AccountAction, CollectionAction, Treasury,
    select_treasury,
    CONFIG_ARRAY_START,
};
use tars_deploy::errors::{CacheError, CollectionError, CustomTarsError, DeployError, MintError};
use tars_deploy::mint::{
    check_mint_confirmation, check_mint_request, check_whitelist_token, mint_eligibility,
};
use tars_deploy::setup::{resolve_keypair_source, resolve_rpc_url, KeypairSource};

fn base_config() -> ConfigData {
    ConfigData {
        price: 1,
        number: 10,
        symbol: "TARS".to_owned(),
        seller_fee_basis_points: 500,
        is_mutable: true,
        retain_authority: true,
        go_live_date: None,
        creators: vec![Creator { address: "creator".to_owned(), verified: false, share: 100 }],
        spl_token: None,
        spl_token_account: None,
        sol_treasury_account: None,
        end_settings: None,
        whitelist_mint_settings: None,
        hidden_settings: None,
        gatekeeper: None,
    }
}

#[test]
fn tars_data_carries_the_configuration_over() {
    let data = create_tars_data(base_config(), 1_000_000_000, "uuid00".to_owned()).unwrap();
    assert_eq!(data.uuid, "uuid00");
    assert_eq!(data.price, 1_000_000_000);
    assert_eq!(data.symbol, "TARS");
    assert_eq!(data.seller_fee_basis_points, 500);
    assert_eq!(data.max_supply, 0);
    assert_eq!(data.items_available, 10);
    assert_eq!(data.go_live_date, None);
    assert_eq!(data.creators.len(), 1);
}

#[test]
fn go_live_date_is_parsed_into_a_timestamp() {
    let mut config = base_config();
    config.go_live_date = Some("1970-01-02T00:00:00+00:00".to_owned());
    let data = create_tars_data(config, 0, "u".to_owned()).unwrap();
    assert_eq!(data.go_live_date, Some(86400));
}

#[test]
fn unparseable_go_live_date_is_rejected() {
    let mut config = base_config();
    config.go_live_date = Some("tomorrow".to_owned());
    let e = create_tars_data(config, 0, "u".to_owned()).unwrap_err();
    assert_eq!(e, DeployError::GoLiveDateInvalid("tomorrow".to_owned()));
}

#[test]
fn creator_list_must_be_between_one_and_four() {
    let mut config = base_config();
    config.creators = vec![];
    let e = create_tars_data(config, 0, "u".to_owned()).unwrap_err();
    assert_eq!(e, DeployError::CreatorCountInvalid(0));

    let mut config = base_config();
    let one = Creator { address: "c".to_owned(), verified: false, share: 20 };
    config.creators = vec![one.clone(), one.clone(), one.clone(), one.clone(), one];
    let e = create_tars_data(config, 0, "u".to_owned()).unwrap_err();
    assert_eq!(e, DeployError::CreatorCountInvalid(5));
}

#[test]
fn creator_shares_must_add_up_to_one_hundred() {
    let mut config = base_config();
    config.creators = vec![
        Creator { address: "a".to_owned(), verified: false, share: 60 },
        Creator { address: "b".to_owned(), verified: false, share: 39 },
    ];
    let e = create_tars_data(config, 0, "u".to_owned()).unwrap_err();
    assert_eq!(e, DeployError::ShareSumInvalid(99));
}

#[test]
fn price_scaling_uses_the_token_decimals() {
    assert_eq!(scale_price(1, 9).unwrap(), 1_000_000_000);
    assert_eq!(scale_price(25, 2).unwrap(), 2500);
    assert_eq!(scale_price(7, 0).unwrap(), 7);
    assert_eq!(scale_price(u64::MAX, 1).unwrap_err(), DeployError::PriceOverflow);
    assert_eq!(scale_price(2, 63).unwrap_err(), DeployError::PriceOverflow);
}

#[test]
fn account_size_formula() {
    assert_eq!(tars_account_size(1000, true).unwrap(), CONFIG_ARRAY_START);
    // 705 + 4 + 10 * 240 + 8 + 2 * (10 / 8 + 1)
    assert_eq!(tars_account_size(10, false).unwrap(), 705 + 4 + 2400 + 8 + 4);
    assert_eq!(
        tars_account_size(u64::MAX / 2, false).unwrap_err(),
        DeployError::AccountSizeOverflow
    );
}

#[test]
fn balance_must_cover_the_rent() {
    assert!(check_balance(10, 10).is_ok());
    assert_eq!(check_balance(9, 10).unwrap_err(), DeployError::BalanceTooLow(9, 10));
}

#[test]
fn field_validators_enforce_the_wire_limits() {
    assert!(check_name(&"n".repeat(32)));
    assert!(!check_name(&"n".repeat(33)));
    assert!(check_url(&"u".repeat(200)));
    assert!(!check_url(&"u".repeat(201)));
    assert!(check_symbol(&"s".repeat(10)));
    assert!(!check_symbol(&"s".repeat(11)));
    assert!(check_seller_fee_basis_points(10000));
    assert!(!check_seller_fee_basis_points(10001));
}

#[test]
fn cache_validation_reports_the_first_fault() {
    let mut cache = Cache::new();
    cache.upsert(0, ItemRecord {
        name: "ok".to_owned(),
        metadata_link: "https://example.com/0.json".to_owned(),
        on_chain: false,
    });
    assert!(validate_cache_items(&cache).is_ok());

    cache.upsert(1, ItemRecord {
        name: "n".repeat(33),
        metadata_link: "https://example.com/1.json".to_owned(),
        on_chain: false,
    });
    assert_eq!(validate_cache_items(&cache).unwrap_err(), DeployError::NameTooLong(1));

    cache.upsert(1, ItemRecord {
        name: "".to_owned(),
        metadata_link: "https://example.com/1.json".to_owned(),
        on_chain: false,
    });
    assert_eq!(validate_cache_items(&cache).unwrap_err(), DeployError::MissingName(1));

    cache.upsert(1, ItemRecord {
        name: "fine".to_owned(),
        metadata_link: "u".repeat(201),
        on_chain: false,
    });
    assert_eq!(validate_cache_items(&cache).unwrap_err(), DeployError::UrlTooLong(1));

    cache.upsert(1, ItemRecord {
        name: "fine".to_owned(),
        metadata_link: "".to_owned(),
        on_chain: false,
    });
    assert_eq!(validate_cache_items(&cache).unwrap_err(), DeployError::MissingMetadataLink(1));
}

#[test]
fn preflight_checks_run_in_order() {
    let mut cache = Cache::new();
    cache.upsert(0, ItemRecord {
        name: "a".to_owned(),
        metadata_link: "https://example.com/a.json".to_owned(),
        on_chain: false,
    });
    let plan = deploy_preflight(&cache, 1, "TARS", 500, false).unwrap();
    assert_eq!(plan.total_steps, 2);
    assert!(plan.write_items);
    assert!(!plan.attach_collection);

    assert_eq!(
        deploy_preflight(&cache, 2, "TARS", 500, false).unwrap_err(),
        DeployError::CountMismatch(2, 1)
    );
    assert_eq!(
        deploy_preflight(&cache, 1, "TOOLONGSYMBOL", 500, false).unwrap_err(),
        DeployError::SymbolTooLong
    );
    assert_eq!(
        deploy_preflight(&cache, 1, "TARS", 10001, false).unwrap_err(),
        DeployError::FeeBasisPointsOverMax(10001)
    );
    cache.upsert(0, ItemRecord {
        name: "".to_owned(),
        metadata_link: "u".to_owned(),
        on_chain: false,
    });
    assert_eq!(
        deploy_preflight(&cache, 1, "TARS", 500, false).unwrap_err(),
        DeployError::MissingName(0)
    );
}

#[test]
fn step_counts_follow_the_applicable_phases() {
    assert_eq!(deploy_plan(false, false).total_steps, 2);
    assert_eq!(deploy_plan(true, false).total_steps, 1);
    assert_eq!(deploy_plan(false, true).total_steps, 3);
    let plan = deploy_plan(true, true);
    assert_eq!(plan.total_steps, 2);
    assert!(!plan.write_items);
    assert!(plan.attach_collection);
}

#[test]
fn account_phase_decides_from_the_cached_address() {
    let cache = Cache::new();
    assert_eq!(ensure_account_action(&cache).unwrap(), AccountAction::CreateNew);

    let mut cache = Cache::new();
    // the system program address: a known valid base58 key
    cache.program = CacheProgram::new_from_cm("11111111111111111111111111111111".to_owned());
    assert_eq!(
        ensure_account_action(&cache).unwrap(),
        AccountAction::Verify("11111111111111111111111111111111".to_owned())
    );

    cache.program.tars = "not-a-key!".to_owned();
    assert_eq!(
        ensure_account_action(&cache).unwrap_err(),
        CacheError::InvalidTarsAddress("not-a-key!".to_owned())
    );
}

#[test]
fn created_account_is_registered_into_an_empty_slot() {
    let mut cache = Cache::new();
    cache.program.collection_mint = "stale".to_owned();
    register_created_account(&mut cache, "addr".to_owned());
    assert_eq!(cache.program.tars, "addr");
    assert_eq!(cache.program.collection_mint, "");
}

#[test]
fn fetched_account_state_is_folded_back() {
    assert_eq!(verify_account_fetch(true, 0).unwrap(), false);
    assert_eq!(verify_account_fetch(true, 3).unwrap(), true);
    assert_eq!(verify_account_fetch(false, 0).unwrap_err(), DeployError::AccountNotFound);
}

#[test]
fn collection_phase_decisions() {
    let mut cache = Cache::new();
    assert_eq!(collection_action(&cache, false), CollectionAction::NotApplicable);

    cache.upsert(COLLECTION_INDEX, ItemRecord {
        name: "collection".to_owned(),
        metadata_link: "https://example.com/c.json".to_owned(),
        on_chain: false,
    });
    assert_eq!(collection_action(&cache, true), CollectionAction::SkipRedeemed);
    assert_eq!(collection_action(&cache, false), CollectionAction::Attach);

    register_collection_attached(&mut cache, "mint".to_owned());
    assert_eq!(collection_action(&cache, false), CollectionAction::AlreadyAttached);
    assert_eq!(cache.program.collection_mint, "mint");
    assert!(cache.get(COLLECTION_INDEX).unwrap().on_chain);
}

#[test]
fn treasury_selection_rules() {
    let token = Some("tok".to_owned());
    let account = Some("acct".to_owned());
    let sol = Some("sol".to_owned());

    assert_eq!(
        select_treasury(&token, &account, &None, "payer").unwrap(),
        Treasury::SplAccount("acct".to_owned())
    );
    assert_eq!(
        select_treasury(&token, &None, &None, "payer").unwrap(),
        Treasury::SplAta("tok".to_owned())
    );
    assert_eq!(
        select_treasury(&token, &account, &sol, "payer").unwrap_err(),
        DeployError::TreasuryConflict
    );
    assert_eq!(
        select_treasury(&None, &None, &sol, "payer").unwrap(),
        Treasury::Sol("sol".to_owned())
    );
    assert_eq!(
        select_treasury(&None, &None, &None, "payer").unwrap(),
        Treasury::Sol("payer".to_owned())
    );
}

#[test]
fn duplicate_failure_messages_are_reported_once() {
    let errors = vec![
        (0u32, "timeout".to_owned()),
        (1, "rejected".to_owned()),
        (2, "timeout".to_owned()),
        (3, "rejected".to_owned()),
        (4, "timeout".to_owned()),
    ];
    let unique = dedup_error_messages(&errors);
    assert_eq!(unique, vec!["timeout".to_owned(), "rejected".to_owned()]);
}

#[test]
fn mint_request_is_checked_against_the_remainder() {
    assert!(check_mint_request(10, 4, 6).is_ok());
    assert_eq!(check_mint_request(10, 4, 7).unwrap_err(), MintError::NotEnoughItems(6, 7));
    assert_eq!(check_mint_request(10, 4, 0).unwrap_err(), MintError::NotEnoughItems(6, 0));
    assert_eq!(check_mint_request(4, 10, 1).unwrap_err(), MintError::NotEnoughItems(0, 1));
}

#[test]
fn authority_skips_the_timing_gates() {
    assert!(mint_eligibility(true, false, None, &None, &None, 0, 10, 1000).is_ok());
}

#[test]
fn gatekeeper_disables_minting() {
    assert_eq!(
        mint_eligibility(true, true, None, &None, &None, 0, 10, 1000).unwrap_err(),
        MintError::GatekeeperEnabled
    );
}

#[test]
fn exhausted_set_refuses_minting() {
    assert_eq!(
        mint_eligibility(true, false, None, &None, &None, 10, 10, 1000).unwrap_err(),
        MintError::Empty
    );
}

#[test]
fn sale_must_have_started_for_everyone_else() {
    // no start date set: not live
    assert_eq!(
        mint_eligibility(false, false, None, &None, &None, 0, 10, 1000).unwrap_err(),
        MintError::NotLive
    );
    // starts later
    assert_eq!(
        mint_eligibility(false, false, Some(2000), &None, &None, 0, 10, 1000).unwrap_err(),
        MintError::NotLive
    );
    // started
    assert!(mint_eligibility(false, false, Some(500), &None, &None, 0, 10, 1000).is_ok());
}

#[test]
fn presale_allow_list_opens_the_gate_early() {
    let presale = Some(WhitelistMintSettings {
        mode: WhitelistMintMode::BurnEveryTime,
        mint: "wl".to_owned(),
        presale: true,
        discount_price: None,
    });
    assert!(mint_eligibility(false, false, Some(2000), &presale, &None, 0, 10, 1000).is_ok());

    let no_presale = Some(WhitelistMintSettings {
        mode: WhitelistMintMode::NeverBurn,
        mint: "wl".to_owned(),
        presale: false,
        discount_price: None,
    });
    assert_eq!(
        mint_eligibility(false, false, Some(2000), &no_presale, &None, 0, 10, 1000).unwrap_err(),
        MintError::NotLive
    );
}

#[test]
fn end_settings_close_the_sale() {
    let by_date =
        Some(EndSettings { end_setting_type: EndSettingType::Date, number: 900 });
    assert_eq!(
        mint_eligibility(false, false, Some(500), &None, &by_date, 0, 10, 1000).unwrap_err(),
        MintError::NotLive
    );
    let by_amount =
        Some(EndSettings { end_setting_type: EndSettingType::Amount, number: 5 });
    assert_eq!(
        mint_eligibility(false, false, Some(500), &None, &by_amount, 5, 10, 1000).unwrap_err(),
        MintError::EndAmountReached
    );
    assert!(mint_eligibility(false, false, Some(500), &None, &by_amount, 4, 10, 1000).is_ok());
}

#[test]
fn missing_metadata_after_mint_is_reported() {
    assert!(check_mint_confirmation(true).is_ok());
    assert_eq!(check_mint_confirmation(false).unwrap_err(), MintError::BotTaxSuspected);
}

#[test]
fn whitelist_token_check() {
    assert!(check_whitelist_token(true, false, 1).is_ok());
    assert_eq!(
        check_whitelist_token(false, false, 1).unwrap_err(),
        MintError::UninitializedWhitelistAccount
    );
    assert_eq!(check_whitelist_token(true, true, 1).unwrap_err(), MintError::NoWhitelistToken);
    assert_eq!(check_whitelist_token(true, false, 0).unwrap_err(), MintError::NoWhitelistToken);
}

#[test]
fn authority_mismatch_is_reported_with_both_keys() {
    assert!(assert_correct_authority("key", "key").is_ok());
    assert_eq!(
        assert_correct_authority("payer", "auth").unwrap_err(),
        CustomTarsError::AuthorityMismatch("payer".to_owned(), "auth".to_owned())
    );
}

#[test]
fn attach_preconditions_in_order() {
    assert!(check_set_collection(true, "p", "p", Some(0), 0).is_ok());
    assert_eq!(
        check_set_collection(false, "p", "p", Some(0), 0).unwrap_err(),
        CollectionError::RequiresRetainAuthority
    );
    assert_eq!(
        check_set_collection(true, "u", "p", Some(0), 0).unwrap_err(),
        CollectionError::AuthorityMismatch("u".to_owned(), "p".to_owned())
    );
    assert_eq!(
        check_set_collection(true, "p", "p", Some(1), 0).unwrap_err(),
        CollectionError::NotUniqueMasterEdition
    );
    assert_eq!(
        check_set_collection(true, "p", "p", None, 0).unwrap_err(),
        CollectionError::NotUniqueMasterEdition
    );
    assert_eq!(
        check_set_collection(true, "p", "p", Some(0), 3).unwrap_err(),
        CollectionError::Locked
    );
}

#[test]
fn detach_preconditions_in_order() {
    assert!(check_remove_collection("p", "p", 0).is_ok());
    assert_eq!(
        check_remove_collection("u", "p", 0).unwrap_err(),
        CollectionError::AuthorityMismatch("u".to_owned(), "p".to_owned())
    );
    assert_eq!(check_remove_collection("p", "p", 1).unwrap_err(), CollectionError::Locked);
}

#[test]
fn collection_cache_updates() {
    let mut cache = Cache::new();
    cache.upsert(COLLECTION_INDEX, ItemRecord {
        name: "collection".to_owned(),
        metadata_link: "u".to_owned(),
        on_chain: false,
    });
    cache.upsert(0, ItemRecord {
        name: "a".to_owned(),
        metadata_link: "u".to_owned(),
        on_chain: true,
    });
    apply_set_collection(&mut cache, "mint".to_owned());
    assert!(cache.get(COLLECTION_INDEX).is_none());
    assert_eq!(cache.program.collection_mint, "mint");
    assert!(cache.get(0).unwrap().on_chain);

    apply_remove_collection(&mut cache);
    assert_eq!(cache.program.collection_mint, "");
    assert!(cache.get(COLLECTION_INDEX).is_none());
}

#[test]
fn rpc_url_resolution_precedence() {
    assert_eq!(
        resolve_rpc_url(Some("arg".to_owned()), Some("cfg".to_owned())),
        "arg".to_owned()
    );
    assert_eq!(resolve_rpc_url(None, Some("cfg".to_owned())), "cfg".to_owned());
    assert_eq!(resolve_rpc_url(None, None), "https://api.devnet.solana.com".to_owned());
}

#[test]
fn keypair_resolution_precedence() {
    assert_eq!(
        resolve_keypair_source(Some("arg".to_owned()), Some("cfg".to_owned())),
        KeypairSource::Provided("arg".to_owned())
    );
    assert_eq!(
        resolve_keypair_source(None, Some("cfg".to_owned())),
        KeypairSource::FromConfig("cfg".to_owned())
    );
    assert_eq!(resolve_keypair_source(None, None), KeypairSource::DefaultPath);
}
