use laddu_cli::aggregate::ErrorAggregator;
use laddu_cli::cache::{Cache, CacheItem, CacheItems, CacheProgram};
use laddu_cli::collections::{check_remove_collection, check_set_collection, CollectionError};
use laddu_cli::deploy::{
    check_cache_items, check_deploy_balance, check_item_count, magic_hat_account_size,
    select_treasury_wallet, split_batch, PARALLEL_LIMIT,
};
use laddu_cli::errors::DeployError;
use laddu_cli::magic_hat::{
    ConfigLine, EndSettingType, EndSettings, MagicHat, MagicHatData,
};
use laddu_cli::mint::{check_mint_eligibility, validate_mint_number, MintError};
use laddu_cli::validate::ValidateError;

fn item(name: &str, uri: &str) -> CacheItem {
    CacheItem { name: name.to_string(), metadata_link: uri.to_string(), on_chain: false }
}

#[test]
fn aggregator_deduplicates_and_counts() {
    let mut agg = ErrorAggregator::new();
    assert!(agg.is_empty());
    agg.push("timeout".to_string());
    agg.push("rejected".to_string());
    agg.push("timeout".to_string());
    agg.push("timeout".to_string());
    assert_eq!(agg.total(), 4);
    let distinct = agg.distinct();
    assert_eq!(distinct, vec!["timeout".to_string(), "rejected".to_string()]);
}

#[test]
fn cache_get_and_mark_accepted() {
    let mut cache = Cache {
        program: CacheProgram::new(),
        items: CacheItems(vec![item("a", "u1"), item("b", "u2")]),
    };
    assert_eq!(cache.program.magic_hat, "");
    assert_eq!(cache.get(1).unwrap().name, "b");
    assert!(cache.get(2).is_none());
    assert!(!cache.get(0).unwrap().on_chain);
    cache.mark_accepted(0);
    assert!(cache.get(0).unwrap().on_chain);
    assert!(!cache.get(1).unwrap().on_chain);
}

#[test]
fn cache_item_checks_reject_the_first_unfit_record() {
    let good = CacheItems(vec![item("a", "u"), item("b", "v")]);
    assert!(check_cache_items(&good).is_ok());

    let missing_name = CacheItems(vec![item("a", "u"), item("", "v")]);
    assert!(matches!(check_cache_items(&missing_name), Err(DeployError::MissingName(1))));

    let missing_link = CacheItems(vec![item("a", "")]);
    assert!(matches!(check_cache_items(&missing_link), Err(DeployError::MissingMetadataLink(0))));

    let long_name = CacheItems(vec![item(&"n".repeat(33), "u")]);
    assert!(matches!(
        check_cache_items(&long_name),
        Err(DeployError::Validation(ValidateError::NameTooLong))
    ));

    let long_link = CacheItems(vec![item("a", &"u".repeat(201))]);
    assert!(matches!(
        check_cache_items(&long_link),
        Err(DeployError::Validation(ValidateError::UrlTooLong))
    ));
}

#[test]
fn account_size_formula() {
    // Hidden settings keep the account at the fixed header size.
    assert_eq!(magic_hat_account_size(10, true), 713);
    // Otherwise: header + 4 + one config line slot per item + 8 + two
    // availability bitmasks.
    assert_eq!(magic_hat_account_size(10, false), 713 + 4 + 10 * 240 + 8 + 2 * (10 / 8 + 1));
    assert_eq!(magic_hat_account_size(0, false), 713 + 4 + 8 + 2);
}

#[test]
fn deploy_balance_check() {
    assert!(check_deploy_balance(1000, 1000).is_ok());
    assert!(check_deploy_balance(1000, 5000).is_ok());
    match check_deploy_balance(5000, 1000) {
        Err(DeployError::BalanceTooLow(balance, required)) => {
            assert_eq!(balance, 1000);
            assert_eq!(required, 5000);
        }
        other => panic!("expected BalanceTooLow, got {:?}", other),
    }
}

#[test]
fn treasury_selection() {
    let payer = "payer".to_string();
    // No token: the configured sol treasury, else the payer.
    assert_eq!(
        select_treasury_wallet(&None, &None, &Some("sol".to_string()), &None, &payer).unwrap(),
        "sol"
    );
    assert_eq!(select_treasury_wallet(&None, &None, &None, &None, &payer).unwrap(), "payer");
    // Token configured: a sol treasury is a conflict.
    assert!(matches!(
        select_treasury_wallet(
            &Some("tok".to_string()),
            &Some("acct".to_string()),
            &Some("sol".to_string()),
            &None,
            &payer
        ),
        Err(DeployError::TreasuryConflict)
    ));
    // Token configured: the configured token account wins, else the payer's
    // associated account.
    assert_eq!(
        select_treasury_wallet(
            &Some("tok".to_string()),
            &Some("acct".to_string()),
            &None,
            &Some("ata".to_string()),
            &payer
        )
        .unwrap(),
        "acct"
    );
    assert_eq!(
        select_treasury_wallet(&Some("tok".to_string()), &None, &None, &Some("ata".to_string()), &payer)
            .unwrap(),
        "ata"
    );
    assert!(matches!(
        select_treasury_wallet(&Some("tok".to_string()), &None, &None, &None, &payer),
        Err(DeployError::MissingTokenAccount)
    ));
}

#[test]
fn split_batch_separates_indices_and_lines() {
    let chunk = vec![
        (5u32, ConfigLine { name: "a".to_string(), uri: "ua".to_string() }),
        (6u32, ConfigLine { name: "b".to_string(), uri: "ub".to_string() }),
        (7u32, ConfigLine { name: "c".to_string(), uri: "uc".to_string() }),
    ];
    let (start, indices, lines) = split_batch(&chunk);
    assert_eq!(start, 5);
    assert_eq!(indices, vec![5, 6, 7]);
    assert_eq!(lines.len(), 3);
    assert_eq!(lines[1].name, "b");
    assert_eq!(lines[2].uri, "uc");
}

fn hat(items_available: u64, items_redeemed: u64) -> MagicHat {
    MagicHat {
        authority: "auth".to_string(),
        wallet: "wallet".to_string(),
        token_mint: None,
        items_redeemed,
        data: MagicHatData {
            uuid: "ABCDEF".to_string(),
            price: 1,
            symbol: "S".to_string(),
            seller_fee_basis_points: 0,
            max_supply: 0,
            is_mutable: true,
            retain_authority: true,
            go_live_date: Some(1000),
            end_settings: None,
            creators: vec![],
            whitelist_mint_settings: None,
            hidden_settings: None,
            items_available,
            gatekeeper: None,
        },
    }
}

#[test]
fn mint_eligibility_rules() {
    // The authority may mint as soon as items remain.
    assert!(check_mint_eligibility(&hat(10, 0), true, 0).is_ok());
    // An ordinary payer must wait for the go-live date.
    assert!(matches!(
        check_mint_eligibility(&hat(10, 0), false, 999),
        Err(MintError::MagicHatNotLive)
    ));
    assert!(check_mint_eligibility(&hat(10, 0), false, 1001).is_ok());
    // An exhausted target refuses even the authority.
    assert!(matches!(check_mint_eligibility(&hat(10, 10), true, 0), Err(MintError::MagicHatEmpty)));
    // End settings by date: past the end, the target is no longer live.
    let mut h = hat(10, 0);
    h.data.end_settings =
        Some(EndSettings { end_setting_type: EndSettingType::Date, number: 2000 });
    assert!(check_mint_eligibility(&h, false, 1500).is_ok());
    assert!(matches!(
        check_mint_eligibility(&h, false, 2500),
        Err(MintError::MagicHatNotLive)
    ));
    // End settings by amount: the cap counts redemptions.
    let mut h2 = hat(10, 3);
    h2.data.end_settings =
        Some(EndSettings { end_setting_type: EndSettingType::Amount, number: 3 });
    assert!(matches!(
        check_mint_eligibility(&h2, false, 5000),
        Err(MintError::EndAmountReached)
    ));
}

#[test]
fn mint_number_bounds() {
    assert!(validate_mint_number(1, 10, 0).is_ok());
    assert!(validate_mint_number(10, 10, 0).is_ok());
    assert!(matches!(
        validate_mint_number(0, 10, 0),
        Err(MintError::InvalidMintNumber(10, 0))
    ));
    assert!(matches!(
        validate_mint_number(8, 10, 3),
        Err(MintError::InvalidMintNumber(7, 8))
    ));
}

#[test]
fn collection_checks() {
    let payer = "payer".to_string();
    let other = "other".to_string();
    assert!(check_set_collection(true, &payer, &payer, Some(0), 0).is_ok());
    assert!(matches!(
        check_set_collection(false, &payer, &payer, Some(0), 0),
        Err(CollectionError::RequiresRetainAuthority)
    ));
    match check_set_collection(true, &other, &payer, Some(0), 0) {
        Err(CollectionError::AuthorityMismatch(a, p)) => {
            assert_eq!(a, "other");
            assert_eq!(p, "payer");
        }
        r => panic!("expected AuthorityMismatch, got {:?}", r),
    }
    assert!(matches!(
        check_set_collection(true, &payer, &payer, Some(1), 0),
        Err(CollectionError::NotUniqueMasterEdition)
    ));
    assert!(matches!(
        check_set_collection(true, &payer, &payer, None, 0),
        Err(CollectionError::NotUniqueMasterEdition)
    ));
    assert!(matches!(
        check_set_collection(true, &payer, &payer, Some(0), 4),
        Err(CollectionError::ItemsAlreadyMinted)
    ));

    assert!(check_remove_collection(&payer, &payer, 0).is_ok());
    assert!(matches!(
        check_remove_collection(&other, &payer, 0),
        Err(CollectionError::AuthorityMismatch(_, _))
    ));
    assert!(matches!(
        check_remove_collection(&payer, &payer, 1),
        Err(CollectionError::ItemsAlreadyMinted)
    ));
}

#[test]
fn default_pool_bound_is_positive() {
    assert!(PARALLEL_LIMIT >= 1);
}

#[test]
fn item_count_mismatch_is_reported() {
    let items = CacheItems(vec![item("a", "u"), item("b", "v")]);
    assert!(check_item_count(2, &items).is_ok());
    assert!(matches!(
        check_item_count(5, &items),
        Err(DeployError::ItemCountMismatch(5, 2))
    ));
}
