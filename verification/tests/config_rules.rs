use laddu_cli::config::{go_live_date_as_timestamp, ConfigData, Creator};
use laddu_cli::deploy::{create_magic_hat_data, generate_config_lines};
use laddu_cli::errors::DeployError;
use laddu_cli::magic_hat::parse_config_price;
use laddu_cli::validate::{
    check_name, check_pubkey, check_seller_fee_basis_points, check_symbol, check_url,
    ValidateError,
};

// The system program's address: thirty-two ones decode to thirty-two zero
// bytes, a well-formed public key.
const VALID_PUBKEY: &str = "11111111111111111111111111111111";

fn base_config() -> ConfigData {
    ConfigData {
        price: 1,
        number: 10,
        symbol: "LDU".to_string(),
        seller_fee_basis_points: 500,
        is_mutable: true,
        retain_authority: true,
        go_live_date: "2021-05-24T00:00:00Z".to_string(),
        creators: vec![
            Creator { address: VALID_PUBKEY.to_string(), share: 70 },
            Creator { address: VALID_PUBKEY.to_string(), share: 30 },
        ],
        spl_token: None,
        spl_token_account: None,
        sol_treasury_account: None,
        end_settings: None,
        whitelist_mint_settings: None,
        hidden_settings: None,
        gatekeeper: None,
    }
}

#[test]
fn name_symbol_url_ceilings() {
    assert!(check_name(&"n".repeat(32)).is_ok());
    assert!(matches!(check_name(&"n".repeat(33)), Err(ValidateError::NameTooLong)));
    assert!(check_symbol("ABCDEFGHIJ").is_ok());
    assert!(matches!(check_symbol("ABCDEFGHIJK"), Err(ValidateError::SymbolTooLong)));
    assert!(check_url(&"u".repeat(200)).is_ok());
    assert!(matches!(check_url(&"u".repeat(201)), Err(ValidateError::UrlTooLong)));
    // Byte lengths, not character counts: twenty snowmen take sixty bytes.
    assert!(matches!(check_name(&"\u{2603}".repeat(20)), Err(ValidateError::NameTooLong)));
}

#[test]
fn seller_fee_basis_points_ceiling() {
    assert!(check_seller_fee_basis_points(0).is_ok());
    assert!(check_seller_fee_basis_points(10000).is_ok());
    assert!(matches!(
        check_seller_fee_basis_points(10001),
        Err(ValidateError::InvalidSellerFeeBasisPoints)
    ));
}

#[test]
fn pubkey_validation() {
    assert!(check_pubkey(VALID_PUBKEY));
    // A forty-four character address decoding to thirty-two bytes: the check
    // goes through real base-58 decoding, not the string's own length.
    assert!(check_pubkey("TokenkegQfeZyiNwAJbNbGKPFXCWuBvf9Ss623VQ5DA"));
    assert!(!check_pubkey("not base58 0OIl"));
    assert!(!check_pubkey("abc")); // decodes, but far short of 32 bytes
    assert!(!check_pubkey(""));
}

#[test]
fn go_live_date_parses_to_exact_timestamp() {
    assert_eq!(go_live_date_as_timestamp(&"2021-05-24T00:00:00Z".to_string()).unwrap(), 1621814400);
    // An offset shifts the instant: two in the morning at +02:00 is the same
    // midnight UTC.
    assert_eq!(
        go_live_date_as_timestamp(&"2021-05-24T02:00:00+02:00".to_string()).unwrap(),
        1621814400
    );
    match go_live_date_as_timestamp(&"yesterday".to_string()) {
        Err(DeployError::InvalidGoLiveDate(s)) => assert_eq!(s, "yesterday"),
        other => panic!("expected InvalidGoLiveDate, got {:?}", other),
    }
}

#[test]
fn price_scaling_is_exact() {
    assert_eq!(parse_config_price(2, Some(3)).unwrap(), 2000);
    assert_eq!(parse_config_price(2, Some(0)).unwrap(), 2);
    // Without a payment token the price is scaled into lamports.
    assert_eq!(parse_config_price(3, None).unwrap(), 3_000_000_000);
    assert!(matches!(
        parse_config_price(u64::MAX / 10, Some(2)),
        Err(DeployError::PriceOverflow)
    ));
}

#[test]
fn magic_hat_data_mirrors_the_config() {
    let config = base_config();
    let data = create_magic_hat_data(&config, "ABCDEF".to_string(), None).unwrap();
    assert_eq!(data.uuid, "ABCDEF");
    assert_eq!(data.price, 1_000_000_000);
    assert_eq!(data.symbol, "LDU");
    assert_eq!(data.seller_fee_basis_points, 500);
    assert_eq!(data.max_supply, 0);
    assert!(data.is_mutable);
    assert!(data.retain_authority);
    assert_eq!(data.go_live_date, Some(1621814400));
    assert_eq!(data.items_available, 10);
    assert_eq!(data.creators.len(), 2);
    assert_eq!(data.creators[0].address, VALID_PUBKEY);
    assert!(!data.creators[0].verified);
    assert_eq!(data.creators[0].share, 70);
    assert_eq!(data.creators[1].share, 30);
}

#[test]
fn creator_rules_are_enforced_in_order() {
    let mut no_creators = base_config();
    no_creators.creators = vec![];
    assert!(matches!(
        create_magic_hat_data(&no_creators, "ABCDEF".to_string(), None),
        Err(DeployError::InvalidCreatorCount(0))
    ));

    let mut too_many = base_config();
    too_many.creators = (0..5)
        .map(|_| Creator { address: VALID_PUBKEY.to_string(), share: 20 })
        .collect();
    assert!(matches!(
        create_magic_hat_data(&too_many, "ABCDEF".to_string(), None),
        Err(DeployError::InvalidCreatorCount(5))
    ));

    let mut bad_share = base_config();
    bad_share.creators = vec![
        Creator { address: VALID_PUBKEY.to_string(), share: 60 },
        Creator { address: VALID_PUBKEY.to_string(), share: 60 },
    ];
    assert!(matches!(
        create_magic_hat_data(&bad_share, "ABCDEF".to_string(), None),
        Err(DeployError::InvalidCreatorShare(120))
    ));

    let mut bad_address = base_config();
    bad_address.creators[1].address = "???".to_string();
    match create_magic_hat_data(&bad_address, "ABCDEF".to_string(), None) {
        Err(DeployError::InvalidCreatorAddress(a)) => assert_eq!(a, "???"),
        other => panic!("expected InvalidCreatorAddress, got {:?}", other),
    }

    let mut bad_date = base_config();
    bad_date.go_live_date = "soon".to_string();
    // The date is checked before the creators: even with no creators the
    // date error wins.
    bad_date.creators = vec![];
    assert!(matches!(
        create_magic_hat_data(&bad_date, "ABCDEF".to_string(), None),
        Err(DeployError::InvalidGoLiveDate(_))
    ));
}

#[test]
fn planner_and_config_agree_on_the_item_count() {
    // The deployment flow rejects a store whose record count differs from
    // the configured number before planning; the planner itself reports the
    // first missing index.
    let config = base_config();
    let items = laddu_cli::cache::CacheItems(vec![]);
    assert!(matches!(
        generate_config_lines(config.number, &items),
        Err(DeployError::MissingCacheItem(0))
    ));
}
