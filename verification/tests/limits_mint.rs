use ibc_storage::hash::ibc_token;
use ibc_storage::key::ibc_key;
use ibc_storage::key::key_to_repr;
use ibc_storage::key::Address;
use ibc_storage::key::DbKeySeg;
use ibc_storage::limits::deposit_key;
use ibc_storage::limits::deposit_prefix;
use ibc_storage::limits::get_limits;
use ibc_storage::limits::mint_amount_key;
use ibc_storage::limits::mint_limit_key;
use ibc_storage::limits::params_key;
use ibc_storage::limits::throughput_limit_key;
use ibc_storage::limits::withdraw_key;
use ibc_storage::limits::withdraw_prefix;
use ibc_storage::limits::IbcParameters;
use ibc_storage::mint::mint_authority;
use ibc_storage::mint::mint_tokens;
use ibc_storage::mint::EventLevel;
use ibc_storage::Error;

fn params() -> IbcParameters {
    IbcParameters {
        default_mint_limit: 1000,
        default_per_epoch_throughput_limit: 2000,
    }
}

#[test]
fn limits_no_overrides_fall_back_to_defaults() {
    assert_eq!(get_limits(None, None, &params()), (1000, 2000));
}

#[test]
fn limits_mint_override_only() {
    assert_eq!(get_limits(Some(77), None, &params()), (77, 2000));
}

#[test]
fn limits_throughput_override_only() {
    assert_eq!(get_limits(None, Some(88), &params()), (1000, 88));
}

#[test]
fn limits_both_overrides() {
    assert_eq!(get_limits(Some(77), Some(88), &params()), (77, 88));
}

#[test]
fn mint_emits_post_balance_and_delta() {
    let token = Address::Other(String::from("tnam1token"));
    let target = Address::Other(String::from("tnam1target"));
    let (post, event) = mint_tokens(0, &token, &target, 100).unwrap();
    assert_eq!(post, 100);
    assert_eq!(event.level, EventLevel::Tx);
    assert_eq!(event.descriptor, "mint-ibc-tokens");
    assert_eq!(event.token, token);
    assert_eq!(event.target, target);
    assert_eq!(event.post_balance, 100);
    assert_eq!(event.diff, 100);

    let (post2, event2) = mint_tokens(post, &token, &target, 50).unwrap();
    assert_eq!(post2, 150);
    assert_eq!(event2.post_balance, 150);
    assert_eq!(event2.diff, 50);
}

#[test]
fn mint_overflow_produces_no_event() {
    let token = Address::Other(String::from("tnam1token"));
    let target = Address::Other(String::from("tnam1target"));
    assert!(mint_tokens(u128::MAX, &token, &target, 1).is_none());
}

fn string_segs(k: &ibc_storage::key::Key) -> Vec<String> {
    k.segments
        .iter()
        .map(|s| match s {
            DbKeySeg::AddressSeg(Address::Ibc) => String::from("#IBC"),
            DbKeySeg::AddressSeg(_) => String::from("#other"),
            DbKeySeg::StringSeg(t) => t.clone(),
        })
        .collect()
}

#[test]
fn fixed_label_keys_shape() {
    let token = Address::Other(String::from("tnam1token"));
    assert_eq!(string_segs(&params_key()), vec!["#IBC", "params"]);
    assert_eq!(string_segs(&mint_limit_key(&token)), vec!["#IBC", "mint_limit", "tnam1token"]);
    assert_eq!(
        string_segs(&throughput_limit_key(&token)),
        vec!["#IBC", "throughput_limit", "tnam1token"]
    );
    assert_eq!(string_segs(&mint_amount_key(&token)), vec!["#IBC", "mint", "tnam1token"]);
    assert_eq!(string_segs(&deposit_prefix()), vec!["#IBC", "deposit"]);
    assert_eq!(string_segs(&deposit_key(&token)), vec!["#IBC", "deposit", "tnam1token"]);
    assert_eq!(string_segs(&withdraw_prefix()), vec!["#IBC", "withdraw"]);
    assert_eq!(string_segs(&withdraw_key(&token)), vec!["#IBC", "withdraw", "tnam1token"]);
}

#[test]
fn ibc_key_splits_path() {
    let k = ibc_key("clients/counter").unwrap();
    assert_eq!(string_segs(&k), vec!["#IBC", "clients", "counter"]);
    assert_eq!(key_to_repr(&k), "#IBC/clients/counter");
}

#[test]
fn ibc_key_rejects_malformed_paths() {
    assert!(matches!(ibc_key(""), Err(Error::StorageKey(_))));
    assert!(matches!(ibc_key("a//b"), Err(Error::StorageKey(_))));
    assert!(matches!(ibc_key("a/"), Err(Error::StorageKey(_))));
    assert!(matches!(ibc_key("#addr/b"), Err(Error::StorageKey(_))));
    assert!(ibc_key("a/b").is_ok());
}

#[test]
fn address_validity_guards_reserved_renderings() {
    assert!(Address::Ibc.check_valid());
    assert!(!Address::Other(String::from("IBC")).check_valid());
    assert!(!Address::Other(String::from(
        "IBC-token-0011223344556677889900112233445566778899"
    ))
    .check_valid());
    assert!(Address::Other(String::from("IBC-toke")).check_valid());
    assert!(Address::Other(String::from("tnam1token")).check_valid());
    assert!(!Address::Other(String::from("a/b")).check_valid());
    assert!(!Address::Other(String::from("#addr")).check_valid());
    assert!(ibc_token("transfer/channel-0/uatom").check_valid());
}

#[test]
fn per_token_keys_distinct_per_token() {
    let a = Address::Other(String::from("tnam1a"));
    let b = Address::Other(String::from("tnam1b"));
    assert_ne!(mint_limit_key(&a), mint_limit_key(&b));
    assert_ne!(throughput_limit_key(&a), throughput_limit_key(&b));
    let t = ibc_token("transfer/channel-0/uatom");
    assert_ne!(mint_limit_key(&t), mint_limit_key(&a));
}

#[test]
fn mint_authority_is_module_address() {
    assert_eq!(mint_authority(), Address::Ibc);
}
