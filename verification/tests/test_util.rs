use adex_validator_stack::adapter::{Config, EthereumAdapter};
use adex_validator_stack::hex_text::IdParseError;
use adex_validator_stack::checksum::ToETHChecksum;
use adex_validator_stack::ids::{Address, ValidatorId};
use adex_validator_stack::adapter::Precision;
use adex_validator_stack::test_util::{
    ganache_address, get_test_channel, keystore_identity, setup_eth_adapter, test_gas_options,
    test_token_info, GanacheAccount,
};

#[test]
fn ganache_addresses_are_the_known_accounts() {
    let expected = [
        (GanacheAccount::Leader, "0x5a04A8fB90242fB7E1db7d1F51e268A03b7f93A5"),
        (GanacheAccount::Follower, "0xe3896ebd3F32092AFC7D27e9ef7b67E26C49fB02"),
        (GanacheAccount::Creator, "0x0E45891a570Af9e5A962F181C219468A6C9EB4e1"),
        (GanacheAccount::Advertiser, "0x8c4B95383a46D30F056aCe085D8f453fCF4Ed66d"),
    ];
    for (account, text) in expected {
        let address = ganache_address(account);
        assert_eq!(Address::parse(text), Ok(address));
        assert_eq!(address.to_hex(), text.to_lowercase());
    }
}

#[test]
fn test_channel_is_between_ganache_accounts() {
    let token = Address([0x77; 20]);
    let channel = get_test_channel(token);
    assert_eq!(channel.leader, ValidatorId::from(&ganache_address(GanacheAccount::Leader)));
    assert_eq!(channel.follower, ValidatorId::from(&ganache_address(GanacheAccount::Follower)));
    assert_eq!(channel.guardian, ganache_address(GanacheAccount::Advertiser));
    assert_eq!(channel.token, token);
    assert_eq!(channel.nonce.to_bytes()[30..], [0x30, 0x39]);
}

#[test]
fn eth_adapter_uses_test_keystore() {
    let config = Config { fetch_timeout: 5000 };
    let adapter = setup_eth_adapter(config, "2bdeafae53940669daa6f519373f686c1f3d3393");
    assert_eq!(adapter.keystore.keystore_file, "./test/resources/keystore.json");
    assert_eq!(adapter.keystore.keystore_pwd, "adexvalidator");
    assert_eq!(adapter.config, config);
    let (address, options) = keystore_identity();
    assert_eq!(options, adapter.keystore);
    assert_eq!(address.to_checksum(), "0x2bDeAFAE53940669DaA6F519373f686c1f3d3393");
    assert_eq!(adapter.whoami, ValidatorId::from(&address));
}

#[test]
fn eth_adapter_init_reads_keystore_address() {
    let config = Config { fetch_timeout: 1 };
    let (address, options) = keystore_identity();
    let adapter = EthereumAdapter::init(options.clone(), config, "0x2bDeAFAE53940669DaA6F519373f686c1f3d3393").unwrap();
    assert_eq!(adapter.whoami, ValidatorId::from(&address));
    assert_eq!(adapter.keystore, options);
    assert_eq!(
        EthereumAdapter::init(options.clone(), config, "not an address"),
        Err(IdParseError::InvalidHex)
    );
    assert_eq!(EthereumAdapter::init(options, config, "0x2bde"), Err(IdParseError::InvalidLength));
}

#[test]
fn gas_and_token_fixtures() {
    let gas = test_gas_options();
    assert_eq!(gas.gas_price, 1);
    assert_eq!(gas.gas, 6_721_975);
    let info = test_token_info(1_000);
    assert_eq!(info.min_token_units_for_deposit.to_string(), "1000");
    assert_eq!(info.precision.get(), 18);
    assert_eq!(info.min_validator_fee.to_string(), "100000000000000");
    assert_eq!(Precision::new(0), None);
    assert_eq!(Precision::new(6).map(|p| p.get()), Some(6));
}
