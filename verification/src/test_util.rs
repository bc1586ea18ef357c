//! Fixtures for tests against a local `ganache` node: its well-known
//! accounts, a test channel between them, and the test keystore.

use vstd::prelude::*;

use crate::adapter::{Config, EthereumAdapter, KeystoreOptions, Precision, TokenInfo};
use crate::big_num::BigNum;
use crate::channel::{nonce_array, Channel, Nonce};
use crate::hex_text::{hex_run, lemma_hex_run, parse_fixed_hex_spec, strip_hex_prefix};
use crate::ids::{Address, ValidatorId};

verus! {

/// The accounts that the local `ganache` node is started with.
#[derive(Clone, Copy, Debug, PartialEq, Eq, Structural)]
pub enum GanacheAccount {
    Leader,
    Follower,
    Creator,
    Advertiser,
}

/// The address text of each `ganache` account.
pub open spec fn ganache_address_text(account: GanacheAccount) -> Seq<char> {
    match account {
        GanacheAccount::Leader => "0x5a04A8fB90242fB7E1db7d1F51e268A03b7f93A5"@,
        GanacheAccount::Follower => "0xe3896ebd3F32092AFC7D27e9ef7b67E26C49fB02"@,
        GanacheAccount::Creator => "0x0E45891a570Af9e5A962F181C219468A6C9EB4e1"@,
        GanacheAccount::Advertiser => "0x8c4B95383a46D30F056aCe085D8f453fCF4Ed66d"@,
    }
}

/// The address text of the test keystore's account.
pub open spec fn keystore_address_text() -> Seq<char> {
    "0x2bDeAFAE53940669DaA6F519373f686c1f3d3393"@
}

proof fn lemma_known_address(text: Seq<char>)
    requires
        text.len() == 42,
        text[0] == '0',
        text[1] == 'x',
        hex_run(text.skip(2), 40),
    ensures
        parse_fixed_hex_spec(text, 20) is Ok,
{
    assert(strip_hex_prefix(text) =~= text.skip(2));
    lemma_hex_run(text.skip(2));
}

/// Reads an address whose text is known to be well-formed.
fn parse_known_address(text: &str) -> (address: Address)
    requires
        parse_fixed_hex_spec(text@, 20) is Ok,
    ensures
        parse_fixed_hex_spec(text@, 20) == Ok::<Seq<u8>, crate::hex_text::IdParseError>(
            address.0@,
        ),
{
    match Address::parse(text) {
        Ok(address) => address,
        Err(_) => {
            proof {
                assert(false);
            }
            Address([0u8; 20])
        },
    }
}

/// The address of a `ganache` account.
pub fn ganache_address(account: GanacheAccount) -> (address: Address)
    ensures
        parse_fixed_hex_spec(ganache_address_text(account), 20) == Ok::<
            Seq<u8>,
            crate::hex_text::IdParseError,
        >(address.0@),
{
    match account {
        GanacheAccount::Leader => {
            let text = "0x5a04A8fB90242fB7E1db7d1F51e268A03b7f93A5";
            proof {
                reveal_strlit("0x5a04A8fB90242fB7E1db7d1F51e268A03b7f93A5");
                assert(hex_run(text@.skip(2), 40)) by {
                    reveal_with_fuel(hex_run, 41);
                }
                lemma_known_address(text@);
            }
            parse_known_address(text)
        },
        GanacheAccount::Follower => {
            let text = "0xe3896ebd3F32092AFC7D27e9ef7b67E26C49fB02";
            proof {
                reveal_strlit("0xe3896ebd3F32092AFC7D27e9ef7b67E26C49fB02");
                assert(hex_run(text@.skip(2), 40)) by {
                    reveal_with_fuel(hex_run, 41);
                }
                lemma_known_address(text@);
            }
            parse_known_address(text)
        },
        GanacheAccount::Creator => {
            let text = "0x0E45891a570Af9e5A962F181C219468A6C9EB4e1";
            proof {
                reveal_strlit("0x0E45891a570Af9e5A962F181C219468A6C9EB4e1");
                assert(hex_run(text@.skip(2), 40)) by {
                    reveal_with_fuel(hex_run, 41);
                }
                lemma_known_address(text@);
            }
            parse_known_address(text)
        },
        GanacheAccount::Advertiser => {
            let text = "0x8c4B95383a46D30F056aCe085D8f453fCF4Ed66d";
            proof {
                reveal_strlit("0x8c4B95383a46D30F056aCe085D8f453fCF4Ed66d");
                assert(hex_run(text@.skip(2), 40)) by {
                    reveal_with_fuel(hex_run, 41);
                }
                lemma_known_address(text@);
            }
            parse_known_address(text)
        },
    }
}

/// A channel led by the `ganache` leader and followed by its follower,
/// guarded by the advertiser, for `token_address`, with nonce 12345.
pub fn get_test_channel(token_address: Address) -> (channel: Channel)
    ensures
        parse_fixed_hex_spec(ganache_address_text(GanacheAccount::Leader), 20) == Ok::<
            Seq<u8>,
            crate::hex_text::IdParseError,
        >(channel.leader.0.0@),
        parse_fixed_hex_spec(ganache_address_text(GanacheAccount::Follower), 20) == Ok::<
            Seq<u8>,
            crate::hex_text::IdParseError,
        >(channel.follower.0.0@),
        parse_fixed_hex_spec(ganache_address_text(GanacheAccount::Advertiser), 20) == Ok::<
            Seq<u8>,
            crate::hex_text::IdParseError,
        >(channel.guardian.0@),
        channel.token == token_address,
        channel.nonce.0 == nonce_array(12345),
        channel.nonce.value() == 12345,
{
    let leader = ganache_address(GanacheAccount::Leader);
    let follower = ganache_address(GanacheAccount::Follower);
    Channel {
        leader: ValidatorId::from(&leader),
        follower: ValidatorId::from(&follower),
        guardian: ganache_address(GanacheAccount::Advertiser),
        token: token_address,
        nonce: Nonce::from(12345u32),
    }
}

/// The keystore of the test account: `./test/resources/keystore.json`,
/// unlocked with `adexvalidator`.
pub fn test_keystore_options() -> (options: KeystoreOptions)
    ensures
        options.keystore_file@ == "./test/resources/keystore.json"@,
        options.keystore_pwd@ == "adexvalidator"@,
{
    KeystoreOptions {
        keystore_file: String::from_str("./test/resources/keystore.json"),
        keystore_pwd: String::from_str("adexvalidator"),
    }
}

/// The address of the test keystore's account, with its keystore options.
pub fn keystore_identity() -> (identity: (Address, KeystoreOptions))
    ensures
        parse_fixed_hex_spec(keystore_address_text(), 20) == Ok::<
            Seq<u8>,
            crate::hex_text::IdParseError,
        >(identity.0.0@),
        identity.1.keystore_file@ == "./test/resources/keystore.json"@,
        identity.1.keystore_pwd@ == "adexvalidator"@,
{
    let text = "0x2bDeAFAE53940669DaA6F519373f686c1f3d3393";
    proof {
        reveal_strlit("0x2bDeAFAE53940669DaA6F519373f686c1f3d3393");
        assert(hex_run(text@.skip(2), 40)) by {
            reveal_with_fuel(hex_run, 41);
        }
        lemma_known_address(text@);
    }
    (parse_known_address(text), test_keystore_options())
}

/// An Ethereum adapter for the test keystore, with `config`, given the
/// `address` field read from that keystore file; the address must be valid.
pub fn setup_eth_adapter(config: Config, address: &str) -> (adapter: EthereumAdapter)
    requires
        parse_fixed_hex_spec(address@, 20) is Ok,
    ensures
        parse_fixed_hex_spec(address@, 20) == Ok::<Seq<u8>, crate::hex_text::IdParseError>(
            adapter.whoami.0.0@,
        ),
        adapter.keystore.keystore_file@ == "./test/resources/keystore.json"@,
        adapter.keystore.keystore_pwd@ == "adexvalidator"@,
        adapter.config == config,
{
    match EthereumAdapter::init(test_keystore_options(), config, address) {
        Ok(adapter) => adapter,
        Err(_) => {
            proof {
                assert(false);
            }
            EthereumAdapter {
                whoami: ValidatorId(Address([0u8; 20])),
                keystore: test_keystore_options(),
                config,
            }
        },
    }
}

/// Gas price and gas limit of the transactions sent to the local node.
#[derive(Clone, Copy, Debug, PartialEq, Eq, Structural)]
pub struct GasOptions {
    pub gas_price: u64,
    pub gas: u64,
}

/// The gas options of every test transaction: price 1, limit 6 721 975
/// (the block gas limit of the local node).
pub fn test_gas_options() -> (options: GasOptions)
    ensures
        options.gas_price == 1,
        options.gas == 6_721_975,
{
    GasOptions { gas_price: 1, gas: 6_721_975 }
}

/// What the validators accept of the mock token: at least
/// `min_token_units` per deposit, 18 decimals, and a fee of at least
/// 0.0001 tokens.
pub fn test_token_info(min_token_units: u64) -> (info: TokenInfo)
    ensures
        info.min_token_units_for_deposit.value() == min_token_units,
        info.precision.value() == 18,
        info.min_validator_fee.value() == 100_000_000_000_000,
{
    let precision = Precision::new(18).unwrap();
    TokenInfo {
        min_token_units_for_deposit: BigNum::from_u64(min_token_units),
        precision,
        min_validator_fee: BigNum::from_u64(100_000_000_000_000),
    }
}

} // verus!
