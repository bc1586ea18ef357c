//! Configuration of the Ethereum adapter: where its keystore is and how it
//! is unlocked, and the validator configuration it runs with.

use vstd::prelude::*;

use crate::hex_text::{parse_fixed_hex_spec, IdParseError};
use crate::ids::ValidatorId;
use crate::big_num::BigNum;

verus! {

/// Where the keystore of the adapter's account is, and its password.
#[derive(Clone, Debug, PartialEq, Eq)]
pub struct KeystoreOptions {
    pub keystore_file: String,
    pub keystore_pwd: String,
}

/// The part of the validator configuration that the library reads.
#[derive(Clone, Copy, Debug, PartialEq, Eq)]
pub struct Config {
    /// Timeout of requests to other validators, in milliseconds.
    pub fetch_timeout: u32,
}

/// An Ethereum adapter: the validator it acts as (the account of its
/// keystore), the keystore that unlocks that account, and the configuration
/// it runs with.
#[derive(Clone, Debug, PartialEq, Eq)]
pub struct EthereumAdapter {
    pub whoami: ValidatorId,
    pub keystore: KeystoreOptions,
    pub config: Config,
}

impl EthereumAdapter {
    /// An adapter for the account of a keystore, given the `address` field
    /// that the keystore file holds (hexadecimal, with or without `0x`). An
    /// address that is no 20-byte hexadecimal text is an error.
    pub fn init(keystore: KeystoreOptions, config: Config, address: &str) -> (adapter: Result<
        EthereumAdapter,
        IdParseError,
    >)
        ensures
            match parse_fixed_hex_spec(address@, 20) {
                Ok(bytes) => adapter matches Ok(a) && a.whoami.0.0@ == bytes && a.keystore
                    == keystore && a.config == config,
                Err(e) => adapter == Err::<EthereumAdapter, IdParseError>(e),
            },
    {
        match ValidatorId::parse(address) {
            Ok(whoami) => Ok(EthereumAdapter { whoami, keystore, config }),
            Err(e) => Err(e),
        }
    }
}

/// The number of decimals of a token, which is never zero.
#[derive(Clone, Copy, Debug, PartialEq, Eq, Hash)]
pub struct Precision {
    decimals: u8,
}

impl Precision {
    /// A token has at least one decimal.
    #[verifier::type_invariant]
    spec fn non_zero(self) -> bool {
        self.decimals != 0
    }

    /// The number of decimals.
    pub closed spec fn value(self) -> u8 {
        self.decimals
    }

    /// A precision of `decimals`, which must not be zero.
    pub fn new(decimals: u8) -> (precision: Option<Precision>)
        ensures
            precision is Some <==> decimals != 0,
            precision matches Some(p) ==> p.value() == decimals,
    {
        if decimals != 0 {
            Some(Precision { decimals })
        } else {
            None
        }
    }

    /// The number of decimals, never zero.
    pub fn get(&self) -> (decimals: u8)
        ensures
            decimals == self.value(),
            decimals != 0,
    {
        proof {
            use_type_invariant(self);
        }
        self.decimals
    }
}

/// What a validator accepts of a token: the least deposit, the token's
/// decimal precision, and the least validator fee.
#[derive(Clone, Debug, PartialEq, Eq)]
pub struct TokenInfo {
    pub min_token_units_for_deposit: BigNum,
    pub precision: Precision,
    pub min_validator_fee: BigNum,
}

} // verus!
