//! Fixed-size identifiers written as `0x`-prefixed hexadecimal text:
//! addresses (20 bytes), validator ids, channel ids (32 bytes) and
//! campaign ids (16 bytes).

use vstd::prelude::*;

use crate::checksum::ToETHChecksum;
use crate::hex_text::{
    encode_lower, hex_lower, lemma_parse_prefixed_lower, parse_fixed_hex, parse_fixed_hex_spec,
    IdParseError,
};

verus! {

/// `0x` followed by the lowercase hexadecimal digits of `bytes`.
pub open spec fn prefixed_hex(bytes: Seq<u8>) -> Seq<char> {
    seq!['0', 'x'] + hex_lower(bytes)
}

/// `0x` followed by the lowercase hexadecimal digits of `bytes`.
pub fn prefixed_hex_string(bytes: &[u8]) -> (text: String)
    ensures
        text@ == prefixed_hex(bytes@),
{
    proof {
        reveal_strlit("0x");
    }
    let mut text = String::from_str("0x");
    let digits = encode_lower(bytes);
    text.append(digits.as_str());
    text
}

fn to_array<const N: usize>(bytes: &Vec<u8>) -> (array: [u8; N])
    requires
        bytes@.len() == N,
    ensures
        array@ == bytes@,
{
    let mut array = [0u8; N];
    let mut i: usize = 0;
    while i < N
        invariant
            0 <= i <= N,
            bytes@.len() == N,
            array@.len() == N,
            forall|j: int| 0 <= j < i ==> array@[j] == bytes@[j],
        decreases N - i,
    {
        array[i] = bytes[i];
        i = i + 1;
    }
    assert(array@ =~= bytes@);
    array
}

/// Reads an identifier of `N` bytes.
fn parse_array<const N: usize>(text: &str) -> (r: Result<[u8; N], IdParseError>)
    ensures
        match parse_fixed_hex_spec(text@, N as nat) {
            Ok(bytes) => r matches Ok(a) && a@ == bytes,
            Err(e) => r == Err::<[u8; N], IdParseError>(e),
        },
{
    match parse_fixed_hex(text, N) {
        Ok(bytes) => Ok(to_array::<N>(&bytes)),
        Err(e) => Err(e),
    }
}

/// A 20-byte account address.
#[derive(Clone, Copy, Debug, Eq, Hash)]
pub struct Address(pub [u8; 20]);

impl PartialEq for Address {
    fn eq(&self, other: &Address) -> (same: bool) {
        let mut i: usize = 0;
        while i < 20
            invariant
                0 <= i <= 20,
                self.0@.len() == 20,
                other.0@.len() == 20,
                forall|j: int| 0 <= j < i ==> self.0@[j] == other.0@[j],
            decreases 20 - i,
        {
            if self.0[i] != other.0[i] {
                return false;
            }
            i = i + 1;
        }
        assert(self.0@ =~= other.0@);
        true
    }
}

impl vstd::std_specs::cmp::PartialEqSpecImpl for Address {
    open spec fn obeys_eq_spec() -> bool {
        true
    }

    open spec fn eq_spec(&self, other: &Address) -> bool {
        self.0@ == other.0@
    }
}

impl Address {
    /// Reads an address from 40 hexadecimal digits of either case, with or
    /// without a leading `0x`.
    pub fn parse(text: &str) -> (r: Result<Address, IdParseError>)
        ensures
            match parse_fixed_hex_spec(text@, 20) {
                Ok(bytes) => r matches Ok(a) && a.0@ == bytes,
                Err(e) => r == Err::<Address, IdParseError>(e),
            },
    {
        match parse_array::<20>(text) {
            Ok(bytes) => Ok(Address(bytes)),
            Err(e) => Err(e),
        }
    }

    /// `0x` and the 40 lowercase hexadecimal digits of the address.
    pub fn to_hex(&self) -> (text: String)
        ensures
            text@ == prefixed_hex(self.0@),
    {
        prefixed_hex_string(self.0.as_slice())
    }

    /// The 20 bytes of the address.
    pub fn as_bytes(&self) -> (bytes: &[u8; 20])
        ensures
            *bytes == self.0,
    {
        &self.0
    }
}

impl ToETHChecksum for Address {
    open spec fn checksum_bytes(&self) -> Seq<u8> {
        self.0@
    }

    fn address_bytes(&self) -> (bytes: &[u8; 20]) {
        &self.0
    }
}

/// The identity of a validator: its address.
#[derive(Clone, Copy, Debug, Eq, Hash)]
pub struct ValidatorId(pub Address);

impl PartialEq for ValidatorId {
    fn eq(&self, other: &ValidatorId) -> (same: bool) {
        self.0 == other.0
    }
}

impl vstd::std_specs::cmp::PartialEqSpecImpl for ValidatorId {
    open spec fn obeys_eq_spec() -> bool {
        true
    }

    open spec fn eq_spec(&self, other: &ValidatorId) -> bool {
        self.0.0@ == other.0.0@
    }
}

impl From<&Address> for ValidatorId {
    fn from(address: &Address) -> (id: ValidatorId)
        ensures
            id.0 == *address,
    {
        ValidatorId(*address)
    }
}

impl vstd::std_specs::convert::FromSpecImpl<&Address> for ValidatorId {
    open spec fn obeys_from_spec() -> bool {
        true
    }

    open spec fn from_spec(address: &Address) -> Self {
        ValidatorId(*address)
    }
}

impl ValidatorId {
    /// Reads a validator id from the text of its address.
    pub fn parse(text: &str) -> (r: Result<ValidatorId, IdParseError>)
        ensures
            match parse_fixed_hex_spec(text@, 20) {
                Ok(bytes) => r matches Ok(id) && id.0.0@ == bytes,
                Err(e) => r == Err::<ValidatorId, IdParseError>(e),
            },
    {
        match Address::parse(text) {
            Ok(address) => Ok(ValidatorId(address)),
            Err(e) => Err(e),
        }
    }

    /// The address of the validator.
    pub fn address(&self) -> (address: &Address)
        ensures
            *address == self.0,
    {
        &self.0
    }
}

impl ToETHChecksum for ValidatorId {
    open spec fn checksum_bytes(&self) -> Seq<u8> {
        self.0.0@
    }

    fn address_bytes(&self) -> (bytes: &[u8; 20]) {
        &self.0.0
    }
}

/// The 32-byte id of a channel.
#[derive(Clone, Copy, Debug, PartialEq, Eq, Hash)]
pub struct ChannelId(pub [u8; 32]);

impl ChannelId {
    /// Reads a channel id from 64 hexadecimal digits, with or without `0x`.
    pub fn parse(text: &str) -> (r: Result<ChannelId, IdParseError>)
        ensures
            match parse_fixed_hex_spec(text@, 32) {
                Ok(bytes) => r matches Ok(id) && id.0@ == bytes,
                Err(e) => r == Err::<ChannelId, IdParseError>(e),
            },
    {
        match parse_array::<32>(text) {
            Ok(bytes) => Ok(ChannelId(bytes)),
            Err(e) => Err(e),
        }
    }

    /// The text of the id: `0x` and 64 lowercase hexadecimal digits.
    pub fn to_string(&self) -> (text: String)
        ensures
            text@ == prefixed_hex(self.0@),
    {
        prefixed_hex_string(self.0.as_slice())
    }
}

/// The 16-byte id of a campaign.
#[derive(Clone, Copy, Debug, PartialEq, Eq, Hash)]
pub struct CampaignId(pub [u8; 16]);

impl CampaignId {
    /// Reads a campaign id from 32 hexadecimal digits, with or without `0x`.
    pub fn parse(text: &str) -> (r: Result<CampaignId, IdParseError>)
        ensures
            match parse_fixed_hex_spec(text@, 16) {
                Ok(bytes) => r matches Ok(id) && id.0@ == bytes,
                Err(e) => r == Err::<CampaignId, IdParseError>(e),
            },
    {
        match parse_array::<16>(text) {
            Ok(bytes) => Ok(CampaignId(bytes)),
            Err(e) => Err(e),
        }
    }

    /// The text of the id: `0x` and 32 lowercase hexadecimal digits.
    pub fn to_string(&self) -> (text: String)
        ensures
            text@ == prefixed_hex(self.0@),
    {
        prefixed_hex_string(self.0.as_slice())
    }
}

/// The text of an identifier of any length reads back as the identifier:
/// for addresses, channel ids and campaign ids alike, `parse` of the text
/// that `to_hex` or `to_string` gives returns the same bytes.
pub proof fn lemma_id_text_roundtrip(bytes: Seq<u8>)
    ensures
        parse_fixed_hex_spec(prefixed_hex(bytes), bytes.len()) == Ok::<Seq<u8>, IdParseError>(bytes),
{
    lemma_parse_prefixed_lower(bytes);
}

} // verus!
