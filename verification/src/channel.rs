//! Payment channels: the parties and nonce that make up a channel, and the
//! channel id derived from them.

use vstd::prelude::*;

use crate::checksum::{keccak256, keccak256_digest};
use crate::ids::{Address, ChannelId, ValidatorId};

verus! {

/// The unsigned integer that big-endian `bytes` stand for.
pub open spec fn be_value(bytes: Seq<u8>) -> nat
    decreases bytes.len(),
{
    if bytes.len() == 0 {
        0
    } else {
        be_value(bytes.drop_last()) * 256 + bytes.last() as nat
    }
}

/// A 256-bit channel nonce, as its 32 big-endian bytes.
#[derive(Clone, Copy, Debug, PartialEq, Eq, Hash)]
pub struct Nonce(pub [u8; 32]);

impl Nonce {
    /// The number the nonce stands for.
    pub open spec fn value(self) -> nat {
        be_value(self.0@)
    }

    /// The 32 big-endian bytes of the nonce.
    pub fn to_bytes(&self) -> (bytes: [u8; 32])
        ensures
            bytes == self.0,
    {
        self.0
    }
}

proof fn lemma_be_value_zeros(bytes: Seq<u8>)
    requires
        forall|i: int| 0 <= i < bytes.len() ==> bytes[i] == 0,
    ensures
        be_value(bytes) == 0,
    decreases bytes.len(),
{
    if bytes.len() > 0 {
        lemma_be_value_zeros(bytes.drop_last());
    }
}

/// The 32 big-endian bytes of a 32-bit number.
pub open spec fn nonce_array(n: u32) -> [u8; 32] {
    let zeros = vstd::array::spec_array_fill_for_copy_type::<u8, 32>(0u8);
    let a28 = vstd::array::spec_array_update(zeros, 28, (n / 16777216) as u8);
    let a29 = vstd::array::spec_array_update(a28, 29, (n / 65536 % 256) as u8);
    let a30 = vstd::array::spec_array_update(a29, 30, (n / 256 % 256) as u8);
    vstd::array::spec_array_update(a30, 31, (n % 256) as u8)
}

impl From<u32> for Nonce {
    fn from(n: u32) -> (nonce: Nonce)
        ensures
            nonce.value() == n as nat,
            nonce.0@ == Seq::new(28, |i: int| 0u8) + seq![
                (n / 16777216) as u8,
                (n / 65536 % 256) as u8,
                (n / 256 % 256) as u8,
                (n % 256) as u8,
            ],
    {
        let mut bytes = [0u8; 32];
        bytes[28] = (n / 16777216) as u8;
        bytes[29] = (n / 65536 % 256) as u8;
        bytes[30] = (n / 256 % 256) as u8;
        bytes[31] = (n % 256) as u8;
        let nonce = Nonce(bytes);
        proof {
            broadcast use vstd::array::axiom_array_ext_equal, vstd::array::axiom_spec_array_update, vstd::array::axiom_spec_array_fill_for_copy_type, vstd::array::array_len_matches_n;
            assert(bytes =~= nonce_array(n));
            let s = bytes@;
            let b0 = (n / 16777216) as u8;
            let b1 = (n / 65536 % 256) as u8;
            let b2 = (n / 256 % 256) as u8;
            let b3 = (n % 256) as u8;
            assert(s =~= Seq::new(28, |i: int| 0u8) + seq![b0, b1, b2, b3]);
            let z = s.take(28);
            lemma_be_value_zeros(z);
            assert(s.drop_last().drop_last().drop_last().drop_last() =~= z);
            assert(be_value(s.drop_last().drop_last().drop_last()) == be_value(z) * 256 + b0);
            assert(be_value(s.drop_last().drop_last()) == (be_value(z) * 256 + b0) * 256 + b1);
            assert(be_value(s.drop_last()) == ((be_value(z) * 256 + b0) * 256 + b1) * 256 + b2);
            assert(be_value(s) == (((be_value(z) * 256 + b0) * 256 + b1) * 256 + b2) * 256 + b3);
            assert(((b0 as int * 256 + b1) * 256 + b2) * 256 + b3 == n) by (nonlinear_arith)
                requires
                    b0 == n / 16777216,
                    b1 == n / 65536 % 256,
                    b2 == n / 256 % 256,
                    b3 == n % 256,
                    n < 0x1_0000_0000,
            ;
        }
        nonce
    }
}

impl vstd::std_specs::convert::FromSpecImpl<u32> for Nonce {
    open spec fn obeys_from_spec() -> bool {
        true
    }

    open spec fn from_spec(n: u32) -> Self {
        Nonce(nonce_array(n))
    }
}

/// A payment channel between a leader and a follower validator, guarded by
/// `guardian`, for deposits of `token`.
#[derive(Clone, Copy, Debug, PartialEq, Eq, Hash)]
pub struct Channel {
    pub leader: ValidatorId,
    pub follower: ValidatorId,
    pub guardian: Address,
    pub token: Address,
    pub nonce: Nonce,
}

/// The 32-byte ABI word of an address: 12 zero bytes, then the address.
pub open spec fn address_word(address: Seq<u8>) -> Seq<u8> {
    Seq::new(12, |i: int| 0u8) + address
}

/// The ABI encoding of a channel: the words of leader, follower, guardian
/// and token, then the 32 bytes of the nonce.
pub open spec fn channel_encoding(channel: Channel) -> Seq<u8> {
    address_word(channel.leader.0.0@) + address_word(channel.follower.0.0@) + address_word(
        channel.guardian.0@,
    ) + address_word(channel.token.0@) + channel.nonce.0@
}

/// The ABI encoding of a channel is 160 bytes. Each of leader, follower,
/// guardian and token fills a 32-byte word, in that order: 12 zero bytes,
/// then the address's 20 bytes as they are. The nonce's 32 bytes come last.
pub proof fn lemma_channel_encoding_layout(channel: Channel)
    ensures
        channel_encoding(channel).len() == 160,
        channel_encoding(channel).subrange(0, 12) == Seq::new(12, |i: int| 0u8),
        channel_encoding(channel).subrange(12, 32) == channel.leader.0.0@,
        channel_encoding(channel).subrange(32, 44) == Seq::new(12, |i: int| 0u8),
        channel_encoding(channel).subrange(44, 64) == channel.follower.0.0@,
        channel_encoding(channel).subrange(64, 76) == Seq::new(12, |i: int| 0u8),
        channel_encoding(channel).subrange(76, 96) == channel.guardian.0@,
        channel_encoding(channel).subrange(96, 108) == Seq::new(12, |i: int| 0u8),
        channel_encoding(channel).subrange(108, 128) == channel.token.0@,
        channel_encoding(channel).subrange(128, 160) == channel.nonce.0@,
{
    broadcast use vstd::array::array_len_matches_n;

    let e = channel_encoding(channel);
    assert(channel.leader.0.0@.len() == 20);
    assert(channel.follower.0.0@.len() == 20);
    assert(channel.guardian.0@.len() == 20);
    assert(channel.token.0@.len() == 20);
    assert(channel.nonce.0@.len() == 32);
    assert(e.len() == 160);
    assert(e.subrange(0, 12) =~= Seq::new(12, |i: int| 0u8));
    assert(e.subrange(12, 32) =~= channel.leader.0.0@);
    assert(e.subrange(32, 44) =~= Seq::new(12, |i: int| 0u8));
    assert(e.subrange(44, 64) =~= channel.follower.0.0@);
    assert(e.subrange(64, 76) =~= Seq::new(12, |i: int| 0u8));
    assert(e.subrange(76, 96) =~= channel.guardian.0@);
    assert(e.subrange(96, 108) =~= Seq::new(12, |i: int| 0u8));
    assert(e.subrange(108, 128) =~= channel.token.0@);
    assert(e.subrange(128, 160) =~= channel.nonce.0@);
}

fn push_address_word(out: &mut Vec<u8>, address: &Address)
    ensures
        final(out)@ == old(out)@ + address_word(address.0@),
{
    let ghost start = out@;
    let mut i: usize = 0;
    while i < 12
        invariant
            0 <= i <= 12,
            out@ == start + Seq::new(i as nat, |j: int| 0u8),
        decreases 12 - i,
    {
        out.push(0u8);
        i = i + 1;
        assert(out@ =~= start + Seq::new(i as nat, |j: int| 0u8));
    }
    let ghost padded = out@;
    let mut k: usize = 0;
    while k < 20
        invariant
            0 <= k <= 20,
            address.0@.len() == 20,
            out@ == padded + address.0@.take(k as int),
        decreases 20 - k,
    {
        out.push(address.0[k]);
        k = k + 1;
        assert(out@ =~= padded + address.0@.take(k as int));
    }
    assert(address.0@.take(20) =~= address.0@);
    assert(out@ =~= start + address_word(address.0@));
}

impl Channel {
    /// The ABI encoding of the channel: leader, follower, guardian and token
    /// as 32-byte address words, then the nonce.
    pub fn encode(&self) -> (encoded: Vec<u8>)
        ensures
            encoded@ == channel_encoding(*self),
    {
        let mut encoded: Vec<u8> = Vec::new();
        push_address_word(&mut encoded, &self.leader.0);
        push_address_word(&mut encoded, &self.follower.0);
        push_address_word(&mut encoded, &self.guardian);
        push_address_word(&mut encoded, &self.token);
        let ghost before_nonce = encoded@;
        let mut k: usize = 0;
        while k < 32
            invariant
                0 <= k <= 32,
                self.nonce.0@.len() == 32,
                encoded@ == before_nonce + self.nonce.0@.take(k as int),
            decreases 32 - k,
        {
            encoded.push(self.nonce.0[k]);
            k = k + 1;
            assert(encoded@ =~= before_nonce + self.nonce.0@.take(k as int));
        }
        assert(self.nonce.0@.take(32) =~= self.nonce.0@);
        assert(encoded@ =~= channel_encoding(*self));
        encoded
    }

    /// The id of the channel: the Keccak-256 digest of its ABI encoding.
    pub fn id(&self) -> (id: ChannelId)
        ensures
            id.0@ == keccak256(channel_encoding(*self)),
    {
        let encoded = self.encode();
        ChannelId(keccak256_digest(encoded.as_slice()))
    }
}

} // verus!
