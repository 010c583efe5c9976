//! The values a download handles: hashes, peers, headers and blocks.
use vstd::prelude::*;

verus! {

/// A 256-bit hash.
#[derive(Clone, Copy, Debug, Eq, Hash)]
pub struct B256 {
    /// The bytes of the hash, first byte first.
    pub bytes: [u8; 32],
}

impl PartialEq for B256 {
    fn eq(&self, other: &B256) -> (equal: bool) {
        let mut i: usize = 0;
        while i < 32
            invariant
                0 <= i <= 32,
                forall|j: int| 0 <= j < i ==> self.bytes[j] == other.bytes[j],
            decreases 32 - i,
        {
            if self.bytes[i] != other.bytes[i] {
                return false;
            }
            i += 1;
        }
        assert(self.bytes =~= other.bytes);
        true
    }
}

impl vstd::std_specs::cmp::PartialEqSpecImpl for B256 {
    open spec fn obeys_eq_spec() -> bool {
        true
    }

    open spec fn eq_spec(&self, other: &B256) -> bool {
        *self == *other
    }
}

/// The identity of a peer: its public key, 64 bytes.
#[derive(Clone, Copy, Debug, Eq, Hash)]
pub struct PeerId {
    /// The bytes of the public key.
    pub bytes: [u8; 64],
}

impl PartialEq for PeerId {
    fn eq(&self, other: &PeerId) -> (equal: bool) {
        let mut i: usize = 0;
        while i < 64
            invariant
                0 <= i <= 64,
                forall|j: int| 0 <= j < i ==> self.bytes[j] == other.bytes[j],
            decreases 64 - i,
        {
            if self.bytes[i] != other.bytes[i] {
                return false;
            }
            i += 1;
        }
        assert(self.bytes =~= other.bytes);
        true
    }
}

impl vstd::std_specs::cmp::PartialEqSpecImpl for PeerId {
    open spec fn obeys_eq_spec() -> bool {
        true
    }

    open spec fn eq_spec(&self, other: &PeerId) -> bool {
        *self == *other
    }
}

/// The header of an Ethereum block, field by field.
#[derive(Clone, Debug, PartialEq, Eq)]
pub struct Header {
    /// The hash of the parent block's header.
    pub parent_hash: B256,
    /// The hash of the list of ommers.
    pub ommers_hash: [u8; 32],
    /// The address that collects the fees of the block.
    pub beneficiary: [u8; 20],
    /// The root of the state trie after the block.
    pub state_root: [u8; 32],
    /// The root of the trie of the block's transactions.
    pub transactions_root: [u8; 32],
    /// The root of the trie of the block's receipts.
    pub receipts_root: [u8; 32],
    /// The Bloom filter over the logs of the block.
    pub logs_bloom: [u8; 256],
    /// The difficulty, as a big-endian number.
    pub difficulty: [u8; 32],
    /// The number of the block: how many ancestors it has.
    pub number: u64,
    /// The limit of gas for the block.
    pub gas_limit: u64,
    /// The gas that the block's transactions used.
    pub gas_used: u64,
    /// The time of the block, in seconds of Unix time.
    pub timestamp: u64,
    /// Bytes that the block's author chose.
    pub extra_data: Vec<u8>,
    /// The mix hash of the proof of work, or the randomness of the beacon chain.
    pub mix_hash: [u8; 32],
    /// The nonce of the proof of work.
    pub nonce: [u8; 8],
    /// The base fee per unit of gas.
    pub base_fee_per_gas: Option<u64>,
    /// The root of the trie of withdrawals.
    pub withdrawals_root: Option<[u8; 32]>,
    /// The blob gas that the block used.
    pub blob_gas_used: Option<u64>,
    /// The running excess of blob gas before the block.
    pub excess_blob_gas: Option<u64>,
    /// The root of the parent block of the beacon chain.
    pub parent_beacon_block_root: Option<[u8; 32]>,
    /// The hash of the block's execution layer requests.
    pub requests_hash: Option<[u8; 32]>,
    /// The hash of the block's access list.
    pub block_access_list_hash: Option<[u8; 32]>,
    /// The slot of the block.
    pub slot_number: Option<u64>,
}

/// The hash that `alloy_consensus::Header::hash_slow` computes of a header with these fields:
/// the Keccak-256 hash of the header's RLP encoding.
pub uninterp spec fn header_hash(
    parent_hash: [u8; 32],
    ommers_hash: [u8; 32],
    beneficiary: [u8; 20],
    state_root: [u8; 32],
    transactions_root: [u8; 32],
    receipts_root: [u8; 32],
    logs_bloom: [u8; 256],
    difficulty: [u8; 32],
    number: u64,
    gas_limit: u64,
    gas_used: u64,
    timestamp: u64,
    extra_data: Seq<u8>,
    mix_hash: [u8; 32],
    nonce: [u8; 8],
    base_fee_per_gas: Option<u64>,
    withdrawals_root: Option<[u8; 32]>,
    blob_gas_used: Option<u64>,
    excess_blob_gas: Option<u64>,
    parent_beacon_block_root: Option<[u8; 32]>,
    requests_hash: Option<[u8; 32]>,
    block_access_list_hash: Option<[u8; 32]>,
    slot_number: Option<u64>,
) -> [u8; 32];

/// Builds an `alloy_consensus::Header` out of the fields and calls its `hash_slow`.
///
/// The contract claims that the hash depends on the values of the fields alone. It says nothing
/// of what the hash is.
#[verifier::external_body]
fn consensus_header_hash(
    parent_hash: [u8; 32],
    ommers_hash: [u8; 32],
    beneficiary: [u8; 20],
    state_root: [u8; 32],
    transactions_root: [u8; 32],
    receipts_root: [u8; 32],
    logs_bloom: [u8; 256],
    difficulty: [u8; 32],
    number: u64,
    gas_limit: u64,
    gas_used: u64,
    timestamp: u64,
    extra_data: &Vec<u8>,
    mix_hash: [u8; 32],
    nonce: [u8; 8],
    base_fee_per_gas: Option<u64>,
    withdrawals_root: Option<[u8; 32]>,
    blob_gas_used: Option<u64>,
    excess_blob_gas: Option<u64>,
    parent_beacon_block_root: Option<[u8; 32]>,
    requests_hash: Option<[u8; 32]>,
    block_access_list_hash: Option<[u8; 32]>,
    slot_number: Option<u64>,
) -> (hash: [u8; 32])
    ensures
        hash == header_hash(
            parent_hash,
            ommers_hash,
            beneficiary,
            state_root,
            transactions_root,
            receipts_root,
            logs_bloom,
            difficulty,
            number,
            gas_limit,
            gas_used,
            timestamp,
            extra_data@,
            mix_hash,
            nonce,
            base_fee_per_gas,
            withdrawals_root,
            blob_gas_used,
            excess_blob_gas,
            parent_beacon_block_root,
            requests_hash,
            block_access_list_hash,
            slot_number,
        ),
{
    alloy_consensus::Header {
        parent_hash: parent_hash.into(), ommers_hash: ommers_hash.into(),
        beneficiary: beneficiary.into(), state_root: state_root.into(),
        transactions_root: transactions_root.into(), receipts_root: receipts_root.into(),
        logs_bloom: logs_bloom.into(), difficulty: alloy_primitives::U256::from_be_bytes(difficulty),
        number, gas_limit, gas_used, timestamp, extra_data: extra_data.clone().into(),
        mix_hash: mix_hash.into(), nonce: nonce.into(), base_fee_per_gas,
        withdrawals_root: withdrawals_root.map(Into::into), blob_gas_used, excess_blob_gas,
        parent_beacon_block_root: parent_beacon_block_root.map(Into::into),
        requests_hash: requests_hash.map(Into::into),
        block_access_list_hash: block_access_list_hash.map(Into::into), slot_number,
    }.hash_slow().into()
}

impl Header {
    /// The hash of the header.
    pub open spec fn seal(self) -> B256 {
        B256 {
            bytes: header_hash(
                self.parent_hash.bytes,
                self.ommers_hash,
                self.beneficiary,
                self.state_root,
                self.transactions_root,
                self.receipts_root,
                self.logs_bloom,
                self.difficulty,
                self.number,
                self.gas_limit,
                self.gas_used,
                self.timestamp,
                self.extra_data@,
                self.mix_hash,
                self.nonce,
                self.base_fee_per_gas,
                self.withdrawals_root,
                self.blob_gas_used,
                self.excess_blob_gas,
                self.parent_beacon_block_root,
                self.requests_hash,
                self.block_access_list_hash,
                self.slot_number,
            ),
        }
    }

    /// Computes the hash of the header.
    pub fn hash_slow(&self) -> (hash: B256)
        ensures
            hash == self.seal(),
            hash.bytes == header_hash(
                self.parent_hash.bytes,
                self.ommers_hash,
                self.beneficiary,
                self.state_root,
                self.transactions_root,
                self.receipts_root,
                self.logs_bloom,
                self.difficulty,
                self.number,
                self.gas_limit,
                self.gas_used,
                self.timestamp,
                self.extra_data@,
                self.mix_hash,
                self.nonce,
                self.base_fee_per_gas,
                self.withdrawals_root,
                self.blob_gas_used,
                self.excess_blob_gas,
                self.parent_beacon_block_root,
                self.requests_hash,
                self.block_access_list_hash,
                self.slot_number,
            ),
    {
        B256 {
            bytes: consensus_header_hash(
                self.parent_hash.bytes,
                self.ommers_hash,
                self.beneficiary,
                self.state_root,
                self.transactions_root,
                self.receipts_root,
                self.logs_bloom,
                self.difficulty,
                self.number,
                self.gas_limit,
                self.gas_used,
                self.timestamp,
                &self.extra_data,
                self.mix_hash,
                self.nonce,
                self.base_fee_per_gas,
                self.withdrawals_root,
                self.blob_gas_used,
                self.excess_blob_gas,
                self.parent_beacon_block_root,
                self.requests_hash,
                self.block_access_list_hash,
                self.slot_number,
            ),
        }
    }
}

/// The hash of a header covers all of its fields as they are, whichever of the optional ones are
/// there.
pub proof fn law_hash_covers_every_field(header: Header)
    ensures
        header.seal().bytes == header_hash(
            header.parent_hash.bytes,
            header.ommers_hash,
            header.beneficiary,
            header.state_root,
            header.transactions_root,
            header.receipts_root,
            header.logs_bloom,
            header.difficulty,
            header.number,
            header.gas_limit,
            header.gas_used,
            header.timestamp,
            header.extra_data@,
            header.mix_hash,
            header.nonce,
            header.base_fee_per_gas,
            header.withdrawals_root,
            header.blob_gas_used,
            header.excess_blob_gas,
            header.parent_beacon_block_root,
            header.requests_hash,
            header.block_access_list_hash,
            header.slot_number,
        ),
{
}

/// Headers with the same fields have the same hash: nothing but the fields counts.
pub proof fn law_equal_headers_have_one_hash(a: Header, b: Header)
    requires
        a.parent_hash.bytes == b.parent_hash.bytes,
        a.ommers_hash == b.ommers_hash,
        a.beneficiary == b.beneficiary,
        a.state_root == b.state_root,
        a.transactions_root == b.transactions_root,
        a.receipts_root == b.receipts_root,
        a.logs_bloom == b.logs_bloom,
        a.difficulty == b.difficulty,
        a.number == b.number,
        a.gas_limit == b.gas_limit,
        a.gas_used == b.gas_used,
        a.timestamp == b.timestamp,
        a.extra_data@ == b.extra_data@,
        a.mix_hash == b.mix_hash,
        a.nonce == b.nonce,
        a.base_fee_per_gas == b.base_fee_per_gas,
        a.withdrawals_root == b.withdrawals_root,
        a.blob_gas_used == b.blob_gas_used,
        a.excess_blob_gas == b.excess_blob_gas,
        a.parent_beacon_block_root == b.parent_beacon_block_root,
        a.requests_hash == b.requests_hash,
        a.block_access_list_hash == b.block_access_list_hash,
        a.slot_number == b.slot_number,
    ensures
        a.seal() == b.seal(),
{
}

/// A sealed header is the header itself together with its hash, and a header that carries its own
/// hash is that sealed header.
pub proof fn law_sealing_adds_the_hash(header: Header, sealed_header: SealedHeader)
    ensures
        sealed(header).header == header,
        sealed(header).hash == header.seal(),
        sealed_header.is_sealed() <==> sealed_header.hash == sealed_header.header.seal(),
        sealed_header.is_sealed() <==> sealed_header == sealed(sealed_header.header),
{
}

/// Hashes and peers are compared whole: they are equal exactly if all of their bytes are.
pub proof fn law_comparison_is_whole(a: B256, b: B256, x: PeerId, y: PeerId)
    ensures
        vstd::std_specs::cmp::PartialEqSpec::eq_spec(&a, &b) <==> forall|i: int|
            0 <= i < 32 ==> #[trigger] a.bytes[i] == b.bytes[i],
        vstd::std_specs::cmp::PartialEqSpec::eq_spec(&x, &y) <==> forall|i: int|
            0 <= i < 64 ==> #[trigger] x.bytes[i] == y.bytes[i],
{
    if forall|i: int| 0 <= i < 32 ==> #[trigger] a.bytes[i] == b.bytes[i] {
        assert(a.bytes =~= b.bytes);
    }
    if forall|i: int| 0 <= i < 64 ==> #[trigger] x.bytes[i] == y.bytes[i] {
        assert(x.bytes =~= y.bytes);
    }
}

/// A header together with its hash.
#[derive(Clone, Debug, PartialEq, Eq)]
pub struct SealedHeader {
    /// The header.
    pub header: Header,
    /// The hash of the header.
    pub hash: B256,
}

/// The header sealed with its own hash.
pub open spec fn sealed(header: Header) -> SealedHeader {
    SealedHeader { header, hash: header.seal() }
}

impl SealedHeader {
    /// The hash that the header carries is the hash of the header.
    pub open spec fn is_sealed(self) -> bool {
        self.hash == self.header.seal()
    }

    /// Computes the hash of a header and seals the header with it.
    pub fn seal_slow(header: Header) -> (sealed_header: SealedHeader)
        ensures
            sealed_header == sealed(header),
            sealed_header.is_sealed(),
            sealed_header.header == header,
            sealed_header.hash == header.seal(),
    {
        let hash = header.hash_slow();
        SealedHeader { header, hash }
    }

    /// Returns the hash of the header.
    pub fn hash(&self) -> (hash: B256)
        ensures
            hash == self.hash,
    {
        self.hash
    }

    /// Returns the number of the block.
    pub fn number(&self) -> (number: u64)
        ensures
            number == self.header.number,
    {
        self.header.number
    }

    /// Returns the hash of the parent block.
    pub fn parent_hash(&self) -> (parent_hash: B256)
        ensures
            parent_hash == self.header.parent_hash,
    {
        self.header.parent_hash
    }
}

/// A block: a sealed header and a body.
#[derive(Clone, Debug, PartialEq, Eq)]
pub struct SealedBlock<B> {
    /// The header of the block.
    pub header: SealedHeader,
    /// The body of the block.
    pub body: B,
}

impl<B> SealedBlock<B> {
    /// Puts a block together out of its header and its body.
    pub fn from_sealed_parts(header: SealedHeader, body: B) -> (block: SealedBlock<B>)
        ensures
            block.header == header,
            block.body == body,
    {
        SealedBlock { header, body }
    }
}

/// A value together with the peer that sent it.
#[derive(Clone, Debug, PartialEq, Eq)]
pub struct WithPeerId<T> {
    /// The peer that sent the value.
    pub peer_id: PeerId,
    /// The value.
    pub data: T,
}

impl<T> WithPeerId<T> {
    /// Attaches a peer to a value.
    pub fn new(peer_id: PeerId, data: T) -> (response: WithPeerId<T>)
        ensures
            response.peer_id == peer_id,
            response.data == data,
    {
        WithPeerId { peer_id, data }
    }

    /// Takes the peer and the value apart.
    pub fn split(self) -> (parts: (PeerId, T))
        ensures
            parts.0 == self.peer_id,
            parts.1 == self.data,
    {
        (self.peer_id, self.data)
    }
}

impl<T> WithPeerId<Option<T>> {
    /// Moves the peer inside the option.
    pub fn transpose(self) -> (response: Option<WithPeerId<T>>)
        ensures
            response == (match self.data {
                Some(data) => Some(WithPeerId { peer_id: self.peer_id, data }),
                None => None,
            }),
    {
        match self.data {
            Some(data) => Some(WithPeerId { peer_id: self.peer_id, data }),
            None => None,
        }
    }
}

} // verus!
