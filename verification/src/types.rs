//! The messages that are signed, and the values that pick a domain for them.

use crate::encode::{
    bitlist_violation, check_fixed_len, encode_bytes4, encode_u64, fixed_len_violation,
    read_bitlist_len, u64_chunk, zero_padded,
};
use crate::error::{SchemaField, SigningRootError};
use crate::hash::Hash256;
use crate::merkle::node_views;
use crate::tree_hash::{
    bitlist_root, byte_vector_root, container_root, hash_bitlist, hash_container,
    hash_fixed_bytes, TreeHash,
};
use vstd::prelude::*;

verus! {

/// The length of a public key, in bytes.
pub const PUBKEY_LEN: usize = 48;

/// The length of a signature, and so of a selection proof, in bytes.
pub const SIGNATURE_LEN: usize = 96;

/// The length of a fee recipient address, in bytes.
pub const FEE_RECIPIENT_LEN: usize = 20;

/// The most bits that the aggregation bits of an attestation hold.
pub const MAX_VALIDATORS_PER_COMMITTEE: usize = 2048;

/// The most bits that the aggregation bits of a sync committee contribution hold.
pub const SYNC_SUBCOMMITTEE_SIZE: usize = 128;

/// The first of two findings: `first` where it is one, else `second`.
pub open spec fn first_violation(
    first: Option<SigningRootError>,
    second: Option<SigningRootError>,
) -> Option<SigningRootError> {
    if first is Some {
        first
    } else {
        second
    }
}

/// The kind of message that a signature is for.
#[derive(Clone, Copy, Debug, PartialEq, Eq, Hash, Structural)]
pub enum DomainType {
    BeaconProposer,
    BeaconAttester,
    Randao,
    Deposit,
    VoluntaryExit,
    SelectionProof,
    AggregateAndProof,
    ApplicationBuilder,
    SyncCommittee,
    SyncCommitteeSelectionProof,
    ContributionAndProof,
    DomainBlsToExecutionChange,
    DomainBlobSidecar,
}

impl DomainType {
    /// The four bytes that stand for the kind of message in a domain.
    pub open spec fn tag(&self) -> Seq<u8> {
        match self {
            DomainType::BeaconProposer => seq![0u8, 0u8, 0u8, 0u8],
            DomainType::BeaconAttester => seq![1u8, 0u8, 0u8, 0u8],
            DomainType::Randao => seq![2u8, 0u8, 0u8, 0u8],
            DomainType::Deposit => seq![3u8, 0u8, 0u8, 0u8],
            DomainType::VoluntaryExit => seq![4u8, 0u8, 0u8, 0u8],
            DomainType::SelectionProof => seq![5u8, 0u8, 0u8, 0u8],
            DomainType::AggregateAndProof => seq![6u8, 0u8, 0u8, 0u8],
            DomainType::ApplicationBuilder => seq![0u8, 0u8, 0u8, 1u8],
            DomainType::SyncCommittee => seq![7u8, 0u8, 0u8, 0u8],
            DomainType::SyncCommitteeSelectionProof => seq![8u8, 0u8, 0u8, 0u8],
            DomainType::ContributionAndProof => seq![9u8, 0u8, 0u8, 0u8],
            DomainType::DomainBlsToExecutionChange => seq![10u8, 0u8, 0u8, 0u8],
            DomainType::DomainBlobSidecar => seq![11u8, 0u8, 0u8, 0u8],
        }
    }

    /// The four bytes that stand for the kind of message in a domain.
    pub fn value(&self) -> (tag: [u8; 4])
        ensures
            tag@ == self.tag(),
    {
        let tag: [u8; 4] = match self {
            DomainType::BeaconProposer => [0, 0, 0, 0],
            DomainType::BeaconAttester => [1, 0, 0, 0],
            DomainType::Randao => [2, 0, 0, 0],
            DomainType::Deposit => [3, 0, 0, 0],
            DomainType::VoluntaryExit => [4, 0, 0, 0],
            DomainType::SelectionProof => [5, 0, 0, 0],
            DomainType::AggregateAndProof => [6, 0, 0, 0],
            DomainType::ApplicationBuilder => [0, 0, 0, 1],
            DomainType::SyncCommittee => [7, 0, 0, 0],
            DomainType::SyncCommitteeSelectionProof => [8, 0, 0, 0],
            DomainType::ContributionAndProof => [9, 0, 0, 0],
            DomainType::DomainBlsToExecutionChange => [10, 0, 0, 0],
            DomainType::DomainBlobSidecar => [11, 0, 0, 0],
        };
        assert(tag@ =~= self.tag());
        tag
    }
}

/// Every kind of message has a tag of four bytes, and no two kinds share one.
pub proof fn lemma_domain_tags_distinct(a: DomainType, b: DomainType)
    ensures
        a.tag().len() == 4,
        a.tag() == b.tag() ==> a == b,
{
    if a.tag() == b.tag() {
        assert(a.tag()[0] == b.tag()[0]);
        assert(a.tag()[3] == b.tag()[3]);
    }
}

/// One entry of a fork schedule: from `epoch` on `current_version` is in
/// force, before it `previous_version` was.
#[derive(Clone, Copy, Debug, PartialEq, Eq, Default)]
pub struct Fork {
    pub previous_version: [u8; 4],
    pub current_version: [u8; 4],
    pub epoch: u64,
}

/// A fork together with the chain it belongs to.
#[derive(Clone, Copy, Debug, PartialEq, Eq, Default)]
pub struct ForkInfo {
    pub fork: Fork,
    pub genesis_validators_root: Hash256,
}


/// The header of a block: where it stands and what it commits to.
#[derive(Clone, Debug, PartialEq, Eq, Default)]
pub struct BeaconBlockHeader {
    pub slot: u64,
    pub proposer_index: u64,
    pub parent_root: Hash256,
    pub state_root: Hash256,
    pub body_root: Hash256,
}

impl BeaconBlockHeader {
    /// The hash tree root: the root of the roots of the fields, in declared order.
    pub open spec fn root_spec(&self) -> Seq<u8> {
        container_root(
            seq![
                u64_chunk(self.slot),
                u64_chunk(self.proposer_index),
                self.parent_root@,
                self.state_root@,
                self.body_root@,
            ],
        )
    }

    /// The hash tree root, which every value of this type has.
    pub fn root(&self) -> (root: Hash256)
        ensures
            root@ == self.root_spec(),
    {
        let slot_root: Hash256 = encode_u64(self.slot);
        let proposer_index_root: Hash256 = encode_u64(self.proposer_index);
        let parent_root_root: Hash256 = self.parent_root;
        let state_root_root: Hash256 = self.state_root;
        let body_root_root: Hash256 = self.body_root;
        let roots: [Hash256; 5] = [
            slot_root,
            proposer_index_root,
            parent_root_root,
            state_root_root,
            body_root_root,
        ];
        assert(node_views(roots@) =~= seq![
            u64_chunk(self.slot),
            u64_chunk(self.proposer_index),
            self.parent_root@,
            self.state_root@,
            self.body_root@,
        ]);
        hash_container(&roots)
    }
}

impl TreeHash for BeaconBlockHeader {
    open spec fn schema_error(&self) -> Option<SigningRootError> {
        None
    }

    open spec fn htr(&self) -> Seq<u8> {
        self.root_spec()
    }

    fn hash_tree_root(&self) -> (result: Result<Hash256, SigningRootError>) {
        Ok(self.root())
    }
}

/// A block root at the start of an epoch.
#[derive(Clone, Debug, PartialEq, Eq, Default)]
pub struct Checkpoint {
    pub epoch: u64,
    pub root: Hash256,
}

impl Checkpoint {
    /// The hash tree root: the root of the roots of the fields, in declared order.
    pub open spec fn root_spec(&self) -> Seq<u8> {
        container_root(
            seq![
                u64_chunk(self.epoch),
                self.root@,
            ],
        )
    }

    /// The hash tree root, which every value of this type has.
    pub fn root(&self) -> (root: Hash256)
        ensures
            root@ == self.root_spec(),
    {
        let epoch_root: Hash256 = encode_u64(self.epoch);
        let root_root: Hash256 = self.root;
        let roots: [Hash256; 2] = [epoch_root, root_root];
        assert(node_views(roots@) =~= seq![
            u64_chunk(self.epoch),
            self.root@,
        ]);
        hash_container(&roots)
    }
}

impl TreeHash for Checkpoint {
    open spec fn schema_error(&self) -> Option<SigningRootError> {
        None
    }

    open spec fn htr(&self) -> Seq<u8> {
        self.root_spec()
    }

    fn hash_tree_root(&self) -> (result: Result<Hash256, SigningRootError>) {
        Ok(self.root())
    }
}

/// What an attestation votes for.
#[derive(Clone, Debug, PartialEq, Eq, Default)]
pub struct AttestationData {
    pub slot: u64,
    pub index: u64,
    pub beacon_block_root: Hash256,
    pub source: Checkpoint,
    pub target: Checkpoint,
}

impl AttestationData {
    /// The hash tree root: the root of the roots of the fields, in declared order.
    pub open spec fn root_spec(&self) -> Seq<u8> {
        container_root(
            seq![
                u64_chunk(self.slot),
                u64_chunk(self.index),
                self.beacon_block_root@,
                self.source.root_spec(),
                self.target.root_spec(),
            ],
        )
    }

    /// The hash tree root, which every value of this type has.
    pub fn root(&self) -> (root: Hash256)
        ensures
            root@ == self.root_spec(),
    {
        let slot_root: Hash256 = encode_u64(self.slot);
        let index_root: Hash256 = encode_u64(self.index);
        let beacon_block_root_root: Hash256 = self.beacon_block_root;
        let source_root: Hash256 = self.source.root();
        let target_root: Hash256 = self.target.root();
        let roots: [Hash256; 5] = [
            slot_root,
            index_root,
            beacon_block_root_root,
            source_root,
            target_root,
        ];
        assert(node_views(roots@) =~= seq![
            u64_chunk(self.slot),
            u64_chunk(self.index),
            self.beacon_block_root@,
            self.source.root_spec(),
            self.target.root_spec(),
        ]);
        hash_container(&roots)
    }
}

impl TreeHash for AttestationData {
    open spec fn schema_error(&self) -> Option<SigningRootError> {
        None
    }

    open spec fn htr(&self) -> Seq<u8> {
        self.root_spec()
    }

    fn hash_tree_root(&self) -> (result: Result<Hash256, SigningRootError>) {
        Ok(self.root())
    }
}

/// The slot for which a validator proves that it aggregates.
#[derive(Clone, Debug, PartialEq, Eq, Default)]
pub struct AggregationSlot {
    pub slot: u64,
}

impl AggregationSlot {
    /// The hash tree root: the root of the roots of the fields, in declared order.
    pub open spec fn root_spec(&self) -> Seq<u8> {
        container_root(
            seq![
                u64_chunk(self.slot),
            ],
        )
    }

    /// The hash tree root, which every value of this type has.
    pub fn root(&self) -> (root: Hash256)
        ensures
            root@ == self.root_spec(),
    {
        let slot_root: Hash256 = encode_u64(self.slot);
        let roots: [Hash256; 1] = [slot_root];
        assert(node_views(roots@) =~= seq![
            u64_chunk(self.slot),
        ]);
        hash_container(&roots)
    }
}

impl TreeHash for AggregationSlot {
    open spec fn schema_error(&self) -> Option<SigningRootError> {
        None
    }

    open spec fn htr(&self) -> Seq<u8> {
        self.root_spec()
    }

    fn hash_tree_root(&self) -> (result: Result<Hash256, SigningRootError>) {
        Ok(self.root())
    }
}

/// The votes of a committee, aggregated under one signature.
#[derive(Clone, Debug, PartialEq, Eq, Default)]
pub struct Attestation {
    /// A serialized bit list of up to `MAX_VALIDATORS_PER_COMMITTEE` bits.
    pub aggregation_bits: Vec<u8>,
    pub data: AttestationData,
    /// `SIGNATURE_LEN` bytes.
    pub signature: Vec<u8>,
}

impl Attestation {
    /// The hash tree root: the root of the roots of the fields, in declared order.
    pub open spec fn root_spec(&self) -> Seq<u8> {
        container_root(
            seq![
                bitlist_root(self.aggregation_bits@, MAX_VALIDATORS_PER_COMMITTEE as nat),
                self.data.root_spec(),
                byte_vector_root(self.signature@),
            ],
        )
    }

    /// What is wrong with the first field, in declared order, that breaks the
    /// schema.
    pub open spec fn violation(&self) -> Option<SigningRootError> {
        first_violation(
            bitlist_violation(
                SchemaField::AggregationBits,
                MAX_VALIDATORS_PER_COMMITTEE,
                self.aggregation_bits@,
            ),
            fixed_len_violation(SchemaField::Signature, SIGNATURE_LEN, self.signature@.len()),
        )
    }

    /// The value keeps the schema: its hash tree root exists.
    pub open spec fn well_formed(&self) -> bool {
        self.violation() is None
    }

    /// Puts a value together from its fields, if they keep the schema.
    pub fn new(
        aggregation_bits: Vec<u8>,
        data: AttestationData,
        signature: Vec<u8>,
    ) -> (result: Result<Self, SigningRootError>)
        ensures
            match result {
                Ok(value) => value == (Attestation {
                    aggregation_bits,
                    data,
                    signature,
                }) && value.well_formed(),
                Err(e) => (Attestation {
                    aggregation_bits,
                    data,
                    signature,
                }).violation() == Some(e),
            },
    {
        let value = Attestation { aggregation_bits, data, signature };
        match value.validate() {
            Ok(_) => Ok(value),
            Err(e) => Err(e),
        }
    }

    /// Checks the lengths that the schema declares, without hashing anything.
    pub fn validate(&self) -> (result: Result<(), SigningRootError>)
        ensures
            match result {
                Ok(_) => self.well_formed(),
                Err(e) => self.violation() == Some(e),
            },
    {
        match read_bitlist_len(
            self.aggregation_bits.as_slice(),
            MAX_VALIDATORS_PER_COMMITTEE,
            SchemaField::AggregationBits,
        ) {
            Ok(_) => {},
            Err(e) => {
                return Err(e);
            },
        }
        match check_fixed_len(self.signature.as_slice(), SIGNATURE_LEN, SchemaField::Signature) {
            Ok(_) => {},
            Err(e) => {
                return Err(e);
            },
        }
        Ok(())
    }

    /// The hash tree root, or what is wrong with the first field that breaks the
    /// schema.
    pub fn checked_root(&self) -> (result: Result<Hash256, SigningRootError>)
        ensures
            match result {
                Ok(root) => self.well_formed() && root@ == self.root_spec(),
                Err(e) => self.violation() == Some(e),
            },
    {
        let aggregation_bits_root: Hash256 = match hash_bitlist(
            self.aggregation_bits.as_slice(),
            MAX_VALIDATORS_PER_COMMITTEE,
            SchemaField::AggregationBits,
        ) {
            Ok(root) => root,
            Err(e) => {
                return Err(e);
            },
        };
        let data_root: Hash256 = self.data.root();
        let signature_root: Hash256 = match hash_fixed_bytes(
            self.signature.as_slice(),
            SIGNATURE_LEN,
            SchemaField::Signature,
        ) {
            Ok(root) => root,
            Err(e) => {
                return Err(e);
            },
        };
        let roots: [Hash256; 3] = [aggregation_bits_root, data_root, signature_root];
        assert(node_views(roots@) =~= seq![
            bitlist_root(self.aggregation_bits@, MAX_VALIDATORS_PER_COMMITTEE as nat),
            self.data.root_spec(),
            byte_vector_root(self.signature@),
        ]);
        Ok(hash_container(&roots))
    }
}

impl TreeHash for Attestation {
    open spec fn schema_error(&self) -> Option<SigningRootError> {
        self.violation()
    }

    open spec fn htr(&self) -> Seq<u8> {
        self.root_spec()
    }

    fn hash_tree_root(&self) -> (result: Result<Hash256, SigningRootError>) {
        self.checked_root()
    }
}

/// An aggregate, with the proof that its sender was to aggregate.
#[derive(Clone, Debug, PartialEq, Eq, Default)]
pub struct AggregateAndProof {
    pub aggregator_index: u64,
    pub aggregate: Attestation,
    /// `SIGNATURE_LEN` bytes.
    pub selection_proof: Vec<u8>,
}

impl AggregateAndProof {
    /// The hash tree root: the root of the roots of the fields, in declared order.
    pub open spec fn root_spec(&self) -> Seq<u8> {
        container_root(
            seq![
                u64_chunk(self.aggregator_index),
                self.aggregate.root_spec(),
                byte_vector_root(self.selection_proof@),
            ],
        )
    }

    /// What is wrong with the first field, in declared order, that breaks the
    /// schema.
    pub open spec fn violation(&self) -> Option<SigningRootError> {
        first_violation(
            self.aggregate.violation(),
            fixed_len_violation(
                SchemaField::SelectionProof,
                SIGNATURE_LEN,
                self.selection_proof@.len(),
            ),
        )
    }

    /// The value keeps the schema: its hash tree root exists.
    pub open spec fn well_formed(&self) -> bool {
        self.violation() is None
    }

    /// Puts a value together from its fields, if they keep the schema.
    pub fn new(
        aggregator_index: u64,
        aggregate: Attestation,
        selection_proof: Vec<u8>,
    ) -> (result: Result<Self, SigningRootError>)
        ensures
            match result {
                Ok(value) => value == (AggregateAndProof {
                    aggregator_index,
                    aggregate,
                    selection_proof,
                }) && value.well_formed(),
                Err(e) => (AggregateAndProof {
                    aggregator_index,
                    aggregate,
                    selection_proof,
                }).violation() == Some(e),
            },
    {
        let value = AggregateAndProof { aggregator_index, aggregate, selection_proof };
        match value.validate() {
            Ok(_) => Ok(value),
            Err(e) => Err(e),
        }
    }

    /// Checks the lengths that the schema declares, without hashing anything.
    pub fn validate(&self) -> (result: Result<(), SigningRootError>)
        ensures
            match result {
                Ok(_) => self.well_formed(),
                Err(e) => self.violation() == Some(e),
            },
    {
        match self.aggregate.validate() {
            Ok(_) => {},
            Err(e) => {
                return Err(e);
            },
        }
        match check_fixed_len(
            self.selection_proof.as_slice(),
            SIGNATURE_LEN,
            SchemaField::SelectionProof,
        ) {
            Ok(_) => {},
            Err(e) => {
                return Err(e);
            },
        }
        Ok(())
    }

    /// The hash tree root, or what is wrong with the first field that breaks the
    /// schema.
    pub fn checked_root(&self) -> (result: Result<Hash256, SigningRootError>)
        ensures
            match result {
                Ok(root) => self.well_formed() && root@ == self.root_spec(),
                Err(e) => self.violation() == Some(e),
            },
    {
        let aggregator_index_root: Hash256 = encode_u64(self.aggregator_index);
        let aggregate_root: Hash256 = match self.aggregate.checked_root() {
            Ok(root) => root,
            Err(e) => {
                return Err(e);
            },
        };
        let selection_proof_root: Hash256 = match hash_fixed_bytes(
            self.selection_proof.as_slice(),
            SIGNATURE_LEN,
            SchemaField::SelectionProof,
        ) {
            Ok(root) => root,
            Err(e) => {
                return Err(e);
            },
        };
        let roots: [Hash256; 3] = [aggregator_index_root, aggregate_root, selection_proof_root];
        assert(node_views(roots@) =~= seq![
            u64_chunk(self.aggregator_index),
            self.aggregate.root_spec(),
            byte_vector_root(self.selection_proof@),
        ]);
        Ok(hash_container(&roots))
    }
}

impl TreeHash for AggregateAndProof {
    open spec fn schema_error(&self) -> Option<SigningRootError> {
        self.violation()
    }

    open spec fn htr(&self) -> Seq<u8> {
        self.root_spec()
    }

    fn hash_tree_root(&self) -> (result: Result<Hash256, SigningRootError>) {
        self.checked_root()
    }
}

/// The epoch whose number a proposer signs to reveal its randomness.
#[derive(Clone, Debug, PartialEq, Eq, Default)]
pub struct RandaoReveal {
    pub epoch: u64,
}

impl RandaoReveal {
    /// The hash tree root: the root of the roots of the fields, in declared order.
    pub open spec fn root_spec(&self) -> Seq<u8> {
        container_root(
            seq![
                u64_chunk(self.epoch),
            ],
        )
    }

    /// The hash tree root, which every value of this type has.
    pub fn root(&self) -> (root: Hash256)
        ensures
            root@ == self.root_spec(),
    {
        let epoch_root: Hash256 = encode_u64(self.epoch);
        let roots: [Hash256; 1] = [epoch_root];
        assert(node_views(roots@) =~= seq![
            u64_chunk(self.epoch),
        ]);
        hash_container(&roots)
    }
}

impl TreeHash for RandaoReveal {
    open spec fn schema_error(&self) -> Option<SigningRootError> {
        None
    }

    open spec fn htr(&self) -> Seq<u8> {
        self.root_spec()
    }

    fn hash_tree_root(&self) -> (result: Result<Hash256, SigningRootError>) {
        Ok(self.root())
    }
}

/// The wish of a validator to leave, from an epoch on.
#[derive(Clone, Debug, PartialEq, Eq, Default)]
pub struct VoluntaryExit {
    pub epoch: u64,
    pub validator_index: u64,
}

impl VoluntaryExit {
    /// The hash tree root: the root of the roots of the fields, in declared order.
    pub open spec fn root_spec(&self) -> Seq<u8> {
        container_root(
            seq![
                u64_chunk(self.epoch),
                u64_chunk(self.validator_index),
            ],
        )
    }

    /// The hash tree root, which every value of this type has.
    pub fn root(&self) -> (root: Hash256)
        ensures
            root@ == self.root_spec(),
    {
        let epoch_root: Hash256 = encode_u64(self.epoch);
        let validator_index_root: Hash256 = encode_u64(self.validator_index);
        let roots: [Hash256; 2] = [epoch_root, validator_index_root];
        assert(node_views(roots@) =~= seq![
            u64_chunk(self.epoch),
            u64_chunk(self.validator_index),
        ]);
        hash_container(&roots)
    }
}

impl TreeHash for VoluntaryExit {
    open spec fn schema_error(&self) -> Option<SigningRootError> {
        None
    }

    open spec fn htr(&self) -> Seq<u8> {
        self.root_spec()
    }

    fn hash_tree_root(&self) -> (result: Result<Hash256, SigningRootError>) {
        Ok(self.root())
    }
}

/// A deposit for a validator. All four fields enter the root.
#[derive(Clone, Debug, PartialEq, Eq, Default)]
pub struct DepositMessage {
    /// `PUBKEY_LEN` bytes.
    pub pubkey: Vec<u8>,
    pub withdrawal_credentials: Hash256,
    pub amount: u64,
    pub genesis_fork_version: [u8; 4],
}

impl DepositMessage {
    /// The hash tree root: the root of the roots of the fields, in declared order.
    pub open spec fn root_spec(&self) -> Seq<u8> {
        container_root(
            seq![
                byte_vector_root(self.pubkey@),
                self.withdrawal_credentials@,
                u64_chunk(self.amount),
                zero_padded(self.genesis_fork_version@),
            ],
        )
    }

    /// What is wrong with the first field, in declared order, that breaks the
    /// schema.
    pub open spec fn violation(&self) -> Option<SigningRootError> {
        fixed_len_violation(SchemaField::Pubkey, PUBKEY_LEN, self.pubkey@.len())
    }

    /// The value keeps the schema: its hash tree root exists.
    pub open spec fn well_formed(&self) -> bool {
        self.violation() is None
    }

    /// Puts a value together from its fields, if they keep the schema.
    pub fn new(
        pubkey: Vec<u8>,
        withdrawal_credentials: Hash256,
        amount: u64,
        genesis_fork_version: [u8; 4],
    ) -> (result: Result<Self, SigningRootError>)
        ensures
            match result {
                Ok(value) => value == (DepositMessage {
                    pubkey,
                    withdrawal_credentials,
                    amount,
                    genesis_fork_version,
                }) && value.well_formed(),
                Err(e) => (DepositMessage {
                    pubkey,
                    withdrawal_credentials,
                    amount,
                    genesis_fork_version,
                }).violation() == Some(e),
            },
    {
        let value = DepositMessage { pubkey, withdrawal_credentials, amount, genesis_fork_version };
        match value.validate() {
            Ok(_) => Ok(value),
            Err(e) => Err(e),
        }
    }

    /// Checks the lengths that the schema declares, without hashing anything.
    pub fn validate(&self) -> (result: Result<(), SigningRootError>)
        ensures
            match result {
                Ok(_) => self.well_formed(),
                Err(e) => self.violation() == Some(e),
            },
    {
        match check_fixed_len(self.pubkey.as_slice(), PUBKEY_LEN, SchemaField::Pubkey) {
            Ok(_) => {},
            Err(e) => {
                return Err(e);
            },
        }
        Ok(())
    }

    /// The hash tree root, or what is wrong with the first field that breaks the
    /// schema.
    pub fn checked_root(&self) -> (result: Result<Hash256, SigningRootError>)
        ensures
            match result {
                Ok(root) => self.well_formed() && root@ == self.root_spec(),
                Err(e) => self.violation() == Some(e),
            },
    {
        let pubkey_root: Hash256 = match hash_fixed_bytes(
            self.pubkey.as_slice(),
            PUBKEY_LEN,
            SchemaField::Pubkey,
        ) {
            Ok(root) => root,
            Err(e) => {
                return Err(e);
            },
        };
        let withdrawal_credentials_root: Hash256 = self.withdrawal_credentials;
        let amount_root: Hash256 = encode_u64(self.amount);
        let genesis_fork_version_root: Hash256 = encode_bytes4(&self.genesis_fork_version);
        let roots: [Hash256; 4] = [
            pubkey_root,
            withdrawal_credentials_root,
            amount_root,
            genesis_fork_version_root,
        ];
        assert(node_views(roots@) =~= seq![
            byte_vector_root(self.pubkey@),
            self.withdrawal_credentials@,
            u64_chunk(self.amount),
            zero_padded(self.genesis_fork_version@),
        ]);
        Ok(hash_container(&roots))
    }
}

impl TreeHash for DepositMessage {
    open spec fn schema_error(&self) -> Option<SigningRootError> {
        self.violation()
    }

    open spec fn htr(&self) -> Seq<u8> {
        self.root_spec()
    }

    fn hash_tree_root(&self) -> (result: Result<Hash256, SigningRootError>) {
        self.checked_root()
    }
}

/// What a validator tells block builders about itself.
#[derive(Clone, Debug, PartialEq, Eq, Default)]
pub struct ValidatorRegistration {
    /// `FEE_RECIPIENT_LEN` bytes.
    pub fee_recipient: Vec<u8>,
    pub gas_limit: u64,
    pub timestamp: u64,
    /// `PUBKEY_LEN` bytes.
    pub pubkey: Vec<u8>,
}

impl ValidatorRegistration {
    /// The hash tree root: the root of the roots of the fields, in declared order.
    pub open spec fn root_spec(&self) -> Seq<u8> {
        container_root(
            seq![
                byte_vector_root(self.fee_recipient@),
                u64_chunk(self.gas_limit),
                u64_chunk(self.timestamp),
                byte_vector_root(self.pubkey@),
            ],
        )
    }

    /// What is wrong with the first field, in declared order, that breaks the
    /// schema.
    pub open spec fn violation(&self) -> Option<SigningRootError> {
        first_violation(
            fixed_len_violation(
                SchemaField::FeeRecipient,
                FEE_RECIPIENT_LEN,
                self.fee_recipient@.len(),
            ),
            fixed_len_violation(SchemaField::Pubkey, PUBKEY_LEN, self.pubkey@.len()),
        )
    }

    /// The value keeps the schema: its hash tree root exists.
    pub open spec fn well_formed(&self) -> bool {
        self.violation() is None
    }

    /// Puts a value together from its fields, if they keep the schema.
    pub fn new(
        fee_recipient: Vec<u8>,
        gas_limit: u64,
        timestamp: u64,
        pubkey: Vec<u8>,
    ) -> (result: Result<Self, SigningRootError>)
        ensures
            match result {
                Ok(value) => value == (ValidatorRegistration {
                    fee_recipient,
                    gas_limit,
                    timestamp,
                    pubkey,
                }) && value.well_formed(),
                Err(e) => (ValidatorRegistration {
                    fee_recipient,
                    gas_limit,
                    timestamp,
                    pubkey,
                }).violation() == Some(e),
            },
    {
        let value = ValidatorRegistration { fee_recipient, gas_limit, timestamp, pubkey };
        match value.validate() {
            Ok(_) => Ok(value),
            Err(e) => Err(e),
        }
    }

    /// Checks the lengths that the schema declares, without hashing anything.
    pub fn validate(&self) -> (result: Result<(), SigningRootError>)
        ensures
            match result {
                Ok(_) => self.well_formed(),
                Err(e) => self.violation() == Some(e),
            },
    {
        match check_fixed_len(
            self.fee_recipient.as_slice(),
            FEE_RECIPIENT_LEN,
            SchemaField::FeeRecipient,
        ) {
            Ok(_) => {},
            Err(e) => {
                return Err(e);
            },
        }
        match check_fixed_len(self.pubkey.as_slice(), PUBKEY_LEN, SchemaField::Pubkey) {
            Ok(_) => {},
            Err(e) => {
                return Err(e);
            },
        }
        Ok(())
    }

    /// The hash tree root, or what is wrong with the first field that breaks the
    /// schema.
    pub fn checked_root(&self) -> (result: Result<Hash256, SigningRootError>)
        ensures
            match result {
                Ok(root) => self.well_formed() && root@ == self.root_spec(),
                Err(e) => self.violation() == Some(e),
            },
    {
        let fee_recipient_root: Hash256 = match hash_fixed_bytes(
            self.fee_recipient.as_slice(),
            FEE_RECIPIENT_LEN,
            SchemaField::FeeRecipient,
        ) {
            Ok(root) => root,
            Err(e) => {
                return Err(e);
            },
        };
        let gas_limit_root: Hash256 = encode_u64(self.gas_limit);
        let timestamp_root: Hash256 = encode_u64(self.timestamp);
        let pubkey_root: Hash256 = match hash_fixed_bytes(
            self.pubkey.as_slice(),
            PUBKEY_LEN,
            SchemaField::Pubkey,
        ) {
            Ok(root) => root,
            Err(e) => {
                return Err(e);
            },
        };
        let roots: [Hash256; 4] = [fee_recipient_root, gas_limit_root, timestamp_root, pubkey_root];
        assert(node_views(roots@) =~= seq![
            byte_vector_root(self.fee_recipient@),
            u64_chunk(self.gas_limit),
            u64_chunk(self.timestamp),
            byte_vector_root(self.pubkey@),
        ]);
        Ok(hash_container(&roots))
    }
}

impl TreeHash for ValidatorRegistration {
    open spec fn schema_error(&self) -> Option<SigningRootError> {
        self.violation()
    }

    open spec fn htr(&self) -> Seq<u8> {
        self.root_spec()
    }

    fn hash_tree_root(&self) -> (result: Result<Hash256, SigningRootError>) {
        self.checked_root()
    }
}

/// The block root that a member of the sync committee signs at a slot.
#[derive(Clone, Debug, PartialEq, Eq, Default)]
pub struct SyncCommitteeMessage {
    pub beacon_block_root: Hash256,
    pub slot: u64,
}

impl SyncCommitteeMessage {
    /// The hash tree root: the root of the roots of the fields, in declared order.
    pub open spec fn root_spec(&self) -> Seq<u8> {
        container_root(
            seq![
                self.beacon_block_root@,
                u64_chunk(self.slot),
            ],
        )
    }

    /// The hash tree root, which every value of this type has.
    pub fn root(&self) -> (root: Hash256)
        ensures
            root@ == self.root_spec(),
    {
        let beacon_block_root_root: Hash256 = self.beacon_block_root;
        let slot_root: Hash256 = encode_u64(self.slot);
        let roots: [Hash256; 2] = [beacon_block_root_root, slot_root];
        assert(node_views(roots@) =~= seq![
            self.beacon_block_root@,
            u64_chunk(self.slot),
        ]);
        hash_container(&roots)
    }
}

impl TreeHash for SyncCommitteeMessage {
    open spec fn schema_error(&self) -> Option<SigningRootError> {
        None
    }

    open spec fn htr(&self) -> Seq<u8> {
        self.root_spec()
    }

    fn hash_tree_root(&self) -> (result: Result<Hash256, SigningRootError>) {
        Ok(self.root())
    }
}

/// What a validator signs to prove that it aggregates for a subcommittee.
#[derive(Clone, Debug, PartialEq, Eq, Default)]
pub struct SyncAggregatorSelectionData {
    pub slot: u64,
    pub subcommittee_index: u64,
}

impl SyncAggregatorSelectionData {
    /// The hash tree root: the root of the roots of the fields, in declared order.
    pub open spec fn root_spec(&self) -> Seq<u8> {
        container_root(
            seq![
                u64_chunk(self.slot),
                u64_chunk(self.subcommittee_index),
            ],
        )
    }

    /// The hash tree root, which every value of this type has.
    pub fn root(&self) -> (root: Hash256)
        ensures
            root@ == self.root_spec(),
    {
        let slot_root: Hash256 = encode_u64(self.slot);
        let subcommittee_index_root: Hash256 = encode_u64(self.subcommittee_index);
        let roots: [Hash256; 2] = [slot_root, subcommittee_index_root];
        assert(node_views(roots@) =~= seq![
            u64_chunk(self.slot),
            u64_chunk(self.subcommittee_index),
        ]);
        hash_container(&roots)
    }
}

impl TreeHash for SyncAggregatorSelectionData {
    open spec fn schema_error(&self) -> Option<SigningRootError> {
        None
    }

    open spec fn htr(&self) -> Seq<u8> {
        self.root_spec()
    }

    fn hash_tree_root(&self) -> (result: Result<Hash256, SigningRootError>) {
        Ok(self.root())
    }
}

/// The signatures of a sync subcommittee, aggregated.
#[derive(Clone, Debug, PartialEq, Eq, Default)]
pub struct SyncCommitteeContribution {
    pub slot: u64,
    pub beacon_block_root: Hash256,
    pub subcommittee_index: u64,
    /// A serialized bit list of up to `SYNC_SUBCOMMITTEE_SIZE` bits.
    pub aggregation_bits: Vec<u8>,
    /// `SIGNATURE_LEN` bytes.
    pub signature: Vec<u8>,
}

impl SyncCommitteeContribution {
    /// The hash tree root: the root of the roots of the fields, in declared order.
    pub open spec fn root_spec(&self) -> Seq<u8> {
        container_root(
            seq![
                u64_chunk(self.slot),
                self.beacon_block_root@,
                u64_chunk(self.subcommittee_index),
                bitlist_root(self.aggregation_bits@, SYNC_SUBCOMMITTEE_SIZE as nat),
                byte_vector_root(self.signature@),
            ],
        )
    }

    /// What is wrong with the first field, in declared order, that breaks the
    /// schema.
    pub open spec fn violation(&self) -> Option<SigningRootError> {
        first_violation(
            bitlist_violation(
                SchemaField::AggregationBits,
                SYNC_SUBCOMMITTEE_SIZE,
                self.aggregation_bits@,
            ),
            fixed_len_violation(SchemaField::Signature, SIGNATURE_LEN, self.signature@.len()),
        )
    }

    /// The value keeps the schema: its hash tree root exists.
    pub open spec fn well_formed(&self) -> bool {
        self.violation() is None
    }

    /// Puts a value together from its fields, if they keep the schema.
    pub fn new(
        slot: u64,
        beacon_block_root: Hash256,
        subcommittee_index: u64,
        aggregation_bits: Vec<u8>,
        signature: Vec<u8>,
    ) -> (result: Result<Self, SigningRootError>)
        ensures
            match result {
                Ok(value) => value == (SyncCommitteeContribution {
                    slot,
                    beacon_block_root,
                    subcommittee_index,
                    aggregation_bits,
                    signature,
                }) && value.well_formed(),
                Err(e) => (SyncCommitteeContribution {
                    slot,
                    beacon_block_root,
                    subcommittee_index,
                    aggregation_bits,
                    signature,
                }).violation() == Some(e),
            },
    {
        let value = SyncCommitteeContribution {
            slot,
            beacon_block_root,
            subcommittee_index,
            aggregation_bits,
            signature,
        };
        match value.validate() {
            Ok(_) => Ok(value),
            Err(e) => Err(e),
        }
    }

    /// Checks the lengths that the schema declares, without hashing anything.
    pub fn validate(&self) -> (result: Result<(), SigningRootError>)
        ensures
            match result {
                Ok(_) => self.well_formed(),
                Err(e) => self.violation() == Some(e),
            },
    {
        match read_bitlist_len(
            self.aggregation_bits.as_slice(),
            SYNC_SUBCOMMITTEE_SIZE,
            SchemaField::AggregationBits,
        ) {
            Ok(_) => {},
            Err(e) => {
                return Err(e);
            },
        }
        match check_fixed_len(self.signature.as_slice(), SIGNATURE_LEN, SchemaField::Signature) {
            Ok(_) => {},
            Err(e) => {
                return Err(e);
            },
        }
        Ok(())
    }

    /// The hash tree root, or what is wrong with the first field that breaks the
    /// schema.
    pub fn checked_root(&self) -> (result: Result<Hash256, SigningRootError>)
        ensures
            match result {
                Ok(root) => self.well_formed() && root@ == self.root_spec(),
                Err(e) => self.violation() == Some(e),
            },
    {
        let slot_root: Hash256 = encode_u64(self.slot);
        let beacon_block_root_root: Hash256 = self.beacon_block_root;
        let subcommittee_index_root: Hash256 = encode_u64(self.subcommittee_index);
        let aggregation_bits_root: Hash256 = match hash_bitlist(
            self.aggregation_bits.as_slice(),
            SYNC_SUBCOMMITTEE_SIZE,
            SchemaField::AggregationBits,
        ) {
            Ok(root) => root,
            Err(e) => {
                return Err(e);
            },
        };
        let signature_root: Hash256 = match hash_fixed_bytes(
            self.signature.as_slice(),
            SIGNATURE_LEN,
            SchemaField::Signature,
        ) {
            Ok(root) => root,
            Err(e) => {
                return Err(e);
            },
        };
        let roots: [Hash256; 5] = [
            slot_root,
            beacon_block_root_root,
            subcommittee_index_root,
            aggregation_bits_root,
            signature_root,
        ];
        assert(node_views(roots@) =~= seq![
            u64_chunk(self.slot),
            self.beacon_block_root@,
            u64_chunk(self.subcommittee_index),
            bitlist_root(self.aggregation_bits@, SYNC_SUBCOMMITTEE_SIZE as nat),
            byte_vector_root(self.signature@),
        ]);
        Ok(hash_container(&roots))
    }
}

impl TreeHash for SyncCommitteeContribution {
    open spec fn schema_error(&self) -> Option<SigningRootError> {
        self.violation()
    }

    open spec fn htr(&self) -> Seq<u8> {
        self.root_spec()
    }

    fn hash_tree_root(&self) -> (result: Result<Hash256, SigningRootError>) {
        self.checked_root()
    }
}

/// A contribution, with the proof that its sender was to aggregate.
#[derive(Clone, Debug, PartialEq, Eq, Default)]
pub struct ContributionAndProof {
    pub aggregator_index: u64,
    pub contribution: SyncCommitteeContribution,
    /// `SIGNATURE_LEN` bytes.
    pub selection_proof: Vec<u8>,
}

impl ContributionAndProof {
    /// The hash tree root: the root of the roots of the fields, in declared order.
    pub open spec fn root_spec(&self) -> Seq<u8> {
        container_root(
            seq![
                u64_chunk(self.aggregator_index),
                self.contribution.root_spec(),
                byte_vector_root(self.selection_proof@),
            ],
        )
    }

    /// What is wrong with the first field, in declared order, that breaks the
    /// schema.
    pub open spec fn violation(&self) -> Option<SigningRootError> {
        first_violation(
            self.contribution.violation(),
            fixed_len_violation(
                SchemaField::SelectionProof,
                SIGNATURE_LEN,
                self.selection_proof@.len(),
            ),
        )
    }

    /// The value keeps the schema: its hash tree root exists.
    pub open spec fn well_formed(&self) -> bool {
        self.violation() is None
    }

    /// Puts a value together from its fields, if they keep the schema.
    pub fn new(
        aggregator_index: u64,
        contribution: SyncCommitteeContribution,
        selection_proof: Vec<u8>,
    ) -> (result: Result<Self, SigningRootError>)
        ensures
            match result {
                Ok(value) => value == (ContributionAndProof {
                    aggregator_index,
                    contribution,
                    selection_proof,
                }) && value.well_formed(),
                Err(e) => (ContributionAndProof {
                    aggregator_index,
                    contribution,
                    selection_proof,
                }).violation() == Some(e),
            },
    {
        let value = ContributionAndProof { aggregator_index, contribution, selection_proof };
        match value.validate() {
            Ok(_) => Ok(value),
            Err(e) => Err(e),
        }
    }

    /// Checks the lengths that the schema declares, without hashing anything.
    pub fn validate(&self) -> (result: Result<(), SigningRootError>)
        ensures
            match result {
                Ok(_) => self.well_formed(),
                Err(e) => self.violation() == Some(e),
            },
    {
        match self.contribution.validate() {
            Ok(_) => {},
            Err(e) => {
                return Err(e);
            },
        }
        match check_fixed_len(
            self.selection_proof.as_slice(),
            SIGNATURE_LEN,
            SchemaField::SelectionProof,
        ) {
            Ok(_) => {},
            Err(e) => {
                return Err(e);
            },
        }
        Ok(())
    }

    /// The hash tree root, or what is wrong with the first field that breaks the
    /// schema.
    pub fn checked_root(&self) -> (result: Result<Hash256, SigningRootError>)
        ensures
            match result {
                Ok(root) => self.well_formed() && root@ == self.root_spec(),
                Err(e) => self.violation() == Some(e),
            },
    {
        let aggregator_index_root: Hash256 = encode_u64(self.aggregator_index);
        let contribution_root: Hash256 = match self.contribution.checked_root() {
            Ok(root) => root,
            Err(e) => {
                return Err(e);
            },
        };
        let selection_proof_root: Hash256 = match hash_fixed_bytes(
            self.selection_proof.as_slice(),
            SIGNATURE_LEN,
            SchemaField::SelectionProof,
        ) {
            Ok(root) => root,
            Err(e) => {
                return Err(e);
            },
        };
        let roots: [Hash256; 3] = [aggregator_index_root, contribution_root, selection_proof_root];
        assert(node_views(roots@) =~= seq![
            u64_chunk(self.aggregator_index),
            self.contribution.root_spec(),
            byte_vector_root(self.selection_proof@),
        ]);
        Ok(hash_container(&roots))
    }
}

impl TreeHash for ContributionAndProof {
    open spec fn schema_error(&self) -> Option<SigningRootError> {
        self.violation()
    }

    open spec fn htr(&self) -> Seq<u8> {
        self.root_spec()
    }

    fn hash_tree_root(&self) -> (result: Result<Hash256, SigningRootError>) {
        self.checked_root()
    }
}

} // verus!
