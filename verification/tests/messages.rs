use signing_root_util::encode::encode_u64;
use signing_root_util::hash::hash_nodes;
use signing_root_util::tree_hash::{hash_bitlist, hash_container, hash_fixed_bytes};
use signing_root_util::{
    AggregateAndProof, AggregationSlot, Attestation, AttestationData, BeaconBlockHeader,
    Checkpoint, ContributionAndProof, DepositMessage, Hash256, RandaoReveal, SchemaField,
    SigningRootError, SyncAggregatorSelectionData, SyncCommitteeContribution,
    SyncCommitteeMessage, TreeHash, ValidatorRegistration, VoluntaryExit,
};

fn h(text: &str) -> Hash256 {
    Hash256::from_slice(&hex::decode(text).unwrap()).unwrap()
}

fn filled(byte: u8) -> Hash256 {
    Hash256([byte; 32])
}

fn signature() -> Vec<u8> {
    (0u8..96).collect()
}

fn pubkey() -> Vec<u8> {
    (100u8..148).collect()
}

fn attestation_data() -> AttestationData {
    AttestationData {
        slot: 9,
        index: 2,
        beacon_block_root: filled(0xcc),
        source: Checkpoint { epoch: 3, root: filled(0xaa) },
        target: Checkpoint { epoch: 4, root: filled(0xbb) },
    }
}

fn attestation() -> Attestation {
    Attestation {
        aggregation_bits: vec![0xff, 0x03],
        data: attestation_data(),
        signature: signature(),
    }
}

fn contribution() -> SyncCommitteeContribution {
    SyncCommitteeContribution {
        slot: 8,
        beacon_block_root: filled(0xbb),
        subcommittee_index: 3,
        aggregation_bits: vec![0x0f, 0x10],
        signature: signature(),
    }
}

fn violation(field: SchemaField, expected: usize, actual: usize) -> SigningRootError {
    SigningRootError::SchemaViolation { field, expected, actual }
}

#[test]
fn beacon_block_header_root() {
    let header = BeaconBlockHeader {
        slot: 7,
        proposer_index: 11,
        parent_root: filled(0xaa),
        state_root: filled(0xbb),
        body_root: filled(0xcc),
    };
    let expected = h("67ee7307fcb3e337f8a4b805ab9eed6eb30edb28b8cb012509323968ba9aad59");
    assert_eq!(header.root(), expected);
    assert_eq!(header.hash_tree_root(), Ok(expected));
    assert_eq!(
        header.root(),
        hash_container(&[
            encode_u64(7),
            encode_u64(11),
            filled(0xaa),
            filled(0xbb),
            filled(0xcc)
        ])
    );
}

#[test]
fn checkpoint_root() {
    let checkpoint = Checkpoint { epoch: 3, root: filled(0xaa) };
    let expected = h("f0773b4539a6bb1c2c465a8db88043db4d9e82ec3c8168b6a79fe0f00900e985");
    assert_eq!(checkpoint.root(), expected);
    assert_eq!(checkpoint.hash_tree_root(), Ok(expected));
    assert_eq!(checkpoint.root(), hash_nodes(&encode_u64(3), &filled(0xaa)));
}

#[test]
fn attestation_data_root() {
    let expected = h("5d6bb1b118c5f78f300f1a2e461f2d7fab08ea11ef4ea571410cb8d5746958d8");
    assert_eq!(attestation_data().root(), expected);
    assert_eq!(attestation_data().hash_tree_root(), Ok(expected));
}

#[test]
fn attestation_root() {
    let expected = h("e9a30f70f0e9f9c506ee5d5099afc705e52f252f5fbdcfd0a3c91d7f3f246cf2");
    assert_eq!(attestation().checked_root(), Ok(expected));
    assert_eq!(attestation().hash_tree_root(), Ok(expected));
    let by_fields = hash_container(&[
        hash_bitlist(&[0xff, 0x03], 2048, SchemaField::AggregationBits).unwrap(),
        attestation_data().root(),
        hash_fixed_bytes(&signature(), 96, SchemaField::Signature).unwrap(),
    ]);
    assert_eq!(by_fields, expected);
}

#[test]
fn attestation_with_a_short_signature_is_rejected() {
    let mut value = attestation();
    value.signature.pop();
    assert_eq!(value.hash_tree_root(), Err(violation(SchemaField::Signature, 96, 95)));
}

#[test]
fn attestation_with_malformed_bits_is_rejected() {
    let mut value = attestation();
    value.aggregation_bits = vec![];
    assert_eq!(value.hash_tree_root(), Err(SigningRootError::VectorConversionError));
    value.aggregation_bits = vec![0xff, 0x00];
    assert_eq!(value.hash_tree_root(), Err(SigningRootError::VectorConversionError));
    value.aggregation_bits = vec![0xff; 257];
    assert_eq!(
        value.hash_tree_root(),
        Err(violation(SchemaField::AggregationBits, 2048, 2055))
    );
}

#[test]
fn the_first_field_that_breaks_the_schema_is_reported() {
    let mut value = attestation();
    value.aggregation_bits = vec![0];
    value.signature = vec![];
    assert_eq!(value.hash_tree_root(), Err(SigningRootError::VectorConversionError));
    let registration = ValidatorRegistration {
        fee_recipient: vec![1; 19],
        gas_limit: 1,
        timestamp: 2,
        pubkey: vec![1; 47],
    };
    assert_eq!(
        registration.hash_tree_root(),
        Err(violation(SchemaField::FeeRecipient, 20, 19))
    );
}

#[test]
fn aggregate_and_proof_root() {
    let mut proof = signature();
    proof.reverse();
    let value = AggregateAndProof {
        aggregator_index: 21,
        aggregate: attestation(),
        selection_proof: proof,
    };
    assert_eq!(
        value.hash_tree_root(),
        Ok(h("2d241d07c46777a404ff2177a0422d5c90aa9b70a20404ca1cf0dc6b311ec66f"))
    );
}

#[test]
fn aggregate_and_proof_reports_its_aggregate_first() {
    let mut aggregate = attestation();
    aggregate.signature.push(0);
    let value = AggregateAndProof {
        aggregator_index: 21,
        aggregate,
        selection_proof: vec![0; 3],
    };
    assert_eq!(value.hash_tree_root(), Err(violation(SchemaField::Signature, 96, 97)));
    let value = AggregateAndProof {
        aggregator_index: 21,
        aggregate: attestation(),
        selection_proof: vec![0; 3],
    };
    assert_eq!(value.hash_tree_root(), Err(violation(SchemaField::SelectionProof, 96, 3)));
}

#[test]
fn a_container_of_one_integer_is_the_chunk_of_the_integer() {
    assert_eq!(
        RandaoReveal { epoch: 5 }.root(),
        h("0500000000000000000000000000000000000000000000000000000000000000")
    );
    assert_eq!(RandaoReveal { epoch: 5 }.hash_tree_root(), Ok(encode_u64(5)));
    assert_eq!(
        AggregationSlot { slot: 6 }.root(),
        h("0600000000000000000000000000000000000000000000000000000000000000")
    );
    assert_eq!(AggregationSlot { slot: 6 }.hash_tree_root(), Ok(encode_u64(6)));
}

#[test]
fn voluntary_exit_root() {
    let exit = VoluntaryExit { epoch: 1, validator_index: 0 };
    let expected = h("16abab341fb7f370e27e4dadcf81766dd0dfd0ae64469477bb2cf6614938b2af");
    assert_eq!(exit.root(), expected);
    assert_eq!(exit.hash_tree_root(), Ok(expected));
    assert_eq!(exit.root(), hash_nodes(&encode_u64(1), &encode_u64(0)));
}

#[test]
fn swapping_the_values_of_two_fields_changes_the_root() {
    let one = VoluntaryExit { epoch: 1, validator_index: 2 };
    let other = VoluntaryExit { epoch: 2, validator_index: 1 };
    assert_ne!(one.root(), other.root());
    let message = SyncCommitteeMessage { beacon_block_root: encode_u64(8), slot: 3 };
    let selection = SyncAggregatorSelectionData { slot: 3, subcommittee_index: 8 };
    assert_ne!(message.root(), selection.root());
    assert_eq!(message.root(), hash_nodes(&encode_u64(8), &encode_u64(3)));
    assert_eq!(selection.root(), hash_nodes(&encode_u64(3), &encode_u64(8)));
}

#[test]
fn hashing_twice_gives_the_same_root() {
    let value = attestation();
    assert_eq!(value.hash_tree_root(), value.hash_tree_root());
    assert_eq!(value.hash_tree_root(), value.clone().hash_tree_root());
    let exit = VoluntaryExit { epoch: 1, validator_index: 0 };
    assert_eq!(exit.hash_tree_root(), exit.hash_tree_root());
    let mut broken = attestation();
    broken.signature.clear();
    assert_eq!(broken.hash_tree_root(), broken.hash_tree_root());
}

#[test]
fn deposit_message_root() {
    let value = DepositMessage {
        pubkey: pubkey(),
        withdrawal_credentials: filled(0xaa),
        amount: 32_000_000_000,
        genesis_fork_version: [0, 0, 16, 32],
    };
    assert_eq!(
        value.hash_tree_root(),
        Ok(h("0c6649d030785bd0b4ed8d29af154054b5d4e46485fd4a3e694836a303d9c6d6"))
    );
    let mut other = value.clone();
    other.genesis_fork_version = [0, 0, 16, 33];
    assert_ne!(other.hash_tree_root(), value.hash_tree_root());
}

#[test]
fn deposit_message_with_a_long_pubkey_is_rejected() {
    let mut key = pubkey();
    key.push(1);
    let value = DepositMessage {
        pubkey: key,
        withdrawal_credentials: filled(0xaa),
        amount: 1,
        genesis_fork_version: [0, 0, 0, 0],
    };
    assert_eq!(value.hash_tree_root(), Err(violation(SchemaField::Pubkey, 48, 49)));
}

#[test]
fn validator_registration_root() {
    let value = ValidatorRegistration {
        fee_recipient: (0u8..20).collect(),
        gas_limit: 30_000_000,
        timestamp: 1_700_000_000,
        pubkey: pubkey(),
    };
    assert_eq!(
        value.hash_tree_root(),
        Ok(h("5ef2bfd3d3f714042659a0251a1cae80e38b9778cb229d224bb684cbe5e4628a"))
    );
}

#[test]
fn validator_registration_with_a_wrong_pubkey_is_rejected() {
    let value = ValidatorRegistration {
        fee_recipient: (0u8..20).collect(),
        gas_limit: 30_000_000,
        timestamp: 1_700_000_000,
        pubkey: vec![],
    };
    assert_eq!(value.hash_tree_root(), Err(violation(SchemaField::Pubkey, 48, 0)));
}

#[test]
fn sync_committee_message_root() {
    let value = SyncCommitteeMessage { beacon_block_root: filled(0xaa), slot: 8 };
    assert_eq!(
        value.hash_tree_root(),
        Ok(h("457e799cbe6b1540f35b758c4268ff73092870e5ad489eaa52cef5b1a4293d2e"))
    );
}

#[test]
fn sync_aggregator_selection_data_root() {
    let value = SyncAggregatorSelectionData { slot: 8, subcommittee_index: 3 };
    assert_eq!(
        value.hash_tree_root(),
        Ok(h("f0f8ff57de9eaec605fb7155b5d44b31a3e475f47be3b3bf2ed6359a3e3ad68e"))
    );
}

#[test]
fn sync_committee_contribution_root() {
    assert_eq!(
        contribution().hash_tree_root(),
        Ok(h("90737d3115d24592c8627c39fc944f19a02699e8033a47ef5b24d0807f2c9c1c"))
    );
}

#[test]
fn sync_committee_contribution_holds_at_most_128_bits() {
    let mut value = contribution();
    value.aggregation_bits = vec![0xff; 17];
    assert_eq!(
        value.hash_tree_root(),
        Err(violation(SchemaField::AggregationBits, 128, 135))
    );
    let mut full = vec![0xff; 16];
    full.push(1);
    value.aggregation_bits = full;
    assert!(value.hash_tree_root().is_ok());
}

#[test]
fn contribution_and_proof_root() {
    let value = ContributionAndProof {
        aggregator_index: 77,
        contribution: contribution(),
        selection_proof: signature(),
    };
    assert_eq!(
        value.hash_tree_root(),
        Ok(h("4b5a7b668aa8a2ece802f63d23cc25f51e63bb4c77b1b2a7fd9a7b4d90f7b673"))
    );
}

#[test]
fn contribution_and_proof_reports_its_contribution_first() {
    let mut inner = contribution();
    inner.signature = vec![9; 95];
    let value = ContributionAndProof {
        aggregator_index: 77,
        contribution: inner,
        selection_proof: vec![],
    };
    assert_eq!(value.hash_tree_root(), Err(violation(SchemaField::Signature, 96, 95)));
    let value = ContributionAndProof {
        aggregator_index: 77,
        contribution: contribution(),
        selection_proof: vec![],
    };
    assert_eq!(value.hash_tree_root(), Err(violation(SchemaField::SelectionProof, 96, 0)));
}

#[test]
fn default_messages_hold_zeros() {
    let header = BeaconBlockHeader::default();
    assert_eq!(header.slot, 0);
    assert_eq!(header.parent_root, Hash256::zero());
    assert_eq!(VoluntaryExit::default(), VoluntaryExit { epoch: 0, validator_index: 0 });
    assert_eq!(Attestation::default().signature, Vec::<u8>::new());
}

#[test]
fn a_message_that_keeps_the_schema_can_be_put_together() {
    let value = Attestation::new(vec![0xff, 0x03], attestation_data(), signature());
    assert_eq!(value, Ok(attestation()));
    assert_eq!(attestation().validate(), Ok(()));
    let registration = ValidatorRegistration::new((0u8..20).collect(), 1, 2, pubkey()).unwrap();
    assert_eq!(registration.fee_recipient.len(), 20);
    assert_eq!(registration.gas_limit, 1);
    assert_eq!(registration.timestamp, 2);
    assert_eq!(registration.pubkey, pubkey());
    assert_eq!(registration.validate(), Ok(()));
    let deposit = DepositMessage::new(pubkey(), filled(1), 5, [1, 2, 3, 4]).unwrap();
    assert_eq!(deposit.genesis_fork_version, [1, 2, 3, 4]);
    assert_eq!(contribution().validate(), Ok(()));
    assert_eq!(
        SyncCommitteeContribution::new(8, filled(0xbb), 3, vec![0x0f, 0x10], signature()),
        Ok(contribution())
    );
    assert_eq!(
        ContributionAndProof::new(77, contribution(), signature()).map(|v| v.aggregator_index),
        Ok(77)
    );
    assert_eq!(
        AggregateAndProof::new(21, attestation(), signature()).map(|v| v.aggregate),
        Ok(attestation())
    );
}

#[test]
fn a_message_that_breaks_the_schema_cannot_be_put_together() {
    assert_eq!(
        Attestation::new(vec![0xff, 0x03], attestation_data(), vec![1, 2, 3]),
        Err(violation(SchemaField::Signature, 96, 3))
    );
    assert_eq!(
        Attestation::new(vec![], attestation_data(), signature()),
        Err(SigningRootError::VectorConversionError)
    );
    assert_eq!(
        ValidatorRegistration::new(vec![0; 21], 1, 2, pubkey()),
        Err(violation(SchemaField::FeeRecipient, 20, 21))
    );
    assert_eq!(
        ValidatorRegistration::new(vec![0; 20], 1, 2, vec![0; 96]),
        Err(violation(SchemaField::Pubkey, 48, 96))
    );
    assert_eq!(
        DepositMessage::new(vec![], filled(1), 5, [1, 2, 3, 4]),
        Err(violation(SchemaField::Pubkey, 48, 0))
    );
    assert_eq!(
        SyncCommitteeContribution::new(8, filled(0xbb), 3, vec![0, 0], signature()),
        Err(SigningRootError::VectorConversionError)
    );
    let mut inner = contribution();
    inner.aggregation_bits = vec![0xff; 17];
    assert_eq!(
        ContributionAndProof::new(77, inner, signature()),
        Err(violation(SchemaField::AggregationBits, 128, 135))
    );
    let mut aggregate = attestation();
    aggregate.signature.clear();
    assert_eq!(
        AggregateAndProof::new(21, aggregate, signature()),
        Err(violation(SchemaField::Signature, 96, 0))
    );
}

#[test]
fn validation_and_hashing_find_the_same_fault() {
    let mut broken = attestation();
    broken.signature.push(7);
    assert_eq!(broken.validate().err(), broken.hash_tree_root().err());
    broken.aggregation_bits = vec![0];
    assert_eq!(broken.validate().err(), broken.hash_tree_root().err());
    assert_eq!(broken.validate(), Err(SigningRootError::VectorConversionError));
}
