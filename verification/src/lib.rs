//! Domain-separated signing roots for consensus messages.
//!
//! A signing root is the 32-byte digest that a validator signs. It binds the
//! Merkle root of a typed message to a domain: the kind of message, the fork
//! version in force and the identity of the chain.
//!
//! The modules, leaves first: `hash` holds the 32-byte value and the hash
//! function, `merkle` the binary trees over chunks, `encode` the chunks of
//! integers, byte strings and bit lists, `tree_hash` the roots of vectors,
//! lists and containers, `types` the messages, `domain` the fork schedule and
//! the domains, `signing` the signing root.

pub mod domain;
pub mod encode;
pub mod error;
pub mod hash;
pub mod merkle;
pub mod signing;
pub mod tree_hash;
pub mod types;

pub use domain::{compute_domain, Domain};
pub use error::{SchemaField, SigningRootError};
pub use hash::Hash256;
pub use signing::{compose_signing_root, signing_root, signing_root_in, SigningData};
pub use tree_hash::TreeHash;
pub use types::{
    AggregateAndProof, AggregationSlot, Attestation, AttestationData, BeaconBlockHeader,
    Checkpoint, ContributionAndProof, DepositMessage, DomainType, Fork, ForkInfo, RandaoReveal,
    SyncAggregatorSelectionData, SyncCommitteeContribution, SyncCommitteeMessage,
    ValidatorRegistration, VoluntaryExit,
};
