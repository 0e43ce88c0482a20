//! Signing roots: the root of a message, bound to a domain.

use crate::domain::{compute_domain, domain_at, schedule_valid, Domain};
use crate::error::SigningRootError;
use crate::hash::{hash_pair, sha256, Hash256};
use crate::merkle::{lemma_merkle_root_of_two, node_views};
use crate::tree_hash::{container_root, hash_container, TreeHash};
use crate::types::{DomainType, Fork};
use vstd::prelude::*;

verus! {

/// What is signed in the end: the root of a message and the domain under
/// which it is signed.
#[derive(Clone, Copy, Debug, PartialEq, Eq, Default)]
pub struct SigningData {
    pub object_root: Hash256,
    pub domain: Hash256,
}

/// The signing root of an object root under a domain.
pub open spec fn signing_data_root(object_root: Seq<u8>, domain: Seq<u8>) -> Seq<u8> {
    container_root(seq![object_root, domain])
}

impl SigningData {
    /// The hash tree root: the signing root.
    pub open spec fn root_spec(&self) -> Seq<u8> {
        signing_data_root(self.object_root@, self.domain@)
    }

    /// The hash tree root, which every value of this type has.
    pub fn root(&self) -> (root: Hash256)
        ensures
            root@ == self.root_spec(),
    {
        let roots: [Hash256; 2] = [self.object_root, self.domain];
        assert(node_views(roots@) =~= seq![self.object_root@, self.domain@]);
        hash_container(&roots)
    }
}

impl TreeHash for SigningData {
    open spec fn schema_error(&self) -> Option<SigningRootError> {
        None
    }

    open spec fn htr(&self) -> Seq<u8> {
        self.root_spec()
    }

    fn hash_tree_root(&self) -> (result: Result<Hash256, SigningRootError>) {
        Ok(self.root())
    }
}

/// The signing root of a message on a chain, or the reason why there is
/// none: what is wrong with the message comes before what is wrong with the
/// fork schedule.
pub open spec fn signing_root_outcome<M: TreeHash>(
    message: M,
    domain_type: DomainType,
    epoch: u64,
    fork_schedule: Seq<Fork>,
    genesis_validators_root: Seq<u8>,
) -> Result<Seq<u8>, SigningRootError> {
    if message.schema_error() is Some {
        Err(message.schema_error().unwrap())
    } else if !schedule_valid(fork_schedule) {
        Err(SigningRootError::ForkScheduleError)
    } else {
        Ok(
            signing_data_root(
                message.htr(),
                domain_at(domain_type, epoch, fork_schedule, genesis_validators_root),
            ),
        )
    }
}

/// The signing root of a message under whatever domain `chain` gives, or the
/// reason why there is none.
pub open spec fn signing_root_outcome_in<M: TreeHash, D: Domain>(
    message: M,
    domain_type: DomainType,
    epoch: u64,
    chain: D,
) -> Result<Seq<u8>, SigningRootError> {
    if message.schema_error() is Some {
        Err(message.schema_error().unwrap())
    } else {
        match chain.domain_outcome(domain_type, epoch) {
            Ok(domain) => Ok(signing_data_root(message.htr(), domain)),
            Err(e) => Err(e),
        }
    }
}

/// A signing root is one hash: of the object root followed by the domain.
pub proof fn lemma_signing_root_is_pair_hash(object_root: Seq<u8>, domain: Seq<u8>)
    ensures
        signing_data_root(object_root, domain) == hash_pair(object_root, domain),
        signing_data_root(object_root, domain) == sha256(object_root + domain),
{
    lemma_merkle_root_of_two(object_root, domain);
}

/// The signing root of a message that keeps the schema, on a chain with a
/// valid fork schedule, is the hash tree root of the container of two fields
/// that holds the root of the message and the domain.
pub proof fn lemma_signing_root_is_container_root<M: TreeHash>(
    message: M,
    domain_type: DomainType,
    epoch: u64,
    fork_schedule: Seq<Fork>,
    genesis_validators_root: Seq<u8>,
    data: SigningData,
)
    requires
        message.schema_error() is None,
        schedule_valid(fork_schedule),
        data.object_root@ == message.htr(),
        data.domain@ == domain_at(domain_type, epoch, fork_schedule, genesis_validators_root),
    ensures
        signing_root_outcome(message, domain_type, epoch, fork_schedule, genesis_validators_root)
            == Ok::<Seq<u8>, SigningRootError>(data.htr()),
        data.htr() == sha256(message.htr() + data.domain@),
{
    lemma_signing_root_is_pair_hash(data.object_root@, data.domain@);
}

/// The signing root of an object root under a domain.
pub fn compose_signing_root(object_root: &Hash256, domain: &Hash256) -> (root: Hash256)
    ensures
        root@ == signing_data_root(object_root@, domain@),
{
    let data = SigningData { object_root: *object_root, domain: *domain };
    data.root()
}

/// The signing root of `message`, signed as a `domain_type` at `epoch`, on
/// the chain with the given fork schedule and genesis validators root.
pub fn signing_root<M: TreeHash>(
    message: &M,
    domain_type: &DomainType,
    epoch: u64,
    fork_schedule: &[Fork],
    genesis_validators_root: &Hash256,
) -> (result: Result<Hash256, SigningRootError>)
    ensures
        match result {
            Ok(root) => signing_root_outcome(
                *message,
                *domain_type,
                epoch,
                fork_schedule@,
                genesis_validators_root@,
            ) == Ok::<Seq<u8>, SigningRootError>(root@),
            Err(e) => signing_root_outcome(
                *message,
                *domain_type,
                epoch,
                fork_schedule@,
                genesis_validators_root@,
            ) == Err::<Seq<u8>, SigningRootError>(e),
        },
{
    let object_root: Hash256 = match message.hash_tree_root() {
        Ok(root) => root,
        Err(e) => {
            return Err(e);
        },
    };
    let domain: Hash256 = match compute_domain(
        domain_type,
        epoch,
        fork_schedule,
        genesis_validators_root,
    ) {
        Ok(domain) => domain,
        Err(e) => {
            return Err(e);
        },
    };
    Ok(compose_signing_root(&object_root, &domain))
}

/// The signing root of `message`, signed as a `domain_type` at `epoch`,
/// under the domain that `chain` gives.
pub fn signing_root_in<M: TreeHash, D: Domain>(
    message: &M,
    domain_type: &DomainType,
    epoch: u64,
    chain: &D,
) -> (result: Result<Hash256, SigningRootError>)
    ensures
        match result {
            Ok(root) => signing_root_outcome_in(*message, *domain_type, epoch, *chain) == Ok::<
                Seq<u8>,
                SigningRootError,
            >(root@),
            Err(e) => signing_root_outcome_in(*message, *domain_type, epoch, *chain) == Err::<
                Seq<u8>,
                SigningRootError,
            >(e),
        },
{
    let object_root: Hash256 = match message.hash_tree_root() {
        Ok(root) => root,
        Err(e) => {
            return Err(e);
        },
    };
    let domain: Hash256 = match chain.compute_domain(domain_type, epoch) {
        Ok(domain) => domain,
        Err(e) => {
            return Err(e);
        },
    };
    Ok(compose_signing_root(&object_root, &domain))
}

} // verus!
