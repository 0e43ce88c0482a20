//! Domains: what separates the signatures of one kind of message, on one
//! fork of one chain, from all others.
//!
//! A domain is the tag of the kind of message, followed by the first 28 bytes
//! of the root of the fork version in force and the genesis validators root.

use crate::encode::{encode_bytes4, zero_padded};
use crate::error::SigningRootError;
use crate::hash::{hash_pair, Hash256};
use crate::merkle::{lemma_merkle_root_of_two, node_views};
use crate::tree_hash::{container_root, hash_container};
use crate::types::{DomainType, Fork, ForkInfo};
use vstd::prelude::*;

verus! {

/// The entries of a schedule stand in the order of their epochs.
pub open spec fn schedule_ordered(schedule: Seq<Fork>) -> bool {
    forall|i: int, j: int|
        0 <= i <= j < schedule.len() ==> schedule[i].epoch <= schedule[j].epoch
}

/// A schedule from which every epoch gets a version: it has an entry, and its
/// entries are in order.
pub open spec fn schedule_valid(schedule: Seq<Fork>) -> bool {
    schedule.len() > 0 && schedule_ordered(schedule)
}

/// The index of the latest entry that has begun by `epoch`, or -1 where none has.
pub open spec fn active_entry(schedule: Seq<Fork>, epoch: u64) -> int
    decreases schedule.len(),
{
    if schedule.len() == 0 {
        -1
    } else if schedule.last().epoch <= epoch {
        schedule.len() - 1
    } else {
        active_entry(schedule.drop_last(), epoch)
    }
}

/// The version in force at `epoch`: the current version of the latest entry
/// that has begun, or the previous version of the first entry before it begins.
pub open spec fn fork_version_at(schedule: Seq<Fork>, epoch: u64) -> Seq<u8> {
    let active = active_entry(schedule, epoch);
    if active < 0 {
        schedule[0].previous_version@
    } else {
        schedule[active].current_version@
    }
}

/// The root of a fork version together with the genesis validators root.
pub open spec fn fork_data_root(version: Seq<u8>, genesis_validators_root: Seq<u8>) -> Seq<u8> {
    container_root(seq![zero_padded(version), genesis_validators_root])
}

/// A domain: the tag, then the first 28 bytes of the fork data root.
pub open spec fn domain_bytes(tag: Seq<u8>, fork_data_root: Seq<u8>) -> Seq<u8> {
    tag + fork_data_root.subrange(0, 28)
}

/// The domain of a kind of message at an epoch of a chain.
pub open spec fn domain_at(
    domain_type: DomainType,
    epoch: u64,
    schedule: Seq<Fork>,
    genesis_validators_root: Seq<u8>,
) -> Seq<u8> {
    domain_bytes(
        domain_type.tag(),
        fork_data_root(fork_version_at(schedule, epoch), genesis_validators_root),
    )
}

/// The active entry is the last one whose epoch is at most `epoch`.
pub proof fn lemma_active_entry_is_latest(schedule: Seq<Fork>, epoch: u64)
    ensures
        -1 <= active_entry(schedule, epoch) < schedule.len(),
        active_entry(schedule, epoch) >= 0 ==> schedule[active_entry(schedule, epoch)].epoch
            <= epoch,
        forall|j: int|
            active_entry(schedule, epoch) < j < schedule.len() ==> (#[trigger] schedule[j]).epoch
                > epoch,
    decreases schedule.len(),
{
    if schedule.len() > 0 && schedule.last().epoch > epoch {
        let shorter = schedule.drop_last();
        lemma_active_entry_is_latest(shorter, epoch);
        assert forall|j: int| active_entry(schedule, epoch) < j < schedule.len() implies (
        #[trigger] schedule[j]).epoch > epoch by {
            if j < shorter.len() {
                assert(shorter[j] == schedule[j]);
            }
        }
    }
}

/// Before the first fork of a schedule begins, the previous version of that
/// fork is in force.
pub proof fn lemma_before_first_fork(schedule: Seq<Fork>, epoch: u64)
    requires
        schedule_valid(schedule),
        epoch < schedule[0].epoch,
    ensures
        fork_version_at(schedule, epoch) == schedule[0].previous_version@,
{
    lemma_active_entry_is_latest(schedule, epoch);
    let active = active_entry(schedule, epoch);
    if active >= 0 {
        assert(schedule[0].epoch <= schedule[active].epoch);
    }
}

/// At the very epoch at which a fork begins, its current version is in force.
/// Of several entries with that epoch, the last one counts.
pub proof fn lemma_at_fork_boundary(schedule: Seq<Fork>, index: int)
    requires
        schedule_valid(schedule),
        0 <= index < schedule.len(),
        forall|j: int|
            index < j < schedule.len() ==> (#[trigger] schedule[j]).epoch > schedule[index].epoch,
    ensures
        fork_version_at(schedule, schedule[index].epoch) == schedule[index].current_version@,
{
    let epoch = schedule[index].epoch;
    lemma_active_entry_is_latest(schedule, epoch);
    let active = active_entry(schedule, epoch);
    if active < index {
        assert(schedule[index].epoch > epoch);
    }
}

/// After a fork has begun and before the next one does, its current version
/// is in force.
pub proof fn lemma_between_forks(schedule: Seq<Fork>, index: int, epoch: u64)
    requires
        schedule_valid(schedule),
        0 <= index < schedule.len(),
        schedule[index].epoch <= epoch,
        forall|j: int| index < j < schedule.len() ==> (#[trigger] schedule[j]).epoch > epoch,
    ensures
        fork_version_at(schedule, epoch) == schedule[index].current_version@,
{
    lemma_active_entry_is_latest(schedule, epoch);
    let active = active_entry(schedule, epoch);
    if active < index {
        assert(schedule[index].epoch > epoch);
    }
}

/// A domain before the first fork of the schedule begins is the domain of
/// that fork's previous version; a domain at the epoch at which entry
/// `index` begins, and until a later entry begins, is the domain of that
/// entry's current version.
pub proof fn lemma_domain_follows_schedule(
    domain_type: DomainType,
    schedule: Seq<Fork>,
    index: int,
    epoch: u64,
    genesis_validators_root: Seq<u8>,
)
    requires
        schedule_valid(schedule),
        0 <= index < schedule.len(),
        forall|j: int| index < j < schedule.len() ==> (#[trigger] schedule[j]).epoch > epoch,
    ensures
        epoch < schedule[0].epoch ==> domain_at(
            domain_type,
            epoch,
            schedule,
            genesis_validators_root,
        ) == domain_bytes(
            domain_type.tag(),
            fork_data_root(schedule[0].previous_version@, genesis_validators_root),
        ),
        schedule[index].epoch <= epoch ==> domain_at(
            domain_type,
            epoch,
            schedule,
            genesis_validators_root,
        ) == domain_bytes(
            domain_type.tag(),
            fork_data_root(schedule[index].current_version@, genesis_validators_root),
        ),
{
    if epoch < schedule[0].epoch {
        lemma_before_first_fork(schedule, epoch);
    }
    if schedule[index].epoch <= epoch {
        lemma_between_forks(schedule, index, epoch);
    }
}

/// The fork data root is one hash: of the version, filled up to a chunk, and
/// the genesis validators root.
pub proof fn lemma_fork_data_root_is_pair_hash(version: Seq<u8>, genesis_validators_root: Seq<u8>)
    ensures
        fork_data_root(version, genesis_validators_root) == hash_pair(
            zero_padded(version),
            genesis_validators_root,
        ),
{
    lemma_merkle_root_of_two(zero_padded(version), genesis_validators_root);
}

/// The version in force at `epoch`, or `ForkScheduleError` where the schedule
/// is empty or out of order.
pub fn resolve_fork_version(schedule: &[Fork], epoch: u64) -> (result: Result<
    [u8; 4],
    SigningRootError,
>)
    ensures
        match result {
            Ok(version) => schedule_valid(schedule@) && version@ == fork_version_at(
                schedule@,
                epoch,
            ),
            Err(e) => !schedule_valid(schedule@) && e == SigningRootError::ForkScheduleError,
        },
{
    let len: usize = schedule.len();
    if len == 0 {
        return Err(SigningRootError::ForkScheduleError);
    }
    let mut version: [u8; 4] = if schedule[0].epoch <= epoch {
        schedule[0].current_version
    } else {
        schedule[0].previous_version
    };
    let mut i: usize = 1;
    proof {
        let first = schedule@.subrange(0, 1);
        assert(first.drop_last() =~= Seq::<Fork>::empty());
        assert(active_entry(first.drop_last(), epoch) == -1);
    }
    while i < len
        invariant
            len == schedule@.len(),
            1 <= i <= len,
            schedule_ordered(schedule@.subrange(0, i as int)),
            version@ == fork_version_at(schedule@.subrange(0, i as int), epoch),
        decreases len - i,
    {
        if schedule[i].epoch < schedule[i - 1].epoch {
            return Err(SigningRootError::ForkScheduleError);
        }
        let ghost before = schedule@.subrange(0, i as int);
        let ghost after = schedule@.subrange(0, i + 1);
        proof {
            assert(after.drop_last() =~= before);
            lemma_active_entry_is_latest(before, epoch);
            assert forall|a: int, b: int| 0 <= a <= b < after.len() implies after[a].epoch
                <= after[b].epoch by {
                if b < i {
                    assert(before[a].epoch <= before[b].epoch);
                } else if a < i {
                    assert(before[a].epoch <= before[i - 1].epoch);
                }
            }
        }
        if schedule[i].epoch <= epoch {
            version = schedule[i].current_version;
        }
        i += 1;
    }
    assert(schedule@.subrange(0, len as int) =~= schedule@);
    Ok(version)
}

/// The root of a fork version together with the genesis validators root.
pub fn compute_fork_data_root(version: &[u8; 4], genesis_validators_root: &Hash256) -> (root:
    Hash256)
    ensures
        root@ == fork_data_root(version@, genesis_validators_root@),
{
    let roots: [Hash256; 2] = [encode_bytes4(version), *genesis_validators_root];
    assert(node_views(roots@) =~= seq![zero_padded(version@), genesis_validators_root@]);
    hash_container(&roots)
}

/// Puts a domain together: the tag, then the first 28 bytes of the fork data
/// root.
pub fn compose_domain(tag: &[u8; 4], fork_data_root: &Hash256) -> (domain: Hash256)
    ensures
        domain@ == domain_bytes(tag@, fork_data_root@),
{
    let mut bytes: [u8; 32] = [0u8; 32];
    bytes[0] = tag[0];
    bytes[1] = tag[1];
    bytes[2] = tag[2];
    bytes[3] = tag[3];
    let mut j: usize = 0;
    while j < 28
        invariant
            j <= 28,
            forall|k: int| 0 <= k < 4 ==> bytes@[k] == tag@[k],
            forall|k: int| 0 <= k < j ==> bytes@[4 + k] == fork_data_root@[k],
        decreases 28 - j,
    {
        bytes[4 + j] = fork_data_root.0[j];
        j += 1;
    }
    assert(bytes@ =~= domain_bytes(tag@, fork_data_root@));
    Hash256(bytes)
}

/// The domain of a kind of message at an epoch, on the chain with the given
/// fork schedule and genesis validators root.
pub fn compute_domain(
    domain_type: &DomainType,
    epoch: u64,
    fork_schedule: &[Fork],
    genesis_validators_root: &Hash256,
) -> (result: Result<Hash256, SigningRootError>)
    ensures
        match result {
            Ok(domain) => schedule_valid(fork_schedule@) && domain@ == domain_at(
                *domain_type,
                epoch,
                fork_schedule@,
                genesis_validators_root@,
            ),
            Err(e) => !schedule_valid(fork_schedule@) && e == SigningRootError::ForkScheduleError,
        },
{
    match resolve_fork_version(fork_schedule, epoch) {
        Ok(version) => {
            let root: Hash256 = compute_fork_data_root(&version, genesis_validators_root);
            let tag: [u8; 4] = domain_type.value();
            Ok(compose_domain(&tag, &root))
        },
        Err(e) => Err(e),
    }
}

/// Something that knows the forks of a chain, and so the domain of every kind
/// of message at every epoch.
pub trait Domain {
    /// The domain of a kind of message at an epoch, or why there is none.
    spec fn domain_outcome(&self, domain_type: DomainType, epoch: u64) -> Result<
        Seq<u8>,
        SigningRootError,
    >;

    /// The domain of a kind of message at an epoch.
    fn compute_domain(&self, domain_type: &DomainType, epoch: u64) -> (result: Result<
        Hash256,
        SigningRootError,
    >)
        ensures
            match result {
                Ok(domain) => self.domain_outcome(*domain_type, epoch) == Ok::<
                    Seq<u8>,
                    SigningRootError,
                >(domain@),
                Err(e) => self.domain_outcome(*domain_type, epoch) == Err::<
                    Seq<u8>,
                    SigningRootError,
                >(e),
            },
    ;
}

impl ForkInfo {
    /// The schedule that the one fork makes: its previous version before its
    /// epoch, its current version from then on.
    pub open spec fn schedule(&self) -> Seq<Fork> {
        seq![self.fork]
    }
}

impl Domain for ForkInfo {
    open spec fn domain_outcome(&self, domain_type: DomainType, epoch: u64) -> Result<
        Seq<u8>,
        SigningRootError,
    > {
        Ok(domain_at(domain_type, epoch, self.schedule(), self.genesis_validators_root@))
    }

    fn compute_domain(&self, domain_type: &DomainType, epoch: u64) -> (result: Result<
        Hash256,
        SigningRootError,
    >) {
        let forks: [Fork; 1] = [self.fork];
        assert(forks@ =~= self.schedule());
        compute_domain(domain_type, epoch, &forks, &self.genesis_validators_root)
    }
}

} // verus!
