use signing_root_util::domain::{compose_domain, compute_fork_data_root, resolve_fork_version};
use signing_root_util::encode::encode_bytes4;
use signing_root_util::hash::hash_nodes;
use signing_root_util::{
    compute_domain, Domain, DomainType, Fork, ForkInfo, Hash256, SigningRootError,
};

fn h(text: &str) -> Hash256 {
    Hash256::from_slice(&hex::decode(text).unwrap()).unwrap()
}

fn counting() -> Hash256 {
    let mut bytes = [0u8; 32];
    for (i, byte) in bytes.iter_mut().enumerate() {
        *byte = i as u8;
    }
    Hash256(bytes)
}

fn all_domain_types() -> Vec<DomainType> {
    vec![
        DomainType::BeaconProposer,
        DomainType::BeaconAttester,
        DomainType::Randao,
        DomainType::Deposit,
        DomainType::VoluntaryExit,
        DomainType::SelectionProof,
        DomainType::AggregateAndProof,
        DomainType::ApplicationBuilder,
        DomainType::SyncCommittee,
        DomainType::SyncCommitteeSelectionProof,
        DomainType::ContributionAndProof,
        DomainType::DomainBlsToExecutionChange,
        DomainType::DomainBlobSidecar,
    ]
}

fn two_forks() -> Vec<Fork> {
    vec![
        Fork { previous_version: [0, 0, 0, 0], current_version: [0, 0, 0, 0], epoch: 0 },
        Fork { previous_version: [0, 0, 0, 0], current_version: [1, 0, 0, 0], epoch: 100 },
    ]
}

#[test]
fn domain_type_values_are_the_published_tags() {
    assert_eq!(DomainType::BeaconProposer.value(), [0, 0, 0, 0]);
    assert_eq!(DomainType::BeaconAttester.value(), [1, 0, 0, 0]);
    assert_eq!(DomainType::Randao.value(), [2, 0, 0, 0]);
    assert_eq!(DomainType::Deposit.value(), [3, 0, 0, 0]);
    assert_eq!(DomainType::VoluntaryExit.value(), [4, 0, 0, 0]);
    assert_eq!(DomainType::SelectionProof.value(), [5, 0, 0, 0]);
    assert_eq!(DomainType::AggregateAndProof.value(), [6, 0, 0, 0]);
    assert_eq!(DomainType::ApplicationBuilder.value(), [0, 0, 0, 1]);
    assert_eq!(DomainType::SyncCommittee.value(), [7, 0, 0, 0]);
    assert_eq!(DomainType::SyncCommitteeSelectionProof.value(), [8, 0, 0, 0]);
    assert_eq!(DomainType::ContributionAndProof.value(), [9, 0, 0, 0]);
    assert_eq!(DomainType::DomainBlsToExecutionChange.value(), [10, 0, 0, 0]);
    assert_eq!(DomainType::DomainBlobSidecar.value(), [11, 0, 0, 0]);
}

#[test]
fn no_two_domain_types_share_a_tag() {
    let all = all_domain_types();
    assert_eq!(all.len(), 13);
    for (i, a) in all.iter().enumerate() {
        for (j, b) in all.iter().enumerate() {
            assert_eq!(a.value() == b.value(), i == j);
            assert_eq!(a == b, i == j);
        }
    }
}

#[test]
fn the_version_changes_at_the_epoch_of_the_fork() {
    let forks = two_forks();
    assert_eq!(resolve_fork_version(&forks, 0), Ok([0, 0, 0, 0]));
    assert_eq!(resolve_fork_version(&forks, 99), Ok([0, 0, 0, 0]));
    assert_eq!(resolve_fork_version(&forks, 100), Ok([1, 0, 0, 0]));
    assert_eq!(resolve_fork_version(&forks, 101), Ok([1, 0, 0, 0]));
    assert_eq!(resolve_fork_version(&forks, u64::MAX), Ok([1, 0, 0, 0]));
}

#[test]
fn the_domain_changes_at_the_epoch_of_the_fork() {
    let forks = two_forks();
    let genesis = counting();
    let kind = DomainType::BeaconProposer;
    let before = h("00000000bb2275c49f28ad52cae6d55e34a974a58c7a3ba26f976e8ecbbe7a53");
    let after = h("000000003cae860a67932f07aafdf6c702027b38b721e2babdeacf9cc0ffd4ae");
    assert_eq!(compute_domain(&kind, 99, &forks, &genesis), Ok(before));
    assert_eq!(compute_domain(&kind, 100, &forks, &genesis), Ok(after));
    assert_eq!(compute_domain(&kind, 0, &forks, &genesis), Ok(before));
    assert_eq!(compute_domain(&kind, 5000, &forks, &genesis), Ok(after));
}

#[test]
fn before_the_first_fork_its_previous_version_is_in_force() {
    let forks = vec![
        Fork { previous_version: [9, 9, 9, 9], current_version: [1, 0, 0, 0], epoch: 10 },
        Fork { previous_version: [1, 0, 0, 0], current_version: [2, 0, 0, 0], epoch: 20 },
    ];
    assert_eq!(resolve_fork_version(&forks, 0), Ok([9, 9, 9, 9]));
    assert_eq!(resolve_fork_version(&forks, 9), Ok([9, 9, 9, 9]));
    assert_eq!(resolve_fork_version(&forks, 10), Ok([1, 0, 0, 0]));
    assert_eq!(resolve_fork_version(&forks, 19), Ok([1, 0, 0, 0]));
    assert_eq!(resolve_fork_version(&forks, 20), Ok([2, 0, 0, 0]));
    let genesis = counting();
    assert_eq!(
        compute_domain(&DomainType::BeaconAttester, 9, &forks, &genesis),
        Ok(h("010000002a6ae43075bd27d7c3179ec7085f0cbd5578def9270f44a0467acd55"))
    );
    let genesis_fork =
        [Fork { previous_version: [9, 9, 9, 9], current_version: [9, 9, 9, 9], epoch: 0 }];
    assert_eq!(
        compute_domain(&DomainType::BeaconAttester, 9, &forks, &genesis),
        compute_domain(&DomainType::BeaconAttester, 9, &genesis_fork, &genesis)
    );
}

#[test]
fn of_several_forks_at_one_epoch_the_last_counts() {
    let forks = vec![
        Fork { previous_version: [0, 0, 0, 0], current_version: [1, 0, 0, 0], epoch: 5 },
        Fork { previous_version: [1, 0, 0, 0], current_version: [2, 0, 0, 0], epoch: 5 },
        Fork { previous_version: [2, 0, 0, 0], current_version: [3, 0, 0, 0], epoch: 7 },
    ];
    assert_eq!(resolve_fork_version(&forks, 4), Ok([0, 0, 0, 0]));
    assert_eq!(resolve_fork_version(&forks, 5), Ok([2, 0, 0, 0]));
    assert_eq!(resolve_fork_version(&forks, 6), Ok([2, 0, 0, 0]));
    assert_eq!(resolve_fork_version(&forks, 7), Ok([3, 0, 0, 0]));
}

#[test]
fn an_empty_schedule_is_rejected() {
    assert_eq!(resolve_fork_version(&[], 0), Err(SigningRootError::ForkScheduleError));
    assert_eq!(
        compute_domain(&DomainType::Deposit, 0, &[], &Hash256::zero()),
        Err(SigningRootError::ForkScheduleError)
    );
}

#[test]
fn a_schedule_out_of_order_is_rejected() {
    let mut forks = two_forks();
    forks.reverse();
    assert_eq!(resolve_fork_version(&forks, 0), Err(SigningRootError::ForkScheduleError));
    assert_eq!(resolve_fork_version(&forks, 100), Err(SigningRootError::ForkScheduleError));
    assert_eq!(resolve_fork_version(&forks, 1000), Err(SigningRootError::ForkScheduleError));
    assert_eq!(
        compute_domain(&DomainType::Deposit, 100, &forks, &Hash256::zero()),
        Err(SigningRootError::ForkScheduleError)
    );
    let late = vec![
        Fork { previous_version: [0, 0, 0, 0], current_version: [1, 0, 0, 0], epoch: 1 },
        Fork { previous_version: [1, 0, 0, 0], current_version: [2, 0, 0, 0], epoch: 3 },
        Fork { previous_version: [2, 0, 0, 0], current_version: [3, 0, 0, 0], epoch: 2 },
    ];
    assert_eq!(resolve_fork_version(&late, 0), Err(SigningRootError::ForkScheduleError));
}

#[test]
fn fork_data_root_is_one_hash() {
    let genesis = Hash256::zero();
    let root = compute_fork_data_root(&[4, 0, 0, 0], &genesis);
    assert_eq!(root, h("d6e497b816c27a31acd5d9f3ed670639fef7842fee51f044dfbfb6319c760a5f"));
    assert_eq!(root, hash_nodes(&encode_bytes4(&[4, 0, 0, 0]), &genesis));
}

#[test]
fn a_domain_is_the_tag_and_28_bytes_of_the_fork_data_root() {
    let root = counting();
    let domain = compose_domain(&[0xa1, 0xa2, 0xa3, 0xa4], &root);
    assert_eq!(&domain.0[..4], &[0xa1, 0xa2, 0xa3, 0xa4]);
    assert_eq!(&domain.0[4..], &root.0[..28]);
    assert_eq!(
        compute_domain(
            &DomainType::ApplicationBuilder,
            0,
            &two_forks(),
            &Hash256::zero()
        ),
        Ok(h("00000001f5a5fd42d16a20302798ef6ed309979b43003d2320d9f0e8ea9831a9"))
    );
}

#[test]
fn the_domain_of_a_voluntary_exit() {
    let forks =
        [Fork { previous_version: [4, 0, 0, 0], current_version: [4, 0, 0, 0], epoch: 0 }];
    assert_eq!(
        compute_domain(&DomainType::VoluntaryExit, 1, &forks, &Hash256::zero()),
        Ok(h("04000000d6e497b816c27a31acd5d9f3ed670639fef7842fee51f044dfbfb631"))
    );
}

#[test]
fn domains_differ_by_kind_of_message() {
    let forks = two_forks();
    let genesis = counting();
    let all = all_domain_types();
    for (i, a) in all.iter().enumerate() {
        for (j, b) in all.iter().enumerate() {
            let first = compute_domain(a, 3, &forks, &genesis).unwrap();
            let second = compute_domain(b, 3, &forks, &genesis).unwrap();
            assert_eq!(first == second, i == j);
            assert_eq!(first.0[4..], second.0[4..]);
        }
    }
}

#[test]
fn fork_info_gives_the_domain_of_its_one_fork() {
    let info = ForkInfo {
        fork: Fork { previous_version: [1, 0, 0, 0], current_version: [2, 0, 0, 0], epoch: 10 },
        genesis_validators_root: counting(),
    };
    let kind = DomainType::BeaconProposer;
    let previous = h("000000003cae860a67932f07aafdf6c702027b38b721e2babdeacf9cc0ffd4ae");
    let current = h("0000000018f734f66b24ccccd1e79d30c51b2e6bce2e0493342bbc085faa3a27");
    assert_eq!(info.compute_domain(&kind, 0), Ok(previous));
    assert_eq!(info.compute_domain(&kind, 9), Ok(previous));
    assert_eq!(info.compute_domain(&kind, 10), Ok(current));
    assert_eq!(info.compute_domain(&kind, 11), Ok(current));
    assert_eq!(
        info.compute_domain(&kind, 10),
        compute_domain(&kind, 10, &[info.fork], &info.genesis_validators_root)
    );
}
