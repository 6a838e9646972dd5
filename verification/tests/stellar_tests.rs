use fusion_swap::error::LockError;
use fusion_swap::encoding::{bytes_eq, copy_bytes};
use fusion_swap::hashing::SHA256_MAX_LEN;
use fusion_swap::stellar::{
    CrossChainEscrow, DataKey, HashLock, LockState, StellarFusionContract, TimeLock,
};

const ABC_DIGEST: [u8; 32] = [
    186, 120, 22, 191, 143, 1, 207, 234, 65, 65, 64, 222, 93, 174, 34, 35, 176, 3, 97, 163, 150,
    23, 122, 156, 180, 16, 255, 97, 242, 0, 21, 173,
];
const EMPTY_DIGEST: [u8; 32] = [
    227, 176, 196, 66, 152, 252, 28, 20, 154, 251, 244, 200, 153, 111, 185, 36, 39, 174, 65, 228,
    100, 155, 147, 76, 164, 149, 153, 27, 120, 82, 184, 85,
];

fn depositor() -> Vec<u8> {
    b"resolver".to_vec()
}

fn beneficiary() -> Vec<u8> {
    b"maker".to_vec()
}

fn token() -> Vec<u8> {
    b"token".to_vec()
}

fn deposit(contract: &mut StellarFusionContract, amount: i128, duration: u64, now: u64) -> u64 {
    contract
        .create_escrow(
            depositor(),
            token(),
            amount,
            beneficiary(),
            HashLock { hash: ABC_DIGEST },
            duration,
            1,
            vec![9, 9, 9],
            now,
            true,
        )
        .unwrap()
}

#[test]
fn new_contract_is_empty() {
    let contract = StellarFusionContract::new();
    assert!(!contract.is_initialized());
    assert_eq!(contract.get_escrow_counter(), 0);
    assert_eq!(contract.get_escrow(1).unwrap_err(), LockError::EscrowNotFound);
    assert!(contract.get_secret(1).is_none());
    assert!(!contract.is_active_escrow(1, 0));
}

#[test]
fn initialize_works_once() {
    let mut contract = StellarFusionContract::new();
    assert_eq!(contract.initialize(), Ok(()));
    assert!(contract.is_initialized());
    assert_eq!(contract.get_escrow_counter(), 0);
    assert_eq!(contract.initialize(), Err(LockError::AlreadyInitialized));
    assert!(contract.is_initialized());
}

#[test]
fn initialize_keeps_the_escrows() {
    let mut contract = StellarFusionContract::new();
    assert_eq!(deposit(&mut contract, 5, 10, 0), 1);
    assert_eq!(contract.initialize(), Ok(()));
    assert_eq!(contract.get_escrow_counter(), 1);
    assert_eq!(deposit(&mut contract, 5, 10, 0), 2);
}

#[test]
fn create_escrow_stores_the_record() {
    let mut contract = StellarFusionContract::new();
    contract.initialize().unwrap();
    let id = deposit(&mut contract, 100, 3600, 1000);
    assert_eq!(id, 1);
    assert_eq!(contract.get_escrow_counter(), 1);
    let escrow = contract.get_escrow(1).unwrap();
    assert_eq!(escrow.id, 1);
    assert_eq!(escrow.token, token());
    assert_eq!(escrow.amount, 100);
    assert_eq!(escrow.depositor, depositor());
    assert_eq!(escrow.beneficiary, beneficiary());
    assert_eq!(escrow.hash_lock.hash, ABC_DIGEST);
    assert_eq!(escrow.time_lock, TimeLock { expiration: 4600 });
    assert!(!escrow.is_claimed);
    assert_eq!(escrow.src_chain_id, 1);
    assert_eq!(escrow.order_hash, vec![9, 9, 9]);
    assert!(contract.get_secret(1).is_none());
    assert!(contract.is_active_escrow(1, 1000));
}

#[test]
fn create_escrow_numbers_from_one_upward() {
    let mut contract = StellarFusionContract::new();
    for expected in 1..=5u64 {
        assert_eq!(deposit(&mut contract, 1, 1, 0), expected);
        assert_eq!(contract.get_escrow_counter(), expected);
        assert_eq!(contract.get_escrow(expected).unwrap().id, expected);
    }
    assert_eq!(contract.get_escrow(0).unwrap_err(), LockError::EscrowNotFound);
    assert_eq!(contract.get_escrow(6).unwrap_err(), LockError::EscrowNotFound);
}

#[test]
fn create_escrow_rejects_bad_input() {
    let mut contract = StellarFusionContract::new();
    let lock = HashLock { hash: ABC_DIGEST };
    assert_eq!(
        contract.create_escrow(depositor(), token(), 100, beneficiary(), lock, 10, 1, vec![], 0, false),
        Err(LockError::Unauthorized)
    );
    assert_eq!(
        contract.create_escrow(depositor(), token(), 0, beneficiary(), lock, 10, 1, vec![], 0, true),
        Err(LockError::InvalidAmount)
    );
    assert_eq!(
        contract.create_escrow(depositor(), token(), -1, beneficiary(), lock, 10, 1, vec![], 0, true),
        Err(LockError::InvalidAmount)
    );
    assert_eq!(
        contract.create_escrow(depositor(), token(), 100, beneficiary(), lock, 0, 1, vec![], 0, true),
        Err(LockError::InvalidDuration)
    );
    assert_eq!(
        contract.create_escrow(
            depositor(),
            token(),
            100,
            beneficiary(),
            lock,
            2,
            1,
            vec![],
            u64::MAX - 1,
            true
        ),
        Err(LockError::ArithmeticOverflow)
    );
    assert_eq!(contract.get_escrow_counter(), 0);
    assert_eq!(
        contract.create_escrow(
            depositor(),
            token(),
            100,
            beneficiary(),
            lock,
            1,
            1,
            vec![],
            u64::MAX - 1,
            true
        ),
        Ok(1)
    );
    assert_eq!(contract.get_escrow(1).unwrap().time_lock.expiration, u64::MAX);
}

#[test]
fn claim_with_the_secret_pays_the_beneficiary_once() {
    let mut contract = StellarFusionContract::new();
    contract.initialize().unwrap();
    let id = deposit(&mut contract, 100, 3600, 0);
    let payout = contract.claim_with_secret(id, b"abc".to_vec(), &beneficiary(), 3599, true).unwrap();
    assert_eq!(payout.amount, 100);
    assert_eq!(payout.to, beneficiary());
    assert_eq!(payout.token, token());
    assert!(contract.get_escrow(id).unwrap().is_claimed);
    assert_eq!(contract.get_secret(id), Some(&b"abc".to_vec()));
    assert!(!contract.is_active_escrow(id, 10));
    assert_eq!(
        contract.claim_with_secret(id, b"abc".to_vec(), &beneficiary(), 20, true).unwrap_err(),
        LockError::AlreadyClaimed
    );
    assert_eq!(
        contract.refund_escrow(id, &depositor(), 4000, true).unwrap_err(),
        LockError::AlreadyClaimed
    );
}

#[test]
fn refund_before_expiry_fails() {
    let mut contract = StellarFusionContract::new();
    let id = deposit(&mut contract, 100, 3600, 0);
    assert_eq!(
        contract.refund_escrow(id, &depositor(), 3599, true).unwrap_err(),
        LockError::TimelockNotExpired
    );
    assert!(!contract.get_escrow(id).unwrap().is_claimed);
    assert!(contract.is_active_escrow(id, 3599));
}

#[test]
fn refund_after_expiry_pays_the_depositor_once() {
    let mut contract = StellarFusionContract::new();
    let id = deposit(&mut contract, 100, 3600, 50);
    assert!(!contract.is_active_escrow(id, 3650));
    let payout = contract.refund_escrow(id, &depositor(), 3650, true).unwrap();
    assert_eq!(payout.amount, 100);
    assert_eq!(payout.to, depositor());
    assert_eq!(payout.token, token());
    assert!(contract.get_escrow(id).unwrap().is_claimed);
    assert!(contract.get_secret(id).is_none());
    assert_eq!(
        contract.refund_escrow(id, &depositor(), 3651, true).unwrap_err(),
        LockError::AlreadyClaimed
    );
    assert_eq!(
        contract.claim_with_secret(id, b"abc".to_vec(), &beneficiary(), 10, true).unwrap_err(),
        LockError::AlreadyClaimed
    );
}

#[test]
fn claim_rejects_what_it_must() {
    let mut contract = StellarFusionContract::new();
    let id = deposit(&mut contract, 100, 3600, 0);
    assert_eq!(
        contract.claim_with_secret(id, b"abc".to_vec(), &beneficiary(), 10, false).unwrap_err(),
        LockError::Unauthorized
    );
    assert_eq!(
        contract.claim_with_secret(7, b"abc".to_vec(), &beneficiary(), 10, true).unwrap_err(),
        LockError::EscrowNotFound
    );
    assert_eq!(
        contract.claim_with_secret(0, b"abc".to_vec(), &beneficiary(), 10, true).unwrap_err(),
        LockError::EscrowNotFound
    );
    assert_eq!(
        contract.claim_with_secret(id, b"abc".to_vec(), &depositor(), 10, true).unwrap_err(),
        LockError::OnlyBeneficiary
    );
    assert_eq!(
        contract.claim_with_secret(id, b"abc".to_vec(), &beneficiary(), 3600, true).unwrap_err(),
        LockError::TimelockExpired
    );
    assert_eq!(
        contract.claim_with_secret(id, b"abd".to_vec(), &beneficiary(), 10, true).unwrap_err(),
        LockError::InvalidSecret
    );
    assert_eq!(
        contract.claim_with_secret(id, ABC_DIGEST.to_vec(), &beneficiary(), 10, true).unwrap_err(),
        LockError::InvalidSecret
    );
    assert!(!contract.get_escrow(id).unwrap().is_claimed);
    assert!(contract.get_secret(id).is_none());
    assert!(contract.claim_with_secret(id, b"abc".to_vec(), &beneficiary(), 10, true).is_ok());
}

#[test]
fn claim_with_the_empty_secret() {
    let mut contract = StellarFusionContract::new();
    let id = contract
        .create_escrow(
            depositor(),
            token(),
            1,
            beneficiary(),
            HashLock { hash: EMPTY_DIGEST },
            5,
            1,
            vec![],
            0,
            true,
        )
        .unwrap();
    assert!(contract.claim_with_secret(id, vec![], &beneficiary(), 0, true).is_ok());
    assert_eq!(contract.get_secret(id), Some(&vec![]));
}

#[test]
fn claim_with_digest_compares_the_digest_it_is_given() {
    let mut contract = StellarFusionContract::new();
    let id = deposit(&mut contract, 100, 3600, 0);
    assert_eq!(
        contract
            .claim_with_digest(id, b"abc".to_vec(), &beneficiary(), 10, true, &EMPTY_DIGEST)
            .unwrap_err(),
        LockError::InvalidSecret
    );
    let payout = contract
        .claim_with_digest(id, b"anything".to_vec(), &beneficiary(), 10, true, &ABC_DIGEST)
        .unwrap();
    assert_eq!(payout.amount, 100);
    assert_eq!(contract.get_secret(id), Some(&b"anything".to_vec()));
}

#[test]
fn refund_rejects_what_it_must() {
    let mut contract = StellarFusionContract::new();
    let id = deposit(&mut contract, 100, 3600, 0);
    assert_eq!(
        contract.refund_escrow(id, &depositor(), 3600, false).unwrap_err(),
        LockError::Unauthorized
    );
    assert_eq!(
        contract.refund_escrow(2, &depositor(), 3600, true).unwrap_err(),
        LockError::EscrowNotFound
    );
    assert_eq!(
        contract.refund_escrow(id, &beneficiary(), 3600, true).unwrap_err(),
        LockError::OnlyDepositor
    );
    assert_eq!(
        contract.refund_escrow(id, &depositor(), 0, true).unwrap_err(),
        LockError::TimelockNotExpired
    );
    assert!(contract.refund_escrow(id, &depositor(), 3600, true).is_ok());
}

#[test]
fn settling_one_escrow_leaves_the_others() {
    let mut contract = StellarFusionContract::new();
    let first = deposit(&mut contract, 10, 100, 0);
    let second = deposit(&mut contract, 20, 100, 0);
    let third = deposit(&mut contract, 30, 100, 0);
    contract.claim_with_secret(second, b"abc".to_vec(), &beneficiary(), 50, true).unwrap();
    assert!(contract.is_active_escrow(first, 50));
    assert!(!contract.is_active_escrow(second, 50));
    assert!(contract.is_active_escrow(third, 50));
    assert_eq!(contract.get_escrow(first).unwrap().amount, 10);
    assert_eq!(contract.get_escrow(third).unwrap().amount, 30);
    assert!(contract.get_secret(first).is_none());
    assert!(contract.get_secret(third).is_none());
    contract.refund_escrow(third, &depositor(), 100, true).unwrap();
    assert!(!contract.get_escrow(first).unwrap().is_claimed);
}

#[test]
fn record_claims_and_refunds_on_its_own() {
    let mut escrow = CrossChainEscrow {
        id: 4,
        token: token(),
        amount: 55,
        depositor: depositor(),
        beneficiary: beneficiary(),
        hash_lock: HashLock { hash: ABC_DIGEST },
        time_lock: TimeLock { expiration: 100 },
        is_claimed: false,
        src_chain_id: 2,
        order_hash: vec![],
    };
    assert!(escrow.is_active(99));
    assert!(!escrow.is_active(100));
    assert_eq!(escrow.refund(&depositor(), 99).unwrap_err(), LockError::TimelockNotExpired);
    assert_eq!(
        escrow.claim(&ABC_DIGEST, &beneficiary(), 100).unwrap_err(),
        LockError::TimelockExpired
    );
    let payout = escrow.claim(&ABC_DIGEST, &beneficiary(), 99).unwrap();
    assert_eq!(payout.amount, 55);
    assert_eq!(payout.to, beneficiary());
    assert!(escrow.is_claimed);
    assert!(!escrow.is_active(0));
    assert_eq!(escrow.refund(&depositor(), 100).unwrap_err(), LockError::AlreadyClaimed);
}

#[test]
fn copy_bytes_copies() {
    assert_eq!(copy_bytes(&[1, 2, 3]), vec![1, 2, 3]);
    assert_eq!(copy_bytes(&[]), Vec::<u8>::new());
}

#[test]
fn bytes_eq_compares_length_and_content() {
    assert!(bytes_eq(&[], &[]));
    assert!(bytes_eq(&[1, 2, 3], &[1, 2, 3]));
    assert!(!bytes_eq(&[1, 2, 3], &[1, 2]));
    assert!(!bytes_eq(&[1, 2], &[1, 2, 3]));
    assert!(!bytes_eq(&[1, 2, 3], &[1, 2, 4]));
    assert!(!bytes_eq(&[0, 2, 3], &[1, 2, 3]));
}

#[test]
fn open_gives_the_next_identifier() {
    let escrow = CrossChainEscrow::open(
        41,
        depositor(),
        token(),
        7,
        beneficiary(),
        HashLock { hash: ABC_DIGEST },
        60,
        3,
        vec![1],
        1000,
        true,
    )
    .unwrap();
    assert_eq!(escrow.id, 42);
    assert_eq!(escrow.time_lock.expiration, 1060);
    assert!(!escrow.is_claimed);
    assert_eq!(escrow.amount, 7);
    assert_eq!(escrow.src_chain_id, 3);
    assert_eq!(
        CrossChainEscrow::open(
            u64::MAX,
            depositor(),
            token(),
            7,
            beneficiary(),
            HashLock { hash: ABC_DIGEST },
            60,
            3,
            vec![1],
            1000,
            true,
        )
        .unwrap_err(),
        LockError::ArithmeticOverflow
    );
}

#[test]
fn data_keys_and_messages() {
    assert_eq!(DataKey::Escrow(3), DataKey::Escrow(3));
    assert_ne!(DataKey::Escrow(3), DataKey::Escrow(4));
    assert_ne!(DataKey::Init, DataKey::EscrowCounter);
    assert_eq!(LockError::AlreadyInitialized.message(), "Contract already initialized");
    assert_eq!(LockError::InvalidAmount.message(), "Amount must be positive");
    assert_eq!(LockError::InvalidDuration.message(), "Time lock duration must be positive");
    assert_eq!(LockError::EscrowNotFound.message(), "Escrow not found");
    assert_eq!(LockError::AlreadyClaimed.message(), "Escrow already claimed");
    assert_eq!(LockError::OnlyBeneficiary.message(), "Only beneficiary can claim");
    assert_eq!(LockError::TimelockExpired.message(), "Timelock has expired, use refund instead");
    assert_eq!(LockError::InvalidSecret.message(), "Invalid secret");
    assert_eq!(LockError::OnlyDepositor.message(), "Only depositor can refund");
    assert_eq!(LockError::TimelockNotExpired.message(), "Timelock has not expired yet");
}

#[test]
fn secret_longer_than_the_hash_takes_is_refused() {
    let mut contract = StellarFusionContract::new();
    let id = deposit(&mut contract, 100, 3600, 0);
    assert_eq!(
        contract
            .claim_with_secret(id, vec![7u8; SHA256_MAX_LEN + 1], &beneficiary(), 10, true)
            .unwrap_err(),
        LockError::SecretTooLong
    );
    assert_eq!(
        contract
            .claim_with_secret(id, vec![7u8; 4 * SHA256_MAX_LEN], &beneficiary(), 10, true)
            .unwrap_err(),
        LockError::SecretTooLong
    );
    assert_eq!(contract.escrow_state(id), Some(LockState::Created));
    assert_eq!(LockError::SecretTooLong.message(), "Secret too long");
}

#[test]
fn secret_of_the_greatest_length_is_tried() {
    let mut contract = StellarFusionContract::new();
    let id = deposit(&mut contract, 100, 3600, 0);
    assert_eq!(
        contract
            .claim_with_secret(id, vec![7u8; SHA256_MAX_LEN], &beneficiary(), 10, true)
            .unwrap_err(),
        LockError::InvalidSecret
    );
}

#[test]
fn state_conflict_comes_before_the_secret() {
    let mut contract = StellarFusionContract::new();
    let id = deposit(&mut contract, 100, 3600, 0);
    contract.refund_escrow(id, &depositor(), 3600, true).unwrap();
    assert_eq!(
        contract
            .claim_with_secret(id, vec![7u8; SHA256_MAX_LEN + 1], &beneficiary(), 10, true)
            .unwrap_err(),
        LockError::AlreadyClaimed
    );
    let other = deposit(&mut contract, 100, 3600, 0);
    assert_eq!(
        contract
            .claim_with_secret(other, vec![7u8; SHA256_MAX_LEN + 1], &beneficiary(), 3600, true)
            .unwrap_err(),
        LockError::TimelockExpired
    );
    assert_eq!(
        contract
            .claim_with_secret(other, vec![7u8; SHA256_MAX_LEN + 1], &depositor(), 10, true)
            .unwrap_err(),
        LockError::OnlyBeneficiary
    );
}

#[test]
fn escrow_states_follow_the_life_of_an_escrow() {
    let mut contract = StellarFusionContract::new();
    assert_eq!(contract.escrow_state(1), None);
    let claimed = deposit(&mut contract, 1, 10, 0);
    let refunded = deposit(&mut contract, 1, 10, 0);
    let held = deposit(&mut contract, 1, 10, 0);
    assert_eq!(contract.escrow_state(claimed), Some(LockState::Created));
    contract.claim_with_secret(claimed, b"abc".to_vec(), &beneficiary(), 5, true).unwrap();
    contract.refund_escrow(refunded, &depositor(), 10, true).unwrap();
    assert_eq!(contract.escrow_state(claimed), Some(LockState::Claimed));
    assert_eq!(contract.escrow_state(refunded), Some(LockState::Refunded));
    assert_eq!(contract.escrow_state(held), Some(LockState::Created));
    assert_eq!(contract.escrow_state(4), None);
    assert_eq!(contract.escrow_state(0), None);
}

#[test]
fn check_claim_leaves_the_secret_aside() {
    let escrow = CrossChainEscrow::open(
        0,
        depositor(),
        token(),
        7,
        beneficiary(),
        HashLock { hash: ABC_DIGEST },
        60,
        3,
        vec![1],
        1000,
        true,
    )
    .unwrap();
    assert_eq!(escrow.check_claim(&beneficiary(), 1059), Ok(()));
    assert_eq!(escrow.check_claim(&beneficiary(), 1060), Err(LockError::TimelockExpired));
    assert_eq!(escrow.check_claim(&depositor(), 1059), Err(LockError::OnlyBeneficiary));
}
