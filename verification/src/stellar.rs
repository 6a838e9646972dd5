use crate::error::LockError;
use crate::encoding::{bytes_eq, copy_bytes};
use crate::hashing::{sha256, sha256_digest, SHA256_MAX_LEN};
use vstd::prelude::*;

verus! {

/// The keys under which the contract keeps its state.
#[derive(Clone, Copy, Debug, PartialEq, Eq, Structural)]
pub enum DataKey {
    Init,
    Escrow(u64),
    EscrowCounter,
}

/// Where an escrow stands in its life.
#[derive(Clone, Copy, Debug, PartialEq, Eq, Structural)]
pub enum LockState {
    /// The funds are held.
    Created,
    /// The beneficiary has claimed the funds with the secret.
    Claimed,
    /// The depositor has taken the funds back after expiry.
    Refunded,
}

/// The lock that a secret opens: the SHA-256 digest of the secret.
#[derive(Clone, Copy, Debug)]
pub struct HashLock {
    pub hash: [u8; 32],
}

/// The lock that time opens: the ledger time from which the escrow can only
/// be refunded.
#[derive(Clone, Copy, Debug, PartialEq, Eq, Structural)]
pub struct TimeLock {
    pub expiration: u64,
}

/// One escrow of the destination chain. Addresses and the source order's
/// hash are held as their bytes.
#[derive(Debug)]
pub struct CrossChainEscrow {
    pub id: u64,
    pub token: Vec<u8>,
    pub amount: i128,
    /// The resolver that locked the funds.
    pub depositor: Vec<u8>,
    /// The maker who can claim them.
    pub beneficiary: Vec<u8>,
    pub hash_lock: HashLock,
    pub time_lock: TimeLock,
    /// Whether the funds have left the escrow, by a claim or by a refund.
    pub is_claimed: bool,
    pub src_chain_id: u32,
    pub order_hash: Vec<u8>,
}

/// What an escrow holds, as plain values.
pub struct EscrowView {
    pub id: u64,
    pub token: Seq<u8>,
    pub amount: i128,
    pub depositor: Seq<u8>,
    pub beneficiary: Seq<u8>,
    pub hash: Seq<u8>,
    pub expiration: u64,
    pub is_claimed: bool,
    pub src_chain_id: u32,
    pub order_hash: Seq<u8>,
}

impl View for CrossChainEscrow {
    type V = EscrowView;

    open spec fn view(&self) -> EscrowView {
        EscrowView {
            id: self.id,
            token: self.token@,
            amount: self.amount,
            depositor: self.depositor@,
            beneficiary: self.beneficiary@,
            hash: self.hash_lock.hash@,
            expiration: self.time_lock.expiration,
            is_claimed: self.is_claimed,
            src_chain_id: self.src_chain_id,
            order_hash: self.order_hash@,
        }
    }
}

/// A transfer of an escrow's funds out of custody.
#[derive(Debug)]
pub struct Payout {
    pub token: Vec<u8>,
    pub to: Vec<u8>,
    pub amount: i128,
}

/// What a payout says, as plain values.
pub struct PayoutView {
    pub token: Seq<u8>,
    pub to: Seq<u8>,
    pub amount: i128,
}

impl View for Payout {
    type V = PayoutView;

    open spec fn view(&self) -> PayoutView {
        PayoutView { token: self.token@, to: self.to@, amount: self.amount }
    }
}

impl EscrowView {
    /// The escrow once its funds have left it.
    pub open spec fn settled(self) -> EscrowView {
        EscrowView {
            id: self.id,
            token: self.token,
            amount: self.amount,
            depositor: self.depositor,
            beneficiary: self.beneficiary,
            hash: self.hash,
            expiration: self.expiration,
            is_claimed: true,
            src_chain_id: self.src_chain_id,
            order_hash: self.order_hash,
        }
    }

    /// Whether the escrow can still be claimed at `now`.
    pub open spec fn is_active(self, now: u64) -> bool {
        !self.is_claimed && now < self.expiration
    }

    /// The first reason, if there is any, for which `claimant` cannot claim
    /// the escrow at `now`, whatever the secret.
    pub open spec fn claim_blocked(self, claimant: Seq<u8>, now: u64) -> Option<LockError> {
        if self.is_claimed {
            Some(LockError::AlreadyClaimed)
        } else if claimant != self.beneficiary {
            Some(LockError::OnlyBeneficiary)
        } else if now >= self.expiration {
            Some(LockError::TimelockExpired)
        } else {
            None
        }
    }

    /// The first reason, if there is any, for which `claimant` cannot claim
    /// the escrow at `now` with a secret whose digest is `digest`.
    pub open spec fn claim_failure(self, digest: Seq<u8>, claimant: Seq<u8>, now: u64) -> Option<
        LockError,
    > {
        match self.claim_blocked(claimant, now) {
            Some(e) => Some(e),
            None => if digest != self.hash {
                Some(LockError::InvalidSecret)
            } else {
                None
            },
        }
    }

    /// The first reason, if there is any, for which `claimant` cannot claim
    /// the escrow at `now` with `secret`: a secret of more than
    /// `SHA256_MAX_LEN` bytes is too long to be tried.
    pub open spec fn secret_failure(self, secret: Seq<u8>, claimant: Seq<u8>, now: u64) -> Option<
        LockError,
    > {
        match self.claim_blocked(claimant, now) {
            Some(e) => Some(e),
            None => if secret.len() > SHA256_MAX_LEN {
                Some(LockError::SecretTooLong)
            } else if sha256_digest(secret) != self.hash {
                Some(LockError::InvalidSecret)
            } else {
                None
            },
        }
    }

    /// The first reason, if there is any, for which `refunder` cannot have
    /// the escrow refunded at `now`.
    pub open spec fn refund_failure(self, refunder: Seq<u8>, now: u64) -> Option<LockError> {
        if self.is_claimed {
            Some(LockError::AlreadyClaimed)
        } else if refunder != self.depositor {
            Some(LockError::OnlyDepositor)
        } else if now < self.expiration {
            Some(LockError::TimelockNotExpired)
        } else {
            None
        }
    }

    /// The transfer of the escrow's funds to `to`.
    pub open spec fn payout(self, to: Seq<u8>) -> PayoutView {
        PayoutView { token: self.token, to, amount: self.amount }
    }
}

/// The first reason, if there is any, for which no escrow can be created at
/// `now` after `counter` others.
pub open spec fn open_failure(
    counter: u64,
    amount: i128,
    time_lock_duration: u64,
    now: u64,
    depositor_authorized: bool,
) -> Option<LockError> {
    if !depositor_authorized {
        Some(LockError::Unauthorized)
    } else if amount <= 0 {
        Some(LockError::InvalidAmount)
    } else if time_lock_duration == 0 {
        Some(LockError::InvalidDuration)
    } else if counter == u64::MAX || now + time_lock_duration > u64::MAX {
        Some(LockError::ArithmeticOverflow)
    } else {
        None
    }
}

impl CrossChainEscrow {
    /// A new escrow, created at `now` after `counter` others: it takes the
    /// next identifier, is unclaimed and expires at
    /// `now + time_lock_duration`. Fails with the first reason that
    /// `open_failure` gives.
    pub fn open(
        counter: u64,
        depositor: Vec<u8>,
        token: Vec<u8>,
        amount: i128,
        beneficiary: Vec<u8>,
        hash_lock: HashLock,
        time_lock_duration: u64,
        src_chain_id: u32,
        order_hash: Vec<u8>,
        now: u64,
        depositor_authorized: bool,
    ) -> (r: Result<CrossChainEscrow, LockError>)
        ensures
            match open_failure(counter, amount, time_lock_duration, now, depositor_authorized) {
                Some(e) => r == Err::<CrossChainEscrow, LockError>(e),
                None => r.is_ok() && r.unwrap()@ == (EscrowView {
                    id: (counter + 1) as u64,
                    token: token@,
                    amount,
                    depositor: depositor@,
                    beneficiary: beneficiary@,
                    hash: hash_lock.hash@,
                    expiration: (now + time_lock_duration) as u64,
                    is_claimed: false,
                    src_chain_id,
                    order_hash: order_hash@,
                }),
            },
    {
        if !depositor_authorized {
            return Err(LockError::Unauthorized);
        }
        if amount <= 0 {
            return Err(LockError::InvalidAmount);
        }
        if time_lock_duration == 0 {
            return Err(LockError::InvalidDuration);
        }
        let id: u64 = match counter.checked_add(1) {
            Some(v) => v,
            None => { return Err(LockError::ArithmeticOverflow); },
        };
        let expiration: u64 = match now.checked_add(time_lock_duration) {
            Some(v) => v,
            None => { return Err(LockError::ArithmeticOverflow); },
        };
        Ok(
            CrossChainEscrow {
                id,
                token,
                amount,
                depositor,
                beneficiary,
                hash_lock,
                time_lock: TimeLock { expiration },
                is_claimed: false,
                src_chain_id,
                order_hash,
            },
        )
    }

    /// Whether the escrow can still be claimed at `now`.
    pub fn is_active(&self, now: u64) -> (r: bool)
        ensures
            r == self@.is_active(now),
    {
        !self.is_claimed && now < self.time_lock.expiration
    }

    /// Whether `claimant` can claim the escrow at `now`, given the right
    /// secret: the error is the first reason that `claim_blocked` gives.
    pub fn check_claim(&self, claimant: &[u8], now: u64) -> (r: Result<(), LockError>)
        ensures
            match self@.claim_blocked(claimant@, now) {
                Some(e) => r == Err::<(), LockError>(e),
                None => r.is_ok(),
            },
    {
        if self.is_claimed {
            return Err(LockError::AlreadyClaimed);
        }
        if !bytes_eq(claimant, self.beneficiary.as_slice()) {
            return Err(LockError::OnlyBeneficiary);
        }
        if now >= self.time_lock.expiration {
            return Err(LockError::TimelockExpired);
        }
        Ok(())
    }

    /// Claims the escrow for `claimant` at `now` with a secret whose digest
    /// is `digest`. Fails with the first reason that `claim_failure` gives
    /// and then changes nothing; else marks the escrow as claimed and gives
    /// the transfer of its funds to the beneficiary.
    pub fn claim(&mut self, digest: &[u8; 32], claimant: &[u8], now: u64) -> (r: Result<
        Payout,
        LockError,
    >)
        ensures
            match old(self)@.claim_failure(digest@, claimant@, now) {
                Some(e) => r == Err::<Payout, LockError>(e) && final(self)@ == old(self)@,
                None => r.is_ok() && r.unwrap()@ == old(self)@.payout(old(self)@.beneficiary)
                    && final(self)@ == old(self)@.settled(),
            },
    {
        match self.check_claim(claimant, now) {
            Err(e) => { return Err(e); },
            Ok(_) => {},
        }
        if !bytes_eq(digest.as_slice(), self.hash_lock.hash.as_slice()) {
            return Err(LockError::InvalidSecret);
        }
        self.is_claimed = true;
        Ok(
            Payout {
                token: copy_bytes(self.token.as_slice()),
                to: copy_bytes(self.beneficiary.as_slice()),
                amount: self.amount,
            },
        )
    }

    /// Refunds the escrow to `refunder` at `now`. Fails with the first
    /// reason that `refund_failure` gives and then changes nothing; else
    /// marks the escrow as settled and gives the transfer of its funds back
    /// to the depositor.
    pub fn refund(&mut self, refunder: &[u8], now: u64) -> (r: Result<Payout, LockError>)
        ensures
            match old(self)@.refund_failure(refunder@, now) {
                Some(e) => r == Err::<Payout, LockError>(e) && final(self)@ == old(self)@,
                None => r.is_ok() && r.unwrap()@ == old(self)@.payout(old(self)@.depositor)
                    && final(self)@ == old(self)@.settled(),
            },
    {
        if self.is_claimed {
            return Err(LockError::AlreadyClaimed);
        }
        if !bytes_eq(refunder, self.depositor.as_slice()) {
            return Err(LockError::OnlyDepositor);
        }
        if now < self.time_lock.expiration {
            return Err(LockError::TimelockNotExpired);
        }
        self.is_claimed = true;
        Ok(
            Payout {
                token: copy_bytes(self.token.as_slice()),
                to: copy_bytes(self.depositor.as_slice()),
                amount: self.amount,
            },
        )
    }
}

/// The hash-time-lock contract: its escrows, numbered from 1 in the order in
/// which they were created, and the secrets that claims have revealed.
#[derive(Debug)]
pub struct StellarFusionContract {
    initialized: bool,
    escrow_counter: u64,
    escrows: Vec<CrossChainEscrow>,
    secrets: Vec<Option<Vec<u8>>>,
}

/// What the contract holds, as plain values. The escrow with identifier `id`
/// stands at `id - 1`, and so does its secret.
pub struct ContractView {
    pub initialized: bool,
    pub escrow_counter: u64,
    pub escrows: Seq<EscrowView>,
    pub secrets: Seq<Option<Seq<u8>>>,
}

/// A revealed secret, if there is one, as plain values.
pub open spec fn secret_view(secret: Option<Vec<u8>>) -> Option<Seq<u8>> {
    match secret {
        Some(bytes) => Some(bytes@),
        None => None,
    }
}

impl ContractView {
    /// Whether an escrow has the identifier `id`.
    pub open spec fn has(self, id: u64) -> bool {
        1 <= id <= self.escrows.len()
    }

    /// The escrow with the identifier `id`.
    pub open spec fn escrow(self, id: u64) -> EscrowView
        recommends
            self.has(id),
    {
        self.escrows[id - 1]
    }

    /// Where the escrow `id` stands in its life: its funds are held, or have
    /// left it with a secret revealed, or have left it without one.
    pub open spec fn state(self, id: u64) -> LockState
        recommends
            self.has(id),
    {
        if !self.escrow(id).is_claimed {
            LockState::Created
        } else if self.secrets[id - 1].is_some() {
            LockState::Claimed
        } else {
            LockState::Refunded
        }
    }

    /// The identifiers are those from 1 to the counter, each escrow knows its
    /// own, and a secret is revealed only for an escrow whose funds have
    /// left it.
    pub open spec fn well_formed(self) -> bool {
        &&& self.escrows.len() == self.escrow_counter
        &&& self.secrets.len() == self.escrow_counter
        &&& forall|i: int| 0 <= i < self.escrows.len() ==> (#[trigger] self.escrows[i]).id == i + 1
        &&& forall|i: int|
            0 <= i < self.secrets.len() && (#[trigger] self.secrets[i]).is_some()
                ==> self.escrows[i].is_claimed
    }

    /// The first reason, if there is any, for which an escrow cannot be
    /// created at `now`.
    pub open spec fn create_failure(
        self,
        amount: i128,
        time_lock_duration: u64,
        now: u64,
        depositor_authorized: bool,
    ) -> Option<LockError> {
        open_failure(self.escrow_counter, amount, time_lock_duration, now, depositor_authorized)
    }

    /// The contract once `escrow` has been created in it.
    pub open spec fn after_create(self, escrow: EscrowView) -> ContractView {
        ContractView {
            initialized: self.initialized,
            escrow_counter: (self.escrow_counter + 1) as u64,
            escrows: self.escrows.push(escrow),
            secrets: self.secrets.push(None),
        }
    }

    /// The first reason, if there is any, for which `claimant` cannot claim
    /// the escrow `id` at `now` with a secret whose digest is `digest`.
    pub open spec fn claim_failure(
        self,
        id: u64,
        digest: Seq<u8>,
        claimant: Seq<u8>,
        now: u64,
        claimant_authorized: bool,
    ) -> Option<LockError> {
        if !claimant_authorized {
            Some(LockError::Unauthorized)
        } else if !self.has(id) {
            Some(LockError::EscrowNotFound)
        } else {
            self.escrow(id).claim_failure(digest, claimant, now)
        }
    }

    /// The first reason, if there is any, for which `claimant` cannot claim
    /// the escrow `id` at `now` with `secret`.
    pub open spec fn secret_failure(
        self,
        id: u64,
        secret: Seq<u8>,
        claimant: Seq<u8>,
        now: u64,
        claimant_authorized: bool,
    ) -> Option<LockError> {
        if !claimant_authorized {
            Some(LockError::Unauthorized)
        } else if !self.has(id) {
            Some(LockError::EscrowNotFound)
        } else {
            self.escrow(id).secret_failure(secret, claimant, now)
        }
    }

    /// The first reason, if there is any, for which `refunder` cannot have
    /// the escrow `id` refunded at `now`.
    pub open spec fn refund_failure(
        self,
        id: u64,
        refunder: Seq<u8>,
        now: u64,
        refunder_authorized: bool,
    ) -> Option<LockError> {
        if !refunder_authorized {
            Some(LockError::Unauthorized)
        } else if !self.has(id) {
            Some(LockError::EscrowNotFound)
        } else {
            self.escrow(id).refund_failure(refunder, now)
        }
    }

    /// The contract once the escrow `id` has been claimed with `secret`.
    pub open spec fn after_claim(self, id: u64, secret: Seq<u8>) -> ContractView
        recommends
            self.has(id),
    {
        ContractView {
            initialized: self.initialized,
            escrow_counter: self.escrow_counter,
            escrows: self.escrows.update(id - 1, self.escrow(id).settled()),
            secrets: self.secrets.update(id - 1, Some(secret)),
        }
    }

    /// The contract once the escrow `id` has been refunded.
    pub open spec fn after_refund(self, id: u64) -> ContractView
        recommends
            self.has(id),
    {
        ContractView {
            initialized: self.initialized,
            escrow_counter: self.escrow_counter,
            escrows: self.escrows.update(id - 1, self.escrow(id).settled()),
            secrets: self.secrets,
        }
    }
}

impl View for StellarFusionContract {
    type V = ContractView;

    closed spec fn view(&self) -> ContractView {
        ContractView {
            initialized: self.initialized,
            escrow_counter: self.escrow_counter,
            escrows: Seq::new(self.escrows@.len(), |i: int| self.escrows@[i]@),
            secrets: Seq::new(self.secrets@.len(), |i: int| secret_view(self.secrets@[i])),
        }
    }
}

impl StellarFusionContract {
    /// Whether the contract's state is well formed.
    pub open spec fn well_formed(&self) -> bool {
        self@.well_formed()
    }

    proof fn lemma_view(&self)
        ensures
            self@.initialized == self.initialized,
            self@.escrow_counter == self.escrow_counter,
            self@.escrows.len() == self.escrows@.len(),
            self@.secrets.len() == self.secrets@.len(),
            forall|i: int|
                0 <= i < self.escrows@.len() ==> #[trigger] self@.escrows[i] == self.escrows@[i]@,
            forall|i: int|
                0 <= i < self.secrets@.len() ==> #[trigger] self@.secrets[i] == secret_view(
                    self.secrets@[i],
                ),
    {
    }

    fn index_of(&self, escrow_id: u64) -> (r: Option<usize>)
        requires
            self.well_formed(),
        ensures
            match r {
                Some(index) => self@.has(escrow_id) && index == escrow_id - 1 && index
                    < self.escrows@.len() && index < self.secrets@.len(),
                None => !self@.has(escrow_id),
            },
    {
        proof {
            self.lemma_view();
        }
        let count: usize = self.escrows.len();
        if escrow_id == 0 || escrow_id > count as u64 {
            return None;
        }
        Some((escrow_id - 1) as usize)
    }

    /// A contract that has not been initialized and holds no escrow.
    pub fn new() -> (r: Self)
        ensures
            r.well_formed(),
            !r@.initialized,
            r@.escrow_counter == 0,
            r@.escrows.len() == 0,
            r@.secrets.len() == 0,
    {
        StellarFusionContract {
            initialized: false,
            escrow_counter: 0,
            escrows: Vec::new(),
            secrets: Vec::new(),
        }
    }

    /// Initializes the contract, once: fails with `AlreadyInitialized`
    /// exactly where it has been initialized before. The escrows and their
    /// counter stay as they are.
    pub fn initialize(&mut self) -> (r: Result<(), LockError>)
        ensures
            old(self)@.initialized ==> r == Err::<(), LockError>(LockError::AlreadyInitialized)
                && final(self)@ == old(self)@,
            !old(self)@.initialized ==> r.is_ok() && final(self)@ == (ContractView {
                initialized: true,
                escrow_counter: old(self)@.escrow_counter,
                escrows: old(self)@.escrows,
                secrets: old(self)@.secrets,
            }),
    {
        if self.initialized {
            return Err(LockError::AlreadyInitialized);
        }
        self.initialized = true;
        Ok(())
    }

    /// Creates an escrow at `now`, locked by `hash_lock` and for
    /// `time_lock_duration` seconds. Fails with the first reason that
    /// `create_failure` gives and then changes nothing; else stores the
    /// escrow under the next identifier, unclaimed and expiring at
    /// `now + time_lock_duration`, and returns that identifier.
    pub fn create_escrow(
        &mut self,
        depositor: Vec<u8>,
        token: Vec<u8>,
        amount: i128,
        beneficiary: Vec<u8>,
        hash_lock: HashLock,
        time_lock_duration: u64,
        src_chain_id: u32,
        order_hash: Vec<u8>,
        now: u64,
        depositor_authorized: bool,
    ) -> (r: Result<u64, LockError>)
        requires
            old(self).well_formed(),
        ensures
            final(self).well_formed(),
            match old(self)@.create_failure(amount, time_lock_duration, now, depositor_authorized) {
                Some(e) => r == Err::<u64, LockError>(e) && final(self)@ == old(self)@,
                None => r == Ok::<u64, LockError>((old(self)@.escrow_counter + 1) as u64)
                    && final(self)@ == old(self)@.after_create(
                    (EscrowView {
                        id: (old(self)@.escrow_counter + 1) as u64,
                        token: token@,
                        amount,
                        depositor: depositor@,
                        beneficiary: beneficiary@,
                        hash: hash_lock.hash@,
                        expiration: (now + time_lock_duration) as u64,
                        is_claimed: false,
                        src_chain_id,
                        order_hash: order_hash@,
                    }),
                ),
            },
    {
        let escrow = match CrossChainEscrow::open(
            self.escrow_counter,
            depositor,
            token,
            amount,
            beneficiary,
            hash_lock,
            time_lock_duration,
            src_chain_id,
            order_hash,
            now,
            depositor_authorized,
        ) {
            Ok(escrow) => escrow,
            Err(e) => { return Err(e); },
        };
        let counter: u64 = escrow.id;
        let ghost record = escrow@;
        self.escrow_counter = counter;
        self.escrows.push(escrow);
        self.secrets.push(None);
        proof {
            assert(self@.escrows =~= old(self)@.escrows.push(record));
            assert(self@.secrets =~= old(self)@.secrets.push(None));
        }
        Ok(counter)
    }

    /// Claims the escrow `escrow_id` for `claimant` at `now` with `secret`,
    /// whose digest is `digest`. Fails with the first reason that
    /// `claim_failure` gives and then changes nothing; else marks the escrow
    /// as claimed, keeps the secret for others to read, and gives the
    /// transfer of the escrow's funds to the beneficiary.
    pub fn claim_with_digest(
        &mut self,
        escrow_id: u64,
        secret: Vec<u8>,
        claimant: &[u8],
        now: u64,
        claimant_authorized: bool,
        digest: &[u8; 32],
    ) -> (r: Result<Payout, LockError>)
        requires
            old(self).well_formed(),
        ensures
            final(self).well_formed(),
            match old(self)@.claim_failure(
                escrow_id,
                digest@,
                claimant@,
                now,
                claimant_authorized,
            ) {
                Some(e) => r == Err::<Payout, LockError>(e) && final(self)@ == old(self)@,
                None => r.is_ok() && r.unwrap()@ == old(self)@.escrow(escrow_id).payout(
                    old(self)@.escrow(escrow_id).beneficiary,
                ) && final(self)@ == old(self)@.after_claim(escrow_id, secret@),
            },
    {
        if !claimant_authorized {
            return Err(LockError::Unauthorized);
        }
        let index: usize = match self.index_of(escrow_id) {
            Some(i) => i,
            None => { return Err(LockError::EscrowNotFound); },
        };
        proof {
            self.lemma_view();
        }
        let ghost before = self.escrows@;
        let ghost revealed = self.secrets@;
        let result = self.escrows[index].claim(digest, claimant, now);
        proof {
            self.lemma_view();
        }
        match result {
            Err(e) => {
                proof {
                    assert(self.escrows@[index as int]@ == before[index as int]@);
                    assert(self@.escrows =~= old(self)@.escrows);
                    assert(self@.secrets =~= old(self)@.secrets);
                }
                Err(e)
            },
            Ok(payout) => {
                let ghost shown = secret@;
                self.secrets[index] = Some(secret);
                proof {
                    self.lemma_view();
                    assert(self@.escrows =~= old(self)@.escrows.update(
                        index as int,
                        old(self)@.escrow(escrow_id).settled(),
                    ));
                    assert(self@.secrets =~= old(self)@.secrets.update(index as int, Some(shown)));
                }
                Ok(payout)
            },
        }
    }

    /// Claims the escrow `escrow_id` for `claimant` at `now` with `secret`:
    /// takes the secret's SHA-256 digest and claims with it. Fails with the
    /// first reason that `secret_failure` gives, and then changes nothing.
    pub fn claim_with_secret(
        &mut self,
        escrow_id: u64,
        secret: Vec<u8>,
        claimant: &[u8],
        now: u64,
        claimant_authorized: bool,
    ) -> (r: Result<Payout, LockError>)
        requires
            old(self).well_formed(),
        ensures
            final(self).well_formed(),
            match old(self)@.secret_failure(
                escrow_id,
                secret@,
                claimant@,
                now,
                claimant_authorized,
            ) {
                Some(e) => r == Err::<Payout, LockError>(e) && final(self)@ == old(self)@,
                None => r.is_ok() && r.unwrap()@ == old(self)@.escrow(escrow_id).payout(
                    old(self)@.escrow(escrow_id).beneficiary,
                ) && final(self)@ == old(self)@.after_claim(escrow_id, secret@),
            },
    {
        if !claimant_authorized {
            return Err(LockError::Unauthorized);
        }
        let index: usize = match self.index_of(escrow_id) {
            Some(i) => i,
            None => { return Err(LockError::EscrowNotFound); },
        };
        proof {
            self.lemma_view();
        }
        match self.escrows[index].check_claim(claimant, now) {
            Err(e) => { return Err(e); },
            Ok(_) => {},
        }
        if secret.len() > SHA256_MAX_LEN {
            return Err(LockError::SecretTooLong);
        }
        let digest: [u8; 32] = sha256(secret.as_slice());
        self.claim_with_digest(escrow_id, secret, claimant, now, claimant_authorized, &digest)
    }

    /// Refunds the escrow `escrow_id` to `refunder` at `now`. Fails with the
    /// first reason that `refund_failure` gives and then changes nothing;
    /// else marks the escrow as settled and gives the transfer of its funds
    /// back to the depositor.
    pub fn refund_escrow(
        &mut self,
        escrow_id: u64,
        refunder: &[u8],
        now: u64,
        refunder_authorized: bool,
    ) -> (r: Result<Payout, LockError>)
        requires
            old(self).well_formed(),
        ensures
            final(self).well_formed(),
            match old(self)@.refund_failure(escrow_id, refunder@, now, refunder_authorized) {
                Some(e) => r == Err::<Payout, LockError>(e) && final(self)@ == old(self)@,
                None => r.is_ok() && r.unwrap()@ == old(self)@.escrow(escrow_id).payout(
                    old(self)@.escrow(escrow_id).depositor,
                ) && final(self)@ == old(self)@.after_refund(escrow_id),
            },
    {
        if !refunder_authorized {
            return Err(LockError::Unauthorized);
        }
        let index: usize = match self.index_of(escrow_id) {
            Some(i) => i,
            None => { return Err(LockError::EscrowNotFound); },
        };
        proof {
            self.lemma_view();
        }
        let ghost before = self.escrows@;
        let result = self.escrows[index].refund(refunder, now);
        proof {
            self.lemma_view();
            assert(self@.secrets =~= old(self)@.secrets);
        }
        match result {
            Err(e) => {
                proof {
                    assert(self@.escrows =~= old(self)@.escrows);
                }
                Err(e)
            },
            Ok(payout) => {
                proof {
                    assert(self@.escrows =~= old(self)@.escrows.update(
                        index as int,
                        old(self)@.escrow(escrow_id).settled(),
                    ));
                }
                Ok(payout)
            },
        }
    }

    /// The escrow `escrow_id`, or `EscrowNotFound` where there is none.
    pub fn get_escrow(&self, escrow_id: u64) -> (r: Result<&CrossChainEscrow, LockError>)
        requires
            self.well_formed(),
        ensures
            match r {
                Ok(escrow) => self@.has(escrow_id) && escrow@ == self@.escrow(escrow_id),
                Err(e) => !self@.has(escrow_id) && e == LockError::EscrowNotFound,
            },
    {
        let index: usize = match self.index_of(escrow_id) {
            Some(i) => i,
            None => { return Err(LockError::EscrowNotFound); },
        };
        proof {
            self.lemma_view();
        }
        Ok(&self.escrows[index])
    }

    /// The secret that a claim of the escrow `escrow_id` has revealed, if
    /// there is such an escrow and it has been claimed.
    pub fn get_secret(&self, escrow_id: u64) -> (r: Option<&Vec<u8>>)
        requires
            self.well_formed(),
        ensures
            match r {
                Some(secret) => self@.has(escrow_id) && self@.secrets[escrow_id - 1] == Some(
                    secret@,
                ),
                None => !self@.has(escrow_id) || self@.secrets[escrow_id - 1].is_none(),
            },
    {
        let index: usize = match self.index_of(escrow_id) {
            Some(i) => i,
            None => { return None; },
        };
        proof {
            self.lemma_view();
        }
        self.secrets[index].as_ref()
    }

    /// Whether the escrow `escrow_id` exists and can still be claimed at
    /// `now`.
    pub fn is_active_escrow(&self, escrow_id: u64, now: u64) -> (r: bool)
        requires
            self.well_formed(),
        ensures
            r == (self@.has(escrow_id) && self@.escrow(escrow_id).is_active(now)),
    {
        let index: usize = match self.index_of(escrow_id) {
            Some(i) => i,
            None => { return false; },
        };
        proof {
            self.lemma_view();
        }
        self.escrows[index].is_active(now)
    }

    /// Where the escrow `escrow_id` stands in its life, if there is such an
    /// escrow.
    pub fn escrow_state(&self, escrow_id: u64) -> (r: Option<LockState>)
        requires
            self.well_formed(),
        ensures
            match r {
                Some(state) => self@.has(escrow_id) && state == self@.state(escrow_id),
                None => !self@.has(escrow_id),
            },
    {
        let index: usize = match self.index_of(escrow_id) {
            Some(i) => i,
            None => { return None; },
        };
        proof {
            self.lemma_view();
        }
        if !self.escrows[index].is_claimed {
            Some(LockState::Created)
        } else if self.secrets[index].is_some() {
            Some(LockState::Claimed)
        } else {
            Some(LockState::Refunded)
        }
    }

    /// The number of escrows created so far, which is the last identifier
    /// given.
    pub fn get_escrow_counter(&self) -> (r: u64)
        ensures
            r == self@.escrow_counter,
    {
        self.escrow_counter
    }

    /// Whether the contract has been initialized.
    pub fn is_initialized(&self) -> (r: bool)
        ensures
            r == self@.initialized,
    {
        self.initialized
    }
}

/// A claim is final: once an escrow has been claimed, every refund of it
/// and every further claim of it fails, whoever asks and whenever, because
/// it has been claimed already.
pub proof fn lemma_claim_is_final(
    contract: ContractView,
    id: u64,
    digest: Seq<u8>,
    claimant: Seq<u8>,
    now: u64,
    secret: Seq<u8>,
    refunder: Seq<u8>,
    next_digest: Seq<u8>,
    next_secret: Seq<u8>,
    next_claimant: Seq<u8>,
    later: u64,
)
    requires
        contract.claim_failure(id, digest, claimant, now, true).is_none(),
    ensures
        contract.after_claim(id, secret).refund_failure(id, refunder, later, true) == Some(
            LockError::AlreadyClaimed,
        ),
        contract.after_claim(id, secret).claim_failure(
            id,
            next_digest,
            next_claimant,
            later,
            true,
        ) == Some(LockError::AlreadyClaimed),
        contract.after_claim(id, secret).secret_failure(
            id,
            next_secret,
            next_claimant,
            later,
            true,
        ) == Some(LockError::AlreadyClaimed),
        LockError::AlreadyClaimed.is_state_conflict(),
{
}

/// A refund is final: once an escrow has been refunded, every claim of it
/// and every further refund of it fails, whoever asks and whenever, because
/// its funds have left it already.
pub proof fn lemma_refund_is_final(
    contract: ContractView,
    id: u64,
    refunder: Seq<u8>,
    now: u64,
    digest: Seq<u8>,
    secret: Seq<u8>,
    claimant: Seq<u8>,
    next_refunder: Seq<u8>,
    later: u64,
)
    requires
        contract.refund_failure(id, refunder, now, true).is_none(),
    ensures
        contract.after_refund(id).claim_failure(id, digest, claimant, later, true) == Some(
            LockError::AlreadyClaimed,
        ),
        contract.after_refund(id).secret_failure(id, secret, claimant, later, true) == Some(
            LockError::AlreadyClaimed,
        ),
        contract.after_refund(id).refund_failure(id, next_refunder, later, true) == Some(
            LockError::AlreadyClaimed,
        ),
        LockError::AlreadyClaimed.is_state_conflict(),
{
}

/// At no time can an escrow be both claimed and refunded: before it expires
/// a refund fails because it has not expired, from then on a claim fails
/// because it has, and once its funds have left it both fail.
pub proof fn lemma_claim_and_refund_exclude(
    contract: ContractView,
    id: u64,
    digest: Seq<u8>,
    claimant: Seq<u8>,
    refunder: Seq<u8>,
    now: u64,
)
    ensures
        contract.claim_failure(id, digest, claimant, now, true).is_some()
            || contract.refund_failure(id, refunder, now, true).is_some(),
        contract.claim_failure(id, digest, claimant, now, true).is_none() && refunder
            == contract.escrow(id).depositor ==> contract.refund_failure(id, refunder, now, true)
            == Some(LockError::TimelockNotExpired),
        contract.refund_failure(id, refunder, now, true).is_none() && claimant == contract.escrow(
            id,
        ).beneficiary ==> contract.claim_failure(id, digest, claimant, now, true) == Some(
            LockError::TimelockExpired,
        ),
{
}

/// An escrow's life has one step: only an escrow whose funds are held can be
/// claimed or refunded, a claim leaves it claimed, a refund leaves it
/// refunded, and a new escrow starts with its funds held.
pub proof fn lemma_life_of_an_escrow(
    contract: ContractView,
    id: u64,
    digest: Seq<u8>,
    secret: Seq<u8>,
    claimant: Seq<u8>,
    refunder: Seq<u8>,
    now: u64,
    created: EscrowView,
)
    requires
        contract.well_formed(),
        contract.has(id),
    ensures
        contract.claim_failure(id, digest, claimant, now, true).is_none() ==> contract.state(id)
            == LockState::Created && contract.after_claim(id, secret).state(id)
            == LockState::Claimed,
        contract.refund_failure(id, refunder, now, true).is_none() ==> contract.state(id)
            == LockState::Created && contract.after_refund(id).state(id) == LockState::Refunded,
        contract.state(id) != LockState::Created ==> contract.claim_failure(
            id,
            digest,
            claimant,
            now,
            true,
        ) == Some(LockError::AlreadyClaimed) && contract.refund_failure(id, refunder, now, true)
            == Some(LockError::AlreadyClaimed),
        !created.is_claimed && contract.escrow_counter < u64::MAX ==> contract.after_create(
            created,
        ).state((contract.escrow_counter + 1) as u64) == LockState::Created,
{
}

/// Claims and refunds keep the contract's state well formed, and change no
/// escrow but the one that they settle.
pub proof fn lemma_settling_keeps_order(contract: ContractView, id: u64, secret: Seq<u8>)
    requires
        contract.well_formed(),
        contract.has(id),
    ensures
        contract.after_claim(id, secret).well_formed(),
        contract.after_refund(id).well_formed(),
        forall|other: u64|
            contract.has(other) && other != id ==> contract.after_claim(id, secret).escrow(other)
                == contract.escrow(other) && contract.after_refund(id).escrow(other)
                == contract.escrow(other),
{
}

} // verus!
