use vstd::prelude::*;

verus! {

/// The ways in which an order's terms, or the accounts handed in with them,
/// can be refused by the swap program.
#[derive(Clone, Copy, Debug, PartialEq, Eq, Structural)]
pub enum FusionError {
    InconsistentNativeSrcTrait,
    InconsistentNativeDstTrait,
    InvalidAmount,
    MissingMakerDstAta,
    NotEnoughTokensInEscrow,
    OrderExpired,
    InvalidEstimatedTakingAmount,
    InvalidProtocolSurplusFee,
    InconsistentProtocolFeeConfig,
    InconsistentIntegratorFeeConfig,
    OrderNotExpired,
    InvalidCancellationFee,
    CancelOrderByResolverIsForbidden,
    MissingTakerDstAta,
    MissingMakerSrcAta,
}

impl FusionError {
    /// The message shown to a user for this error.
    pub open spec fn message_text(&self) -> Seq<char> {
        match self {
            FusionError::InconsistentNativeSrcTrait => "Inconsistent native src trait"@,
            FusionError::InconsistentNativeDstTrait => "Inconsistent native dst trait"@,
            FusionError::InvalidAmount => "Invalid amount"@,
            FusionError::MissingMakerDstAta => "Missing maker dst ata"@,
            FusionError::NotEnoughTokensInEscrow => "Not enough tokens in escrow"@,
            FusionError::OrderExpired => "Order expired"@,
            FusionError::InvalidEstimatedTakingAmount => "Invalid estimated taking amount"@,
            FusionError::InvalidProtocolSurplusFee => "Protocol surplus fee too high"@,
            FusionError::InconsistentProtocolFeeConfig => "Inconsistent protocol fee config"@,
            FusionError::InconsistentIntegratorFeeConfig => "Inconsistent integrator fee config"@,
            FusionError::OrderNotExpired => "Order not expired"@,
            FusionError::InvalidCancellationFee => "Invalid cancellation fee"@,
            FusionError::CancelOrderByResolverIsForbidden => {
                "Cancel order by resolver is forbidden"@
            },
            FusionError::MissingTakerDstAta => "Missing taker dst ata"@,
            FusionError::MissingMakerSrcAta => "Missing maker src ata"@,
        }
    }

    /// The message shown to a user for this error.
    pub fn message(&self) -> (r: &'static str)
        ensures
            r@ == self.message_text(),
    {
        match self {
            FusionError::InconsistentNativeSrcTrait => "Inconsistent native src trait",
            FusionError::InconsistentNativeDstTrait => "Inconsistent native dst trait",
            FusionError::InvalidAmount => "Invalid amount",
            FusionError::MissingMakerDstAta => "Missing maker dst ata",
            FusionError::NotEnoughTokensInEscrow => "Not enough tokens in escrow",
            FusionError::OrderExpired => "Order expired",
            FusionError::InvalidEstimatedTakingAmount => "Invalid estimated taking amount",
            FusionError::InvalidProtocolSurplusFee => "Protocol surplus fee too high",
            FusionError::InconsistentProtocolFeeConfig => "Inconsistent protocol fee config",
            FusionError::InconsistentIntegratorFeeConfig => "Inconsistent integrator fee config",
            FusionError::OrderNotExpired => "Order not expired",
            FusionError::InvalidCancellationFee => "Invalid cancellation fee",
            FusionError::CancelOrderByResolverIsForbidden => {
                "Cancel order by resolver is forbidden"
            },
            FusionError::MissingTakerDstAta => "Missing taker dst ata",
            FusionError::MissingMakerSrcAta => "Missing maker src ata",
        }
    }
}

/// The one way in which the resolver whitelist refuses a caller.
#[derive(Clone, Copy, Debug, PartialEq, Eq, Structural)]
pub enum WhitelistError {
    Unauthorized,
}

impl WhitelistError {
    /// The message shown to a user for this error.
    pub open spec fn message_text(&self) -> Seq<char> {
        "Unauthorized"@
    }

    /// The message shown to a user for this error.
    pub fn message(&self) -> (r: &'static str)
        ensures
            r@ == self.message_text(),
    {
        "Unauthorized"
    }
}

/// Why an operation of the order escrow failed. A failed operation changes
/// nothing.
#[derive(Clone, Copy, Debug, PartialEq, Eq, Structural)]
pub enum SwapError {
    /// The order's terms or the accounts were refused.
    Fusion(FusionError),
    /// A price or fee computation left the range of 64-bit amounts.
    ArithmeticOverflow,
    /// The order's terms cannot be encoded: the auction curve holds more
    /// checkpoints than a 32-bit length can count.
    OrderNotEncodable,
    /// The maker and the fingerprint of the terms handed in do not name the
    /// escrow's custody account.
    EscrowKeyMismatch,
    /// The escrow has already been closed or cancelled.
    EscrowNotOpen,
}

/// Why an operation of the hash-time-lock escrow failed. A failed operation
/// changes nothing.
#[derive(Clone, Copy, Debug, PartialEq, Eq, Structural)]
pub enum LockError {
    /// The contract has been initialized before.
    AlreadyInitialized,
    /// The party that must authorize the call has not done so.
    Unauthorized,
    /// The amount to lock is not more than nothing.
    InvalidAmount,
    /// The time for which to lock is nothing.
    InvalidDuration,
    /// The next identifier or the expiration does not fit in 64 bits.
    ArithmeticOverflow,
    /// No escrow has the identifier.
    EscrowNotFound,
    /// The escrow has been claimed or refunded before.
    AlreadyClaimed,
    /// The claimant is not the escrow's beneficiary.
    OnlyBeneficiary,
    /// The escrow has expired and can only be refunded.
    TimelockExpired,
    /// The secret is longer than the hash function takes.
    SecretTooLong,
    /// The secret's digest is not the escrow's hash lock.
    InvalidSecret,
    /// The refunder is not the escrow's depositor.
    OnlyDepositor,
    /// The escrow has not expired and can only be claimed.
    TimelockNotExpired,
}

impl LockError {
    /// The message shown to a user for this error.
    pub open spec fn message_text(&self) -> Seq<char> {
        match self {
            LockError::AlreadyInitialized => "Contract already initialized"@,
            LockError::Unauthorized => "Unauthorized"@,
            LockError::InvalidAmount => "Amount must be positive"@,
            LockError::InvalidDuration => "Time lock duration must be positive"@,
            LockError::ArithmeticOverflow => "Arithmetic overflow"@,
            LockError::EscrowNotFound => "Escrow not found"@,
            LockError::AlreadyClaimed => "Escrow already claimed"@,
            LockError::OnlyBeneficiary => "Only beneficiary can claim"@,
            LockError::TimelockExpired => "Timelock has expired, use refund instead"@,
            LockError::SecretTooLong => "Secret too long"@,
            LockError::InvalidSecret => "Invalid secret"@,
            LockError::OnlyDepositor => "Only depositor can refund"@,
            LockError::TimelockNotExpired => "Timelock has not expired yet"@,
        }
    }

    /// The message shown to a user for this error.
    pub fn message(&self) -> (r: &'static str)
        ensures
            r@ == self.message_text(),
    {
        match self {
            LockError::AlreadyInitialized => "Contract already initialized",
            LockError::Unauthorized => "Unauthorized",
            LockError::InvalidAmount => "Amount must be positive",
            LockError::InvalidDuration => "Time lock duration must be positive",
            LockError::ArithmeticOverflow => "Arithmetic overflow",
            LockError::EscrowNotFound => "Escrow not found",
            LockError::AlreadyClaimed => "Escrow already claimed",
            LockError::OnlyBeneficiary => "Only beneficiary can claim",
            LockError::TimelockExpired => "Timelock has expired, use refund instead",
            LockError::SecretTooLong => "Secret too long",
            LockError::InvalidSecret => "Invalid secret",
            LockError::OnlyDepositor => "Only depositor can refund",
            LockError::TimelockNotExpired => "Timelock has not expired yet",
        }
    }

    /// Whether the error says that the escrow's state or the time forbids
    /// the operation.
    pub open spec fn is_state_conflict(&self) -> bool {
        *self == LockError::AlreadyClaimed || *self == LockError::TimelockExpired || *self
            == LockError::TimelockNotExpired
    }
}

} // verus!
