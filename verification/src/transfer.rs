use vstd::prelude::*;

verus! {

/// The accounts that an operation of the order escrow moves value between.
#[derive(Clone, Copy, Debug, PartialEq, Eq, Structural)]
pub enum Account {
    Maker,
    MakerReceiver,
    MakerSrcAta,
    MakerDstAta,
    Taker,
    TakerSrcAta,
    TakerDstAta,
    Escrow,
    EscrowSrcAta,
    ProtocolDstAcc,
    IntegratorDstAcc,
    Resolver,
}

/// The two assets of an order.
#[derive(Clone, Copy, Debug, PartialEq, Eq, Structural)]
pub enum Mint {
    Src,
    Dst,
}

/// One transfer for the ledger to carry out, of the native asset or of a
/// token.
#[derive(Clone, Copy, Debug, PartialEq, Eq, Structural)]
pub enum UniTransferParams {
    NativeTransfer { from: Account, to: Account, amount: u64 },
    TokenTransfer { from: Account, authority: Account, to: Account, mint: Mint, amount: u64 },
}

impl UniTransferParams {
    /// The amount that the transfer moves.
    pub open spec fn amount_spec(&self) -> u64 {
        match *self {
            UniTransferParams::NativeTransfer { amount, .. } => amount,
            UniTransferParams::TokenTransfer { amount, .. } => amount,
        }
    }

    /// The account that the transfer pays.
    pub open spec fn to_spec(&self) -> Account {
        match *self {
            UniTransferParams::NativeTransfer { to, .. } => to,
            UniTransferParams::TokenTransfer { to, .. } => to,
        }
    }

    /// The same transfer with another amount and another account to pay.
    pub open spec fn redirected(&self, to: Account, amount: u64) -> UniTransferParams {
        match *self {
            UniTransferParams::NativeTransfer { from, .. } => UniTransferParams::NativeTransfer {
                from,
                to,
                amount,
            },
            UniTransferParams::TokenTransfer {
                from,
                authority,
                mint,
                ..
            } => UniTransferParams::TokenTransfer { from, authority, to, mint, amount },
        }
    }

    /// The amount that the transfer moves.
    #[verifier::when_used_as_spec(amount_spec)]
    pub fn amount(&self) -> (r: u64)
        ensures
            r == self.amount_spec(),
    {
        match *self {
            UniTransferParams::NativeTransfer { amount, .. } => amount,
            UniTransferParams::TokenTransfer { amount, .. } => amount,
        }
    }

    /// The account that the transfer pays.
    #[verifier::when_used_as_spec(to_spec)]
    pub fn to(&self) -> (r: Account)
        ensures
            r == self.to_spec(),
    {
        match *self {
            UniTransferParams::NativeTransfer { to, .. } => to,
            UniTransferParams::TokenTransfer { to, .. } => to,
        }
    }

    /// The same transfer with another amount and another account to pay.
    pub fn redirect(&self, to: Account, amount: u64) -> (r: UniTransferParams)
        ensures
            r == self.redirected(to, amount),
    {
        match *self {
            UniTransferParams::NativeTransfer { from, .. } => UniTransferParams::NativeTransfer {
                from,
                to,
                amount,
            },
            UniTransferParams::TokenTransfer {
                from,
                authority,
                mint,
                ..
            } => UniTransferParams::TokenTransfer { from, authority, to, mint, amount },
        }
    }
}

} // verus!
