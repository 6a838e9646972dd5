use crate::auction::{calculate_premium, lemma_premium_monotonic, lemma_premium_ramp, premium_at};
use crate::constants::BASE_1E2;
use crate::encoding::bytes_eq;
use crate::error::{FusionError, SwapError};
use crate::order::{order_encodable, order_hash, order_identity, OrderConfig};
use crate::pricing::{
    dst_amount_spec, fee_amounts_spec, get_dst_amount, get_fee_amounts, lemma_fee_split_is_exact,
};
use crate::transfer::{Account, Mint, UniTransferParams};
use vstd::prelude::*;

verus! {

/// Where an order escrow stands in its life.
#[derive(Clone, Copy, Debug, PartialEq, Eq, Structural)]
pub enum EscrowStatus {
    /// The full source amount is held.
    Created,
    /// A part of the source amount has been filled, and a part is held.
    PartiallyFilled,
    /// All of the source amount has been filled.
    Closed,
    /// The maker has taken back what was held.
    Cancelled,
    /// A resolver has returned what was held to the maker, after expiry.
    CancelledByResolver,
}

/// The custody account of one order. The maker and the order's fingerprint
/// name it.
#[derive(Clone, Copy, Debug)]
pub struct OrderEscrow {
    pub status: EscrowStatus,
    pub maker: [u8; 32],
    pub order_hash: [u8; 32],
    /// The source amount still held.
    pub amount: u64,
}

impl OrderEscrow {
    /// Whether the escrow still holds funds for its order.
    pub open spec fn is_open(&self) -> bool {
        self.status == EscrowStatus::Created || self.status == EscrowStatus::PartiallyFilled
    }

    /// An open escrow holds something, and one that is no longer open holds
    /// nothing.
    pub open spec fn well_formed(&self) -> bool {
        self.is_open() <==> self.amount > 0
    }

    /// Whether the maker `maker` and the fingerprint `identity` name this
    /// escrow.
    pub open spec fn has_key(&self, maker: [u8; 32], identity: Seq<u8>) -> bool {
        self.maker@ == maker@ && self.order_hash@ == identity
    }

    /// Whether a fill of `amount` fits the escrow: it is open, and the amount
    /// is neither nothing nor more than is held.
    pub open spec fn can_fill(&self, amount: u64) -> bool {
        self.is_open() && 0 < amount <= self.amount
    }

    /// The escrow once `amount` has left it in a fill: closed where nothing
    /// is left.
    pub open spec fn after_fill(&self, amount: u64) -> OrderEscrow
        recommends
            self.can_fill(amount),
    {
        OrderEscrow {
            status: if amount == self.amount {
                EscrowStatus::Closed
            } else {
                EscrowStatus::PartiallyFilled
            },
            maker: self.maker,
            order_hash: self.order_hash,
            amount: (self.amount - amount) as u64,
        }
    }

    /// The escrow once all that it held has been returned, in the state
    /// `status`.
    pub open spec fn emptied(&self, status: EscrowStatus) -> OrderEscrow {
        OrderEscrow { status, maker: self.maker, order_hash: self.order_hash, amount: 0 }
    }

    /// Whether the escrow still holds funds for its order.
    pub fn open(&self) -> (r: bool)
        ensures
            r == self.is_open(),
    {
        match self.status {
            EscrowStatus::Created => true,
            EscrowStatus::PartiallyFilled => true,
            _ => false,
        }
    }

    /// Whether the maker `maker` and the fingerprint `order_hash` name this
    /// escrow.
    pub fn keyed_by(&self, maker: &[u8; 32], order_hash: &[u8; 32]) -> (r: bool)
        ensures
            r == self.has_key(*maker, order_hash@),
    {
        bytes_eq(self.maker.as_slice(), maker.as_slice()) && bytes_eq(
            self.order_hash.as_slice(),
            order_hash.as_slice(),
        )
    }
}

/// The address of the mint that stands for the native asset.
pub open spec fn native_mint() -> Seq<u8> {
    seq![
        6u8, 155u8, 136u8, 87u8, 254u8, 171u8, 129u8, 132u8, 251u8, 104u8, 127u8, 99u8, 70u8,
        24u8, 192u8, 53u8, 218u8, 196u8, 57u8, 220u8, 26u8, 235u8, 59u8, 85u8, 152u8, 160u8,
        240u8, 0u8, 0u8, 0u8, 0u8, 1u8,
    ]
}

/// Calls `spl_token::native_mint::id`, as `anchor_spl::token` hands it on.
/// That function returns the address that the token program declares for the
/// native mint, `So11111111111111111111111111111111111111112`; in bytes it is
/// `native_mint()`.
#[verifier::external_body]
pub(crate) fn native_mint_id() -> (r: [u8; 32])
    ensures
        r@ == native_mint(),
{
    anchor_spl::token::spl_token::native_mint::id().to_bytes()
}

/// Whether `mint` is the mint that stands for the native asset.
pub fn is_native_mint(mint: &[u8; 32]) -> (r: bool)
    ensures
        r == (mint@ == native_mint()),
{
    let native: [u8; 32] = native_mint_id();
    bytes_eq(mint.as_slice(), native.as_slice())
}

/// What the creation of an order reads from its accounts.
#[derive(Clone, Copy, Debug)]
pub struct Create {
    pub maker: [u8; 32],
    pub maker_receiver: [u8; 32],
    pub src_mint: [u8; 32],
    pub dst_mint: [u8; 32],
    /// The lamports that the escrow's token account holds.
    pub escrow_src_ata_lamports: u64,
    /// Whether the maker's token account for the source asset is given.
    pub has_maker_src_ata: bool,
    pub protocol_dst_acc: Option<[u8; 32]>,
    pub integrator_dst_acc: Option<[u8; 32]>,
}

/// The first reason, if there is any, for which an order cannot be created
/// at `now`.
pub open spec fn create_failure(ctx: Create, order: &OrderConfig, now: i64) -> Option<
    FusionError,
> {
    if order.src_amount == 0 || order.min_dst_amount == 0 {
        Some(FusionError::InvalidAmount)
    } else if order.src_asset_is_native && ctx.src_mint@ != native_mint() {
        Some(FusionError::InconsistentNativeSrcTrait)
    } else if order.dst_asset_is_native && ctx.dst_mint@ != native_mint() {
        Some(FusionError::InconsistentNativeDstTrait)
    } else if now >= order.expiration_time {
        Some(FusionError::OrderExpired)
    } else if order.fee.surplus_percentage > BASE_1E2 {
        Some(FusionError::InvalidProtocolSurplusFee)
    } else if order.estimated_dst_amount < order.min_dst_amount {
        Some(FusionError::InvalidEstimatedTakingAmount)
    } else if (order.fee.protocol_fee > 0 || order.fee.surplus_percentage > 0)
        != ctx.protocol_dst_acc.is_some() {
        Some(FusionError::InconsistentProtocolFeeConfig)
    } else if (order.fee.integrator_fee > 0) != ctx.integrator_dst_acc.is_some() {
        Some(FusionError::InconsistentIntegratorFeeConfig)
    } else if ctx.escrow_src_ata_lamports < order.fee.max_cancellation_premium {
        Some(FusionError::InvalidCancellationFee)
    } else if order.src_asset_is_native == ctx.has_maker_src_ata {
        Some(FusionError::InconsistentNativeSrcTrait)
    } else {
        None
    }
}

/// The transfer that brings an order's source amount from the maker into the
/// escrow.
pub open spec fn deposit_transfer(order: &OrderConfig) -> UniTransferParams {
    if order.src_asset_is_native {
        UniTransferParams::NativeTransfer {
            from: Account::Maker,
            to: Account::EscrowSrcAta,
            amount: order.src_amount,
        }
    } else {
        UniTransferParams::TokenTransfer {
            from: Account::MakerSrcAta,
            authority: Account::Maker,
            to: Account::EscrowSrcAta,
            mint: Mint::Src,
            amount: order.src_amount,
        }
    }
}

/// The escrow of a newly created order.
pub open spec fn created_escrow(
    ctx: Create,
    order: &OrderConfig,
    identity: [u8; 32],
) -> OrderEscrow {
    OrderEscrow {
        status: EscrowStatus::Created,
        maker: ctx.maker,
        order_hash: identity,
        amount: order.src_amount,
    }
}

/// Checks an order's terms against the accounts handed in with them, at
/// `now`: the first reason for which the order cannot be created is the
/// error.
pub fn validate_order(ctx: &Create, order: &OrderConfig, now: i64) -> (r: Result<(), FusionError>)
    ensures
        match r {
            Ok(_) => create_failure(*ctx, order, now).is_none(),
            Err(e) => create_failure(*ctx, order, now) == Some(e),
        },
{
    if order.src_amount == 0 || order.min_dst_amount == 0 {
        return Err(FusionError::InvalidAmount);
    }
    if order.src_asset_is_native && !is_native_mint(&ctx.src_mint) {
        return Err(FusionError::InconsistentNativeSrcTrait);
    }
    if order.dst_asset_is_native && !is_native_mint(&ctx.dst_mint) {
        return Err(FusionError::InconsistentNativeDstTrait);
    }
    if now >= order.expiration_time as i64 {
        return Err(FusionError::OrderExpired);
    }
    if order.fee.surplus_percentage as u64 > BASE_1E2 {
        return Err(FusionError::InvalidProtocolSurplusFee);
    }
    if order.estimated_dst_amount < order.min_dst_amount {
        return Err(FusionError::InvalidEstimatedTakingAmount);
    }
    if (order.fee.protocol_fee > 0 || order.fee.surplus_percentage > 0)
        != ctx.protocol_dst_acc.is_some() {
        return Err(FusionError::InconsistentProtocolFeeConfig);
    }
    if (order.fee.integrator_fee > 0) != ctx.integrator_dst_acc.is_some() {
        return Err(FusionError::InconsistentIntegratorFeeConfig);
    }
    if ctx.escrow_src_ata_lamports < order.fee.max_cancellation_premium {
        return Err(FusionError::InvalidCancellationFee);
    }
    if order.src_asset_is_native == ctx.has_maker_src_ata {
        return Err(FusionError::InconsistentNativeSrcTrait);
    }
    Ok(())
}

/// Opens the escrow of an order whose fingerprint is `identity`: checks the
/// terms as `validate_order` does and gives the new escrow, which holds the
/// full source amount, with the transfer that brings that amount in.
pub fn open_escrow(ctx: &Create, order: &OrderConfig, now: i64, identity: [u8; 32]) -> (r: Result<
    (OrderEscrow, UniTransferParams),
    SwapError,
>)
    ensures
        match create_failure(*ctx, order, now) {
            Some(e) => r == Err::<(OrderEscrow, UniTransferParams), SwapError>(
                SwapError::Fusion(e),
            ),
            None => r == Ok::<(OrderEscrow, UniTransferParams), SwapError>(
                (created_escrow(*ctx, order, identity), deposit_transfer(order)),
            ),
        },
        r.is_ok() ==> r.unwrap().0.well_formed(),
{
    match validate_order(ctx, order, now) {
        Err(e) => { return Err(SwapError::Fusion(e)); },
        Ok(_) => {},
    }
    let escrow = OrderEscrow {
        status: EscrowStatus::Created,
        maker: ctx.maker,
        order_hash: identity,
        amount: order.src_amount,
    };
    let deposit = if order.src_asset_is_native {
        UniTransferParams::NativeTransfer {
            from: Account::Maker,
            to: Account::EscrowSrcAta,
            amount: order.src_amount,
        }
    } else {
        UniTransferParams::TokenTransfer {
            from: Account::MakerSrcAta,
            authority: Account::Maker,
            to: Account::EscrowSrcAta,
            mint: Mint::Src,
            amount: order.src_amount,
        }
    };
    Ok((escrow, deposit))
}

/// Creates an order at `now`: computes its fingerprint, checks its terms and
/// opens its escrow. Fails with `OrderNotEncodable` where the terms have no
/// fingerprint, else with the first reason that `create_failure` gives; on
/// success the escrow is keyed by the maker and the fingerprint, holds the
/// full source amount, and comes with the transfer that brings it in.
pub fn create(ctx: &Create, order: &OrderConfig, now: i64) -> (r: Result<
    (OrderEscrow, UniTransferParams),
    SwapError,
>)
    ensures
        !order_encodable(order) ==> r == Err::<(OrderEscrow, UniTransferParams), SwapError>(
            SwapError::OrderNotEncodable,
        ),
        order_encodable(order) ==> match create_failure(*ctx, order, now) {
            Some(e) => r == Err::<(OrderEscrow, UniTransferParams), SwapError>(
                SwapError::Fusion(e),
            ),
            None => r.is_ok() && r.unwrap().1 == deposit_transfer(order) && r.unwrap().0.status
                == EscrowStatus::Created && r.unwrap().0.amount == order.src_amount
                && r.unwrap().0.has_key(
                ctx.maker,
                order_identity(
                    order,
                    ctx.protocol_dst_acc,
                    ctx.integrator_dst_acc,
                    ctx.src_mint,
                    ctx.dst_mint,
                    ctx.maker_receiver,
                ),
            ) && r.unwrap().0.well_formed(),
        },
{
    let identity: [u8; 32] = match order_hash(
        order,
        ctx.protocol_dst_acc,
        ctx.integrator_dst_acc,
        ctx.src_mint,
        ctx.dst_mint,
        ctx.maker_receiver,
    ) {
        Ok(h) => h,
        Err(_) => { return Err(SwapError::OrderNotEncodable); },
    };
    open_escrow(ctx, order, now, identity)
}

/// What a fill reads from its accounts, with the escrow that it draws on.
#[derive(Clone, Copy, Debug)]
pub struct Fill {
    pub escrow: OrderEscrow,
    pub maker: [u8; 32],
    pub maker_receiver: [u8; 32],
    pub src_mint: [u8; 32],
    pub dst_mint: [u8; 32],
    /// Whether the maker's token account for the destination asset is given.
    pub has_maker_dst_ata: bool,
    /// Whether the taker's token account for the destination asset is given.
    pub has_taker_dst_ata: bool,
    pub protocol_dst_acc: Option<[u8; 32]>,
    pub integrator_dst_acc: Option<[u8; 32]>,
}

/// The transfers of one fill, in the order in which the ledger carries them
/// out.
#[derive(Clone, Copy, Debug, PartialEq, Eq, Structural)]
pub struct FillTransfers {
    /// The source amount that goes from the escrow to the taker.
    pub taker_amount: u64,
    /// What the taker pays to the maker.
    pub maker_payment: UniTransferParams,
    /// What the taker pays to the protocol, where it is more than nothing.
    pub protocol_payment: Option<UniTransferParams>,
    /// What the taker pays to the integrator, where it is more than nothing.
    pub integrator_payment: Option<UniTransferParams>,
    /// Whether the fill takes the last of the escrow, which is then closed.
    pub closes_escrow: bool,
}

/// The clock's reading as the unsigned number that the auction is priced at:
/// a reading below zero wraps around.
pub open spec fn clock_u64(now: i64) -> u64 {
    if now >= 0 {
        now as u64
    } else {
        (now + 0x1_0000_0000_0000_0000) as u64
    }
}

/// The shares of what a taker owes at `now` for `amount` of an order, in the
/// order protocol, integrator, maker: the amount owed is priced along the
/// auction from the minimum destination amount, and the surplus is measured
/// against the same share of the estimated destination amount. `None` where
/// one of the amounts does not fit in 64 bits or the fees exceed the whole.
pub open spec fn fill_quote(order: &OrderConfig, amount: u64, now: i64) -> Option<(u64, u64, u64)>
    recommends
        order.src_amount != 0,
{
    match dst_amount_spec(
        order.src_amount,
        order.min_dst_amount,
        amount,
        Some(&order.dutch_auction_data),
        clock_u64(now),
    ) {
        None => None,
        Some(dst_amount) => match dst_amount_spec(
            order.src_amount,
            order.estimated_dst_amount,
            amount,
            None,
            clock_u64(now),
        ) {
            None => None,
            Some(estimate) => fee_amounts_spec(
                order.fee.integrator_fee,
                order.fee.protocol_fee,
                order.fee.surplus_percentage,
                dst_amount,
                estimate,
            ),
        },
    }
}

/// What the taker pays to the maker, of the native asset or of the
/// destination token.
pub open spec fn maker_payment(order: &OrderConfig, amount: u64) -> UniTransferParams {
    if order.dst_asset_is_native {
        UniTransferParams::NativeTransfer {
            from: Account::Taker,
            to: Account::MakerReceiver,
            amount,
        }
    } else {
        UniTransferParams::TokenTransfer {
            from: Account::TakerDstAta,
            authority: Account::Taker,
            to: Account::MakerDstAta,
            mint: Mint::Dst,
            amount,
        }
    }
}

/// A payment of `amount` to `to` out of the same purse as `payment`, or none
/// where the amount is nothing.
pub open spec fn fee_payment(payment: UniTransferParams, to: Account, amount: u64) -> Option<
    UniTransferParams,
> {
    if amount > 0 {
        Some(payment.redirected(to, amount))
    } else {
        None
    }
}

/// The transfers of a fill of `amount` with the given shares, out of an
/// escrow that holds `held`.
pub open spec fn fill_transfers(
    order: &OrderConfig,
    held: u64,
    amount: u64,
    shares: (u64, u64, u64),
) -> FillTransfers {
    let to_maker = maker_payment(order, shares.2);
    FillTransfers {
        taker_amount: amount,
        maker_payment: to_maker,
        protocol_payment: fee_payment(to_maker, Account::ProtocolDstAcc, shares.0),
        integrator_payment: fee_payment(to_maker, Account::IntegratorDstAcc, shares.1),
        closes_escrow: held == amount,
    }
}

/// The first reason, if there is any, for which a fill of `amount` at `now`
/// fails, where `identity` is the fingerprint of the terms handed in.
pub open spec fn fill_failure(
    ctx: Fill,
    order: &OrderConfig,
    amount: u64,
    now: i64,
    identity: Seq<u8>,
) -> Option<SwapError> {
    if !ctx.escrow.is_open() {
        Some(SwapError::EscrowNotOpen)
    } else if !ctx.escrow.has_key(ctx.maker, identity) {
        Some(SwapError::EscrowKeyMismatch)
    } else if now >= order.expiration_time {
        Some(SwapError::Fusion(FusionError::OrderExpired))
    } else if amount > ctx.escrow.amount {
        Some(SwapError::Fusion(FusionError::NotEnoughTokensInEscrow))
    } else if amount == 0 || order.src_amount == 0 {
        Some(SwapError::Fusion(FusionError::InvalidAmount))
    } else {
        match fill_quote(order, amount, now) {
            None => Some(SwapError::ArithmeticOverflow),
            Some(shares) => if !order.dst_asset_is_native && !ctx.has_taker_dst_ata {
                Some(SwapError::Fusion(FusionError::MissingTakerDstAta))
            } else if !order.dst_asset_is_native && !ctx.has_maker_dst_ata {
                Some(SwapError::Fusion(FusionError::MissingMakerDstAta))
            } else if shares.0 > 0 && ctx.protocol_dst_acc.is_none() {
                Some(SwapError::Fusion(FusionError::InconsistentProtocolFeeConfig))
            } else if shares.1 > 0 && ctx.integrator_dst_acc.is_none() {
                Some(SwapError::Fusion(FusionError::InconsistentIntegratorFeeConfig))
            } else {
                None
            },
        }
    }
}

/// The accounts of a fill once the fill is done: the escrow has lost
/// `amount`, and nothing else has changed.
pub open spec fn fill_after(ctx: Fill, amount: u64) -> Fill {
    Fill {
        escrow: ctx.escrow.after_fill(amount),
        maker: ctx.maker,
        maker_receiver: ctx.maker_receiver,
        src_mint: ctx.src_mint,
        dst_mint: ctx.dst_mint,
        has_maker_dst_ata: ctx.has_maker_dst_ata,
        has_taker_dst_ata: ctx.has_taker_dst_ata,
        protocol_dst_acc: ctx.protocol_dst_acc,
        integrator_dst_acc: ctx.integrator_dst_acc,
    }
}

/// The clock's reading as the unsigned number that the auction is priced at.
pub fn clock_as_u64(now: i64) -> (r: u64)
    ensures
        r == clock_u64(now),
{
    if now >= 0 {
        now as u64
    } else {
        let back: u64 = (-(now + 1)) as u64;
        u64::MAX - back
    }
}

/// The shares of what a taker owes at `now` for `amount` of an order, in the
/// order protocol, integrator, maker. Fails with `ArithmeticOverflow` exactly
/// where `fill_quote` gives none.
pub fn quote_fill(order: &OrderConfig, amount: u64, now: i64) -> (r: Result<
    (u64, u64, u64),
    SwapError,
>)
    requires
        order.src_amount != 0,
    ensures
        match r {
            Ok(shares) => fill_quote(order, amount, now) == Some(shares),
            Err(e) => e == SwapError::ArithmeticOverflow && fill_quote(
                order,
                amount,
                now,
            ).is_none(),
        },
{
    let timestamp: u64 = clock_as_u64(now);
    let dst_amount: u64 = match get_dst_amount(
        order.src_amount,
        order.min_dst_amount,
        amount,
        Some(&order.dutch_auction_data),
        timestamp,
    ) {
        Ok(v) => v,
        Err(e) => { return Err(e); },
    };
    let estimate: u64 = match get_dst_amount(
        order.src_amount,
        order.estimated_dst_amount,
        amount,
        None,
        timestamp,
    ) {
        Ok(v) => v,
        Err(e) => { return Err(e); },
    };
    get_fee_amounts(
        order.fee.integrator_fee,
        order.fee.protocol_fee,
        order.fee.surplus_percentage,
        dst_amount,
        estimate,
    )
}

/// Fills `amount` of an order at `now`, where `identity` is the fingerprint
/// of the terms handed in. Fails with the first reason that `fill_failure`
/// gives and then changes nothing; else takes `amount` out of the escrow,
/// which is closed where nothing is left, and gives the transfers to carry
/// out.
pub fn settle_fill(
    ctx: &mut Fill,
    order: &OrderConfig,
    amount: u64,
    now: i64,
    identity: &[u8; 32],
) -> (r: Result<FillTransfers, SwapError>)
    ensures
        match fill_failure(*old(ctx), order, amount, now, identity@) {
            Some(e) => r == Err::<FillTransfers, SwapError>(e) && *final(ctx) == *old(ctx),
            None => r == Ok::<FillTransfers, SwapError>(
                fill_transfers(
                    order,
                    old(ctx).escrow.amount,
                    amount,
                    fill_quote(order, amount, now).unwrap(),
                ),
            ) && *final(ctx) == fill_after(*old(ctx), amount),
        },
        old(ctx).escrow.well_formed() ==> final(ctx).escrow.well_formed(),
{
    if !ctx.escrow.open() {
        return Err(SwapError::EscrowNotOpen);
    }
    if !ctx.escrow.keyed_by(&ctx.maker, identity) {
        return Err(SwapError::EscrowKeyMismatch);
    }
    if now >= order.expiration_time as i64 {
        return Err(SwapError::Fusion(FusionError::OrderExpired));
    }
    if amount > ctx.escrow.amount {
        return Err(SwapError::Fusion(FusionError::NotEnoughTokensInEscrow));
    }
    if amount == 0 || order.src_amount == 0 {
        return Err(SwapError::Fusion(FusionError::InvalidAmount));
    }
    let (protocol_fee_amount, integrator_fee_amount, maker_dst_amount) = match quote_fill(
        order,
        amount,
        now,
    ) {
        Ok(shares) => shares,
        Err(e) => { return Err(e); },
    };
    let to_maker = if order.dst_asset_is_native {
        UniTransferParams::NativeTransfer {
            from: Account::Taker,
            to: Account::MakerReceiver,
            amount: maker_dst_amount,
        }
    } else {
        if !ctx.has_taker_dst_ata {
            return Err(SwapError::Fusion(FusionError::MissingTakerDstAta));
        }
        if !ctx.has_maker_dst_ata {
            return Err(SwapError::Fusion(FusionError::MissingMakerDstAta));
        }
        UniTransferParams::TokenTransfer {
            from: Account::TakerDstAta,
            authority: Account::Taker,
            to: Account::MakerDstAta,
            mint: Mint::Dst,
            amount: maker_dst_amount,
        }
    };
    let to_protocol = if protocol_fee_amount > 0 {
        if ctx.protocol_dst_acc.is_none() {
            return Err(SwapError::Fusion(FusionError::InconsistentProtocolFeeConfig));
        }
        Some(to_maker.redirect(Account::ProtocolDstAcc, protocol_fee_amount))
    } else {
        None
    };
    let to_integrator = if integrator_fee_amount > 0 {
        if ctx.integrator_dst_acc.is_none() {
            return Err(SwapError::Fusion(FusionError::InconsistentIntegratorFeeConfig));
        }
        Some(to_maker.redirect(Account::IntegratorDstAcc, integrator_fee_amount))
    } else {
        None
    };
    let closes: bool = ctx.escrow.amount == amount;
    ctx.escrow.amount = ctx.escrow.amount - amount;
    ctx.escrow.status = if closes {
        EscrowStatus::Closed
    } else {
        EscrowStatus::PartiallyFilled
    };
    Ok(
        FillTransfers {
            taker_amount: amount,
            maker_payment: to_maker,
            protocol_payment: to_protocol,
            integrator_payment: to_integrator,
            closes_escrow: closes,
        },
    )
}

/// Fills `amount` of an order at `now`: computes the fingerprint of the
/// terms handed in and settles the fill against the escrow. Fails with
/// `OrderNotEncodable` where the terms have no fingerprint, else with the
/// first reason that `fill_failure` gives for that fingerprint; a failed fill
/// changes nothing.
pub fn fill(ctx: &mut Fill, order: &OrderConfig, amount: u64, now: i64) -> (r: Result<
    FillTransfers,
    SwapError,
>)
    ensures
        !order_encodable(order) ==> r == Err::<FillTransfers, SwapError>(
            SwapError::OrderNotEncodable,
        ) && *final(ctx) == *old(ctx),
        order_encodable(order) ==> match fill_failure(
            *old(ctx),
            order,
            amount,
            now,
            order_identity(
                order,
                old(ctx).protocol_dst_acc,
                old(ctx).integrator_dst_acc,
                old(ctx).src_mint,
                old(ctx).dst_mint,
                old(ctx).maker_receiver,
            ),
        ) {
            Some(e) => r == Err::<FillTransfers, SwapError>(e) && *final(ctx) == *old(ctx),
            None => r == Ok::<FillTransfers, SwapError>(
                fill_transfers(
                    order,
                    old(ctx).escrow.amount,
                    amount,
                    fill_quote(order, amount, now).unwrap(),
                ),
            ) && *final(ctx) == fill_after(*old(ctx), amount),
        },
        old(ctx).escrow.well_formed() ==> final(ctx).escrow.well_formed(),
{
    let identity: [u8; 32] = match order_hash(
        order,
        ctx.protocol_dst_acc,
        ctx.integrator_dst_acc,
        ctx.src_mint,
        ctx.dst_mint,
        ctx.maker_receiver,
    ) {
        Ok(h) => h,
        Err(_) => { return Err(SwapError::OrderNotEncodable); },
    };
    settle_fill(ctx, order, amount, now, &identity)
}

/// What a cancellation by the maker reads from its accounts, with the escrow
/// that it empties.
#[derive(Clone, Copy, Debug)]
pub struct Cancel {
    pub escrow: OrderEscrow,
    /// The maker, who signs the cancellation.
    pub maker: [u8; 32],
    pub src_mint: [u8; 32],
    /// Whether the maker's token account for the source asset is given.
    pub has_maker_src_ata: bool,
}

/// The transfers of a cancellation by the maker.
#[derive(Clone, Copy, Debug, PartialEq, Eq, Structural)]
pub struct CancelTransfers {
    /// The source amount that returns to the maker: all that the escrow held.
    pub refund_amount: u64,
    /// The transfer that returns it, where the source asset is a token. The
    /// native asset returns with the lamports of the closed account.
    pub token_refund: Option<UniTransferParams>,
    /// The account that receives the lamports of the closed account.
    pub lamports_to: Account,
}

/// The transfer that returns `amount` of the source token from the escrow to
/// the maker, or none where the source asset is native.
pub open spec fn token_refund(src_asset_is_native: bool, amount: u64) -> Option<
    UniTransferParams,
> {
    if src_asset_is_native {
        None
    } else {
        Some(
            UniTransferParams::TokenTransfer {
                from: Account::EscrowSrcAta,
                authority: Account::Escrow,
                to: Account::MakerSrcAta,
                mint: Mint::Src,
                amount,
            },
        )
    }
}

/// The first reason, if there is any, for which the maker cannot cancel.
pub open spec fn cancel_failure(
    ctx: Cancel,
    order_hash: [u8; 32],
    order_src_asset_is_native: bool,
) -> Option<SwapError> {
    if !ctx.escrow.is_open() {
        Some(SwapError::EscrowNotOpen)
    } else if !ctx.escrow.has_key(ctx.maker, order_hash@) {
        Some(SwapError::EscrowKeyMismatch)
    } else if order_src_asset_is_native && ctx.src_mint@ != native_mint() {
        Some(SwapError::Fusion(FusionError::InconsistentNativeSrcTrait))
    } else if order_src_asset_is_native == ctx.has_maker_src_ata {
        Some(SwapError::Fusion(FusionError::InconsistentNativeSrcTrait))
    } else {
        None
    }
}

/// The accounts of a cancellation once it is done: the escrow is empty and
/// in the state `status`, and nothing else has changed.
pub open spec fn cancel_after(ctx: Cancel, status: EscrowStatus) -> Cancel {
    Cancel {
        escrow: ctx.escrow.emptied(status),
        maker: ctx.maker,
        src_mint: ctx.src_mint,
        has_maker_src_ata: ctx.has_maker_src_ata,
    }
}

fn refund_transfer(src_asset_is_native: bool, amount: u64) -> (r: Option<UniTransferParams>)
    ensures
        r == token_refund(src_asset_is_native, amount),
{
    if src_asset_is_native {
        None
    } else {
        Some(
            UniTransferParams::TokenTransfer {
                from: Account::EscrowSrcAta,
                authority: Account::Escrow,
                to: Account::MakerSrcAta,
                mint: Mint::Src,
                amount,
            },
        )
    }
}

/// Cancels an order for its maker: the escrow named by the maker and
/// `order_hash` returns all that it holds to the maker and is closed. Fails
/// with the first reason that `cancel_failure` gives, and then changes
/// nothing.
pub fn cancel(ctx: &mut Cancel, order_hash: [u8; 32], order_src_asset_is_native: bool) -> (r:
    Result<CancelTransfers, SwapError>)
    ensures
        match cancel_failure(*old(ctx), order_hash, order_src_asset_is_native) {
            Some(e) => r == Err::<CancelTransfers, SwapError>(e) && *final(ctx) == *old(ctx),
            None => r == Ok::<CancelTransfers, SwapError>(
                (CancelTransfers {
                    refund_amount: old(ctx).escrow.amount,
                    token_refund: token_refund(order_src_asset_is_native, old(ctx).escrow.amount),
                    lamports_to: Account::Maker,
                }),
            ) && *final(ctx) == cancel_after(*old(ctx), EscrowStatus::Cancelled),
        },
        old(ctx).escrow.well_formed() ==> final(ctx).escrow.well_formed(),
{
    if !ctx.escrow.open() {
        return Err(SwapError::EscrowNotOpen);
    }
    if !ctx.escrow.keyed_by(&ctx.maker, &order_hash) {
        return Err(SwapError::EscrowKeyMismatch);
    }
    if order_src_asset_is_native && !is_native_mint(&ctx.src_mint) {
        return Err(SwapError::Fusion(FusionError::InconsistentNativeSrcTrait));
    }
    if order_src_asset_is_native == ctx.has_maker_src_ata {
        return Err(SwapError::Fusion(FusionError::InconsistentNativeSrcTrait));
    }
    let held: u64 = ctx.escrow.amount;
    ctx.escrow.amount = 0;
    ctx.escrow.status = EscrowStatus::Cancelled;
    Ok(
        CancelTransfers {
            refund_amount: held,
            token_refund: refund_transfer(order_src_asset_is_native, held),
            lamports_to: Account::Maker,
        },
    )
}

/// What a cancellation by a resolver reads from its accounts, with the
/// escrow that it empties.
#[derive(Clone, Copy, Debug)]
pub struct CancelByResolver {
    pub escrow: OrderEscrow,
    pub maker: [u8; 32],
    pub maker_receiver: [u8; 32],
    pub src_mint: [u8; 32],
    pub dst_mint: [u8; 32],
    /// The lamports that the escrow's token account holds.
    pub escrow_src_ata_lamports: u64,
    /// Whether the maker's token account for the source asset is given.
    pub has_maker_src_ata: bool,
    pub protocol_dst_acc: Option<[u8; 32]>,
    pub integrator_dst_acc: Option<[u8; 32]>,
}

/// The transfers of a cancellation by a resolver, in the order in which the
/// ledger carries them out.
#[derive(Clone, Copy, Debug, PartialEq, Eq, Structural)]
pub struct ResolverCancelTransfers {
    /// The source amount that returns to the maker: all that the escrow held.
    pub refund_amount: u64,
    /// The transfer that returns it, where the source asset is a token.
    pub token_refund: Option<UniTransferParams>,
    /// The account that receives the lamports of the closed account.
    pub lamports_to: Account,
    /// What the resolver keeps of those lamports.
    pub premium: u64,
    /// The transfer that hands the rest of them on to the maker.
    pub maker_payment: UniTransferParams,
}

/// The clock's reading in the 32 bits in which the cancellation auction is
/// timed: its remainder by 2^32.
pub open spec fn clock_u32(now: i64) -> u32 {
    (now as int % 0x1_0000_0000) as u32
}

/// What a resolver earns for cancelling an order at `now`: the premium that
/// the cancellation auction has reached since the order expired, but no more
/// than `reward_limit`.
pub open spec fn resolver_reward(order: &OrderConfig, reward_limit: u64, now: i64) -> u64 {
    let premium = premium_at(
        clock_u32(now) as int,
        order.expiration_time as int,
        order.cancellation_auction_duration as int,
        order.fee.max_cancellation_premium as int,
    );
    if premium <= reward_limit {
        premium as u64
    } else {
        reward_limit
    }
}

/// The first reason, if there is any, for which a resolver cannot cancel at
/// `now`, where `identity` is the fingerprint of the terms handed in.
pub open spec fn resolver_cancel_failure(
    ctx: CancelByResolver,
    order: &OrderConfig,
    reward_limit: u64,
    now: i64,
    identity: Seq<u8>,
) -> Option<SwapError> {
    if !ctx.escrow.is_open() {
        Some(SwapError::EscrowNotOpen)
    } else if !ctx.escrow.has_key(ctx.maker, identity) {
        Some(SwapError::EscrowKeyMismatch)
    } else if order.fee.max_cancellation_premium == 0 {
        Some(SwapError::Fusion(FusionError::CancelOrderByResolverIsForbidden))
    } else if now < order.expiration_time {
        Some(SwapError::Fusion(FusionError::OrderNotExpired))
    } else if order.src_asset_is_native == ctx.has_maker_src_ata {
        Some(SwapError::Fusion(FusionError::InconsistentNativeSrcTrait))
    } else if ctx.escrow_src_ata_lamports < resolver_reward(order, reward_limit, now) {
        Some(SwapError::ArithmeticOverflow)
    } else {
        None
    }
}

/// The transfers of a cancellation by a resolver at `now`.
pub open spec fn resolver_cancel_transfers(
    ctx: CancelByResolver,
    order: &OrderConfig,
    reward_limit: u64,
    now: i64,
) -> ResolverCancelTransfers {
    let premium = resolver_reward(order, reward_limit, now);
    ResolverCancelTransfers {
        refund_amount: ctx.escrow.amount,
        token_refund: token_refund(order.src_asset_is_native, ctx.escrow.amount),
        lamports_to: Account::Resolver,
        premium,
        maker_payment: UniTransferParams::NativeTransfer {
            from: Account::Resolver,
            to: Account::Maker,
            amount: (ctx.escrow_src_ata_lamports - premium) as u64,
        },
    }
}

/// The accounts of a cancellation by a resolver once it is done: the escrow
/// is empty and cancelled by a resolver, and nothing else has changed.
pub open spec fn resolver_cancel_after(ctx: CancelByResolver) -> CancelByResolver {
    CancelByResolver {
        escrow: ctx.escrow.emptied(EscrowStatus::CancelledByResolver),
        maker: ctx.maker,
        maker_receiver: ctx.maker_receiver,
        src_mint: ctx.src_mint,
        dst_mint: ctx.dst_mint,
        escrow_src_ata_lamports: ctx.escrow_src_ata_lamports,
        has_maker_src_ata: ctx.has_maker_src_ata,
        protocol_dst_acc: ctx.protocol_dst_acc,
        integrator_dst_acc: ctx.integrator_dst_acc,
    }
}

/// The clock's reading in the 32 bits in which the cancellation auction is
/// timed.
pub fn clock_as_u32(now: i64) -> (r: u32)
    ensures
        r == clock_u32(now),
{
    let seconds: u64 = clock_as_u64(now);
    assert(seconds as int % 0x1_0000_0000 == now as int % 0x1_0000_0000);
    (seconds % 0x1_0000_0000) as u32
}

/// Cancels an expired order for a resolver at `now`, where `identity` is the
/// fingerprint of the terms handed in. Fails with the first reason that
/// `resolver_cancel_failure` gives and then changes nothing; else empties the
/// escrow and gives the transfers to carry out: all that was held returns to
/// the maker, and of the account's lamports the resolver keeps the premium
/// and the maker receives the rest.
pub fn settle_resolver_cancel(
    ctx: &mut CancelByResolver,
    order: &OrderConfig,
    reward_limit: u64,
    now: i64,
    identity: &[u8; 32],
) -> (r: Result<ResolverCancelTransfers, SwapError>)
    ensures
        match resolver_cancel_failure(*old(ctx), order, reward_limit, now, identity@) {
            Some(e) => r == Err::<ResolverCancelTransfers, SwapError>(e) && *final(ctx) == *old(
                ctx,
            ),
            None => r == Ok::<ResolverCancelTransfers, SwapError>(
                resolver_cancel_transfers(*old(ctx), order, reward_limit, now),
            ) && *final(ctx) == resolver_cancel_after(*old(ctx)),
        },
        old(ctx).escrow.well_formed() ==> final(ctx).escrow.well_formed(),
{
    if !ctx.escrow.open() {
        return Err(SwapError::EscrowNotOpen);
    }
    if !ctx.escrow.keyed_by(&ctx.maker, identity) {
        return Err(SwapError::EscrowKeyMismatch);
    }
    if order.fee.max_cancellation_premium == 0 {
        return Err(SwapError::Fusion(FusionError::CancelOrderByResolverIsForbidden));
    }
    if now < order.expiration_time as i64 {
        return Err(SwapError::Fusion(FusionError::OrderNotExpired));
    }
    if order.src_asset_is_native == ctx.has_maker_src_ata {
        return Err(SwapError::Fusion(FusionError::InconsistentNativeSrcTrait));
    }
    let cancellation_premium: u64 = calculate_premium(
        clock_as_u32(now),
        order.expiration_time,
        order.cancellation_auction_duration,
        order.fee.max_cancellation_premium,
    );
    let premium: u64 = if cancellation_premium <= reward_limit {
        cancellation_premium
    } else {
        reward_limit
    };
    let maker_amount: u64 = match ctx.escrow_src_ata_lamports.checked_sub(premium) {
        Some(v) => v,
        None => { return Err(SwapError::ArithmeticOverflow); },
    };
    let held: u64 = ctx.escrow.amount;
    ctx.escrow.amount = 0;
    ctx.escrow.status = EscrowStatus::CancelledByResolver;
    Ok(
        ResolverCancelTransfers {
            refund_amount: held,
            token_refund: refund_transfer(order.src_asset_is_native, held),
            lamports_to: Account::Resolver,
            premium,
            maker_payment: UniTransferParams::NativeTransfer {
                from: Account::Resolver,
                to: Account::Maker,
                amount: maker_amount,
            },
        },
    )
}

/// Cancels an expired order for a resolver at `now`: computes the
/// fingerprint of the terms handed in and settles the cancellation against
/// the escrow. Fails with `OrderNotEncodable` where the terms have no
/// fingerprint, else with the first reason that `resolver_cancel_failure`
/// gives for that fingerprint; a failed cancellation changes nothing.
pub fn cancel_by_resolver(
    ctx: &mut CancelByResolver,
    order: &OrderConfig,
    reward_limit: u64,
    now: i64,
) -> (r: Result<ResolverCancelTransfers, SwapError>)
    ensures
        !order_encodable(order) ==> r == Err::<ResolverCancelTransfers, SwapError>(
            SwapError::OrderNotEncodable,
        ) && *final(ctx) == *old(ctx),
        order_encodable(order) ==> match resolver_cancel_failure(
            *old(ctx),
            order,
            reward_limit,
            now,
            order_identity(
                order,
                old(ctx).protocol_dst_acc,
                old(ctx).integrator_dst_acc,
                old(ctx).src_mint,
                old(ctx).dst_mint,
                old(ctx).maker_receiver,
            ),
        ) {
            Some(e) => r == Err::<ResolverCancelTransfers, SwapError>(e) && *final(ctx) == *old(
                ctx,
            ),
            None => r == Ok::<ResolverCancelTransfers, SwapError>(
                resolver_cancel_transfers(*old(ctx), order, reward_limit, now),
            ) && *final(ctx) == resolver_cancel_after(*old(ctx)),
        },
        old(ctx).escrow.well_formed() ==> final(ctx).escrow.well_formed(),
{
    let identity: [u8; 32] = match order_hash(
        order,
        ctx.protocol_dst_acc,
        ctx.integrator_dst_acc,
        ctx.src_mint,
        ctx.dst_mint,
        ctx.maker_receiver,
    ) {
        Ok(h) => h,
        Err(_) => { return Err(SwapError::OrderNotEncodable); },
    };
    settle_resolver_cancel(ctx, order, reward_limit, now, &identity)
}

/// The sum of a run of amounts.
pub open spec fn total(amounts: Seq<u64>) -> int
    decreases amounts.len(),
{
    if amounts.len() == 0 {
        0
    } else {
        total(amounts.drop_last()) + amounts.last()
    }
}

/// The escrow once the fills of `amounts` have left it, one after the other.
pub open spec fn after_fills(escrow: OrderEscrow, amounts: Seq<u64>) -> OrderEscrow
    decreases amounts.len(),
{
    if amounts.len() == 0 {
        escrow
    } else {
        after_fills(escrow, amounts.drop_last()).after_fill(amounts.last())
    }
}

/// Whether each of the fills of `amounts`, one after the other, fits the
/// escrow as the fills before it have left it.
pub open spec fn fills_fit(escrow: OrderEscrow, amounts: Seq<u64>) -> bool
    decreases amounts.len(),
{
    amounts.len() == 0 || (fills_fit(escrow, amounts.drop_last()) && after_fills(
        escrow,
        amounts.drop_last(),
    ).can_fill(amounts.last()))
}

/// Fills that are each more than nothing and together no more than an open
/// escrow holds all fit it, and leave in it what they have not taken; the
/// escrow stays open as long as something is left.
pub proof fn lemma_fills_take_their_sum(escrow: OrderEscrow, amounts: Seq<u64>)
    requires
        escrow.is_open(),
        escrow.well_formed(),
        forall|i: int| 0 <= i < amounts.len() ==> amounts[i] > 0,
        total(amounts) <= escrow.amount,
    ensures
        fills_fit(escrow, amounts),
        after_fills(escrow, amounts).amount == escrow.amount - total(amounts),
        after_fills(escrow, amounts).well_formed(),
        after_fills(escrow, amounts).maker == escrow.maker,
        after_fills(escrow, amounts).order_hash == escrow.order_hash,
        total(amounts) < escrow.amount ==> after_fills(escrow, amounts).is_open(),
        total(amounts) == escrow.amount ==> after_fills(escrow, amounts).status
            == EscrowStatus::Closed,
    decreases amounts.len(),
{
    if amounts.len() > 0 {
        let head = amounts.drop_last();
        assert forall|i: int| 0 <= i < head.len() implies head[i] > 0 by {
            assert(head[i] == amounts[i]);
        }
        lemma_fills_take_their_sum(escrow, head);
    }
}

/// Fills that are each more than nothing and together take all that an open
/// escrow holds close it exactly once: every fill fits, the escrow is open
/// after each fill but the last, closed and empty after the last, and no
/// further fill fits it.
pub proof fn lemma_full_fill_closes_once(escrow: OrderEscrow, amounts: Seq<u64>)
    requires
        escrow.is_open(),
        escrow.well_formed(),
        forall|i: int| 0 <= i < amounts.len() ==> amounts[i] > 0,
        total(amounts) == escrow.amount,
    ensures
        fills_fit(escrow, amounts),
        after_fills(escrow, amounts).status == EscrowStatus::Closed,
        after_fills(escrow, amounts).amount == 0,
        forall|k: int|
            0 <= k < amounts.len() ==> (#[trigger] after_fills(escrow, amounts.take(k))).is_open(),
        forall|more: u64| !after_fills(escrow, amounts).can_fill(more),
{
    lemma_fills_take_their_sum(escrow, amounts);
    assert forall|k: int| 0 <= k < amounts.len() implies (#[trigger] after_fills(
        escrow,
        amounts.take(k),
    )).is_open() by {
        lemma_total_of_prefix(amounts, k);
        let head = amounts.take(k);
        assert forall|i: int| 0 <= i < head.len() implies head[i] > 0 by {
            assert(head[i] == amounts[i]);
        }
        lemma_fills_take_their_sum(escrow, head);
    }
}

/// A cancellation after fills that have left something in the escrow
/// refunds exactly what they have left: what the escrow held before them,
/// less their sum.
pub proof fn lemma_cancel_refunds_unfilled(
    ctx: Cancel,
    amounts: Seq<u64>,
    order_hash: [u8; 32],
    order_src_asset_is_native: bool,
)
    requires
        ctx.escrow.is_open(),
        ctx.escrow.well_formed(),
        forall|i: int| 0 <= i < amounts.len() ==> amounts[i] > 0,
        total(amounts) < ctx.escrow.amount,
        cancel_failure(ctx, order_hash, order_src_asset_is_native).is_none(),
    ensures
        fills_fit(ctx.escrow, amounts),
        ({
            let later = Cancel {
                escrow: after_fills(ctx.escrow, amounts),
                maker: ctx.maker,
                src_mint: ctx.src_mint,
                has_maker_src_ata: ctx.has_maker_src_ata,
            };
            &&& cancel_failure(later, order_hash, order_src_asset_is_native).is_none()
            &&& later.escrow.amount == ctx.escrow.amount - total(amounts)
            &&& cancel_after(later, EscrowStatus::Cancelled).escrow.amount == 0
        }),
{
    lemma_fills_take_their_sum(ctx.escrow, amounts);
}

/// The sum of the first `k` of a run of amounts that are each more than
/// nothing is less than the sum of them all.
pub proof fn lemma_total_of_prefix(amounts: Seq<u64>, k: int)
    requires
        0 <= k < amounts.len(),
        forall|i: int| 0 <= i < amounts.len() ==> amounts[i] > 0,
    ensures
        0 <= total(amounts.take(k)) < total(amounts),
    decreases amounts.len(),
{
    let head = amounts.drop_last();
    if k == amounts.len() - 1 {
        assert(amounts.take(k) =~= head);
        lemma_total_nonnegative(head);
    } else {
        assert(amounts.take(k) =~= head.take(k));
        assert forall|i: int| 0 <= i < head.len() implies head[i] > 0 by {
            assert(head[i] == amounts[i]);
        }
        lemma_total_of_prefix(head, k);
    }
}

proof fn lemma_total_nonnegative(amounts: Seq<u64>)
    ensures
        0 <= total(amounts),
    decreases amounts.len(),
{
    if amounts.len() > 0 {
        lemma_total_nonnegative(amounts.drop_last());
    }
}

/// The amount that a payment moves, or nothing where there is no payment.
pub open spec fn paid(payment: Option<UniTransferParams>) -> int {
    match payment {
        Some(p) => p.amount_spec() as int,
        None => 0,
    }
}

/// A fill that succeeds fits the escrow and moves what it says: the escrow
/// loses exactly the amount filled and never more than it held, it is closed
/// exactly where nothing is left, and the payments to the maker, the
/// protocol and the integrator add up to the amount owed for the fill at the
/// auction's price.
pub proof fn lemma_fill_moves_what_it_says(
    ctx: Fill,
    order: &OrderConfig,
    amount: u64,
    now: i64,
    identity: Seq<u8>,
)
    requires
        fill_failure(ctx, order, amount, now, identity).is_none(),
    ensures
        ctx.escrow.can_fill(amount),
        fill_after(ctx, amount).escrow.amount + amount == ctx.escrow.amount,
        fill_quote(order, amount, now).is_some(),
        ({
            let transfers = fill_transfers(
                order,
                ctx.escrow.amount,
                amount,
                fill_quote(order, amount, now).unwrap(),
            );
            &&& transfers.taker_amount == amount
            &&& transfers.closes_escrow <==> fill_after(ctx, amount).escrow.status
                == EscrowStatus::Closed
            &&& transfers.closes_escrow <==> fill_after(ctx, amount).escrow.amount == 0
            &&& Some(
                (transfers.maker_payment.amount_spec() + paid(transfers.protocol_payment) + paid(
                    transfers.integrator_payment,
                )) as u64,
            ) == dst_amount_spec(
                order.src_amount,
                order.min_dst_amount,
                amount,
                Some(&order.dutch_auction_data),
                clock_u64(now),
            )
        }),
{
    let dst_amount = dst_amount_spec(
        order.src_amount,
        order.min_dst_amount,
        amount,
        Some(&order.dutch_auction_data),
        clock_u64(now),
    ).unwrap();
    let estimate = dst_amount_spec(
        order.src_amount,
        order.estimated_dst_amount,
        amount,
        None,
        clock_u64(now),
    ).unwrap();
    lemma_fee_split_is_exact(
        order.fee.integrator_fee,
        order.fee.protocol_fee,
        order.fee.surplus_percentage,
        dst_amount,
        estimate,
    );
}

/// Fills of one escrow are served one after the other: a fill that asks for
/// more than an earlier fill has left fails, and leaves the escrow as it
/// was; while the order has not expired it fails for want of tokens where
/// something is left, and because the escrow is closed where nothing is.
pub proof fn lemma_second_fill_sees_the_first(
    ctx: Fill,
    order: &OrderConfig,
    first: u64,
    second: u64,
    now: i64,
    later: i64,
    identity: Seq<u8>,
)
    requires
        fill_failure(ctx, order, first, now, identity).is_none(),
        first + second > ctx.escrow.amount,
    ensures
        fill_failure(fill_after(ctx, first), order, second, later, identity).is_some(),
        later < order.expiration_time && first < ctx.escrow.amount ==> fill_failure(
            fill_after(ctx, first),
            order,
            second,
            later,
            identity,
        ) == Some(SwapError::Fusion(FusionError::NotEnoughTokensInEscrow)),
        first == ctx.escrow.amount ==> fill_failure(
            fill_after(ctx, first),
            order,
            second,
            later,
            identity,
        ) == Some(SwapError::EscrowNotOpen),
{
}

/// What holds of the terms of every order that has an escrow: the source
/// amount and the minimum destination amount are more than nothing, the
/// estimate is no less than the minimum, and the protocol's part of a
/// surplus is at most the whole of it.
pub open spec fn terms_sound(order: &OrderConfig) -> bool {
    &&& order.src_amount != 0
    &&& order.min_dst_amount != 0
    &&& order.estimated_dst_amount >= order.min_dst_amount
    &&& order.fee.surplus_percentage <= BASE_1E2
}

/// An order is created only with sound terms, before it expires, with a
/// recipient for each fee that it grants and for none that it does not, and
/// with collateral for the greatest premium that it offers.
pub proof fn lemma_created_order_is_sound(ctx: Create, order: &OrderConfig, now: i64)
    requires
        create_failure(ctx, order, now).is_none(),
    ensures
        terms_sound(order),
        now < order.expiration_time,
        ctx.protocol_dst_acc.is_some() <==> (order.fee.protocol_fee > 0
            || order.fee.surplus_percentage > 0),
        ctx.integrator_dst_acc.is_some() <==> order.fee.integrator_fee > 0,
        ctx.escrow_src_ata_lamports >= order.fee.max_cancellation_premium,
        order.src_asset_is_native ==> ctx.src_mint@ == native_mint(),
        order.dst_asset_is_native ==> ctx.dst_mint@ == native_mint(),
        order.src_asset_is_native <==> !ctx.has_maker_src_ata,
{
}

/// A resolver's reward is never more than the limit that the resolver names
/// nor more than the greatest premium that the order offers, and it is
/// nothing at the moment at which the order expires.
pub proof fn lemma_resolver_reward_is_capped(order: &OrderConfig, reward_limit: u64, now: i64)
    ensures
        resolver_reward(order, reward_limit, now) <= reward_limit,
        resolver_reward(order, reward_limit, now) <= order.fee.max_cancellation_premium,
        now == order.expiration_time ==> resolver_reward(order, reward_limit, now) == 0,
{
    lemma_premium_ramp(
        clock_u32(now) as int,
        order.expiration_time as int,
        order.cancellation_auction_duration as int,
        order.fee.max_cancellation_premium as int,
    );
}

/// While the clock fits in 32 bits, a resolver's reward never falls: a later
/// cancellation earns no less.
pub proof fn lemma_resolver_reward_grows(
    order: &OrderConfig,
    reward_limit: u64,
    now: i64,
    later: i64,
)
    requires
        0 <= now <= later <= u32::MAX,
    ensures
        resolver_reward(order, reward_limit, now) <= resolver_reward(order, reward_limit, later),
{
    lemma_premium_monotonic(
        clock_u32(now) as int,
        clock_u32(later) as int,
        order.expiration_time as int,
        order.cancellation_auction_duration as int,
        order.fee.max_cancellation_premium as int,
    );
    lemma_resolver_reward_is_capped(order, reward_limit, now);
    lemma_resolver_reward_is_capped(order, reward_limit, later);
}

/// A cancellation by a resolver returns all that the escrow held to the
/// maker and shares the account's lamports between the two: the resolver
/// keeps the reward, and the maker receives the rest.
pub proof fn lemma_resolver_cancel_shares_collateral(
    ctx: CancelByResolver,
    order: &OrderConfig,
    reward_limit: u64,
    now: i64,
    identity: Seq<u8>,
)
    requires
        resolver_cancel_failure(ctx, order, reward_limit, now, identity).is_none(),
    ensures
        ({
            let transfers = resolver_cancel_transfers(ctx, order, reward_limit, now);
            &&& transfers.refund_amount == ctx.escrow.amount
            &&& transfers.premium == resolver_reward(order, reward_limit, now)
            &&& transfers.premium + transfers.maker_payment.amount_spec()
                == ctx.escrow_src_ata_lamports
            &&& resolver_cancel_after(ctx).escrow.amount == 0
            &&& resolver_cancel_after(ctx).escrow.status == EscrowStatus::CancelledByResolver
        }),
{
}

} // verus!
