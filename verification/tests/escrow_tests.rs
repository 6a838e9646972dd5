use fusion_swap::auction::AuctionData;
use fusion_swap::error::{FusionError, SwapError};
use fusion_swap::escrow::{
    cancel, cancel_by_resolver, clock_as_u32, clock_as_u64, create, fill, is_native_mint,
    open_escrow, quote_fill, settle_fill, settle_resolver_cancel, validate_order, Cancel,
    CancelByResolver, CancelTransfers, Create, EscrowStatus, Fill, FillTransfers, OrderEscrow,
    ResolverCancelTransfers,
};
use fusion_swap::order::{order_hash, FeeConfig, OrderConfig};
use fusion_swap::transfer::{Account, Mint, UniTransferParams};

const MAKER: [u8; 32] = [10u8; 32];
const RECEIVER: [u8; 32] = [11u8; 32];
const SRC_MINT: [u8; 32] = [12u8; 32];
const DST_MINT: [u8; 32] = [13u8; 32];
const PROTOCOL: [u8; 32] = [14u8; 32];
const INTEGRATOR: [u8; 32] = [15u8; 32];
const NATIVE_MINT: [u8; 32] = [
    6, 155, 136, 87, 254, 171, 129, 132, 251, 104, 127, 99, 70, 24, 192, 53, 218, 196, 57, 220,
    26, 235, 59, 85, 152, 160, 240, 0, 0, 0, 0, 1,
];

fn plain_order() -> OrderConfig {
    OrderConfig {
        id: 1,
        src_amount: 1000,
        min_dst_amount: 900,
        estimated_dst_amount: 900,
        expiration_time: 2000,
        src_asset_is_native: false,
        dst_asset_is_native: false,
        fee: FeeConfig {
            protocol_fee: 0,
            integrator_fee: 0,
            surplus_percentage: 0,
            max_cancellation_premium: 0,
        },
        dutch_auction_data: AuctionData {
            start_time: 1000,
            duration: 600,
            initial_rate_bump: 1000,
            points_and_time_deltas: vec![],
        },
        cancellation_auction_duration: 100,
    }
}

fn fee_order() -> OrderConfig {
    let mut order = plain_order();
    order.fee = FeeConfig {
        protocol_fee: 1000,
        integrator_fee: 2000,
        surplus_percentage: 50,
        max_cancellation_premium: 5000,
    };
    order
}

fn create_accounts(order: &OrderConfig) -> Create {
    let with_protocol = order.fee.protocol_fee > 0 || order.fee.surplus_percentage > 0;
    Create {
        maker: MAKER,
        maker_receiver: RECEIVER,
        src_mint: if order.src_asset_is_native { NATIVE_MINT } else { SRC_MINT },
        dst_mint: if order.dst_asset_is_native { NATIVE_MINT } else { DST_MINT },
        escrow_src_ata_lamports: 10_000,
        has_maker_src_ata: !order.src_asset_is_native,
        protocol_dst_acc: if with_protocol { Some(PROTOCOL) } else { None },
        integrator_dst_acc: if order.fee.integrator_fee > 0 { Some(INTEGRATOR) } else { None },
    }
}

fn created(order: &OrderConfig) -> OrderEscrow {
    create(&create_accounts(order), order, 1500).unwrap().0
}

fn fill_accounts(order: &OrderConfig, escrow: OrderEscrow) -> Fill {
    let accounts = create_accounts(order);
    Fill {
        escrow,
        maker: MAKER,
        maker_receiver: RECEIVER,
        src_mint: accounts.src_mint,
        dst_mint: accounts.dst_mint,
        has_maker_dst_ata: !order.dst_asset_is_native,
        has_taker_dst_ata: !order.dst_asset_is_native,
        protocol_dst_acc: accounts.protocol_dst_acc,
        integrator_dst_acc: accounts.integrator_dst_acc,
    }
}

fn resolver_accounts(order: &OrderConfig, escrow: OrderEscrow) -> CancelByResolver {
    let accounts = create_accounts(order);
    CancelByResolver {
        escrow,
        maker: MAKER,
        maker_receiver: RECEIVER,
        src_mint: accounts.src_mint,
        dst_mint: accounts.dst_mint,
        escrow_src_ata_lamports: 10_000,
        has_maker_src_ata: !order.src_asset_is_native,
        protocol_dst_acc: accounts.protocol_dst_acc,
        integrator_dst_acc: accounts.integrator_dst_acc,
    }
}

fn token_payment(to: Account, amount: u64) -> UniTransferParams {
    UniTransferParams::TokenTransfer {
        from: Account::TakerDstAta,
        authority: Account::Taker,
        to,
        mint: Mint::Dst,
        amount,
    }
}

fn token_refund_of(amount: u64) -> UniTransferParams {
    UniTransferParams::TokenTransfer {
        from: Account::EscrowSrcAta,
        authority: Account::Escrow,
        to: Account::MakerSrcAta,
        mint: Mint::Src,
        amount,
    }
}

#[test]
fn native_mint_is_the_token_programs() {
    assert!(is_native_mint(&NATIVE_MINT));
    assert!(is_native_mint(&anchor_spl::token::spl_token::native_mint::id().to_bytes()));
    assert!(!is_native_mint(&SRC_MINT));
    assert!(!is_native_mint(&[0u8; 32]));
}

#[test]
fn create_opens_an_escrow_with_the_full_amount() {
    let order = plain_order();
    let accounts = create_accounts(&order);
    let (escrow, deposit) = create(&accounts, &order, 1500).unwrap();
    assert_eq!(escrow.status, EscrowStatus::Created);
    assert_eq!(escrow.amount, 1000);
    assert_eq!(escrow.maker, MAKER);
    let expected = order_hash(&order, None, None, SRC_MINT, DST_MINT, RECEIVER).unwrap();
    assert_eq!(escrow.order_hash, expected);
    assert_eq!(
        deposit,
        UniTransferParams::TokenTransfer {
            from: Account::MakerSrcAta,
            authority: Account::Maker,
            to: Account::EscrowSrcAta,
            mint: Mint::Src,
            amount: 1000,
        }
    );
}

#[test]
fn create_with_native_source_wraps_the_amount() {
    let mut order = plain_order();
    order.src_asset_is_native = true;
    let (escrow, deposit) = create(&create_accounts(&order), &order, 0).unwrap();
    assert_eq!(escrow.amount, 1000);
    assert_eq!(
        deposit,
        UniTransferParams::NativeTransfer {
            from: Account::Maker,
            to: Account::EscrowSrcAta,
            amount: 1000,
        }
    );
}

#[test]
fn open_escrow_keeps_the_identity_it_is_given() {
    let order = plain_order();
    let (escrow, _) = open_escrow(&create_accounts(&order), &order, 1500, [77u8; 32]).unwrap();
    assert_eq!(escrow.order_hash, [77u8; 32]);
    assert_eq!(escrow.status, EscrowStatus::Created);
}

#[test]
fn create_rejects_zero_amounts() {
    let mut order = plain_order();
    order.src_amount = 0;
    assert_eq!(
        create(&create_accounts(&order), &order, 1500).unwrap_err(),
        SwapError::Fusion(FusionError::InvalidAmount)
    );
    let mut order = plain_order();
    order.min_dst_amount = 0;
    order.estimated_dst_amount = 0;
    assert_eq!(
        validate_order(&create_accounts(&order), &order, 1500),
        Err(FusionError::InvalidAmount)
    );
}

#[test]
fn create_rejects_native_flag_with_another_mint() {
    let mut order = plain_order();
    order.src_asset_is_native = true;
    let mut accounts = create_accounts(&order);
    accounts.src_mint = SRC_MINT;
    assert_eq!(
        validate_order(&accounts, &order, 1500),
        Err(FusionError::InconsistentNativeSrcTrait)
    );
    let mut order = plain_order();
    order.dst_asset_is_native = true;
    let mut accounts = create_accounts(&order);
    accounts.dst_mint = DST_MINT;
    assert_eq!(
        validate_order(&accounts, &order, 1500),
        Err(FusionError::InconsistentNativeDstTrait)
    );
}

#[test]
fn create_accepts_native_mint_without_native_flag() {
    let order = plain_order();
    let mut accounts = create_accounts(&order);
    accounts.src_mint = NATIVE_MINT;
    accounts.dst_mint = NATIVE_MINT;
    assert_eq!(validate_order(&accounts, &order, 1500), Ok(()));
}

#[test]
fn create_rejects_an_expired_order() {
    let order = plain_order();
    let accounts = create_accounts(&order);
    assert_eq!(validate_order(&accounts, &order, 1999), Ok(()));
    assert_eq!(validate_order(&accounts, &order, 2000), Err(FusionError::OrderExpired));
    assert_eq!(validate_order(&accounts, &order, i64::MAX), Err(FusionError::OrderExpired));
    assert_eq!(validate_order(&accounts, &order, i64::MIN), Ok(()));
}

#[test]
fn create_rejects_surplus_above_hundred_percent() {
    let mut order = fee_order();
    order.fee.surplus_percentage = 101;
    assert_eq!(
        validate_order(&create_accounts(&order), &order, 1500),
        Err(FusionError::InvalidProtocolSurplusFee)
    );
    order.fee.surplus_percentage = 100;
    assert_eq!(validate_order(&create_accounts(&order), &order, 1500), Ok(()));
}

#[test]
fn create_rejects_estimate_below_minimum() {
    let mut order = plain_order();
    order.estimated_dst_amount = 899;
    assert_eq!(
        validate_order(&create_accounts(&order), &order, 1500),
        Err(FusionError::InvalidEstimatedTakingAmount)
    );
}

#[test]
fn create_rejects_inconsistent_protocol_recipient() {
    let order = fee_order();
    let mut accounts = create_accounts(&order);
    accounts.protocol_dst_acc = None;
    assert_eq!(
        validate_order(&accounts, &order, 1500),
        Err(FusionError::InconsistentProtocolFeeConfig)
    );
    let order = plain_order();
    let mut accounts = create_accounts(&order);
    accounts.protocol_dst_acc = Some(PROTOCOL);
    assert_eq!(
        validate_order(&accounts, &order, 1500),
        Err(FusionError::InconsistentProtocolFeeConfig)
    );
    let mut order = plain_order();
    order.fee.surplus_percentage = 1;
    let mut accounts = create_accounts(&order);
    assert_eq!(validate_order(&accounts, &order, 1500), Ok(()));
    accounts.protocol_dst_acc = None;
    assert_eq!(
        validate_order(&accounts, &order, 1500),
        Err(FusionError::InconsistentProtocolFeeConfig)
    );
}

#[test]
fn create_rejects_inconsistent_integrator_recipient() {
    let order = fee_order();
    let mut accounts = create_accounts(&order);
    accounts.integrator_dst_acc = None;
    assert_eq!(
        validate_order(&accounts, &order, 1500),
        Err(FusionError::InconsistentIntegratorFeeConfig)
    );
    let order = plain_order();
    let mut accounts = create_accounts(&order);
    accounts.integrator_dst_acc = Some(INTEGRATOR);
    assert_eq!(
        validate_order(&accounts, &order, 1500),
        Err(FusionError::InconsistentIntegratorFeeConfig)
    );
}

#[test]
fn create_rejects_collateral_below_the_premium() {
    let order = fee_order();
    let mut accounts = create_accounts(&order);
    accounts.escrow_src_ata_lamports = 4999;
    assert_eq!(
        validate_order(&accounts, &order, 1500),
        Err(FusionError::InvalidCancellationFee)
    );
    accounts.escrow_src_ata_lamports = 5000;
    assert_eq!(validate_order(&accounts, &order, 1500), Ok(()));
}

#[test]
fn create_rejects_source_account_that_contradicts_the_flag() {
    let order = plain_order();
    let mut accounts = create_accounts(&order);
    accounts.has_maker_src_ata = false;
    assert_eq!(
        validate_order(&accounts, &order, 1500),
        Err(FusionError::InconsistentNativeSrcTrait)
    );
    let mut order = plain_order();
    order.src_asset_is_native = true;
    let mut accounts = create_accounts(&order);
    accounts.has_maker_src_ata = true;
    assert_eq!(
        validate_order(&accounts, &order, 1500),
        Err(FusionError::InconsistentNativeSrcTrait)
    );
}

#[test]
fn create_reports_the_first_failure() {
    let mut order = plain_order();
    order.src_amount = 0;
    order.estimated_dst_amount = 1;
    order.fee.surplus_percentage = 200;
    assert_eq!(
        validate_order(&create_accounts(&order), &order, 5000),
        Err(FusionError::InvalidAmount)
    );
    order.src_amount = 1;
    assert_eq!(
        validate_order(&create_accounts(&order), &order, 5000),
        Err(FusionError::OrderExpired)
    );
    assert_eq!(
        validate_order(&create_accounts(&order), &order, 0),
        Err(FusionError::InvalidProtocolSurplusFee)
    );
}

#[test]
fn clock_readings() {
    assert_eq!(clock_as_u64(0), 0);
    assert_eq!(clock_as_u64(1300), 1300);
    assert_eq!(clock_as_u64(i64::MAX), i64::MAX as u64);
    assert_eq!(clock_as_u64(-1), u64::MAX);
    assert_eq!(clock_as_u64(i64::MIN), 1u64 << 63);
    assert_eq!(clock_as_u32(0), 0);
    assert_eq!(clock_as_u32(2050), 2050);
    assert_eq!(clock_as_u32(u32::MAX as i64), u32::MAX);
    assert_eq!(clock_as_u32(u32::MAX as i64 + 6), 5);
    assert_eq!(clock_as_u32(-1), u32::MAX);
    assert_eq!(clock_as_u32(i64::MIN), 0);
}

#[test]
fn quote_example_at_half_decayed_bump() {
    let order = plain_order();
    // 453 owed, estimate 450, no fees and no surplus share
    assert_eq!(quote_fill(&order, 500, 1300), Ok((0, 0, 453)));
}

#[test]
fn quote_with_fees_and_surplus() {
    let order = fee_order();
    // owed: ceil(ceil(900 * 1000 / 1000) * 100500 / 100000) = 905
    // integrator 2% -> 18, protocol 1% -> 9, actual 878, estimate 900: no surplus
    assert_eq!(quote_fill(&order, 1000, 1300), Ok((9, 18, 878)));
    let mut cheap = fee_order();
    cheap.estimated_dst_amount = 900;
    cheap.min_dst_amount = 900;
    cheap.fee.protocol_fee = 0;
    cheap.fee.integrator_fee = 0;
    // owed 909 at full bump, estimate 900, surplus 9, half of it rounded down
    assert_eq!(quote_fill(&cheap, 1000, 1000), Ok((4, 0, 905)));
}

#[test]
fn quote_overflow_is_an_error() {
    let mut order = plain_order();
    order.src_amount = 1;
    order.min_dst_amount = u64::MAX;
    order.estimated_dst_amount = u64::MAX;
    assert_eq!(quote_fill(&order, 2, 1300), Err(SwapError::ArithmeticOverflow));
    assert_eq!(quote_fill(&order, 1, 1300), Err(SwapError::ArithmeticOverflow));
    assert_eq!(quote_fill(&order, 1, 1600), Ok((0, 0, u64::MAX)));
}

#[test]
fn fill_example_pays_the_priced_amount() {
    let order = plain_order();
    let mut accounts = fill_accounts(&order, created(&order));
    let transfers = fill(&mut accounts, &order, 500, 1300).unwrap();
    assert_eq!(
        transfers,
        FillTransfers {
            taker_amount: 500,
            maker_payment: token_payment(Account::MakerDstAta, 453),
            protocol_payment: None,
            integrator_payment: None,
            closes_escrow: false,
        }
    );
    assert_eq!(accounts.escrow.status, EscrowStatus::PartiallyFilled);
    assert_eq!(accounts.escrow.amount, 500);
}

#[test]
fn fill_pays_fees_in_order() {
    let order = fee_order();
    let mut accounts = fill_accounts(&order, created(&order));
    let transfers = fill(&mut accounts, &order, 1000, 1300).unwrap();
    assert_eq!(transfers.taker_amount, 1000);
    assert_eq!(transfers.maker_payment, token_payment(Account::MakerDstAta, 878));
    assert_eq!(transfers.protocol_payment, Some(token_payment(Account::ProtocolDstAcc, 9)));
    assert_eq!(
        transfers.integrator_payment,
        Some(token_payment(Account::IntegratorDstAcc, 18))
    );
    assert!(transfers.closes_escrow);
    assert_eq!(accounts.escrow.status, EscrowStatus::Closed);
    assert_eq!(accounts.escrow.amount, 0);
    assert_eq!(transfers.maker_payment.amount(), 878);
    assert_eq!(transfers.maker_payment.to(), Account::MakerDstAta);
}

#[test]
fn fill_with_native_destination_pays_the_receiver() {
    let mut order = fee_order();
    order.dst_asset_is_native = true;
    let mut accounts = fill_accounts(&order, created(&order));
    let transfers = fill(&mut accounts, &order, 1000, 1300).unwrap();
    assert_eq!(
        transfers.maker_payment,
        UniTransferParams::NativeTransfer {
            from: Account::Taker,
            to: Account::MakerReceiver,
            amount: 878,
        }
    );
    assert_eq!(
        transfers.protocol_payment,
        Some(UniTransferParams::NativeTransfer {
            from: Account::Taker,
            to: Account::ProtocolDstAcc,
            amount: 9,
        })
    );
    assert_eq!(
        transfers.integrator_payment,
        Some(UniTransferParams::NativeTransfer {
            from: Account::Taker,
            to: Account::IntegratorDstAcc,
            amount: 18,
        })
    );
}

#[test]
fn repeated_fills_close_the_escrow_once() {
    let order = plain_order();
    let mut accounts = fill_accounts(&order, created(&order));
    let mut closes = 0;
    for amount in [100u64, 250, 1, 649] {
        assert!(accounts.escrow.status != EscrowStatus::Closed);
        let transfers = fill(&mut accounts, &order, amount, 1700).unwrap();
        if transfers.closes_escrow {
            closes += 1;
        }
    }
    assert_eq!(closes, 1);
    assert_eq!(accounts.escrow.status, EscrowStatus::Closed);
    assert_eq!(accounts.escrow.amount, 0);
    let before = accounts.escrow;
    assert_eq!(fill(&mut accounts, &order, 1, 1700), Err(SwapError::EscrowNotOpen));
    assert_eq!(accounts.escrow.status, before.status);
    assert_eq!(accounts.escrow.amount, before.amount);
}

#[test]
fn fill_rejects_more_than_is_left() {
    let order = plain_order();
    let mut accounts = fill_accounts(&order, created(&order));
    fill(&mut accounts, &order, 600, 1300).unwrap();
    assert_eq!(
        fill(&mut accounts, &order, 401, 1300),
        Err(SwapError::Fusion(FusionError::NotEnoughTokensInEscrow))
    );
    assert_eq!(accounts.escrow.amount, 400);
    assert_eq!(accounts.escrow.status, EscrowStatus::PartiallyFilled);
    assert!(fill(&mut accounts, &order, 400, 1300).unwrap().closes_escrow);
}

#[test]
fn fill_rejects_nothing() {
    let order = plain_order();
    let mut accounts = fill_accounts(&order, created(&order));
    assert_eq!(
        fill(&mut accounts, &order, 0, 1300),
        Err(SwapError::Fusion(FusionError::InvalidAmount))
    );
    assert_eq!(accounts.escrow.status, EscrowStatus::Created);
}

#[test]
fn fill_rejects_an_expired_order() {
    let order = plain_order();
    let mut accounts = fill_accounts(&order, created(&order));
    assert_eq!(
        fill(&mut accounts, &order, 500, 2000),
        Err(SwapError::Fusion(FusionError::OrderExpired))
    );
    assert!(fill(&mut accounts, &order, 500, 1999).is_ok());
}

#[test]
fn fill_rejects_changed_terms() {
    let order = plain_order();
    let escrow = created(&order);
    let mut cheaper = plain_order();
    cheaper.min_dst_amount = 1;
    let mut accounts = fill_accounts(&cheaper, escrow);
    assert_eq!(fill(&mut accounts, &cheaper, 500, 1300), Err(SwapError::EscrowKeyMismatch));
    assert_eq!(accounts.escrow.amount, 1000);

    let mut other_receiver = fill_accounts(&order, escrow);
    other_receiver.maker_receiver = [99u8; 32];
    assert_eq!(
        fill(&mut other_receiver, &order, 500, 1300),
        Err(SwapError::EscrowKeyMismatch)
    );

    let mut other_maker = fill_accounts(&order, escrow);
    other_maker.maker = [98u8; 32];
    assert_eq!(fill(&mut other_maker, &order, 500, 1300), Err(SwapError::EscrowKeyMismatch));
}

#[test]
fn settle_fill_checks_the_identity_it_is_given() {
    let order = plain_order();
    let escrow = OrderEscrow {
        status: EscrowStatus::Created,
        maker: MAKER,
        order_hash: [5u8; 32],
        amount: 1000,
    };
    let mut accounts = fill_accounts(&order, escrow);
    assert_eq!(
        settle_fill(&mut accounts, &order, 500, 1300, &[6u8; 32]),
        Err(SwapError::EscrowKeyMismatch)
    );
    let transfers = settle_fill(&mut accounts, &order, 500, 1300, &[5u8; 32]).unwrap();
    assert_eq!(transfers.maker_payment.amount(), 453);
    assert_eq!(accounts.escrow.amount, 500);
}

#[test]
fn fill_rejects_missing_destination_accounts() {
    let order = plain_order();
    let mut accounts = fill_accounts(&order, created(&order));
    accounts.has_taker_dst_ata = false;
    accounts.has_maker_dst_ata = false;
    assert_eq!(
        fill(&mut accounts, &order, 500, 1300),
        Err(SwapError::Fusion(FusionError::MissingTakerDstAta))
    );
    accounts.has_taker_dst_ata = true;
    assert_eq!(
        fill(&mut accounts, &order, 500, 1300),
        Err(SwapError::Fusion(FusionError::MissingMakerDstAta))
    );
    assert_eq!(accounts.escrow.amount, 1000);
}

#[test]
fn fill_rejects_missing_fee_recipients() {
    let order = fee_order();
    let identity = [1u8; 32];
    let escrow =
        OrderEscrow { status: EscrowStatus::Created, maker: MAKER, order_hash: identity, amount: 1000 };
    let mut accounts = fill_accounts(&order, escrow);
    accounts.protocol_dst_acc = None;
    assert_eq!(
        settle_fill(&mut accounts, &order, 1000, 1300, &identity),
        Err(SwapError::Fusion(FusionError::InconsistentProtocolFeeConfig))
    );
    accounts.protocol_dst_acc = Some(PROTOCOL);
    accounts.integrator_dst_acc = None;
    assert_eq!(
        settle_fill(&mut accounts, &order, 1000, 1300, &identity),
        Err(SwapError::Fusion(FusionError::InconsistentIntegratorFeeConfig))
    );
    // a fill so small that both fees round to nothing needs no recipient
    accounts.protocol_dst_acc = None;
    assert!(settle_fill(&mut accounts, &order, 1, 1300, &identity).is_ok());
}

#[test]
fn fill_rejects_terms_without_a_source_amount() {
    let mut order = plain_order();
    order.src_amount = 0;
    let identity = [1u8; 32];
    let escrow =
        OrderEscrow { status: EscrowStatus::Created, maker: MAKER, order_hash: identity, amount: 10 };
    let mut accounts = fill_accounts(&order, escrow);
    assert_eq!(
        settle_fill(&mut accounts, &order, 5, 1300, &identity),
        Err(SwapError::Fusion(FusionError::InvalidAmount))
    );
}

#[test]
fn fill_overflow_is_an_error_and_changes_nothing() {
    let mut order = plain_order();
    order.src_amount = 10;
    order.min_dst_amount = u64::MAX;
    order.estimated_dst_amount = u64::MAX;
    let mut accounts = fill_accounts(&order, created(&order));
    assert_eq!(fill(&mut accounts, &order, 10, 1300), Err(SwapError::ArithmeticOverflow));
    assert_eq!(accounts.escrow.amount, 10);
    assert_eq!(accounts.escrow.status, EscrowStatus::Created);
}

#[test]
fn cancel_refunds_what_is_left() {
    let order = plain_order();
    let mut filling = fill_accounts(&order, created(&order));
    fill(&mut filling, &order, 300, 1300).unwrap();
    fill(&mut filling, &order, 50, 1400).unwrap();
    let mut accounts = Cancel {
        escrow: filling.escrow,
        maker: MAKER,
        src_mint: SRC_MINT,
        has_maker_src_ata: true,
    };
    let key = accounts.escrow.order_hash;
    let transfers = cancel(&mut accounts, key, false).unwrap();
    assert_eq!(
        transfers,
        CancelTransfers {
            refund_amount: 650,
            token_refund: Some(token_refund_of(650)),
            lamports_to: Account::Maker,
        }
    );
    assert_eq!(accounts.escrow.status, EscrowStatus::Cancelled);
    assert_eq!(accounts.escrow.amount, 0);
    assert_eq!(cancel(&mut accounts, key, false), Err(SwapError::EscrowNotOpen));
}

#[test]
fn cancel_of_native_source_refunds_with_the_account() {
    let mut order = plain_order();
    order.src_asset_is_native = true;
    let escrow = created(&order);
    let mut accounts =
        Cancel { escrow, maker: MAKER, src_mint: NATIVE_MINT, has_maker_src_ata: false };
    let transfers = cancel(&mut accounts, escrow.order_hash, true).unwrap();
    assert_eq!(
        transfers,
        CancelTransfers { refund_amount: 1000, token_refund: None, lamports_to: Account::Maker }
    );
}

#[test]
fn cancel_is_for_the_maker_only() {
    let order = plain_order();
    let escrow = created(&order);
    let mut accounts =
        Cancel { escrow, maker: [1u8; 32], src_mint: SRC_MINT, has_maker_src_ata: true };
    assert_eq!(
        cancel(&mut accounts, escrow.order_hash, false),
        Err(SwapError::EscrowKeyMismatch)
    );
    accounts.maker = MAKER;
    assert_eq!(cancel(&mut accounts, [0u8; 32], false), Err(SwapError::EscrowKeyMismatch));
    assert_eq!(accounts.escrow.amount, 1000);
    assert_eq!(accounts.escrow.status, EscrowStatus::Created);
}

#[test]
fn cancel_rejects_inconsistent_native_flag() {
    let order = plain_order();
    let escrow = created(&order);
    let mut accounts = Cancel { escrow, maker: MAKER, src_mint: SRC_MINT, has_maker_src_ata: true };
    assert_eq!(
        cancel(&mut accounts, escrow.order_hash, true),
        Err(SwapError::Fusion(FusionError::InconsistentNativeSrcTrait))
    );
    accounts.has_maker_src_ata = false;
    assert_eq!(
        cancel(&mut accounts, escrow.order_hash, false),
        Err(SwapError::Fusion(FusionError::InconsistentNativeSrcTrait))
    );
    accounts.src_mint = NATIVE_MINT;
    accounts.has_maker_src_ata = true;
    assert_eq!(
        cancel(&mut accounts, escrow.order_hash, true),
        Err(SwapError::Fusion(FusionError::InconsistentNativeSrcTrait))
    );
}

#[test]
fn cancel_after_close_fails() {
    let order = plain_order();
    let mut filling = fill_accounts(&order, created(&order));
    fill(&mut filling, &order, 1000, 1300).unwrap();
    let mut accounts = Cancel {
        escrow: filling.escrow,
        maker: MAKER,
        src_mint: SRC_MINT,
        has_maker_src_ata: true,
    };
    let key = accounts.escrow.order_hash;
    assert_eq!(cancel(&mut accounts, key, false), Err(SwapError::EscrowNotOpen));
}

#[test]
fn resolver_cancel_pays_the_premium_reached() {
    let order = fee_order();
    let mut accounts = resolver_accounts(&order, created(&order));
    // 50 s into a cancellation auction of 100 s: half of 5000
    let transfers = cancel_by_resolver(&mut accounts, &order, 10_000, 2050).unwrap();
    assert_eq!(
        transfers,
        ResolverCancelTransfers {
            refund_amount: 1000,
            token_refund: Some(token_refund_of(1000)),
            lamports_to: Account::Resolver,
            premium: 2500,
            maker_payment: UniTransferParams::NativeTransfer {
                from: Account::Resolver,
                to: Account::Maker,
                amount: 7500,
            },
        }
    );
    assert_eq!(accounts.escrow.status, EscrowStatus::CancelledByResolver);
    assert_eq!(accounts.escrow.amount, 0);
    assert_eq!(
        cancel_by_resolver(&mut accounts, &order, 10_000, 2050),
        Err(SwapError::EscrowNotOpen)
    );
}

#[test]
fn resolver_cancel_is_capped_by_the_reward_limit() {
    let order = fee_order();
    let mut accounts = resolver_accounts(&order, created(&order));
    let transfers = cancel_by_resolver(&mut accounts, &order, 1000, 2050).unwrap();
    assert_eq!(transfers.premium, 1000);
    assert_eq!(transfers.maker_payment.amount(), 9000);
}

#[test]
fn resolver_cancel_at_expiry_and_after_the_ramp() {
    let order = fee_order();
    let mut at_expiry = resolver_accounts(&order, created(&order));
    let transfers = cancel_by_resolver(&mut at_expiry, &order, u64::MAX, 2000).unwrap();
    assert_eq!(transfers.premium, 0);
    assert_eq!(transfers.maker_payment.amount(), 10_000);
    let mut late = resolver_accounts(&order, created(&order));
    let transfers = cancel_by_resolver(&mut late, &order, u64::MAX, 2100).unwrap();
    assert_eq!(transfers.premium, 5000);
    assert_eq!(transfers.maker_payment.amount(), 5000);
}

#[test]
fn resolver_cancel_after_a_partial_fill_refunds_the_rest() {
    let mut order = fee_order();
    order.src_asset_is_native = true;
    let mut filling = fill_accounts(&order, created(&order));
    fill(&mut filling, &order, 400, 1300).unwrap();
    let mut accounts = resolver_accounts(&order, filling.escrow);
    let transfers = cancel_by_resolver(&mut accounts, &order, 10_000, 2050).unwrap();
    assert_eq!(transfers.refund_amount, 600);
    assert_eq!(transfers.token_refund, None);
}

#[test]
fn resolver_cancel_must_be_allowed_by_the_maker() {
    let order = plain_order();
    let mut accounts = resolver_accounts(&order, created(&order));
    assert_eq!(
        cancel_by_resolver(&mut accounts, &order, 10_000, 2050),
        Err(SwapError::Fusion(FusionError::CancelOrderByResolverIsForbidden))
    );
}

#[test]
fn resolver_cancel_waits_for_expiry() {
    let order = fee_order();
    let mut accounts = resolver_accounts(&order, created(&order));
    assert_eq!(
        cancel_by_resolver(&mut accounts, &order, 10_000, 1999),
        Err(SwapError::Fusion(FusionError::OrderNotExpired))
    );
    assert_eq!(accounts.escrow.status, EscrowStatus::Created);
    assert_eq!(accounts.escrow.amount, 1000);
}

#[test]
fn resolver_cancel_rejects_changed_terms_and_flags() {
    let order = fee_order();
    let escrow = created(&order);
    let mut other = fee_order();
    other.fee.max_cancellation_premium = 9000;
    let mut accounts = resolver_accounts(&other, escrow);
    assert_eq!(
        cancel_by_resolver(&mut accounts, &other, 10_000, 2050),
        Err(SwapError::EscrowKeyMismatch)
    );
    let mut accounts = resolver_accounts(&order, escrow);
    accounts.has_maker_src_ata = false;
    assert_eq!(
        cancel_by_resolver(&mut accounts, &order, 10_000, 2050),
        Err(SwapError::Fusion(FusionError::InconsistentNativeSrcTrait))
    );
}

#[test]
fn resolver_cancel_needs_collateral_for_the_premium() {
    let order = fee_order();
    let mut accounts = resolver_accounts(&order, created(&order));
    accounts.escrow_src_ata_lamports = 2499;
    assert_eq!(
        cancel_by_resolver(&mut accounts, &order, 10_000, 2050),
        Err(SwapError::ArithmeticOverflow)
    );
    assert_eq!(accounts.escrow.amount, 1000);
    accounts.escrow_src_ata_lamports = 2500;
    let transfers = cancel_by_resolver(&mut accounts, &order, 10_000, 2050).unwrap();
    assert_eq!(transfers.maker_payment.amount(), 0);
}

#[test]
fn settle_resolver_cancel_checks_the_identity_it_is_given() {
    let order = fee_order();
    let escrow =
        OrderEscrow { status: EscrowStatus::PartiallyFilled, maker: MAKER, order_hash: [3u8; 32], amount: 5 };
    let mut accounts = resolver_accounts(&order, escrow);
    assert_eq!(
        settle_resolver_cancel(&mut accounts, &order, 10_000, 2050, &[4u8; 32]),
        Err(SwapError::EscrowKeyMismatch)
    );
    let transfers =
        settle_resolver_cancel(&mut accounts, &order, 10_000, 2050, &[3u8; 32]).unwrap();
    assert_eq!(transfers.refund_amount, 5);
    assert_eq!(transfers.premium, 2500);
}

#[test]
fn redirect_keeps_the_purse() {
    let payment = token_payment(Account::MakerDstAta, 10);
    assert_eq!(
        payment.redirect(Account::ProtocolDstAcc, 3),
        token_payment(Account::ProtocolDstAcc, 3)
    );
    let native =
        UniTransferParams::NativeTransfer { from: Account::Taker, to: Account::MakerReceiver, amount: 10 };
    assert_eq!(
        native.redirect(Account::IntegratorDstAcc, 4),
        UniTransferParams::NativeTransfer {
            from: Account::Taker,
            to: Account::IntegratorDstAcc,
            amount: 4,
        }
    );
}

#[test]
fn error_messages() {
    assert_eq!(FusionError::InvalidAmount.message(), "Invalid amount");
    assert_eq!(FusionError::OrderExpired.message(), "Order expired");
    assert_eq!(
        FusionError::CancelOrderByResolverIsForbidden.message(),
        "Cancel order by resolver is forbidden"
    );
    assert_eq!(fusion_swap::error::WhitelistError::Unauthorized.message(), "Unauthorized");
}

#[test]
fn escrow_is_open_until_it_is_emptied() {
    let mut escrow =
        OrderEscrow { status: EscrowStatus::Created, maker: MAKER, order_hash: [1u8; 32], amount: 5 };
    assert!(escrow.open());
    escrow.status = EscrowStatus::PartiallyFilled;
    assert!(escrow.open());
    for status in [EscrowStatus::Closed, EscrowStatus::Cancelled, EscrowStatus::CancelledByResolver] {
        escrow.status = status;
        assert!(!escrow.open());
    }
}

#[test]
fn escrow_is_keyed_by_maker_and_fingerprint() {
    let escrow =
        OrderEscrow { status: EscrowStatus::Created, maker: MAKER, order_hash: [1u8; 32], amount: 5 };
    assert!(escrow.keyed_by(&MAKER, &[1u8; 32]));
    assert!(!escrow.keyed_by(&RECEIVER, &[1u8; 32]));
    assert!(!escrow.keyed_by(&MAKER, &[2u8; 32]));
    let mut near = [1u8; 32];
    near[31] = 0;
    assert!(!escrow.keyed_by(&MAKER, &near));
}
