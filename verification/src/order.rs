use crate::auction::{AuctionData, PointAndTimeDelta};
use crate::encoding::{
    bool_byte, le_bytes, lemma_bool_split, lemma_concat_split, lemma_key_split,
    lemma_le_bytes_len, lemma_option_key_split, lemma_u16_split, lemma_u32_split,
    lemma_u64_split, lemma_u8_split, option_key_bytes, option_key_view, push_all, push_bool,
    push_le, push_option_key,
};
use crate::error::SwapError;
use crate::hashing::{hashv, hashv_digest};
use vstd::prelude::*;

verus! {

/// The fees that an order grants.
#[derive(Clone, Copy, Debug)]
pub struct FeeConfig {
    /// The protocol's fee, in hundred-thousandths of the amount paid.
    pub protocol_fee: u16,
    /// The integrator's fee, in hundred-thousandths of the amount paid.
    pub integrator_fee: u16,
    /// The protocol's part of a surplus, in percent.
    pub surplus_percentage: u8,
    /// The most that a resolver may earn for cancelling the order once it has
    /// expired, in lamports; 0 forbids such a cancellation.
    pub max_cancellation_premium: u64,
}

/// The terms of an order. They do not change once the order is created.
#[derive(Debug)]
pub struct OrderConfig {
    pub id: u32,
    pub src_amount: u64,
    pub min_dst_amount: u64,
    pub estimated_dst_amount: u64,
    pub expiration_time: u32,
    pub src_asset_is_native: bool,
    pub dst_asset_is_native: bool,
    pub fee: FeeConfig,
    pub dutch_auction_data: AuctionData,
    pub cancellation_auction_duration: u32,
}

/// The bytes of one checkpoint: its rate bump, then its time delta.
pub open spec fn point_bytes(point: PointAndTimeDelta) -> Seq<u8> {
    le_bytes(point.rate_bump as nat, 2) + le_bytes(point.time_delta as nat, 2)
}

/// The bytes of a run of checkpoints, one after the other.
pub open spec fn points_bytes(points: Seq<PointAndTimeDelta>) -> Seq<u8>
    decreases points.len(),
{
    if points.len() == 0 {
        Seq::empty()
    } else {
        points_bytes(points.drop_last()) + point_bytes(points.last())
    }
}

/// The bytes of an auction curve: its fields in order, each integer lowest
/// byte first, the checkpoints behind their count in 32 bits.
pub open spec fn auction_bytes(data: &AuctionData) -> Seq<u8> {
    le_bytes(data.start_time as nat, 4) + le_bytes(data.duration as nat, 4) + le_bytes(
        data.initial_rate_bump as nat,
        2,
    ) + le_bytes(data.points_and_time_deltas@.len(), 4) + points_bytes(
        data.points_and_time_deltas@,
    )
}

/// The bytes of a fee configuration: its fields in order, each integer lowest
/// byte first.
pub open spec fn fee_bytes(fee: FeeConfig) -> Seq<u8> {
    le_bytes(fee.protocol_fee as nat, 2) + le_bytes(fee.integrator_fee as nat, 2) + le_bytes(
        fee.surplus_percentage as nat,
        1,
    ) + le_bytes(fee.max_cancellation_premium as nat, 8)
}

/// The bytes of an order's terms: its fields in order, each integer lowest
/// byte first, each flag as one byte.
pub open spec fn order_bytes(order: &OrderConfig) -> Seq<u8> {
    le_bytes(order.id as nat, 4) + le_bytes(order.src_amount as nat, 8) + le_bytes(
        order.min_dst_amount as nat,
        8,
    ) + le_bytes(order.estimated_dst_amount as nat, 8) + le_bytes(
        order.expiration_time as nat,
        4,
    ) + bool_byte(order.src_asset_is_native) + bool_byte(order.dst_asset_is_native) + fee_bytes(
        order.fee,
    ) + auction_bytes(&order.dutch_auction_data) + le_bytes(
        order.cancellation_auction_duration as nat,
        4,
    )
}

/// Whether an order's terms can be put into bytes: the count of its
/// checkpoints fits in 32 bits.
pub open spec fn order_encodable(order: &OrderConfig) -> bool {
    order.dutch_auction_data.points_and_time_deltas@.len() <= u32::MAX
}

/// All that an order's fingerprint binds: the order's terms, the two fee
/// recipients where there are any, the two assets and the receiver.
pub open spec fn order_preimage(
    order: &OrderConfig,
    protocol_dst_acc: Option<[u8; 32]>,
    integrator_dst_acc: Option<[u8; 32]>,
    src_mint: [u8; 32],
    dst_mint: [u8; 32],
    receiver: [u8; 32],
) -> Seq<u8> {
    order_bytes(order) + option_key_bytes(protocol_dst_acc) + option_key_bytes(
        integrator_dst_acc,
    ) + src_mint@ + dst_mint@ + receiver@
}

/// The fingerprint of an order: the digest of all that it binds.
pub open spec fn order_identity(
    order: &OrderConfig,
    protocol_dst_acc: Option<[u8; 32]>,
    integrator_dst_acc: Option<[u8; 32]>,
    src_mint: [u8; 32],
    dst_mint: [u8; 32],
    receiver: [u8; 32],
) -> Seq<u8> {
    hashv_digest(
        order_preimage(order, protocol_dst_acc, integrator_dst_acc, src_mint, dst_mint, receiver),
    )
}

/// Appends the bytes of an auction curve to `out`.
pub fn push_auction(out: &mut Vec<u8>, data: &AuctionData)
    ensures
        final(out)@ == old(out)@ + auction_bytes(data),
{
    let n: usize = data.points_and_time_deltas.len();
    push_le(out, data.start_time as u64, 4);
    push_le(out, data.duration as u64, 4);
    push_le(out, data.initial_rate_bump as u64, 2);
    push_le(out, n as u64, 4);
    let ghost head = out@;
    let ghost points = data.points_and_time_deltas@;
    assert(head =~= old(out)@ + le_bytes(data.start_time as nat, 4) + le_bytes(
        data.duration as nat,
        4,
    ) + le_bytes(data.initial_rate_bump as nat, 2) + le_bytes(points.len(), 4));
    let mut i: usize = 0;
    while i < n
        invariant
            i <= n,
            n == points.len(),
            points == data.points_and_time_deltas@,
            out@ == head + points_bytes(points.take(i as int)),
        decreases n - i,
    {
        let point: PointAndTimeDelta = data.points_and_time_deltas[i];
        push_le(out, point.rate_bump as u64, 2);
        push_le(out, point.time_delta as u64, 2);
        proof {
            let next = points.take(i + 1);
            assert(next.drop_last() =~= points.take(i as int));
            assert(next.last() == point);
            assert(out@ =~= head + points_bytes(next));
        }
        i += 1;
    }
    proof {
        assert(points.take(n as int) =~= points);
        assert(out@ =~= old(out)@ + auction_bytes(data));
    }
}

/// The bytes of an order's terms, or `None` where they cannot be put into
/// bytes.
pub fn encode_order(order: &OrderConfig) -> (r: Option<Vec<u8>>)
    ensures
        match r {
            Some(bytes) => order_encodable(order) && bytes@ == order_bytes(order),
            None => !order_encodable(order),
        },
{
    if order.dutch_auction_data.points_and_time_deltas.len() > 0xffff_ffff {
        return None;
    }
    let mut out: Vec<u8> = Vec::new();
    push_le(&mut out, order.id as u64, 4);
    push_le(&mut out, order.src_amount, 8);
    push_le(&mut out, order.min_dst_amount, 8);
    push_le(&mut out, order.estimated_dst_amount, 8);
    push_le(&mut out, order.expiration_time as u64, 4);
    push_bool(&mut out, order.src_asset_is_native);
    push_bool(&mut out, order.dst_asset_is_native);
    let ghost head = out@;
    push_le(&mut out, order.fee.protocol_fee as u64, 2);
    push_le(&mut out, order.fee.integrator_fee as u64, 2);
    push_le(&mut out, order.fee.surplus_percentage as u64, 1);
    push_le(&mut out, order.fee.max_cancellation_premium, 8);
    assert(out@ =~= head + fee_bytes(order.fee));
    push_auction(&mut out, &order.dutch_auction_data);
    push_le(&mut out, order.cancellation_auction_duration as u64, 4);
    assert(out@ =~= order_bytes(order));
    Some(out)
}

/// The fingerprint of an order: the SHA-256 digest of its terms, the two fee
/// recipients, the two assets and the receiver. Fails with
/// `OrderNotEncodable` exactly where the terms cannot be put into bytes.
pub fn order_hash(
    order: &OrderConfig,
    protocol_dst_acc: Option<[u8; 32]>,
    integrator_dst_acc: Option<[u8; 32]>,
    src_mint: [u8; 32],
    dst_mint: [u8; 32],
    receiver: [u8; 32],
) -> (r: Result<[u8; 32], SwapError>)
    ensures
        match r {
            Ok(hash) => order_encodable(order) && hash@ == order_identity(
                order,
                protocol_dst_acc,
                integrator_dst_acc,
                src_mint,
                dst_mint,
                receiver,
            ),
            Err(e) => !order_encodable(order) && e == SwapError::OrderNotEncodable,
        },
{
    let mut message: Vec<u8> = match encode_order(order) {
        Some(bytes) => bytes,
        None => { return Err(SwapError::OrderNotEncodable); },
    };
    push_option_key(&mut message, &protocol_dst_acc);
    push_option_key(&mut message, &integrator_dst_acc);
    push_all(&mut message, src_mint.as_slice());
    push_all(&mut message, dst_mint.as_slice());
    push_all(&mut message, receiver.as_slice());
    Ok(hashv(message.as_slice()))
}

/// The bytes of a run of checkpoints are four for each.
pub proof fn lemma_points_bytes_len(points: Seq<PointAndTimeDelta>)
    ensures
        points_bytes(points).len() == 4 * points.len(),
    decreases points.len(),
{
    if points.len() > 0 {
        lemma_points_bytes_len(points.drop_last());
        lemma_le_bytes_len(points.last().rate_bump as nat, 2);
        lemma_le_bytes_len(points.last().time_delta as nat, 2);
    }
}

/// Runs of equally many checkpoints with the same bytes are the same.
pub proof fn lemma_points_bytes_injective(
    first: Seq<PointAndTimeDelta>,
    second: Seq<PointAndTimeDelta>,
)
    requires
        first.len() == second.len(),
        points_bytes(first) == points_bytes(second),
    ensures
        first == second,
    decreases first.len(),
{
    if first.len() > 0 {
        let a = first.last();
        let b = second.last();
        lemma_points_bytes_len(first.drop_last());
        lemma_points_bytes_len(second.drop_last());
        lemma_concat_split(
            points_bytes(first.drop_last()),
            point_bytes(a),
            points_bytes(second.drop_last()),
            point_bytes(b),
        );
        lemma_u16_split(
            a.rate_bump,
            le_bytes(a.time_delta as nat, 2),
            b.rate_bump,
            le_bytes(b.time_delta as nat, 2),
        );
        assert(le_bytes(a.time_delta as nat, 2) + Seq::<u8>::empty() =~= le_bytes(
            a.time_delta as nat,
            2,
        ));
        assert(le_bytes(b.time_delta as nat, 2) + Seq::<u8>::empty() =~= le_bytes(
            b.time_delta as nat,
            2,
        ));
        lemma_u16_split(a.time_delta, Seq::empty(), b.time_delta, Seq::empty());
        lemma_points_bytes_injective(first.drop_last(), second.drop_last());
        assert(first =~= first.drop_last().push(a));
        assert(second =~= second.drop_last().push(b));
    } else {
        assert(first =~= second);
    }
}

/// All that one fingerprint binds.
pub struct Binding {
    pub order: OrderConfig,
    pub protocol_dst_acc: Option<[u8; 32]>,
    pub integrator_dst_acc: Option<[u8; 32]>,
    pub src_mint: [u8; 32],
    pub dst_mint: [u8; 32],
    pub receiver: [u8; 32],
}

impl Binding {
    /// The bytes that the fingerprint is the digest of.
    pub open spec fn preimage(&self) -> Seq<u8> {
        order_preimage(
            &self.order,
            self.protocol_dst_acc,
            self.integrator_dst_acc,
            self.src_mint,
            self.dst_mint,
            self.receiver,
        )
    }

    /// Whether two bindings agree in every term of the order and in every
    /// account bound with it.
    pub open spec fn agrees_with(&self, other: &Binding) -> bool {
        let a = self.order;
        let b = other.order;
        &&& a.id == b.id
        &&& a.src_amount == b.src_amount
        &&& a.min_dst_amount == b.min_dst_amount
        &&& a.estimated_dst_amount == b.estimated_dst_amount
        &&& a.expiration_time == b.expiration_time
        &&& a.src_asset_is_native == b.src_asset_is_native
        &&& a.dst_asset_is_native == b.dst_asset_is_native
        &&& a.fee == b.fee
        &&& a.dutch_auction_data.start_time == b.dutch_auction_data.start_time
        &&& a.dutch_auction_data.duration == b.dutch_auction_data.duration
        &&& a.dutch_auction_data.initial_rate_bump == b.dutch_auction_data.initial_rate_bump
        &&& a.dutch_auction_data.points_and_time_deltas@
            == b.dutch_auction_data.points_and_time_deltas@
        &&& a.cancellation_auction_duration == b.cancellation_auction_duration
        &&& option_key_view(self.protocol_dst_acc) == option_key_view(other.protocol_dst_acc)
        &&& option_key_view(self.integrator_dst_acc) == option_key_view(other.integrator_dst_acc)
        &&& self.src_mint@ == other.src_mint@
        &&& self.dst_mint@ == other.dst_mint@
        &&& self.receiver@ == other.receiver@
    }
}

spec fn part(b: Binding, k: int) -> Seq<u8> {
    if k == 0 {
        le_bytes(b.order.id as nat, 4)
    } else if k == 1 {
        le_bytes(b.order.src_amount as nat, 8)
    } else if k == 2 {
        le_bytes(b.order.min_dst_amount as nat, 8)
    } else if k == 3 {
        le_bytes(b.order.estimated_dst_amount as nat, 8)
    } else if k == 4 {
        le_bytes(b.order.expiration_time as nat, 4)
    } else if k == 5 {
        bool_byte(b.order.src_asset_is_native)
    } else if k == 6 {
        bool_byte(b.order.dst_asset_is_native)
    } else if k == 7 {
        le_bytes(b.order.fee.protocol_fee as nat, 2)
    } else if k == 8 {
        le_bytes(b.order.fee.integrator_fee as nat, 2)
    } else if k == 9 {
        le_bytes(b.order.fee.surplus_percentage as nat, 1)
    } else if k == 10 {
        le_bytes(b.order.fee.max_cancellation_premium as nat, 8)
    } else if k == 11 {
        le_bytes(b.order.dutch_auction_data.start_time as nat, 4)
    } else if k == 12 {
        le_bytes(b.order.dutch_auction_data.duration as nat, 4)
    } else if k == 13 {
        le_bytes(b.order.dutch_auction_data.initial_rate_bump as nat, 2)
    } else if k == 14 {
        le_bytes(b.order.dutch_auction_data.points_and_time_deltas@.len(), 4)
    } else if k == 15 {
        points_bytes(b.order.dutch_auction_data.points_and_time_deltas@)
    } else if k == 16 {
        le_bytes(b.order.cancellation_auction_duration as nat, 4)
    } else if k == 17 {
        option_key_bytes(b.protocol_dst_acc)
    } else if k == 18 {
        option_key_bytes(b.integrator_dst_acc)
    } else if k == 19 {
        b.src_mint@
    } else if k == 20 {
        b.dst_mint@
    } else {
        b.receiver@
    }
}

spec fn rest(b: Binding, k: int) -> Seq<u8>
    decreases 22 - k,
{
    if k < 0 || k > 21 {
        Seq::empty()
    } else {
        part(b, k) + rest(b, k + 1)
    }
}

proof fn lemma_concat_assoc(x: Seq<u8>, y: Seq<u8>, z: Seq<u8>)
    ensures
        (x + y) + z == x + (y + z),
{
    assert((x + y) + z =~= x + (y + z));
}

proof fn lemma_preimage_in_parts(b: Binding)
    ensures
        b.preimage() == rest(b, 0),
{
    let id = le_bytes(b.order.id as nat, 4);
    let src_amount = le_bytes(b.order.src_amount as nat, 8);
    let min_dst_amount = le_bytes(b.order.min_dst_amount as nat, 8);
    let estimated_dst_amount = le_bytes(b.order.estimated_dst_amount as nat, 8);
    let expiration_time = le_bytes(b.order.expiration_time as nat, 4);
    let src_is_native = bool_byte(b.order.src_asset_is_native);
    let dst_is_native = bool_byte(b.order.dst_asset_is_native);
    let protocol_fee = le_bytes(b.order.fee.protocol_fee as nat, 2);
    let integrator_fee = le_bytes(b.order.fee.integrator_fee as nat, 2);
    let surplus = le_bytes(b.order.fee.surplus_percentage as nat, 1);
    let premium = le_bytes(b.order.fee.max_cancellation_premium as nat, 8);
    let start_time = le_bytes(b.order.dutch_auction_data.start_time as nat, 4);
    let duration = le_bytes(b.order.dutch_auction_data.duration as nat, 4);
    let initial_bump = le_bytes(b.order.dutch_auction_data.initial_rate_bump as nat, 2);
    let count = le_bytes(b.order.dutch_auction_data.points_and_time_deltas@.len(), 4);
    let points = points_bytes(b.order.dutch_auction_data.points_and_time_deltas@);
    let cancellation = le_bytes(b.order.cancellation_auction_duration as nat, 4);
    let protocol = option_key_bytes(b.protocol_dst_acc);
    let integrator = option_key_bytes(b.integrator_dst_acc);
    let src_mint = b.src_mint@;
    let dst_mint = b.dst_mint@;
    let receiver = b.receiver@;
    let fee = protocol_fee + integrator_fee + surplus + premium;
    let auction = start_time + duration + initial_bump + count + points;
    let terms = id
        + src_amount + min_dst_amount + estimated_dst_amount + expiration_time + src_is_native
        + dst_is_native + fee + auction + cancellation;
    let whole = terms + protocol + integrator + src_mint + dst_mint + receiver;
    assert(b.preimage() == whole);
    let from_receiver = receiver + Seq::<u8>::empty();
    let from_dst_mint = dst_mint + from_receiver;
    let from_src_mint = src_mint + from_dst_mint;
    let from_integrator = integrator + from_src_mint;
    let from_protocol = protocol + from_integrator;
    let from_cancellation = cancellation + from_protocol;
    let from_points = points + from_cancellation;
    let from_count = count + from_points;
    let from_initial_bump = initial_bump + from_count;
    let from_duration = duration + from_initial_bump;
    let from_start_time = start_time + from_duration;
    let from_premium = premium + from_start_time;
    let from_surplus = surplus + from_premium;
    let from_integrator_fee = integrator_fee + from_surplus;
    let from_protocol_fee = protocol_fee + from_integrator_fee;
    let from_dst_is_native = dst_is_native + from_protocol_fee;
    let from_src_is_native = src_is_native + from_dst_is_native;
    let from_expiration_time = expiration_time + from_src_is_native;
    let from_estimated_dst_amount = estimated_dst_amount + from_expiration_time;
    let from_min_dst_amount = min_dst_amount + from_estimated_dst_amount;
    let from_src_amount = src_amount + from_min_dst_amount;
    let from_id = id + from_src_amount;
    assert(whole + Seq::<u8>::empty() =~= whole);
    lemma_concat_assoc(
        terms + protocol + integrator + src_mint + dst_mint,
        receiver,
        Seq::<u8>::empty(),
    );
    lemma_concat_assoc(terms + protocol + integrator + src_mint, dst_mint, from_receiver);
    lemma_concat_assoc(terms + protocol + integrator, src_mint, from_dst_mint);
    lemma_concat_assoc(terms + protocol, integrator, from_src_mint);
    lemma_concat_assoc(terms, protocol, from_integrator);
    lemma_concat_assoc(
        id + src_amount + min_dst_amount + estimated_dst_amount + expiration_time
            + src_is_native + dst_is_native + fee + auction,
        cancellation,
        from_protocol,
    );
    lemma_concat_assoc(
        id + src_amount + min_dst_amount + estimated_dst_amount + expiration_time
            + src_is_native + dst_is_native + fee,
        auction,
        from_cancellation,
    );
    lemma_concat_assoc(start_time + duration + initial_bump + count, points, from_cancellation);
    lemma_concat_assoc(start_time + duration + initial_bump, count, from_points);
    lemma_concat_assoc(start_time + duration, initial_bump, from_count);
    lemma_concat_assoc(start_time, duration, from_initial_bump);
    lemma_concat_assoc(
        id + src_amount + min_dst_amount + estimated_dst_amount + expiration_time
            + src_is_native + dst_is_native,
        fee,
        from_start_time,
    );
    lemma_concat_assoc(protocol_fee + integrator_fee + surplus, premium, from_start_time);
    lemma_concat_assoc(protocol_fee + integrator_fee, surplus, from_premium);
    lemma_concat_assoc(protocol_fee, integrator_fee, from_surplus);
    lemma_concat_assoc(
        id + src_amount + min_dst_amount + estimated_dst_amount + expiration_time
            + src_is_native,
        dst_is_native,
        from_protocol_fee,
    );
    lemma_concat_assoc(
        id + src_amount + min_dst_amount + estimated_dst_amount + expiration_time,
        src_is_native,
        from_dst_is_native,
    );
    lemma_concat_assoc(
        id + src_amount + min_dst_amount + estimated_dst_amount,
        expiration_time,
        from_src_is_native,
    );
    lemma_concat_assoc(
        id + src_amount + min_dst_amount,
        estimated_dst_amount,
        from_expiration_time,
    );
    lemma_concat_assoc(id + src_amount, min_dst_amount, from_estimated_dst_amount);
    lemma_concat_assoc(id, src_amount, from_min_dst_amount);
    reveal_with_fuel(rest, 24);
    assert(rest(b, 0) == from_id);
}

/// The bytes that a fingerprint is the digest of hold all that the
/// fingerprint binds: two bindings with the same bytes agree in every term
/// of the order and in every account bound with it.
pub proof fn lemma_preimage_binds_all(a: Binding, b: Binding)
    requires
        order_encodable(&a.order),
        order_encodable(&b.order),
        a.preimage() == b.preimage(),
    ensures
        a.agrees_with(&b),
{
    lemma_preimage_in_parts(a);
    lemma_preimage_in_parts(b);
    reveal_with_fuel(rest, 24);
    let x = a.order;
    let y = b.order;
    let p = x.dutch_auction_data;
    let q = y.dutch_auction_data;
    lemma_u32_split(x.id, rest(a, 1), y.id, rest(b, 1));
    lemma_u64_split(x.src_amount, rest(a, 2), y.src_amount, rest(b, 2));
    lemma_u64_split(x.min_dst_amount, rest(a, 3), y.min_dst_amount, rest(b, 3));
    lemma_u64_split(x.estimated_dst_amount, rest(a, 4), y.estimated_dst_amount, rest(b, 4));
    lemma_u32_split(x.expiration_time, rest(a, 5), y.expiration_time, rest(b, 5));
    lemma_bool_split(x.src_asset_is_native, rest(a, 6), y.src_asset_is_native, rest(b, 6));
    lemma_bool_split(x.dst_asset_is_native, rest(a, 7), y.dst_asset_is_native, rest(b, 7));
    lemma_u16_split(x.fee.protocol_fee, rest(a, 8), y.fee.protocol_fee, rest(b, 8));
    lemma_u16_split(x.fee.integrator_fee, rest(a, 9), y.fee.integrator_fee, rest(b, 9));
    lemma_u8_split(x.fee.surplus_percentage, rest(a, 10), y.fee.surplus_percentage, rest(b, 10));
    lemma_u64_split(
        x.fee.max_cancellation_premium,
        rest(a, 11),
        y.fee.max_cancellation_premium,
        rest(b, 11),
    );
    lemma_u32_split(p.start_time, rest(a, 12), q.start_time, rest(b, 12));
    lemma_u32_split(p.duration, rest(a, 13), q.duration, rest(b, 13));
    lemma_u16_split(p.initial_rate_bump, rest(a, 14), q.initial_rate_bump, rest(b, 14));
    let m = p.points_and_time_deltas@;
    let n = q.points_and_time_deltas@;
    lemma_u32_split(m.len() as u32, rest(a, 15), n.len() as u32, rest(b, 15));
    lemma_points_bytes_len(m);
    lemma_points_bytes_len(n);
    lemma_concat_split(points_bytes(m), rest(a, 16), points_bytes(n), rest(b, 16));
    lemma_points_bytes_injective(m, n);
    lemma_u32_split(
        x.cancellation_auction_duration,
        rest(a, 17),
        y.cancellation_auction_duration,
        rest(b, 17),
    );
    lemma_option_key_split(a.protocol_dst_acc, rest(a, 18), b.protocol_dst_acc, rest(b, 18));
    lemma_option_key_split(a.integrator_dst_acc, rest(a, 19), b.integrator_dst_acc, rest(b, 19));
    lemma_key_split(a.src_mint, rest(a, 20), b.src_mint, rest(b, 20));
    lemma_key_split(a.dst_mint, rest(a, 21), b.dst_mint, rest(b, 21));
    lemma_key_split(a.receiver, rest(a, 22), b.receiver, rest(b, 22));
}

} // verus!
