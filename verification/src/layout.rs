//! How a position and a price update lie in the bytes of their accounts: an
//! eight-byte discriminator, then the fields in order, integers little-endian.

use crate::keys::Pubkey;
use crate::oracle::{PriceFeedMessage, PriceUpdateV2, VerificationLevel};
use crate::state::Position;
use vstd::arithmetic::power::*;
use vstd::prelude::*;

verus! {

/// The first bytes of every position account: the start of the SHA-256 hash of
/// `account:Position`.
pub const POSITION_DISCRIMINATOR: [u8; 8] = [170, 188, 143, 228, 122, 64, 247, 208];

/// The `n` low bytes of `x`, lowest first.
pub open spec fn le_bytes(x: nat, n: nat) -> Seq<u8>
    decreases n,
{
    if n == 0 {
        Seq::empty()
    } else {
        seq![(x % 256) as u8] + le_bytes(x / 256, (n - 1) as nat)
    }
}

/// The number that `bytes` hold, lowest byte first.
pub open spec fn le_value(bytes: Seq<u8>) -> nat
    decreases bytes.len(),
{
    if bytes.len() == 0 {
        0
    } else {
        bytes[0] as nat + 256 * le_value(bytes.drop_first())
    }
}

/// The bytes of the account of `position`.
pub open spec fn position_bytes(position: Position) -> Seq<u8> {
    POSITION_DISCRIMINATOR@ + position.user.bytes@ + position.market.bytes@ + le_bytes(
        position.supplied as nat,
        8,
    ) + le_bytes(position.borrowed as nat, 8) + position.feed_id@ + le_bytes(
        position.max_ltv_bps as nat,
        2,
    ) + seq![position.decimals] + seq![position.bump] + le_bytes(
        position.borrow_index_snapshot_e18 as nat,
        16,
    )
}

/// `data` begins with the bytes of `position`.
pub open spec fn holds_position(data: Seq<u8>, position: Position) -> bool {
    position_bytes(position).is_prefix_of(data)
}

/// The position that `data` begins with, if it begins with one.
pub open spec fn position_in(data: Seq<u8>) -> Option<Position> {
    if exists|position: Position| holds_position(data, position) {
        Some(choose|position: Position| holds_position(data, position))
    } else {
        None
    }
}

/// Little-endian bytes and the number they hold determine each other.
proof fn lemma_le_round_trip(x: nat, n: nat)
    requires
        x < pow(256, n),
    ensures
        le_bytes(x, n).len() == n,
        le_value(le_bytes(x, n)) == x,
    decreases n,
{
    reveal(pow);
    if n > 0 {
        assert(x / 256 < pow(256, (n - 1) as nat));
        lemma_le_round_trip(x / 256, (n - 1) as nat);
        assert(le_bytes(x, n).drop_first() =~= le_bytes(x / 256, (n - 1) as nat));
    }
}

/// The bytes of the number that `bytes` hold are `bytes`.
proof fn lemma_le_value(bytes: Seq<u8>)
    ensures
        le_bytes(le_value(bytes), bytes.len()) == bytes,
        le_value(bytes) < pow(256, bytes.len()),
    decreases bytes.len(),
{
    reveal(pow);
    if bytes.len() > 0 {
        let rest = bytes.drop_first();
        lemma_le_value(rest);
        assert(le_value(bytes) / 256 == le_value(rest));
        assert(bytes =~= seq![bytes[0]] + rest);
    } else {
        assert(le_bytes(0, 0) =~= bytes);
    }
}

proof fn lemma_le_len(x: nat, n: nat)
    ensures
        le_bytes(x, n).len() == n,
    decreases n,
{
    if n > 0 {
        lemma_le_len(x / 256, (n - 1) as nat);
    }
}

/// The powers that bound the integers of an account.
proof fn lemma_byte_powers()
    ensures
        pow(256, 2) == 0x1_0000,
        pow(256, 4) == 0x1_0000_0000,
        pow(256, 8) == 0x1_0000_0000_0000_0000,
        pow(256, 16) == 0x1_0000_0000_0000_0000_0000_0000_0000_0000int,
{
    reveal(pow);
    reveal_with_fuel(pow, 17);
}

/// Where each field of a position lies in its account.
proof fn lemma_position_fields(position: Position)
    ensures
        ({
            let data = position_bytes(position);
            &&& data.len() == 8 + Position::SIZE
            &&& data.subrange(0, 8) == POSITION_DISCRIMINATOR@
            &&& data.subrange(8, 40) == position.user.bytes@
            &&& data.subrange(40, 72) == position.market.bytes@
            &&& data.subrange(72, 80) == le_bytes(position.supplied as nat, 8)
            &&& data.subrange(80, 88) == le_bytes(position.borrowed as nat, 8)
            &&& data.subrange(88, 120) == position.feed_id@
            &&& data.subrange(120, 122) == le_bytes(position.max_ltv_bps as nat, 2)
            &&& data[122] == position.decimals
            &&& data[123] == position.bump
            &&& data.subrange(124, 140) == le_bytes(position.borrow_index_snapshot_e18 as nat, 16)
        }),
{
    let data = position_bytes(position);
    lemma_le_len(position.supplied as nat, 8);
    lemma_le_len(position.borrowed as nat, 8);
    lemma_le_len(position.max_ltv_bps as nat, 2);
    lemma_le_len(position.borrow_index_snapshot_e18 as nat, 16);
    assert(data.subrange(0, 8) =~= POSITION_DISCRIMINATOR@);
    assert(data.subrange(8, 40) =~= position.user.bytes@);
    assert(data.subrange(40, 72) =~= position.market.bytes@);
    assert(data.subrange(72, 80) =~= le_bytes(position.supplied as nat, 8));
    assert(data.subrange(80, 88) =~= le_bytes(position.borrowed as nat, 8));
    assert(data.subrange(88, 120) =~= position.feed_id@);
    assert(data.subrange(120, 122) =~= le_bytes(position.max_ltv_bps as nat, 2));
    assert(data.subrange(124, 140) =~= le_bytes(position.borrow_index_snapshot_e18 as nat, 16));
}

/// No two positions have the same bytes.
proof fn lemma_position_bytes_injective(p: Position, q: Position)
    requires
        position_bytes(p) == position_bytes(q),
    ensures
        p == q,
{
    lemma_position_fields(p);
    lemma_position_fields(q);
    lemma_byte_powers();
    lemma_le_round_trip(p.supplied as nat, 8);
    lemma_le_round_trip(q.supplied as nat, 8);
    lemma_le_round_trip(p.borrowed as nat, 8);
    lemma_le_round_trip(q.borrowed as nat, 8);
    lemma_le_round_trip(p.max_ltv_bps as nat, 2);
    lemma_le_round_trip(q.max_ltv_bps as nat, 2);
    lemma_le_round_trip(p.borrow_index_snapshot_e18 as nat, 16);
    lemma_le_round_trip(q.borrow_index_snapshot_e18 as nat, 16);
    assert(p.user.bytes =~= q.user.bytes);
    assert(p.market.bytes =~= q.market.bytes);
    assert(p.feed_id =~= q.feed_id);
}

/// What is read out of an account that begins with the bytes of a position is
/// that position, whatever follows; and a position takes exactly the space that
/// is set aside for it.
pub proof fn law_position_reads_back(position: Position, tail: Seq<u8>)
    ensures
        position_bytes(position).len() == 8 + Position::SIZE,
        position_in(position_bytes(position) + tail) == Some(position),
{
    let data = position_bytes(position) + tail;
    lemma_position_fields(position);
    assert(holds_position(data, position));
    let found = position_in(data)->0;
    assert(holds_position(data, found));
    lemma_position_fields(found);
    assert(position_bytes(found) =~= position_bytes(position));
    lemma_position_bytes_injective(found, position);
}

/// The number in the `n` bytes of `data` from `at` on.
fn read_le(data: &Vec<u8>, at: usize, n: usize) -> (x: u128)
    requires
        at + n <= data.len(),
        n <= 16,
    ensures
        le_bytes(x as nat, n as nat) == data@.subrange(at as int, at + n),
        x < pow(256, n as nat),
{
    let mut x: u128 = 0;
    let mut i: usize = n;
    proof {
        lemma_pow0(256);
        lemma_byte_powers();
    }
    while i > 0
        invariant
            i <= n <= 16,
            at + n <= data.len(),
            x == le_value(data@.subrange(at + i, at + n)),
            x < pow(256, (n - i) as nat),
            pow(256, 16) == 0x1_0000_0000_0000_0000_0000_0000_0000_0000int,
        decreases i,
    {
        i = i - 1;
        proof {
            reveal(pow);
            lemma_pow_increases(256, (n - i) as nat, 16);
            let bytes = data@.subrange(at + i, at + n);
            assert(bytes.drop_first() =~= data@.subrange(at + i + 1, at + n));
        }
        x = x * 256 + data[at + i] as u128;
    }
    proof {
        lemma_le_value(data@.subrange(at as int, at + n));
    }
    x
}

/// The 32 bytes of `data` from `at` on.
fn read_32(data: &Vec<u8>, at: usize) -> (bytes: [u8; 32])
    requires
        at + 32 <= data.len(),
    ensures
        bytes@ == data@.subrange(at as int, at + 32),
{
    let mut bytes: [u8; 32] = [0u8; 32];
    let mut i: usize = 0;
    while i < 32
        invariant
            i <= 32,
            at + 32 <= data.len(),
            forall|j: int| 0 <= j < i ==> bytes[j] == data[at + j],
        decreases 32 - i,
    {
        bytes[i] = data[at + i];
        i = i + 1;
    }
    assert(bytes@ =~= data@.subrange(at as int, at + 32));
    bytes
}

/// Whether `data` begins with the discriminator of a position.
fn has_discriminator(data: &Vec<u8>) -> (found: bool)
    requires
        data.len() >= 8,
    ensures
        found <==> data@.subrange(0, 8) == POSITION_DISCRIMINATOR@,
{
    let discriminator: [u8; 8] = POSITION_DISCRIMINATOR;
    let mut i: usize = 0;
    while i < 8
        invariant
            i <= 8,
            data.len() >= 8,
            discriminator@ == POSITION_DISCRIMINATOR@,
            forall|j: int| 0 <= j < i ==> data[j] == discriminator[j],
        decreases 8 - i,
    {
        if data[i] != discriminator[i] {
            assert(data@.subrange(0, 8)[i as int] != discriminator@[i as int]);
            return false;
        }
        i = i + 1;
    }
    assert(data@.subrange(0, 8) =~= discriminator@);
    true
}

impl Position {
    /// Reads a position out of the bytes of its account. What follows the
    /// position is ignored.
    pub fn try_deserialize(data: &Vec<u8>) -> (position: Option<Position>)
        ensures
            position == position_in(data@),
    {
        if data.len() < 8 + Position::SIZE || !has_discriminator(data) {
            proof {
                assert forall|position: Position| !holds_position(data@, position) by {
                    if holds_position(data@, position) {
                        lemma_position_fields(position);
                        assert(data@.subrange(0, 8) =~= position_bytes(position).subrange(0, 8));
                    }
                }
            }
            return None;
        }
        proof {
            lemma_byte_powers();
        }
        let position = Position {
            user: Pubkey { bytes: read_32(data, 8) },
            market: Pubkey { bytes: read_32(data, 40) },
            supplied: read_le(data, 72, 8) as u64,
            borrowed: read_le(data, 80, 8) as u64,
            feed_id: read_32(data, 88),
            max_ltv_bps: read_le(data, 120, 2) as u16,
            decimals: data[122],
            bump: data[123],
            borrow_index_snapshot_e18: read_le(data, 124, 16),
        };
        proof {
            let bytes = data@.take(140);
            lemma_position_fields(position);
            assert(bytes =~= position_bytes(position)) by {
                assert(bytes =~= data@.subrange(0, 8) + data@.subrange(8, 40) + data@.subrange(
                    40,
                    72,
                ) + data@.subrange(72, 80) + data@.subrange(80, 88) + data@.subrange(88, 120)
                    + data@.subrange(120, 122) + seq![data@[122]] + seq![data@[123]]
                    + data@.subrange(124, 140));
            }
            assert(data@ =~= position_bytes(position) + data@.skip(140));
            law_position_reads_back(position, data@.skip(140));
        }
        Some(position)
    }
}

// Price updates.

/// The first bytes of every price update account: the start of the SHA-256 hash
/// of `account:PriceUpdateV2`.
pub const UPDATE_DISCRIMINATOR: [u8; 8] = [34, 241, 35, 99, 157, 126, 244, 205];

/// `x` as an unsigned number of `n` bytes: a negative one in two's complement.
pub open spec fn twos_complement(x: int, n: nat) -> nat {
    if x >= 0 {
        x as nat
    } else {
        (x + pow(256, n)) as nat
    }
}

/// The bytes of a verification level: which one, and how many signatures.
pub open spec fn level_bytes(level: VerificationLevel) -> Seq<u8> {
    match level {
        VerificationLevel::Partial { num_signatures } => seq![0u8, num_signatures],
        VerificationLevel::Full => seq![1u8],
    }
}

/// The bytes of a price message.
pub open spec fn message_bytes(message: PriceFeedMessage) -> Seq<u8> {
    message.feed_id@ + le_bytes(twos_complement(message.price as int, 8), 8) + le_bytes(
        message.conf as nat,
        8,
    ) + le_bytes(twos_complement(message.exponent as int, 4), 4) + le_bytes(
        twos_complement(message.publish_time as int, 8),
        8,
    ) + le_bytes(twos_complement(message.prev_publish_time as int, 8), 8) + le_bytes(
        twos_complement(message.ema_price as int, 8),
        8,
    ) + le_bytes(message.ema_conf as nat, 8)
}

/// The bytes of the account of `update`.
pub open spec fn update_bytes(update: PriceUpdateV2) -> Seq<u8> {
    UPDATE_DISCRIMINATOR@ + update.write_authority.bytes@ + level_bytes(update.verification_level)
        + message_bytes(update.price_message) + le_bytes(update.posted_slot as nat, 8)
}

/// `data` begins with the bytes of `update`.
pub open spec fn holds_update(data: Seq<u8>, update: PriceUpdateV2) -> bool {
    update_bytes(update).is_prefix_of(data)
}

/// The price update that `data` begins with, if it begins with one.
pub open spec fn price_update_in(data: Seq<u8>) -> Option<PriceUpdateV2> {
    if exists|update: PriceUpdateV2| holds_update(data, update) {
        Some(choose|update: PriceUpdateV2| holds_update(data, update))
    } else {
        None
    }
}

/// Where each field of a message lies in its bytes.
proof fn lemma_message_fields(m: PriceFeedMessage)
    ensures
        ({
            let data = message_bytes(m);
            &&& data.len() == 84
            &&& data.subrange(0, 32) == m.feed_id@
            &&& data.subrange(32, 40) == le_bytes(twos_complement(m.price as int, 8), 8)
            &&& data.subrange(40, 48) == le_bytes(m.conf as nat, 8)
            &&& data.subrange(48, 52) == le_bytes(twos_complement(m.exponent as int, 4), 4)
            &&& data.subrange(52, 60) == le_bytes(twos_complement(m.publish_time as int, 8), 8)
            &&& data.subrange(60, 68) == le_bytes(
                twos_complement(m.prev_publish_time as int, 8),
                8,
            )
            &&& data.subrange(68, 76) == le_bytes(twos_complement(m.ema_price as int, 8), 8)
            &&& data.subrange(76, 84) == le_bytes(m.ema_conf as nat, 8)
        }),
{
    let data = message_bytes(m);
    lemma_le_len(twos_complement(m.price as int, 8), 8);
    lemma_le_len(m.conf as nat, 8);
    lemma_le_len(twos_complement(m.exponent as int, 4), 4);
    lemma_le_len(twos_complement(m.publish_time as int, 8), 8);
    lemma_le_len(twos_complement(m.prev_publish_time as int, 8), 8);
    lemma_le_len(twos_complement(m.ema_price as int, 8), 8);
    lemma_le_len(m.ema_conf as nat, 8);
    assert(data.subrange(0, 32) =~= m.feed_id@);
    assert(data.subrange(32, 40) =~= le_bytes(twos_complement(m.price as int, 8), 8));
    assert(data.subrange(40, 48) =~= le_bytes(m.conf as nat, 8));
    assert(data.subrange(48, 52) =~= le_bytes(twos_complement(m.exponent as int, 4), 4));
    assert(data.subrange(52, 60) =~= le_bytes(twos_complement(m.publish_time as int, 8), 8));
    assert(data.subrange(60, 68) =~= le_bytes(twos_complement(m.prev_publish_time as int, 8), 8));
    assert(data.subrange(68, 76) =~= le_bytes(twos_complement(m.ema_price as int, 8), 8));
    assert(data.subrange(76, 84) =~= le_bytes(m.ema_conf as nat, 8));
}

/// No two messages have the same bytes.
proof fn lemma_message_bytes_injective(p: PriceFeedMessage, q: PriceFeedMessage)
    requires
        message_bytes(p) == message_bytes(q),
    ensures
        p == q,
{
    lemma_message_fields(p);
    lemma_message_fields(q);
    lemma_byte_powers();
    lemma_le_round_trip(twos_complement(p.price as int, 8), 8);
    lemma_le_round_trip(twos_complement(q.price as int, 8), 8);
    lemma_le_round_trip(p.conf as nat, 8);
    lemma_le_round_trip(q.conf as nat, 8);
    lemma_le_round_trip(twos_complement(p.exponent as int, 4), 4);
    lemma_le_round_trip(twos_complement(q.exponent as int, 4), 4);
    lemma_le_round_trip(twos_complement(p.publish_time as int, 8), 8);
    lemma_le_round_trip(twos_complement(q.publish_time as int, 8), 8);
    lemma_le_round_trip(twos_complement(p.prev_publish_time as int, 8), 8);
    lemma_le_round_trip(twos_complement(q.prev_publish_time as int, 8), 8);
    lemma_le_round_trip(twos_complement(p.ema_price as int, 8), 8);
    lemma_le_round_trip(twos_complement(q.ema_price as int, 8), 8);
    lemma_le_round_trip(p.ema_conf as nat, 8);
    lemma_le_round_trip(q.ema_conf as nat, 8);
    assert(p.feed_id =~= q.feed_id);
}

/// Bytes begin with at most one price update.
pub(crate) proof fn lemma_update_is_unique(data: Seq<u8>, p: PriceUpdateV2, q: PriceUpdateV2)
    requires
        holds_update(data, p),
        holds_update(data, q),
    ensures
        p == q,
{
    lemma_message_fields(p.price_message);
    lemma_message_fields(q.price_message);
    lemma_le_len(p.posted_slot as nat, 8);
    lemma_le_len(q.posted_slot as nat, 8);
    let x = update_bytes(p);
    let y = update_bytes(q);
    assert(x[40] == data[40] && y[40] == data[40]);
    assert(x[41] == data[41] && y[41] == data[41]);
    assert(x[40] == level_bytes(p.verification_level)[0]);
    assert(y[40] == level_bytes(q.verification_level)[0]);
    if let VerificationLevel::Partial { num_signatures } = p.verification_level {
        assert(x[41] == num_signatures);
    }
    if let VerificationLevel::Partial { num_signatures } = q.verification_level {
        assert(y[41] == num_signatures);
    }
    assert(p.verification_level == q.verification_level);
    let at = 40 + level_bytes(p.verification_level).len() as int;
    assert(x =~= y) by {
        assert(x.len() == y.len());
        assert forall|i: int| 0 <= i < x.len() implies x[i] == y[i] by {
            assert(x[i] == data[i] && y[i] == data[i]);
        }
    }
    assert(x.subrange(8, 40) =~= p.write_authority.bytes@);
    assert(y.subrange(8, 40) =~= q.write_authority.bytes@);
    assert(p.write_authority.bytes =~= q.write_authority.bytes);
    assert(x.subrange(at, at + 84) =~= message_bytes(p.price_message));
    assert(y.subrange(at, at + 84) =~= message_bytes(q.price_message));
    lemma_message_bytes_injective(p.price_message, q.price_message);
    assert(x.subrange(at + 84, at + 92) =~= le_bytes(p.posted_slot as nat, 8));
    assert(y.subrange(at + 84, at + 92) =~= le_bytes(q.posted_slot as nat, 8));
    lemma_byte_powers();
    lemma_le_round_trip(p.posted_slot as nat, 8);
    lemma_le_round_trip(q.posted_slot as nat, 8);
}

/// What an account that begins with the bytes of a price update holds is that
/// update, whatever follows.
pub proof fn law_update_reads_back(update: PriceUpdateV2, tail: Seq<u8>)
    ensures
        price_update_in(update_bytes(update) + tail) == Some(update),
{
    let data = update_bytes(update) + tail;
    assert(holds_update(data, update));
    lemma_update_is_unique(data, price_update_in(data)->0, update);
}

// What the bytes say.

/// The number in two bytes, in eight and in sixteen, byte by byte.
proof fn lemma_le_digits(x: nat, n: nat)
    requires
        x < pow(256, n),
        n == 2 || n == 8 || n == 16,
    ensures
        ({
            let b = le_bytes(x, n);
            &&& b.len() == n
            &&& n == 2 ==> x == b[0] + 256 * (b[1])
            &&& n == 8 ==> x == b[0] + 256 * (b[1] + 256 * (b[2] + 256 * (b[3] + 256 * (
                b[4] + 256 * (b[5] + 256 * (b[6] + 256 * (b[7])))))))
            &&& n == 16 ==> x == b[0] + 256 * (b[1] + 256 * (b[2] + 256 * (b[3] + 256 * (
                b[4] + 256 * (b[5] + 256 * (b[6] + 256 * (b[7] + 256 * (b[8] + 256 * (
                b[9] + 256 * (b[10] + 256 * (b[11] + 256 * (b[12] + 256 * (b[13] + 256 * (
                b[14] + 256 * (b[15])))))))))))))))
        }),
{
    lemma_le_round_trip(x, n);
    reveal_with_fuel(le_value, 17);
}

/// A position lies in its account field by field: after the discriminator the
/// user, the market, what is supplied and borrowed, the feed, the limit, the
/// decimals, the bump and the index, each number with its lowest byte first.
pub proof fn law_position_lies_field_by_field(position: Position)
    ensures
        ({
            let b = position_bytes(position);
            &&& b.len() == 140
            &&& b.subrange(0, 8) == seq![170u8, 188, 143, 228, 122, 64, 247, 208]
            &&& b.subrange(8, 40) == position.user.bytes@
            &&& b.subrange(40, 72) == position.market.bytes@
            &&& position.supplied == b[72] + 256 * (b[73] + 256 * (b[74] + 256 * (
                b[75] + 256 * (b[76] + 256 * (b[77] + 256 * (b[78] + 256 * (b[79])))))))
            &&& position.borrowed == b[80] + 256 * (b[81] + 256 * (b[82] + 256 * (
                b[83] + 256 * (b[84] + 256 * (b[85] + 256 * (b[86] + 256 * (b[87])))))))
            &&& b.subrange(88, 120) == position.feed_id@
            &&& position.max_ltv_bps == b[120] + 256 * (b[121])
            &&& b[122] == position.decimals
            &&& b[123] == position.bump
            &&& position.borrow_index_snapshot_e18 == b[124] + 256 * (b[125] + 256 * (
                b[126] + 256 * (b[127] + 256 * (b[128] + 256 * (b[129] + 256 * (b[130] + 256 * (
                b[131] + 256 * (b[132] + 256 * (b[133] + 256 * (b[134] + 256 * (b[135] + 256 * (
                b[136] + 256 * (b[137] + 256 * (b[138] + 256 * (b[139])))))))))))))))
        }),
{
    let b = position_bytes(position);
    lemma_position_fields(position);
    lemma_byte_powers();
    lemma_le_digits(position.supplied as nat, 8);
    lemma_le_digits(position.borrowed as nat, 8);
    lemma_le_digits(position.max_ltv_bps as nat, 2);
    lemma_le_digits(position.borrow_index_snapshot_e18 as nat, 16);
    let supplied = b.subrange(72, 80);
    let borrowed = b.subrange(80, 88);
    let index = b.subrange(124, 140);
    assert(forall|i: int| 0 <= i < 8 ==> #[trigger] supplied[i] == b[72 + i]);
    assert(forall|i: int| 0 <= i < 8 ==> #[trigger] borrowed[i] == b[80 + i]);
    assert(forall|i: int| 0 <= i < 2 ==> #[trigger] b.subrange(120, 122)[i] == b[120 + i]);
    assert(forall|i: int| 0 <= i < 16 ==> #[trigger] index[i] == b[124 + i]);
    assert(POSITION_DISCRIMINATOR@ =~= seq![170u8, 188, 143, 228, 122, 64, 247, 208]);
}

/// What is read out of an account is what it begins with, and where nothing is
/// read it begins with no position.
pub proof fn law_what_is_read_is_there(data: Seq<u8>, position: Position)
    ensures
        position_in(data) == Some(position) <==> position_bytes(position).is_prefix_of(data),
{
    if position_bytes(position).is_prefix_of(data) {
        let tail = data.skip(position_bytes(position).len() as int);
        assert(data =~= position_bytes(position) + tail);
        law_position_reads_back(position, tail);
    }
    if position_in(data) == Some(position) {
        assert(holds_position(data, position));
    }
}

} // verus!
