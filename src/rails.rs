//! Rail mask of the power-control adapter and the frames that carry it.
use crate::error::PowerControllerError;
use vstd::prelude::*;
use vstd::string::StringSliceAdditionalSpecFns;

verus! {

/// Reset line of the first device.
pub const RESET1: u8 = 0x01;

/// Reset line of the second device.
pub const RESET2: u8 = 0x02;

/// Charger enable of the first device.
pub const VCHARGER1: u8 = 0x04;

/// Charger enable of the second device.
pub const VCHARGER2: u8 = 0x08;

/// Power enable of the first device.
pub const POW1: u8 = 0x10;

/// Power enable of the second device.
pub const POW2: u8 = 0x20;

/// The two reserved bits, which no rail operation touches.
pub const RESERVED_BITS: u8 = 0xC0;

/// Mask sent when the controller connects: every rail off, reserved bits high.
pub const INITIAL_STATE: u8 = 0xC0;

/// Length of a control frame.
pub const FRAME_LEN: usize = 7;

/// Framing byte that fills the first six positions of a control frame.
pub const FRAME_FILL: u8 = 0x55;

/// Position of the rail mask inside a control frame.
pub const MASK_INDEX: usize = 6;

/// How long a reset line is held asserted, in milliseconds.
pub const RESET_HOLD_MS: u64 = 100;

/// Which device slot(s) a rail operation targets.
#[derive(Debug, Clone, Copy, PartialEq, Eq, Structural)]
pub enum DeviceSide {
    Device1,
    Device2,
    Both,
}

/// Speed profile of the control channel.
#[derive(Debug, Clone, Copy, PartialEq, Eq, Structural)]
pub enum WireMode {
    SingleWire,
    DoubleWire,
}

impl WireMode {
    pub open spec fn spec_baud_rate(self) -> u32 {
        match self {
            WireMode::SingleWire => 9600,
            WireMode::DoubleWire => 192000,
        }
    }

    /// Baud rate at which the control channel is opened in this mode.
    pub fn baud_rate(&self) -> (r: u32)
        ensures
            r == self.spec_baud_rate(),
    {
        match self {
            WireMode::SingleWire => 9600,
            WireMode::DoubleWire => 192000,
        }
    }
}

/// The three kinds of rail, each present once per device.
#[derive(Debug, Clone, Copy, PartialEq, Eq, Structural)]
pub enum Rail {
    Power,
    Charger,
    Reset,
}

/// The bit of `rail` for the first device.
pub open spec fn first_bit(rail: Rail) -> u8 {
    match rail {
        Rail::Power => POW1,
        Rail::Charger => VCHARGER1,
        Rail::Reset => RESET1,
    }
}

/// The bit of `rail` for the second device.
pub open spec fn second_bit(rail: Rail) -> u8 {
    match rail {
        Rail::Power => POW2,
        Rail::Charger => VCHARGER2,
        Rail::Reset => RESET2,
    }
}

/// The bits that an operation on `rail` for `side` sets or clears.
pub open spec fn rail_bits(rail: Rail, side: DeviceSide) -> u8 {
    match side {
        DeviceSide::Device1 => first_bit(rail),
        DeviceSide::Device2 => second_bit(rail),
        DeviceSide::Both => (first_bit(rail) | second_bit(rail)),
    }
}

/// One of the six named rail bits.
pub open spec fn is_rail_bit(bit: u8) -> bool {
    bit == RESET1 || bit == RESET2 || bit == VCHARGER1 || bit == VCHARGER2 || bit == POW1
        || bit == POW2
}

/// A named set or clear of the rail bits of one kind for one side.
#[derive(Debug, Clone, Copy, PartialEq, Eq, Structural)]
pub struct RailOp {
    pub rail: Rail,
    pub side: DeviceSide,
    pub on: bool,
}

impl RailOp {
    pub open spec fn bits(self) -> u8 {
        rail_bits(self.rail, self.side)
    }
}

/// The mask after one operation: OR for a set, AND-NOT for a clear.
pub open spec fn apply_op(mask: u8, op: RailOp) -> u8 {
    if op.on {
        mask | op.bits()
    } else {
        mask & !op.bits()
    }
}

/// The mask after a history of operations, applied in order from `start`.
pub open spec fn replay(start: u8, ops: Seq<RailOp>) -> u8
    decreases ops.len(),
{
    if ops.len() == 0 {
        start
    } else {
        apply_op(replay(start, ops.drop_last()), ops.last())
    }
}

/// Whether `bit` is on after `ops`, read off the last operation that touches it
/// (`initially` when none does).
pub open spec fn last_touch(ops: Seq<RailOp>, bit: u8, initially: bool) -> bool
    decreases ops.len(),
{
    if ops.len() == 0 {
        initially
    } else if ops.last().bits() & bit != 0 {
        ops.last().on
    } else {
        last_touch(ops.drop_last(), bit, initially)
    }
}

/// The control frame that carries `mask`.
pub open spec fn frame_spec(mask: u8) -> Seq<u8> {
    seq![FRAME_FILL, FRAME_FILL, FRAME_FILL, FRAME_FILL, FRAME_FILL, FRAME_FILL, mask]
}

/// The rail mask carried by a control frame.
pub open spec fn mask_of(frame: Seq<u8>) -> u8
    recommends
        frame.len() == FRAME_LEN,
{
    frame[MASK_INDEX as int]
}

/// `b` with an ASCII capital turned into its small letter.
pub open spec fn ascii_lower(b: u8) -> u8 {
    if 0x41 <= b && b <= 0x5A {
        (b + 0x20) as u8
    } else {
        b
    }
}

/// `s` with every ASCII capital turned into its small letter.
pub open spec fn fold_ascii(s: Seq<u8>) -> Seq<u8> {
    s.map_values(|b: u8| ascii_lower(b))
}

/// The side that a selector names, ignoring ASCII case: "device1" or "1",
/// "device2" or "2", "both" or "all".
pub open spec fn side_named(s: Seq<u8>) -> Option<DeviceSide> {
    let f = fold_ascii(s);
    if f == seq![0x64u8, 0x65, 0x76, 0x69, 0x63, 0x65, 0x31] || f == seq![0x31u8] {
        Some(DeviceSide::Device1)
    } else if f == seq![0x64u8, 0x65, 0x76, 0x69, 0x63, 0x65, 0x32] || f == seq![0x32u8] {
        Some(DeviceSide::Device2)
    } else if f == seq![0x62u8, 0x6F, 0x74, 0x68] || f == seq![0x61u8, 0x6C, 0x6C] {
        Some(DeviceSide::Both)
    } else {
        None
    }
}

/// Whether `s`, with ASCII capitals folded, is `word`.
fn folds_to(s: &[u8], word: &[u8]) -> (r: bool)
    ensures
        r == (fold_ascii(s@) == word@),
{
    if s.len() != word.len() {
        return false;
    }
    let mut i: usize = 0;
    while i < s.len()
        invariant
            s@.len() == word@.len(),
            i <= s@.len(),
            forall|j: int| 0 <= j < i ==> ascii_lower(#[trigger] s@[j]) == word@[j],
        decreases s@.len() - i,
    {
        let b = s[i];
        let lower = if 0x41 <= b && b <= 0x5A {
            b + 0x20
        } else {
            b
        };
        if lower != word[i] {
            assert(fold_ascii(s@)[i as int] != word@[i as int]);
            return false;
        }
        i = i + 1;
    }
    assert(fold_ascii(s@) =~= word@);
    true
}

/// Reads a device-side selector ("device1", "1", "device2", "2", "both" or
/// "all", in any ASCII case).
pub fn parse_side(text: &str) -> (r: Result<DeviceSide, PowerControllerError>)
    ensures
        side_named(text.spec_bytes()) is Some ==> r == Ok::<DeviceSide, PowerControllerError>(
            side_named(text.spec_bytes())->Some_0,
        ),
        side_named(text.spec_bytes()) is None ==> r == Err::<DeviceSide, PowerControllerError>(
            PowerControllerError::InvalidDeviceSide,
        ),
{
    let s = text.as_bytes();
    let w_device1 = [0x64u8, 0x65, 0x76, 0x69, 0x63, 0x65, 0x31];
    let w_one = [0x31u8];
    let w_device2 = [0x64u8, 0x65, 0x76, 0x69, 0x63, 0x65, 0x32];
    let w_two = [0x32u8];
    let w_both = [0x62u8, 0x6F, 0x74, 0x68];
    let w_all = [0x61u8, 0x6C, 0x6C];
    assert(w_device1@ =~= seq![0x64u8, 0x65, 0x76, 0x69, 0x63, 0x65, 0x31]);
    assert(w_one@ =~= seq![0x31u8]);
    assert(w_device2@ =~= seq![0x64u8, 0x65, 0x76, 0x69, 0x63, 0x65, 0x32]);
    assert(w_two@ =~= seq![0x32u8]);
    assert(w_both@ =~= seq![0x62u8, 0x6F, 0x74, 0x68]);
    assert(w_all@ =~= seq![0x61u8, 0x6C, 0x6C]);
    if folds_to(s, &w_device1) || folds_to(s, &w_one) {
        Ok(DeviceSide::Device1)
    } else if folds_to(s, &w_device2) || folds_to(s, &w_two) {
        Ok(DeviceSide::Device2)
    } else if folds_to(s, &w_both) || folds_to(s, &w_all) {
        Ok(DeviceSide::Both)
    } else {
        Err(PowerControllerError::InvalidDeviceSide)
    }
}

/// The bits of `rail` for `side`.
pub fn bits_for(rail: Rail, side: DeviceSide) -> (r: u8)
    ensures
        r == rail_bits(rail, side),
{
    let first = match rail {
        Rail::Power => POW1,
        Rail::Charger => VCHARGER1,
        Rail::Reset => RESET1,
    };
    let second = match rail {
        Rail::Power => POW2,
        Rail::Charger => VCHARGER2,
        Rail::Reset => RESET2,
    };
    match side {
        DeviceSide::Device1 => first,
        DeviceSide::Device2 => second,
        DeviceSide::Both => first | second,
    }
}

/// The full control frame for `mask`.
pub fn frame_of(mask: u8) -> (r: [u8; 7])
    ensures
        r@ == frame_spec(mask),
{
    let r = [FRAME_FILL, FRAME_FILL, FRAME_FILL, FRAME_FILL, FRAME_FILL, FRAME_FILL, mask];
    assert(r@ =~= frame_spec(mask));
    r
}

/// The rail mask read back from a control frame.
pub fn mask_of_frame(frame: &[u8; 7]) -> (r: u8)
    ensures
        r == mask_of(frame@),
{
    frame[MASK_INDEX]
}

/// Effect of one operation on a single rail bit: the bit follows the operation
/// when the operation touches it, and is kept otherwise.
pub proof fn lemma_apply_op_bit(mask: u8, op: RailOp, bit: u8)
    requires
        is_rail_bit(bit),
    ensures
        (apply_op(mask, op) & bit != 0) == (if op.bits() & bit != 0 {
            op.on
        } else {
            mask & bit != 0
        }),
{
    let b = op.bits();
    if op.on {
        assert(((mask | b) & bit != 0) == (if b & bit != 0 {
            true
        } else {
            mask & bit != 0
        })) by (bit_vector)
            requires
                bit == 1u8 || bit == 2u8 || bit == 4u8 || bit == 8u8 || bit == 16u8 || bit == 32u8,
        ;
    } else {
        assert(((mask & !b) & bit != 0) == (if b & bit != 0 {
            false
        } else {
            mask & bit != 0
        })) by (bit_vector)
            requires
                bit == 1u8 || bit == 2u8 || bit == 4u8 || bit == 8u8 || bit == 16u8 || bit == 32u8,
        ;
    }
}

/// The reserved bits of every operation's bit set are clear.
pub proof fn lemma_op_bits_not_reserved(op: RailOp)
    ensures
        op.bits() & RESERVED_BITS == 0,
{
    assert(forall|x: u8, y: u8|
        #![trigger x | y]
        x & 0xC0u8 == 0 && y & 0xC0u8 == 0 ==> (x | y) & 0xC0u8 == 0) by (bit_vector);
    assert(0x01u8 & 0xC0u8 == 0 && 0x02u8 & 0xC0u8 == 0 && 0x04u8 & 0xC0u8 == 0 && 0x08u8
        & 0xC0u8 == 0 && 0x10u8 & 0xC0u8 == 0 && 0x20u8 & 0xC0u8 == 0) by (bit_vector);
}

/// After any history of rail operations, each rail bit of the mask is on exactly
/// when the last operation that touched it was a set (or, when none did, when it
/// was on at the start).
pub proof fn law_last_operation_wins(start: u8, ops: Seq<RailOp>, bit: u8)
    requires
        is_rail_bit(bit),
    ensures
        (replay(start, ops) & bit != 0) == last_touch(ops, bit, start & bit != 0),
    decreases ops.len(),
{
    if ops.len() > 0 {
        law_last_operation_wins(start, ops.drop_last(), bit);
        lemma_apply_op_bit(replay(start, ops.drop_last()), ops.last(), bit);
    }
}

/// No history of rail operations changes the reserved bits.
pub proof fn law_reserved_bits_kept(start: u8, ops: Seq<RailOp>)
    ensures
        replay(start, ops) & RESERVED_BITS == start & RESERVED_BITS,
    decreases ops.len(),
{
    if ops.len() > 0 {
        let m = replay(start, ops.drop_last());
        let op = ops.last();
        let b = op.bits();
        law_reserved_bits_kept(start, ops.drop_last());
        lemma_op_bits_not_reserved(op);
        assert(b & 0xC0u8 == 0 ==> (m | b) & 0xC0u8 == m & 0xC0u8) by (bit_vector);
        assert(b & 0xC0u8 == 0 ==> (m & !b) & 0xC0u8 == m & 0xC0u8) by (bit_vector);
    }
}

/// Two operations whose bit sets do not overlap give the same mask in either
/// order.
pub proof fn law_disjoint_ops_commute(mask: u8, a: RailOp, b: RailOp)
    requires
        a.bits() & b.bits() == 0,
    ensures
        apply_op(apply_op(mask, a), b) == apply_op(apply_op(mask, b), a),
{
    let x = a.bits();
    let y = b.bits();
    assert(x & y == 0 ==> (mask | x) | y == (mask | y) | x) by (bit_vector);
    assert(x & y == 0 ==> (mask | x) & !y == (mask & !y) | x) by (bit_vector);
    assert(x & y == 0 ==> (mask & !x) | y == (mask | y) & !x) by (bit_vector);
    assert(x & y == 0 ==> (mask & !x) & !y == (mask & !y) & !x) by (bit_vector);
}

/// Applying the same operation twice gives the mask that applying it once gives.
pub proof fn law_op_idempotent(mask: u8, op: RailOp)
    ensures
        apply_op(apply_op(mask, op), op) == apply_op(mask, op),
{
    let b = op.bits();
    assert((mask | b) | b == mask | b) by (bit_vector);
    assert((mask & !b) & !b == mask & !b) by (bit_vector);
}

/// A control frame has seven bytes, and the mask read back from the frame of a
/// mask is that mask.
pub proof fn law_frame_round_trip(mask: u8)
    ensures
        frame_spec(mask).len() == FRAME_LEN,
        mask_of(frame_spec(mask)) == mask,
        forall|i: int| 0 <= i < MASK_INDEX ==> #[trigger] frame_spec(mask)[i] == FRAME_FILL,
{
}

} // verus!
