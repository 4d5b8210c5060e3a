//! The rail controller: the in-memory rail mask and the frames that each
//! operation hands to the control channel.
use crate::rails::{
    apply_op, bits_for, frame_of, frame_spec, is_rail_bit, last_touch, law_frame_round_trip,
    law_last_operation_wins, law_reserved_bits_kept, mask_of, rail_bits, replay, DeviceSide, Rail,
    RailOp, WireMode, INITIAL_STATE, RESERVED_BITS,
};
use vstd::prelude::*;

verus! {

/// Owner of the rail mask of one control channel.
///
/// Every operation updates the mask first and then returns the full frame to
/// write; the mask is the single source of truth for rail state.
pub struct PowerController {
    current_state: u8,
    mode: WireMode,
    history: Ghost<Seq<RailOp>>,
}

impl PowerController {
    /// The rail mask.
    pub closed spec fn mask(self) -> u8 {
        self.current_state
    }

    /// The wire mode the controller was connected with.
    pub closed spec fn wire_mode(self) -> WireMode {
        self.mode
    }

    /// Every rail operation made since connecting, in order.
    pub closed spec fn ops(self) -> Seq<RailOp> {
        self.history@
    }

    /// The mask is what the history of operations gives from the initial state.
    pub closed spec fn wf(self) -> bool {
        self.current_state == replay(INITIAL_STATE, self.history@)
    }

    /// A controller in the connected state (every rail off), and the baseline
    /// frame that must be written to the control channel first.
    pub fn connect(mode: WireMode) -> (r: (PowerController, [u8; 7]))
        ensures
            r.0.wf(),
            r.0.mask() == INITIAL_STATE,
            r.0.ops() == Seq::<RailOp>::empty(),
            r.0.wire_mode() == mode,
            r.1@ == frame_spec(INITIAL_STATE),
    {
        let c = PowerController {
            current_state: INITIAL_STATE,
            mode,
            history: Ghost(Seq::empty()),
        };
        (c, frame_of(INITIAL_STATE))
    }

    /// The current rail mask.
    pub fn state(&self) -> (r: u8)
        ensures
            r == self.mask(),
    {
        self.current_state
    }

    /// The wire mode of the control channel.
    pub fn mode(&self) -> (r: WireMode)
        ensures
            r == self.wire_mode(),
    {
        self.mode
    }

    /// The frame that carries the current mask (to replay it after a failed
    /// write).
    pub fn payload(&self) -> (r: [u8; 7])
        ensures
            r@ == frame_spec(self.mask()),
    {
        frame_of(self.current_state)
    }

    fn apply(&mut self, rail: Rail, side: DeviceSide, on: bool) -> (r: [u8; 7])
        requires
            old(self).wf(),
        ensures
            final(self).wf(),
            final(self).ops() == old(self).ops().push(RailOp { rail, side, on }),
            final(self).mask() == apply_op(old(self).mask(), RailOp { rail, side, on }),
            final(self).wire_mode() == old(self).wire_mode(),
            r@ == frame_spec(final(self).mask()),
    {
        let bits = bits_for(rail, side);
        if on {
            self.current_state = self.current_state | bits;
        } else {
            self.current_state = self.current_state & !bits;
        }
        let ghost op = RailOp { rail, side, on };
        proof {
            let ops = self.history@.push(op);
            assert(ops.drop_last() =~= self.history@);
            self.history = Ghost(ops);
        }
        frame_of(self.current_state)
    }

    /// Turns the power rail(s) of `side` on; returns the frame to write.
    pub fn power_on(&mut self, side: DeviceSide) -> (r: [u8; 7])
        requires
            old(self).wf(),
        ensures
            final(self).wf(),
            final(self).mask() == old(self).mask() | rail_bits(Rail::Power, side),
            final(self).ops() == old(self).ops().push(
                RailOp { rail: Rail::Power, side, on: true },
            ),
            final(self).wire_mode() == old(self).wire_mode(),
            r@ == frame_spec(final(self).mask()),
    {
        self.apply(Rail::Power, side, true)
    }

    /// Turns the power rail(s) of `side` off; returns the frame to write.
    pub fn power_off(&mut self, side: DeviceSide) -> (r: [u8; 7])
        requires
            old(self).wf(),
        ensures
            final(self).wf(),
            final(self).mask() == old(self).mask() & !rail_bits(Rail::Power, side),
            final(self).ops() == old(self).ops().push(
                RailOp { rail: Rail::Power, side, on: false },
            ),
            final(self).wire_mode() == old(self).wire_mode(),
            r@ == frame_spec(final(self).mask()),
    {
        self.apply(Rail::Power, side, false)
    }

    /// Turns the charger rail(s) of `side` on; returns the frame to write.
    pub fn enable_vcharger(&mut self, side: DeviceSide) -> (r: [u8; 7])
        requires
            old(self).wf(),
        ensures
            final(self).wf(),
            final(self).mask() == old(self).mask() | rail_bits(Rail::Charger, side),
            final(self).ops() == old(self).ops().push(
                RailOp { rail: Rail::Charger, side, on: true },
            ),
            final(self).wire_mode() == old(self).wire_mode(),
            r@ == frame_spec(final(self).mask()),
    {
        self.apply(Rail::Charger, side, true)
    }

    /// Turns the charger rail(s) of `side` off; returns the frame to write.
    pub fn disable_vcharger(&mut self, side: DeviceSide) -> (r: [u8; 7])
        requires
            old(self).wf(),
        ensures
            final(self).wf(),
            final(self).mask() == old(self).mask() & !rail_bits(Rail::Charger, side),
            final(self).ops() == old(self).ops().push(
                RailOp { rail: Rail::Charger, side, on: false },
            ),
            final(self).wire_mode() == old(self).wire_mode(),
            r@ == frame_spec(final(self).mask()),
    {
        self.apply(Rail::Charger, side, false)
    }

    /// First half of a reset pulse on `side`: sets the reset bit(s) and
    /// returns the frame to write. When that write succeeds, the caller holds
    /// for `RESET_HOLD_MS` and then calls `release_reset`; when it fails, the
    /// mask keeps the reset bit(s) set.
    pub fn reset(&mut self, side: DeviceSide) -> (r: [u8; 7])
        requires
            old(self).wf(),
        ensures
            final(self).wf(),
            final(self).mask() == old(self).mask() | rail_bits(Rail::Reset, side),
            final(self).ops() == old(self).ops().push(
                RailOp { rail: Rail::Reset, side, on: true },
            ),
            final(self).wire_mode() == old(self).wire_mode(),
            r@ == frame_spec(final(self).mask()),
    {
        self.apply(Rail::Reset, side, true)
    }

    /// Second half of a reset pulse on `side`: clears the reset bit(s) and
    /// returns the frame to write.
    pub fn release_reset(&mut self, side: DeviceSide) -> (r: [u8; 7])
        requires
            old(self).wf(),
        ensures
            final(self).wf(),
            final(self).mask() == old(self).mask() & !rail_bits(Rail::Reset, side),
            final(self).ops() == old(self).ops().push(
                RailOp { rail: Rail::Reset, side, on: false },
            ),
            final(self).wire_mode() == old(self).wire_mode(),
            r@ == frame_spec(final(self).mask()),
    {
        self.apply(Rail::Reset, side, false)
    }
}

/// A reset pulse writes two frames: the first with the reset bit(s) set, the
/// second with them cleared, whatever other rails are on; every other bit is
/// the same in both frames as in the mask before the pulse.
pub proof fn law_reset_pulse(mask: u8, side: DeviceSide)
    ensures
        ({
            let b = rail_bits(Rail::Reset, side);
            let first = apply_op(mask, RailOp { rail: Rail::Reset, side, on: true });
            let second = apply_op(first, RailOp { rail: Rail::Reset, side, on: false });
            &&& mask_of(frame_spec(first)) & b == b
            &&& mask_of(frame_spec(second)) & b == 0
            &&& mask_of(frame_spec(first)) & !b == mask & !b
            &&& mask_of(frame_spec(second)) & !b == mask & !b
        }),
{
    let b = rail_bits(Rail::Reset, side);
    law_frame_round_trip(mask | b);
    law_frame_round_trip((mask | b) & !b);
    assert((mask | b) & b == b) by (bit_vector);
    assert(((mask | b) & !b) & b == 0) by (bit_vector);
    assert((mask | b) & !b == mask & !b) by (bit_vector);
    assert(((mask | b) & !b) & !b == mask & !b) by (bit_vector);
}

/// Whatever operations were made since connecting, the frame the controller
/// writes carries the mask that those operations give from the initial state:
/// each rail bit is on exactly when the last operation that touched it was a
/// set, and the reserved bits keep their initial value.
pub proof fn law_payload_follows_history(c: PowerController, bit: u8)
    requires
        c.wf(),
        is_rail_bit(bit),
    ensures
        mask_of(frame_spec(c.mask())) == replay(INITIAL_STATE, c.ops()),
        (mask_of(frame_spec(c.mask())) & bit != 0) == last_touch(c.ops(), bit, false),
        mask_of(frame_spec(c.mask())) & RESERVED_BITS == INITIAL_STATE & RESERVED_BITS,
{
    law_frame_round_trip(c.mask());
    law_last_operation_wins(INITIAL_STATE, c.ops(), bit);
    law_reserved_bits_kept(INITIAL_STATE, c.ops());
    assert(bit == 1u8 || bit == 2u8 || bit == 4u8 || bit == 8u8 || bit == 16u8 || bit == 32u8
        ==> 0xC0u8 & bit == 0) by (bit_vector);
}

} // verus!
