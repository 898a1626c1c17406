//! `wp_presentation_feedback` protocol handler.
//!
//! Feedback objects are one-shot: the compositor sends either a `presented`
//! or `discarded` event, then the object is defunct. Clients don't send
//! requests to this interface.
use crate::protocol::reject_unknown_request;
use crate::protocol::wire_utils::ClientMessage;
use crate::state::compositor_state::CompositorState;
use vstd::prelude::*;

verus! {

/// `presented(tv_sec_hi, tv_sec_lo, tv_nsec, refresh, seq_hi, seq_lo, flags)`.
pub const PRESENTED: u16 = 1;

/// `discarded()`, for a frame that never made it to screen.
pub const DISCARDED: u16 = 2;

/// The `kind` bitmask bits of `presented`.
pub const KIND_VSYNC: u32 = 1;

pub const KIND_HW_CLOCK: u32 = 2;

pub const KIND_HW_COMPLETION: u32 = 4;

pub const KIND_ZERO_COPY: u32 = 8;

/// What a backend vouches for about how a frame reached the screen.
#[derive(Debug, Clone, Copy, PartialEq, Eq, Structural)]
pub struct PresentationFlags {
    pub vsync: bool,
    pub hw_clock: bool,
    pub hw_completion: bool,
    pub zero_copy: bool,
}

/// One bit of a mask, if it is set.
pub open spec fn bit_if(set: bool, bit: u32) -> int {
    if set {
        bit as int
    } else {
        0
    }
}

/// The mask of what a backend vouches for: a bit for each thing.
pub open spec fn kinds(flags: PresentationFlags) -> int {
    bit_if(flags.vsync, KIND_VSYNC) + bit_if(flags.hw_clock, KIND_HW_CLOCK) + bit_if(
        flags.hw_completion,
        KIND_HW_COMPLETION,
    ) + bit_if(flags.zero_copy, KIND_ZERO_COPY)
}

/// Pack what the backend vouched for into the `kind` bitmask.
pub fn kind_mask(flags: PresentationFlags) -> (r: u32)
    ensures
        r == kinds(flags),
{
    let mut mask: u32 = 0;
    if flags.vsync {
        mask = mask + KIND_VSYNC;
    }
    if flags.hw_clock {
        mask = mask + KIND_HW_CLOCK;
    }
    if flags.hw_completion {
        mask = mask + KIND_HW_COMPLETION;
    }
    if flags.zero_copy {
        mask = mask + KIND_ZERO_COPY;
    }
    mask
}

pub fn handle(state: &mut CompositorState, msg: &ClientMessage)
    ensures
        final(state)@ == old(state)@.reject_unknown(*msg, "wp_presentation_feedback"@),
{
    reject_unknown_request(state, msg, "wp_presentation_feedback");
}

} // verus!
