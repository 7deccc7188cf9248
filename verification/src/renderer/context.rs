//! How the GPU surface presents frames, chosen from the frame pacing that
//! the settings ask for and the modes the surface offers.

use vstd::prelude::*;

use crate::config::{Platform, VsyncMode};

verus! {

/// How finished frames are handed to the display: the modes a GPU surface
/// can offer.
#[derive(Debug, Clone, Copy, PartialEq, Eq, Structural)]
pub enum PresentMode {
    AutoVsync,
    AutoNoVsync,
    Fifo,
    FifoRelaxed,
    Immediate,
    Mailbox,
}

/// The present mode for the pacing `vsync` on a surface offering
/// `available` on `platform`: vsync or not as asked; mailbox where it is
/// offered and asked for, else vsync; frames paced by the display link
/// present without vsync on macOS, where the link does the pacing, and with
/// vsync elsewhere.
pub open spec fn present_mode_for(vsync: VsyncMode, available: Seq<PresentMode>, platform: Platform) -> PresentMode {
    match vsync {
        VsyncMode::Enabled => PresentMode::AutoVsync,
        VsyncMode::Disabled => PresentMode::AutoNoVsync,
        VsyncMode::MailboxIfAvailable => if available.contains(PresentMode::Mailbox) {
            PresentMode::Mailbox
        } else {
            PresentMode::AutoVsync
        },
        VsyncMode::DisplayLink => if platform == Platform::MacOs {
            PresentMode::AutoNoVsync
        } else {
            PresentMode::AutoVsync
        },
    }
}

/// Returns the present mode for the pacing `vsync` on a surface offering
/// `available` on `platform`.
pub fn select_present_mode(available: &[PresentMode], vsync: VsyncMode, platform: Platform) -> (m: PresentMode)
    ensures
        m == present_mode_for(vsync, available@, platform),
{
    match vsync {
        VsyncMode::Enabled => PresentMode::AutoVsync,
        VsyncMode::Disabled => PresentMode::AutoNoVsync,
        VsyncMode::MailboxIfAvailable => {
            let mut i: usize = 0;
            while i < available.len()
                invariant
                    vsync == VsyncMode::MailboxIfAvailable,
                    i <= available@.len(),
                    forall|j: int| 0 <= j < i ==> available@[j] != PresentMode::Mailbox,
                decreases available@.len() - i,
            {
                if available[i] == PresentMode::Mailbox {
                    assert(available@[i as int] == PresentMode::Mailbox);
                    return PresentMode::Mailbox;
                }
                i = i + 1;
            }
            PresentMode::AutoVsync
        },
        VsyncMode::DisplayLink => match platform {
            Platform::MacOs => PresentMode::AutoNoVsync,
            _ => PresentMode::AutoVsync,
        },
    }
}

/// The mode waits for the display's refresh.
pub open spec fn waits_for_vsync(mode: PresentMode) -> bool {
    mode == PresentMode::AutoVsync || mode == PresentMode::Fifo || mode == PresentMode::Mailbox
}

/// Returns how many frames may be in flight: one with vsync, for lower
/// latency, else two.
pub fn frame_latency(mode: PresentMode) -> (n: u32)
    ensures
        n == if waits_for_vsync(mode) { 1u32 } else { 2u32 },
{
    match mode {
        PresentMode::AutoVsync | PresentMode::Fifo | PresentMode::Mailbox => 1,
        _ => 2,
    }
}

} // verus!
