//! Sequence-number and timestamp rebasing.
//!
//! A broadcast numbers its packets in its own continuously increasing
//! "virtual" space.  Every sink attachment lazily captures, on the first
//! packet it forwards, the sink transport's then-current native sequence
//! number and timestamp as a base pair, together with the virtual pair of
//! that same packet.  Every later packet is mapped as
//! `base + (virtual - virtual_base)` in wrapping arithmetic (16-bit
//! sequences, 32-bit timestamps), so the sink sees a seamless monotonic
//! stream whatever numbering the broadcast itself uses.
//!
//! On the receive side the inverse mapping pins the first packet of each
//! physical stream to virtual sequence zero, so every new physical stream
//! starts a fresh, gap-free virtual numbering.  An out-of-order first packet
//! corrupts the base point; that is an accepted property of the design, not
//! corrected here.
use vstd::prelude::*;
use vstd::wrapping::u16_specs;
use vstd::wrapping::u32_specs;

verus! {

/// The sink-native sequence number for virtual sequence number `v`, given
/// the captured native base `base` and virtual base `virtual_base`.
pub open spec fn rebased_seq(base: u16, virtual_base: u16, v: u16) -> u16 {
    u16_specs::wrapping_add(base, u16_specs::wrapping_sub(v, virtual_base))
}

/// The sink-native timestamp for virtual timestamp `t`, given the captured
/// native base `base` and virtual base `virtual_base`.
pub open spec fn rebased_tsp(base: u32, virtual_base: u32, t: u32) -> u32 {
    u32_specs::wrapping_add(base, u32_specs::wrapping_sub(t, virtual_base))
}

/// Per-sink-attachment rebasing state.  `base_seq`/`base_tsp` are `None`
/// until the first packet flows through the attachment.
pub struct RebaseState {
    pub base_seq: Option<u16>,
    pub base_tsp: Option<u32>,
    pub virtual_base_seq: u16,
    pub virtual_base_tsp: u32,
}

impl RebaseState {
    /// A fresh attachment: no base captured yet.
    pub fn new() -> (r: RebaseState)
        ensures
            r.base_seq is None,
            r.base_tsp is None,
    {
        RebaseState { base_seq: None, base_tsp: None, virtual_base_seq: 0, virtual_base_tsp: 0 }
    }

    /// Maps one packet's virtual sequence number and timestamp into the
    /// sink's native space.  On the first packet the sink transport's
    /// current native sequence number `native_seq` and last native timestamp
    /// `native_tsp` become the base pair and are returned unchanged; later
    /// packets are shifted by their virtual distance from the base packet.
    pub fn map(&mut self, virt_seq: u16, virt_tsp: u32, native_seq: u16, native_tsp: u32) -> (r: (
        u16,
        u32,
    ))
        ensures
            (match old(self).base_seq {
                Some(b) => r.0 == rebased_seq(b, old(self).virtual_base_seq, virt_seq)
                    && final(self).base_seq == old(self).base_seq
                    && final(self).virtual_base_seq == old(self).virtual_base_seq,
                None => r.0 == native_seq
                    && final(self).base_seq == Some(native_seq)
                    && final(self).virtual_base_seq == virt_seq,
            }),
            (match old(self).base_tsp {
                Some(b) => r.1 == rebased_tsp(b, old(self).virtual_base_tsp, virt_tsp)
                    && final(self).base_tsp == old(self).base_tsp
                    && final(self).virtual_base_tsp == old(self).virtual_base_tsp,
                None => r.1 == native_tsp
                    && final(self).base_tsp == Some(native_tsp)
                    && final(self).virtual_base_tsp == virt_tsp,
            }),
    {
        let seq_no: u16 = match self.base_seq {
            Some(base) => base.wrapping_add(virt_seq.wrapping_sub(self.virtual_base_seq)),
            None => {
                self.base_seq = Some(native_seq);
                self.virtual_base_seq = virt_seq;
                native_seq
            },
        };
        let packet_tsp: u32 = match self.base_tsp {
            Some(base) => base.wrapping_add(virt_tsp.wrapping_sub(self.virtual_base_tsp)),
            None => {
                self.base_tsp = Some(native_tsp);
                self.virtual_base_tsp = virt_tsp;
                native_tsp
            },
        };
        (seq_no, packet_tsp)
    }
}

/// Receive-side rebasing: the first packet of a physical stream becomes
/// virtual sequence zero, and every later packet keeps its distance from
/// that first packet.
pub struct ReceiverRebase {
    pub base_sequence: Option<u16>,
}

impl ReceiverRebase {
    /// A fresh physical stream: no packet seen yet.
    pub fn new() -> (r: ReceiverRebase)
        ensures
            r.base_sequence is None,
    {
        ReceiverRebase { base_sequence: None }
    }

    /// Maps one received native sequence number into the stream's virtual
    /// space: the first packet pins the base and becomes zero.
    pub fn virtualize(&mut self, seq: u16) -> (r: u16)
        ensures
            (match old(self).base_sequence {
                Some(b) => r == u16_specs::wrapping_sub(seq, b)
                    && final(self).base_sequence == old(self).base_sequence,
                None => r == 0 && final(self).base_sequence == Some(seq),
            }),
    {
        match self.base_sequence {
            Some(base) => seq.wrapping_sub(base),
            None => {
                self.base_sequence = Some(seq);
                0
            },
        }
    }
}

/// Law: rebasing is gap-free and monotonic.  Once a sink captured native
/// base `s0` at virtual base `v0`, the packet `k` steps after the base
/// packet maps to exactly `k` steps after `s0`, whatever `v0` was.
pub proof fn lemma_rebased_seq_gap_free(s0: u16, v0: u16, k: u16)
    ensures
        rebased_seq(s0, v0, u16_specs::wrapping_add(v0, k)) == u16_specs::wrapping_add(s0, k),
{
}

/// Law: the timestamp mapping is shift-invariant in the same way.
pub proof fn lemma_rebased_tsp_gap_free(t0: u32, v0: u32, k: u32)
    ensures
        rebased_tsp(t0, v0, u32_specs::wrapping_add(v0, k)) == u32_specs::wrapping_add(t0, k),
{
}

/// Law: consecutive virtual sequence numbers map to consecutive native
/// sequence numbers; a sink never observes a gap.
pub proof fn lemma_rebased_seq_consecutive(s0: u16, v0: u16, v: u16)
    ensures
        rebased_seq(s0, v0, u16_specs::wrapping_add(v, 1)) == u16_specs::wrapping_add(
            rebased_seq(s0, v0, v),
            1,
        ),
{
}

/// Law: the receive side assigns each new physical stream a fresh numbering
/// that starts at zero and keeps distances: the packet `k` steps after the
/// first one gets virtual sequence `k`.
pub proof fn lemma_virtualize_gap_free(b0: u16, k: u16)
    ensures
        u16_specs::wrapping_sub(u16_specs::wrapping_add(b0, k), b0) == k,
{
}

} // verus!
