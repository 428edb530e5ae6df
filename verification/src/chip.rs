//! The emulated sound chip and the only code that touches it: the calls
//! into the chip crate. Each call adds to the records the chip keeps of its
//! output rate, register writes and requests for samples; nothing else can
//! write them.

use vstd::prelude::*;
use resid::{ChipModel, SamplingMethod, Sid};
use crate::sfx::{MAX_SAMPLE_RATE, MIN_SAMPLE_RATE, PAL_CLOCK};

verus! {

#[verifier::external_type_specification]
#[verifier::external_body]
pub struct ExSid(Sid);

/// One request for samples made of a chip: the cycles it was asked to run,
/// the first buffer slot it was asked to fill, and the samples it returned.
pub type SampleRequest = (nat, nat, nat);

/// A MOS 6581 sound chip clocked at `PAL_CLOCK` and resampled, by the
/// chip's fast resampling method, to an output rate between
/// `MIN_SAMPLE_RATE` and `MAX_SAMPLE_RATE`. Beside the chip it keeps, as
/// ghost state that only the calls into the chip add to, the output rate the
/// chip was set to, the register writes made and the requests for samples
/// made.
pub struct SoundChip {
    sid: Sid,
    rate: Ghost<Option<u32>>,
    writes: Ghost<Seq<(u8, u8)>>,
    requests: Ghost<Seq<SampleRequest>>,
}

/// `resid::Sid::new` for the MOS 6581 model, held in a `SoundChip` whose
/// records are empty and whose output rate is not yet set. Nothing is
/// stated of the new chip's state.
#[verifier::external_body]
pub(crate) fn chip_new_6581() -> (c: SoundChip)
    ensures
        c.output_rate() is None,
        c.writes() == Seq::<(u8, u8)>::empty(),
        c.requests() == Seq::<SampleRequest>::empty(),
{
    SoundChip {
        sid: Sid::new(ChipModel::Mos6581),
        rate: Ghost(None),
        writes: Ghost(Seq::empty()),
        requests: Ghost(Seq::empty()),
    }
}

/// `resid::Sid::set_sampling_parameters` with the fast resampling method, on
/// the chip of `chip`: it sets the chip to run at `clock` cycles per second
/// and produce `sample_rate` samples per second, which the chip's record of
/// its output rate then holds. The register writes and requests recorded
/// are left alone; nothing else is stated of the chip's new state. The
/// inputs admitted are those for which later sampling cannot fail (see
/// `MIN_SAMPLE_RATE` and `MAX_SAMPLE_RATE`).
#[verifier::external_body]
pub(crate) fn chip_set_resample_fast(chip: &mut SoundChip, clock: u32, sample_rate: u32)
    requires
        clock == PAL_CLOCK,
        MIN_SAMPLE_RATE <= sample_rate <= MAX_SAMPLE_RATE,
    ensures
        final(chip).output_rate() == Some(sample_rate),
        final(chip).writes() == old(chip).writes(),
        final(chip).requests() == old(chip).requests(),
{
    chip.sid.set_sampling_parameters(SamplingMethod::ResampleFast, clock, sample_rate)
}

/// `resid::Sid::write` on the chip of `chip`: stores `value` in chip
/// register `reg` (registers past the last are ignored), and the write is
/// added to the chip's record of register writes. The output rate and the
/// requests recorded are left alone; nothing else is stated of the chip's
/// new state.
#[verifier::external_body]
pub(crate) fn chip_write(chip: &mut SoundChip, reg: u8, value: u8)
    ensures
        final(chip).writes() == old(chip).writes().push((reg, value)),
        final(chip).output_rate() == old(chip).output_rate(),
        final(chip).requests() == old(chip).requests(),
{
    chip.sid.write(reg, value)
}

/// `resid::Sid::sample` with an interleave of 1, on the chip of `chip`,
/// writing into `out` from index `start` on: the chip is clocked for at most
/// `delta` cycles and writes one sample per slot, from the first slot on,
/// and returns how many slots it wrote and how many of the `delta` cycles
/// were left. The request (`delta`, `start`, samples written) is added to
/// the chip's record of requests. The call cannot fail on a chip set to an
/// output rate between `MIN_SAMPLE_RATE` and `MAX_SAMPLE_RATE`. The samples
/// themselves come from the chip's emulation and are not stated, nor is the
/// chip's new state; stated is that it writes no slot before `start` or past
/// the samples it counts, counts no more samples than there are slots, and
/// leaves the output rate and register writes recorded alone.
#[verifier::external_body]
pub(crate) fn chip_sample(chip: &mut SoundChip, delta: u32, out: &mut [i16], start: usize) -> (r: (
    usize,
    u32,
))
    requires
        old(chip).configured(),
        start <= old(out)@.len(),
    ensures
        r.0 <= old(out)@.len() - start,
        r.1 <= delta,
        final(chip).requests() == old(chip).requests().push(
            (delta as nat, start as nat, r.0 as nat),
        ),
        final(chip).output_rate() == old(chip).output_rate(),
        final(chip).writes() == old(chip).writes(),
        final(out)@.len() == old(out)@.len(),
        forall|j: int|
            0 <= j < old(out)@.len() && !(start <= j < start + r.0) ==> final(out)@[j] == old(
                out,
            )@[j],
{
    chip.sid.sample(delta, &mut out[start..], 1)
}

impl SoundChip {
    /// The output rate, in samples per second, the chip was set to; `None`
    /// before it was set.
    pub closed spec fn output_rate(&self) -> Option<u32> {
        self.rate@
    }

    /// The register writes made to this chip, oldest first, as (register,
    /// value).
    pub closed spec fn writes(&self) -> Seq<(u8, u8)> {
        self.writes@
    }

    /// The requests for samples made of this chip, oldest first.
    pub closed spec fn requests(&self) -> Seq<SampleRequest> {
        self.requests@
    }

    /// Whether the chip was set to an output rate it can sample at.
    pub open spec fn configured(&self) -> bool {
        &&& self.output_rate() is Some
        &&& MIN_SAMPLE_RATE <= self.output_rate()->Some_0 <= MAX_SAMPLE_RATE
    }
}

} // verus!
