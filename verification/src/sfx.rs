//! The emulated sound chip and rendering its output into a buffer of
//! samples.

use vstd::prelude::*;
pub use crate::chip::{SampleRequest, SoundChip};
use crate::chip::{chip_new_6581, chip_sample, chip_set_resample_fast, chip_write};

verus! {

/// The clock rate of the PAL sound chip, in cycles per second.
pub const PAL_CLOCK: u32 = 985_248;

/// The lowest output rate the chip is run at, in samples per second. Below
/// about 7 460 samples per second the chip's resampling filter is longer
/// than its sample ring and sampling fails; the bound keeps a margin from
/// that edge, which the chip computes in floating point.
pub const MIN_SAMPLE_RATE: u32 = 7_500;

/// The highest output rate the chip is run at, in samples per second. Above
/// about 627 000 samples per second the chip's filter table position
/// overflows; the bound keeps a margin from that edge, which the chip
/// computes in floating point.
pub const MAX_SAMPLE_RATE: u32 = 600_000;

impl SoundChip {
    /// A new MOS 6581 chip, clocked at `PAL_CLOCK` and resampled to
    /// `sample_rate` samples per second.
    pub fn new(sample_rate: u32) -> (c: Self)
        requires
            MIN_SAMPLE_RATE <= sample_rate <= MAX_SAMPLE_RATE,
        ensures
            c.output_rate() == Some(sample_rate),
            c.writes() == Seq::<(u8, u8)>::empty(),
            c.requests() == Seq::<SampleRequest>::empty(),
    {
        let mut chip = chip_new_6581();
        chip_set_resample_fast(&mut chip, PAL_CLOCK, sample_rate);
        chip
    }

    /// Stores `value` in chip register `reg`.
    pub fn write(&mut self, reg: u8, value: u8)
        ensures
            final(self).writes() == old(self).writes().push((reg, value)),
            final(self).output_rate() == old(self).output_rate(),
            final(self).requests() == old(self).requests(),
    {
        chip_write(self, reg, value);
    }
}

/// The chip cycles asked for when the buffer of `len` slots is filled from
/// slot `start` on at `sample_rate` samples per second: the cycles of one
/// sample, rounded up, for every slot left.
pub open spec fn cycles_for(len: int, start: int, sample_rate: u32) -> int {
    (len - start) * (PAL_CLOCK / sample_rate + 1)
}

/// Whether `reqs` are the requests that filling a buffer of `len` slots at
/// `sample_rate` makes: the first asks from slot 0, each next one from where
/// the samples of the one before ended, each for `cycles_for` the slots
/// left; every request but the last got at least one sample, and the last
/// got none or filled the buffer. An empty buffer makes no request.
pub open spec fn fill_requests(reqs: Seq<SampleRequest>, len: nat, sample_rate: u32) -> bool {
    &&& (reqs.len() == 0) == (len == 0)
    &&& forall|k: int|
        0 <= k < reqs.len() ==> {
            &&& (#[trigger] reqs[k]).1 == (if k == 0 {
                0
            } else {
                reqs[k - 1].1 + reqs[k - 1].2
            })
            &&& reqs[k].1 < len
            &&& reqs[k].1 + reqs[k].2 <= len
            &&& reqs[k].0 == cycles_for(len as int, reqs[k].1 as int, sample_rate)
            &&& k < reqs.len() - 1 ==> reqs[k].2 > 0
        }
    &&& reqs.len() > 0 ==> (reqs.last().2 == 0 || reqs.last().1 + reqs.last().2 == len)
}

/// The cycles to ask of the chip when a buffer of `len` slots is filled from
/// slot `start` on at `sample_rate` samples per second.
pub fn fill_request(len: usize, start: usize, sample_rate: u32) -> (c: u32)
    requires
        start <= len,
        sample_rate > 0,
        len * (PAL_CLOCK / sample_rate + 1) <= u32::MAX,
    ensures
        c == cycles_for(len as int, start as int, sample_rate),
{
    let budget = PAL_CLOCK / sample_rate + 1;
    assert((len - start) * budget <= len * budget && len - start <= len * budget)
        by (nonlinear_arith)
        requires
            start <= len,
            0 < budget,
    ;
    let target = (len - start) as u32;
    target * budget
}

/// Where filling goes on after the chip returned `got` samples from slot
/// `start`: nowhere when it returned none, else just past them.
pub fn fill_advance(start: usize, got: usize) -> (next: Option<usize>)
    requires
        start + got <= usize::MAX,
    ensures
        next == if got == 0 {
            None::<usize>
        } else {
            Some((start + got) as usize)
        },
{
    if got == 0 {
        None
    } else {
        Some(start + got)
    }
}

/// How far the requests `reqs` filled a buffer: to the end of the samples
/// the last of them returned, or nowhere when there is none.
pub open spec fn filled_to(reqs: Seq<SampleRequest>) -> nat {
    if reqs.len() == 0 {
        0
    } else {
        reqs.last().1 + reqs.last().2
    }
}

/// Fills `out` with samples from the chip at `sample_rate` samples per
/// second: from slot 0 on, asks the chip for the cycles of the slots left,
/// moves past the samples it returns, and stops when the buffer is full or
/// the chip returns no sample. The requests the chip records of these calls
/// are those `fill_requests` describes, and the slots past the last sample
/// the chip returned keep their values.
pub fn fill(chip: &mut SoundChip, out: &mut [i16], sample_rate: u32)
    requires
        old(chip).configured(),
        sample_rate > 0,
        old(out)@.len() * (PAL_CLOCK / sample_rate + 1) <= u32::MAX,
    ensures
        final(out)@.len() == old(out)@.len(),
        final(chip).output_rate() == old(chip).output_rate(),
        final(chip).writes() == old(chip).writes(),
        final(chip).requests().len() >= old(chip).requests().len(),
        final(chip).requests().take(old(chip).requests().len() as int) == old(chip).requests(),
        fill_requests(
            final(chip).requests().skip(old(chip).requests().len() as int),
            old(out)@.len(),
            sample_rate,
        ),
        forall|j: int|
            filled_to(final(chip).requests().skip(old(chip).requests().len() as int)) <= j
                < old(out)@.len() ==> final(out)@[j] == old(out)@[j],
{
    let ghost out0 = out@;
    let ghost before = chip.requests();
    let ghost rate = chip.output_rate();
    let ghost writes = chip.writes();
    let ghost mut reqs: Seq<SampleRequest> = Seq::empty();
    let len = out.len();
    let mut i: usize = 0;
    let mut stopped = false;
    while i < len && !stopped
        invariant
            i <= len,
            len == out@.len(),
            len * (PAL_CLOCK / sample_rate + 1) <= u32::MAX,
            sample_rate > 0,
            chip.output_rate() == rate,
            chip.writes() == writes,
            chip.configured(),
            chip.requests() == before + reqs,
            i == filled_to(reqs),
            forall|j: int| i <= j < len ==> out@[j] == out0[j],
            reqs.len() == 0 ==> i == 0 && !stopped,
            reqs.len() > 0 ==> i == reqs.last().1 + reqs.last().2,
            reqs.len() > 0 ==> (stopped == (reqs.last().2 == 0)),
            forall|k: int|
                0 <= k < reqs.len() ==> {
                    &&& (#[trigger] reqs[k]).1 == (if k == 0 {
                        0
                    } else {
                        reqs[k - 1].1 + reqs[k - 1].2
                    })
                    &&& reqs[k].1 < len
                    &&& reqs[k].1 + reqs[k].2 <= len
                    &&& reqs[k].0 == cycles_for(len as int, reqs[k].1 as int, sample_rate)
                    &&& k < reqs.len() - 1 ==> reqs[k].2 > 0
                },
        decreases len - i + (if stopped { 0int } else { 1int }),
    {
        let cycles = fill_request(len, i, sample_rate);
        let (n, _) = chip_sample(chip, cycles, out, i);
        let ghost old_reqs = reqs;
        proof {
            reqs = reqs.push((cycles as nat, i as nat, n as nat));
            assert(chip.requests() =~= before + reqs);
            assert forall|k: int| 0 <= k < old_reqs.len() implies #[trigger] reqs[k] == old_reqs[k]
                by {}
        }
        match fill_advance(i, n) {
            Some(next) => {
                i = next;
            },
            None => {
                stopped = true;
            },
        }
    }
    proof {
        assert(chip.requests().take(before.len() as int) =~= before);
        assert(chip.requests().skip(before.len() as int) =~= reqs);
    }
}

} // verus!
