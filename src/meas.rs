//! Batches of samples: six channels of a fixed number of samples each, with
//! the batch's time and its count of humidity cutoffs.
use vstd::prelude::*;

verus! {

/// Number of samples in one batch.
pub const N1: usize = 100;

/// One batch of measurements. Each channel is a `T`: raw samples while the
/// batch fills, one compressed blob per channel once it is stored.
#[derive(Clone, Copy, Debug)]
pub struct Meas<T> {
    /// Epoch second at which the batch was completed.
    pub time: i64,
    /// Number of samples in the batch whose inside absolute humidity was below
    /// the cutoff.
    pub cutoffs: i32,
    pub inside_temp: T,
    pub outside_temp: T,
    pub inside_rh: T,
    pub outside_rh: T,
    pub grams: T,
    pub amps: T,
}

/// One reading of every channel, each value a single-precision bit pattern.
#[derive(Clone, Copy, Debug)]
pub struct Sample {
    pub inside_temp: u32,
    pub outside_temp: u32,
    pub inside_rh: u32,
    pub outside_rh: u32,
    pub grams: u32,
    pub amps: u32,
}

impl Meas<[u32; N1]> {
    /// An empty batch: time and cutoffs 0, every sample `0.0`.
    pub fn new() -> (r: Self)
        ensures
            r.time == 0,
            r.cutoffs == 0,
            r.inside_temp@ == Seq::new(N1 as nat, |k: int| 0u32),
            r.outside_temp@ == Seq::new(N1 as nat, |k: int| 0u32),
            r.inside_rh@ == Seq::new(N1 as nat, |k: int| 0u32),
            r.outside_rh@ == Seq::new(N1 as nat, |k: int| 0u32),
            r.grams@ == Seq::new(N1 as nat, |k: int| 0u32),
            r.amps@ == Seq::new(N1 as nat, |k: int| 0u32),
    {
        let r = Meas {
            time: 0,
            cutoffs: 0,
            inside_temp: [0u32; N1],
            outside_temp: [0u32; N1],
            inside_rh: [0u32; N1],
            outside_rh: [0u32; N1],
            grams: [0u32; N1],
            amps: [0u32; N1],
        };
        assert(r.inside_temp@ =~= Seq::new(N1 as nat, |k: int| 0u32));
        assert(r.outside_temp@ =~= Seq::new(N1 as nat, |k: int| 0u32));
        assert(r.inside_rh@ =~= Seq::new(N1 as nat, |k: int| 0u32));
        assert(r.outside_rh@ =~= Seq::new(N1 as nat, |k: int| 0u32));
        assert(r.grams@ =~= Seq::new(N1 as nat, |k: int| 0u32));
        assert(r.amps@ =~= Seq::new(N1 as nat, |k: int| 0u32));
        r
    }

    /// Stores sample `i` of every channel and counts it as a cutoff when its
    /// inside humidity was below the threshold, so that the count always
    /// describes the samples the batch holds.
    pub fn record(&mut self, i: usize, s: Sample, below_cut: bool)
        requires
            i < N1,
            old(self).cutoffs < i32::MAX,
        ensures
            final(self).time == old(self).time,
            final(self).cutoffs == old(self).cutoffs + if below_cut {
                1int
            } else {
                0int
            },
            final(self).inside_temp@ == old(self).inside_temp@.update(i as int, s.inside_temp),
            final(self).outside_temp@ == old(self).outside_temp@.update(i as int, s.outside_temp),
            final(self).inside_rh@ == old(self).inside_rh@.update(i as int, s.inside_rh),
            final(self).outside_rh@ == old(self).outside_rh@.update(i as int, s.outside_rh),
            final(self).grams@ == old(self).grams@.update(i as int, s.grams),
            final(self).amps@ == old(self).amps@.update(i as int, s.amps),
    {
        self.inside_temp[i] = s.inside_temp;
        self.outside_temp[i] = s.outside_temp;
        self.inside_rh[i] = s.inside_rh;
        self.outside_rh[i] = s.outside_rh;
        self.grams[i] = s.grams;
        self.amps[i] = s.amps;
        if below_cut {
            self.cutoffs = self.cutoffs + 1;
        }
        assert(self.inside_temp@ =~= old(self).inside_temp@.update(i as int, s.inside_temp));
        assert(self.outside_temp@ =~= old(self).outside_temp@.update(i as int, s.outside_temp));
        assert(self.inside_rh@ =~= old(self).inside_rh@.update(i as int, s.inside_rh));
        assert(self.outside_rh@ =~= old(self).outside_rh@.update(i as int, s.outside_rh));
        assert(self.grams@ =~= old(self).grams@.update(i as int, s.grams));
        assert(self.amps@ =~= old(self).amps@.update(i as int, s.amps));
    }
}

} // verus!
