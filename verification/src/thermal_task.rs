//! The thermal task: samples the temperature a few times after start-up
//! and, from the samples, seeds the random number generator; once seeded
//! the system is loaded.
use vstd::prelude::*;
use crate::date_time::MS_TO_NANO;
use crate::drivers::max31820::Max31820Driver;

verus! {

/// How many samples are taken.
pub const SAMPLES: usize = 5;
/// The pause between two steps of the task, in nanoseconds.
pub const THERMAL_PAUSE: u64 = 300_000_000;

/// The weight of sample `i` in the seed.
pub open spec fn seed_weight(i: int) -> u64 {
    seq![3u64, 5, 7, 11, 13, 17, 19, 23, 29][i]
}

/// The seed from the first `k` samples: 1337 plus each sample taken,
/// weighted.
pub open spec fn seed_of(samples: Seq<Option<u16>>, k: int) -> int
    decreases k,
{
    if k <= 0 {
        1337
    } else {
        seed_of(samples, k - 1) + match samples[k - 1] {
            Some(v) => v as int * seed_weight(k - 1) as int,
            None => 0,
        }
    }
}

/// What the caller is to do after a step of the task.
#[derive(Copy, Clone, PartialEq, Eq, Structural, Debug)]
pub enum ThermalStep {
    /// Nothing.
    Idle,
    /// Read the temperature and hand it to `record_sample`.
    Sample,
    /// Seed the random number generator with this.
    Seed(u64),
}

/// The thermal task.
pub struct ThermalTask {
    pub driver: Max31820Driver,
    pub next_event: u64,
    pub count: usize,
    pub samples: [Option<u16>; SAMPLES],
    pub loaded: bool,
}

impl ThermalTask {
    /// A task that has taken no sample.
    pub fn new(driver: Max31820Driver) -> (r: Self)
        ensures
            r.driver == driver,
            r.next_event == 0,
            r.count == 0,
            !r.loaded,
            r.samples@ == Seq::new(SAMPLES as nat, |i: int| None::<u16>),
    {
        let r = ThermalTask { driver: driver, next_event: 0, count: 0, loaded: false, samples: [None; SAMPLES] };
        assert(r.samples@ =~= Seq::new(SAMPLES as nat, |i: int| None::<u16>));
        r
    }

    /// Nothing is set up at start.
    pub fn init(&self) {
    }

    /// One step at `now`. When due: while samples are missing, the caller
    /// is to take one; with all of them taken, the seed is handed out once
    /// and the system is loaded. Either way the next step is due a pause
    /// later.
    pub fn system_loop(&mut self, now: u64) -> (step: ThermalStep)
        requires
            now + THERMAL_PAUSE <= u64::MAX,
        ensures
            now <= old(self).next_event ==> step == ThermalStep::Idle && *final(self) == *old(self),
            now > old(self).next_event ==> final(self).next_event == now + THERMAL_PAUSE
                && final(self).samples == old(self).samples && final(self).driver == old(self).driver
                && if old(self).count < SAMPLES {
                step == ThermalStep::Sample && final(self).count == old(self).count && final(self).loaded
                    == old(self).loaded
            } else if old(self).count == SAMPLES {
                step == ThermalStep::Seed(seed_of(old(self).samples@, SAMPLES as int) as u64) && final(self).loaded
                    && final(self).count == SAMPLES + 1
            } else {
                step == ThermalStep::Idle && final(self).count == old(self).count && final(self).loaded
                    == old(self).loaded
            },
    {
        if now <= self.next_event {
            return ThermalStep::Idle;
        }
        let step = if self.count < SAMPLES {
            ThermalStep::Sample
        } else if self.count == SAMPLES {
            let weights: [u64; 9] = [3, 5, 7, 11, 13, 17, 19, 23, 29];
            let mut seed: u64 = 1337;
            let mut i: usize = 0;
            while i < SAMPLES
                invariant
                    i <= SAMPLES,
                    weights@ == seq![3u64, 5, 7, 11, 13, 17, 19, 23, 29],
                    seed == seed_of(self.samples@, i as int),
                    seed <= 1337 + 65535 * 13 * i,
                decreases SAMPLES - i,
            {
                assert(weights@[i as int] == seed_weight(i as int));
                match self.samples[i] {
                    Some(v) => {
                        assert(v as u64 * weights[i as int] <= 65535 * 13) by (nonlinear_arith)
                            requires
                                v <= 65535,
                                weights@[i as int] <= 13,
                        ;
                        seed = seed + v as u64 * weights[i];
                    },
                    None => {},
                }
                i = i + 1;
            }
            self.loaded = true;
            self.count = self.count + 1;
            ThermalStep::Seed(seed)
        } else {
            ThermalStep::Idle
        };
        self.next_event = now + THERMAL_PAUSE;
        step
    }

    /// Records the reading `sample` as the next sample.
    pub fn record_sample(&mut self, sample: Option<u16>)
        requires
            old(self).count < SAMPLES,
        ensures
            final(self).samples@ == old(self).samples@.update(old(self).count as int, sample),
            final(self).count == old(self).count + 1,
            final(self).next_event == old(self).next_event,
            final(self).loaded == old(self).loaded,
            final(self).driver == old(self).driver,
    {
        self.samples[self.count] = sample;
        self.count = self.count + 1;
    }
}

} // verus!
