//! Colour animations: a start colour and a list of timed transitions to
//! other colours, looping over its total time.
use vstd::prelude::*;
use crate::pixel_engine::color::{Color, rgb};

verus! {

/// One transition: to `color`, over `time` milliseconds.
#[derive(Copy, Clone, PartialEq, Eq, Structural, Debug)]
pub struct ShaderStep {
    pub time: u64,
    pub color: Color,
}

/// A colour animation. Once built it is sealed: further transitions are
/// ignored. It can be marked disabled, or as shown only when the network
/// is up, and can carry its own number of colour segments.
pub struct Shader {
    pub name: &'static str,
    pub sealed: bool,
    pub color: Color,
    pub steps: Vec<ShaderStep>,
    pub total_time: u64,
    pub disabled: bool,
    pub wifi_only: bool,
    pub segment_count: Option<usize>,
}

/// `a` and `b` agree on everything but the start colour, the transitions
/// and the seal.
pub open spec fn same_marks(a: &Shader, b: &Shader) -> bool {
    &&& a.name == b.name
    &&& a.disabled == b.disabled
    &&& a.wifi_only == b.wifi_only
    &&& a.segment_count == b.segment_count
}

/// The total time of `steps`.
pub open spec fn steps_time(steps: Seq<ShaderStep>) -> nat
    decreases steps.len(),
{
    if steps.len() == 0 {
        0
    } else {
        steps_time(steps.drop_last()) + steps.last().time as nat
    }
}

/// Where an animation stands at a moment: the colour it comes from, the
/// colour it goes to, how far into the transition it is and how long the
/// transition takes.
#[derive(Copy, Clone, PartialEq, Eq, Structural, Debug)]
pub struct Segment {
    pub from: Color,
    pub to: Color,
    pub elapsed: u64,
    pub duration: u64,
}

/// The first step whose end lies at or past `t`, looking from step `i`
/// on, where the steps before `i` end at `start`, coming from colour
/// `from`.
pub open spec fn segment_from(steps: Seq<ShaderStep>, i: int, start: nat, from: Color, t: nat) -> Segment
    decreases steps.len() - i,
{
    if i >= steps.len() - 1 || start + steps[i].time >= t {
        Segment { from: from, to: steps[i].color, elapsed: (t - start) as u64, duration: steps[i].time }
    } else {
        segment_from(steps, i + 1, start + steps[i].time as nat, steps[i].color, t)
    }
}

impl Shader {
    /// The shader's consistency condition: its total time is the time of
    /// its steps.
    pub open spec fn well_formed(&self) -> bool {
        self.total_time == steps_time(self.steps@)
    }

    /// An unsealed shader named `name`, black, with no transitions.
    pub fn new(name: &'static str) -> (r: Self)
        ensures
            r.well_formed(),
            r.name == name,
            !r.sealed,
            r.color == rgb_spec(0, 0, 0),
            r.steps@ == Seq::<ShaderStep>::empty(),
            r.total_time == 0,
            !r.disabled,
            !r.wifi_only,
            r.segment_count is None,
    {
        Shader {
            name: name,
            sealed: false,
            color: rgb(0, 0, 0),
            steps: Vec::new(),
            total_time: 0,
            disabled: false,
            wifi_only: false,
            segment_count: None,
        }
    }

    /// Marks the shader disabled.
    pub fn as_disabled(&mut self) -> (r: &mut Self)
        ensures
            *final(self) == *final(r),
            r.disabled,
            r.name == old(self).name,
            r.wifi_only == old(self).wifi_only,
            r.segment_count == old(self).segment_count,
            r.sealed == old(self).sealed,
            r.color == old(self).color,
            r.steps@ == old(self).steps@,
            r.total_time == old(self).total_time,
    {
        self.disabled = true;
        self
    }

    /// Marks the shader as shown only when the network is up.
    pub fn as_wifi_only(&mut self) -> (r: &mut Self)
        ensures
            *final(self) == *final(r),
            r.wifi_only,
            r.name == old(self).name,
            r.disabled == old(self).disabled,
            r.segment_count == old(self).segment_count,
            r.sealed == old(self).sealed,
            r.color == old(self).color,
            r.steps@ == old(self).steps@,
            r.total_time == old(self).total_time,
    {
        self.wifi_only = true;
        self
    }

    /// Sets the number of colour segments the shader is drawn with.
    pub fn set_segment_count(&mut self, count: usize) -> (r: &mut Self)
        ensures
            *final(self) == *final(r),
            r.segment_count == Some(count),
            r.name == old(self).name,
            r.disabled == old(self).disabled,
            r.wifi_only == old(self).wifi_only,
            r.sealed == old(self).sealed,
            r.color == old(self).color,
            r.steps@ == old(self).steps@,
            r.total_time == old(self).total_time,
    {
        self.segment_count = Some(count);
        self
    }

    /// Sets the start colour.
    pub fn with_color(&mut self, color: Color) -> (r: &mut Self)
        ensures
            *final(self) == *final(r),
            r.color == color,
            same_marks(r, old(self)),
            r.sealed == old(self).sealed,
            r.steps@ == old(self).steps@,
            r.total_time == old(self).total_time,
    {
        self.color = color;
        self
    }

    fn add_node(&mut self, step: ShaderStep)
        requires
            old(self).well_formed(),
            old(self).total_time + step.time <= u64::MAX,
        ensures
            final(self).well_formed(),
            final(self).steps@ == old(self).steps@.push(step),
            final(self).total_time == old(self).total_time + step.time,
            same_marks(final(self), old(self)),
            final(self).sealed == old(self).sealed,
            final(self).color == old(self).color,
    {
        self.steps.push(step);
        self.total_time = self.total_time + step.time;
        assert(self.steps@.drop_last() =~= old(self).steps@);
    }

    /// Adds a transition to `color` over `time`, unless the shader is
    /// sealed.
    pub fn transition_to(&mut self, color: Color, time: u64) -> (r: &mut Self)
        requires
            old(self).well_formed(),
            old(self).total_time + time <= u64::MAX,
        ensures
            *final(self) == *final(r),
            r.well_formed(),
            old(self).sealed ==> r.steps@ == old(self).steps@ && r.total_time == old(self).total_time,
            !old(self).sealed ==> r.steps@ == old(self).steps@.push(ShaderStep { time: time, color: color })
                && r.total_time == old(self).total_time + time,
            same_marks(r, old(self)),
            r.sealed == old(self).sealed,
            r.color == old(self).color,
    {
        if self.sealed {
            return self;
        }
        self.add_node(ShaderStep { time: time, color: color });
        self
    }

    /// Appends the transitions of `other`, sealed or not.
    pub fn merge(&mut self, other: &Shader)
        requires
            old(self).well_formed(),
            other.well_formed(),
            old(self).total_time + other.total_time <= u64::MAX,
        ensures
            final(self).well_formed(),
            final(self).steps@ == old(self).steps@ + other.steps@,
            final(self).total_time == old(self).total_time + other.total_time,
            same_marks(final(self), old(self)),
            final(self).sealed == old(self).sealed,
            final(self).color == old(self).color,
    {
        let mut idx: usize = 0;
        while idx < other.steps.len()
            invariant
                idx <= other.steps@.len(),
                other.well_formed(),
                self.well_formed(),
                self.steps@ == old(self).steps@ + other.steps@.take(idx as int),
                self.total_time == old(self).total_time + steps_time(other.steps@.take(idx as int)),
                old(self).total_time + other.total_time <= u64::MAX,
                same_marks(self, old(self)),
                self.sealed == old(self).sealed,
                self.color == old(self).color,
            decreases other.steps@.len() - idx,
        {
            proof {
                assert(other.steps@.take(idx + 1).drop_last() =~= other.steps@.take(idx as int));
                lemma_steps_time_prefix(other.steps@, idx + 1);
            }
            let step = other.steps[idx];
            self.add_node(step);
            idx = idx + 1;
            assert(self.steps@ =~= old(self).steps@ + other.steps@.take(idx as int));
        }
        assert(other.steps@.take(idx as int) =~= other.steps@);
    }

    /// Seals the shader and returns a copy of it.
    pub fn build(&mut self) -> (r: Self)
        ensures
            final(self).sealed,
            r.sealed,
            same_marks(final(self), old(self)) && same_marks(&r, old(self)),
            final(self).color == old(self).color && r.color == old(self).color,
            final(self).steps@ == old(self).steps@ && r.steps@ == old(self).steps@,
            final(self).total_time == old(self).total_time && r.total_time == old(self).total_time,
    {
        self.sealed = true;
        Shader {
            name: self.name,
            sealed: true,
            color: self.color,
            steps: self.steps.clone(),
            total_time: self.total_time,
            disabled: self.disabled,
            wifi_only: self.wifi_only,
            segment_count: self.segment_count,
        }
    }

    /// The transition under way at `time` (taken modulo the total time):
    /// the first transition that has not ended by then.
    pub fn segment_at(&self, time: u64) -> (s: Segment)
        requires
            self.well_formed(),
            self.total_time > 0,
        ensures
            s == segment_from(self.steps@, 0, 0, self.color, (time % self.total_time) as nat),
            forall|k: int| #[trigger] in_step(self.steps@, k, (time % self.total_time) as nat) ==> {
                &&& s.from == if k == 0 { self.color } else { self.steps@[k - 1].color }
                &&& s.to == self.steps@[k].color
                &&& s.elapsed == time % self.total_time - steps_before(self.steps@, k)
                &&& s.duration == self.steps@[k].time
            },
    {
        let normalized = time % self.total_time;
        let mut color = self.color;
        let mut elapsed: u64 = 0;
        let mut idx: usize = 0;
        proof {
            lemma_steps_nonempty(self.steps@);
        }
        loop
            invariant
                self.well_formed(),
                0 < self.steps@.len(),
                idx < self.steps@.len(),
                normalized < self.total_time,
                elapsed == steps_time(self.steps@.take(idx as int)),
                elapsed <= normalized,
                segment_from(self.steps@, 0, 0, self.color, normalized as nat) == segment_from(
                    self.steps@,
                    idx as int,
                    elapsed as nat,
                    color,
                    normalized as nat,
                ),
            ensures
                idx < self.steps@.len(),
                elapsed <= normalized,
                elapsed + self.steps@[idx as int].time >= normalized || idx == self.steps@.len() - 1,
                segment_from(self.steps@, 0, 0, self.color, normalized as nat) == segment_from(
                    self.steps@,
                    idx as int,
                    elapsed as nat,
                    color,
                    normalized as nat,
                ),
            decreases self.steps@.len() - idx,
        {
            proof {
                lemma_steps_time_prefix(self.steps@, idx + 1);
                assert(self.steps@.take(self.steps@.len() as int) =~= self.steps@);
                assert(self.steps@.take(idx + 1).drop_last() =~= self.steps@.take(idx as int));
            }
            let step_time = self.steps[idx].time;
            if !(elapsed + step_time < normalized) || idx >= self.steps.len() - 1 {
                break;
            }
            color = self.steps[idx].color;
            elapsed = elapsed + step_time;
            idx = idx + 1;
        }
        let s = Segment {
            from: color,
            to: self.steps[idx].color,
            elapsed: normalized - elapsed,
            duration: self.steps[idx].time,
        };
        assert(segment_from(self.steps@, idx as int, elapsed as nat, color, normalized as nat) == s);
        assert forall|k: int| #[trigger] in_step(self.steps@, k, normalized as nat) implies {
            &&& s.from == if k == 0 { self.color } else { self.steps@[k - 1].color }
            &&& s.to == self.steps@[k].color
            &&& s.elapsed == normalized - steps_before(self.steps@, k)
            &&& s.duration == self.steps@[k].time
        } by {
            lemma_segment_in_step(self.steps@, self.color, normalized as nat, k);
            lemma_steps_before_mono(self.steps@, k, self.steps@.len() as int);
            assert(self.steps@.take(self.steps@.len() as int) =~= self.steps@);
        }
        s
    }
}

/// The time of the first `k` steps.
pub open spec fn steps_before(steps: Seq<ShaderStep>, k: int) -> nat {
    steps_time(steps.take(k))
}

/// Time `t` falls in step `k`: past the end of the steps before it (for
/// any step after the first) and not past its own end.
pub open spec fn in_step(steps: Seq<ShaderStep>, k: int, t: nat) -> bool {
    &&& 0 <= k < steps.len()
    &&& k > 0 ==> steps_before(steps, k) < t
    &&& t <= steps_before(steps, k) + steps[k].time
}

/// The time of `k + 1` steps is that of `k` steps and then step `k`.
proof fn lemma_steps_before_next(steps: Seq<ShaderStep>, k: int)
    requires
        0 <= k < steps.len(),
    ensures
        steps_before(steps, k + 1) == steps_before(steps, k) + steps[k].time,
{
    assert(steps.take(k + 1).drop_last() =~= steps.take(k));
}

/// The step times add up: fewer steps never take longer.
proof fn lemma_steps_before_mono(steps: Seq<ShaderStep>, j: int, k: int)
    requires
        0 <= j <= k <= steps.len(),
    ensures
        steps_before(steps, j) <= steps_before(steps, k),
    decreases k - j,
{
    if j < k {
        lemma_steps_before_mono(steps, j, k - 1);
        lemma_steps_before_next(steps, k - 1);
    }
}

proof fn lemma_segment_walk(steps: Seq<ShaderStep>, i: int, from: Color, t: nat, k: int)
    requires
        0 <= i <= k,
        in_step(steps, k, t),
    ensures
        segment_from(steps, i, steps_before(steps, i), from, t) == (Segment {
            from: if k == i { from } else { steps[k - 1].color },
            to: steps[k].color,
            elapsed: (t - steps_before(steps, k)) as u64,
            duration: steps[k].time,
        }),
    decreases k - i,
{
    if i < k {
        lemma_steps_before_next(steps, i);
        lemma_steps_before_mono(steps, i + 1, k);
        lemma_segment_walk(steps, i + 1, steps[i].color, t, k);
    }
}

/// What a shader shows at time `t` of its cycle, read off its steps: in
/// step `k` it goes from the colour the previous step ended at (the start
/// colour for the first step) to step `k`'s colour, and is as far into
/// it as `t` is past the steps before it.
pub proof fn lemma_segment_in_step(steps: Seq<ShaderStep>, start: Color, t: nat, k: int)
    requires
        in_step(steps, k, t),
    ensures
        segment_from(steps, 0, 0, start, t) == (Segment {
            from: if k == 0 { start } else { steps[k - 1].color },
            to: steps[k].color,
            elapsed: (t - steps_before(steps, k)) as u64,
            duration: steps[k].time,
        }),
{
    assert(steps.take(0) =~= Seq::<ShaderStep>::empty());
    lemma_segment_walk(steps, 0, start, t, k);
}

/// The colour with parts `r`, `g` and `b`.
pub open spec fn rgb_spec(r: u8, g: u8, b: u8) -> Color {
    Color { r: r, g: g, b: b }
}

/// The time of a prefix of the steps is at most the time of them all.
proof fn lemma_steps_time_prefix(steps: Seq<ShaderStep>, k: int)
    requires
        0 <= k <= steps.len(),
    ensures
        steps_time(steps.take(k)) <= steps_time(steps),
    decreases steps.len() - k,
{
    if k < steps.len() {
        lemma_steps_time_prefix(steps, k + 1);
        assert(steps.take(k + 1).drop_last() =~= steps.take(k));
    } else {
        assert(steps.take(k) =~= steps);
    }
}

/// Steps with a positive total time are not empty.
proof fn lemma_steps_nonempty(steps: Seq<ShaderStep>)
    ensures
        steps_time(steps) > 0 ==> steps.len() > 0,
{
}

} // verus!
