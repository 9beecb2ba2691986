//! Effects: how each hexagon unit moves through its shader over time. An
//! effect is a list of timed moves of a position between 0 and 100, and
//! an initializer that gives each unit its own time offset.
use vstd::prelude::*;
use crate::pixel_engine::context::Context;

verus! {

/// One move of the position: to `target` over `duration`; a held move
/// lasts the unit's offset longer.
#[derive(Copy, Clone, PartialEq, Eq, Structural, Debug)]
pub struct EffectNode {
    pub duration: u64,
    pub target: u32,
    pub hold: bool,
}

/// How an effect spreads its units in time.
#[derive(Copy, Clone, PartialEq, Eq, Structural, Debug)]
pub enum EffectInitializer {
    /// Units evenly spaced over the cycle.
    Distributed,
    /// Each unit at a random point of the cycle.
    Randomized,
    /// Units in random groups that share a point of the cycle.
    Grouped,
    /// Each unit at a random point of the first half of the cycle.
    Surprise,
}

/// The length of one effect cycle, in milliseconds.
pub const EFFECT_TIME: u64 = 4200;

/// An effect.
pub struct Effect {
    pub name: &'static str,
    pub initializer: Option<EffectInitializer>,
    pub nodes: Vec<EffectNode>,
    pub total_time: u64,
    pub disabled: bool,
    pub max_color_segments: Option<usize>,
    pub min_hex_units: Option<usize>,
    pub regs: [i32; 6],
}

/// The total duration of `nodes`.
pub open spec fn nodes_time(nodes: Seq<EffectNode>) -> nat
    decreases nodes.len(),
{
    if nodes.len() == 0 {
        0
    } else {
        nodes_time(nodes.drop_last()) + nodes.last().duration as nat
    }
}

/// How long move `n` lasts for a unit with offset `offset`.
pub open spec fn node_span(n: EffectNode, offset: u64) -> nat {
    if n.hold { (n.duration + offset) as nat } else { n.duration as nat }
}

/// Where a unit's position stands: it moves from `from` to `to`, is
/// `elapsed` into the move, which lasts `duration`.
#[derive(Copy, Clone, PartialEq, Eq, Structural, Debug)]
pub struct EffectSegment {
    pub from: u32,
    pub to: u32,
    pub elapsed: u64,
    pub duration: u64,
}

/// The move under way at time `t` of the cycle, looking from move `i` on,
/// where the moves before `i` took `elapsed` and ended at `from`. The
/// first move whose (offset-lengthened) span reaches past `t` is the one;
/// when none does, the last move, held at its target.
pub open spec fn effect_segment_from(nodes: Seq<EffectNode>, i: int, from: u32, elapsed: nat, offset: u64, t: nat) -> EffectSegment
    decreases nodes.len() - i,
{
    if i >= nodes.len() {
        EffectSegment { from: from, to: from, elapsed: 0, duration: 0 }
    } else if elapsed + node_span(nodes[i], offset) > t {
        EffectSegment {
            from: from,
            to: nodes[i].target,
            elapsed: (t - elapsed) as u64,
            duration: node_span(nodes[i], offset) as u64,
        }
    } else if i == nodes.len() - 1 {
        EffectSegment {
            from: nodes[i].target,
            to: nodes[i].target,
            elapsed: (t - (elapsed + nodes[i].duration)) as u64,
            duration: node_span(nodes[i], offset) as u64,
        }
    } else {
        effect_segment_from(nodes, i + 1, nodes[i].target, elapsed + nodes[i].duration as nat, offset, t)
    }
}

/// The context a unit gets from `initializer` with the random draws
/// `draws`, and the group register it leaves behind.
pub open spec fn initialized_offset(
    initializer: EffectInitializer,
    ctx: Context,
    group: i32,
    draws: (u64, u64),
) -> (u64, i32) {
    match initializer {
        EffectInitializer::Distributed => (
            (ctx.node_id * (EFFECT_TIME / ctx.total_nodes)) as u64,
            group,
        ),
        EffectInitializer::Randomized => ((draws.0 % EFFECT_TIME) as u64, group),
        EffectInitializer::Grouped => {
            let g = if ctx.node_id == 0 || draws.1 % 2 == 0 { draws.0 as i32 } else { group };
            (((g as u64) % EFFECT_TIME) as u64, g)
        },
        EffectInitializer::Surprise => ((draws.0 % EFFECT_TIME / 2) as u64, group),
    }
}

impl Effect {
    /// The effect's consistency condition: its total time is the duration
    /// of its moves.
    pub open spec fn well_formed(&self) -> bool {
        self.total_time == nodes_time(self.nodes@)
    }

    /// An enabled effect named `name` with no moves, no initializer and no
    /// limits.
    pub fn new(name: &'static str) -> (r: Self)
        ensures
            r.well_formed(),
            r.name == name,
            r.initializer is None,
            r.nodes@ == Seq::<EffectNode>::empty(),
            r.total_time == 0,
            !r.disabled,
            r.max_color_segments is None,
            r.min_hex_units is None,
            r.regs@ == Seq::new(6, |i: int| 0i32),
    {
        let r = Effect {
            name: name,
            initializer: None,
            nodes: Vec::new(),
            total_time: 0,
            max_color_segments: None,
            disabled: false,
            min_hex_units: None,
            regs: [0; 6],
        };
        assert(r.regs@ =~= Seq::new(6, |i: int| 0i32));
        r
    }

    /// The unchanged parts of an effect after a builder step.
    pub open spec fn same_moves(&self, other: &Effect) -> bool {
        &&& self.name == other.name
        &&& self.nodes@ == other.nodes@
        &&& self.total_time == other.total_time
        &&& self.regs == other.regs
    }

    pub fn with_min_hex_units(&mut self, min_hex_units: usize) -> (r: &mut Self)
        ensures
            *final(self) == *final(r),
            r.min_hex_units == Some(min_hex_units),
            r.same_moves(old(self)),
            r.initializer == old(self).initializer,
            r.disabled == old(self).disabled,
            r.max_color_segments == old(self).max_color_segments,
    {
        self.min_hex_units = Some(min_hex_units);
        self
    }

    pub fn with_max_color_segments(&mut self, max_color_segments: usize) -> (r: &mut Self)
        ensures
            *final(self) == *final(r),
            r.max_color_segments == Some(max_color_segments),
            r.same_moves(old(self)),
            r.initializer == old(self).initializer,
            r.disabled == old(self).disabled,
            r.min_hex_units == old(self).min_hex_units,
    {
        self.max_color_segments = Some(max_color_segments);
        self
    }

    pub fn as_disabled(&mut self) -> (r: &mut Self)
        ensures
            *final(self) == *final(r),
            r.disabled,
            r.same_moves(old(self)),
            r.initializer == old(self).initializer,
            r.max_color_segments == old(self).max_color_segments,
            r.min_hex_units == old(self).min_hex_units,
    {
        self.disabled = true;
        self
    }

    pub fn with_initializer(&mut self, initializer: EffectInitializer) -> (r: &mut Self)
        ensures
            *final(self) == *final(r),
            r.initializer == Some(initializer),
            r.same_moves(old(self)),
            r.disabled == old(self).disabled,
            r.max_color_segments == old(self).max_color_segments,
            r.min_hex_units == old(self).min_hex_units,
    {
        self.initializer = Some(initializer);
        self
    }

    fn add_node(&mut self, node: EffectNode)
        requires
            old(self).well_formed(),
            old(self).total_time + node.duration <= u64::MAX,
        ensures
            final(self).well_formed(),
            final(self).nodes@ == old(self).nodes@.push(node),
            final(self).total_time == old(self).total_time + node.duration,
            final(self).name == old(self).name,
            final(self).regs == old(self).regs,
            final(self).initializer == old(self).initializer,
            final(self).disabled == old(self).disabled,
            final(self).max_color_segments == old(self).max_color_segments,
            final(self).min_hex_units == old(self).min_hex_units,
    {
        self.nodes.push(node);
        self.total_time = self.total_time + node.duration;
        assert(self.nodes@.drop_last() =~= old(self).nodes@);
    }

    /// Adds a move to `target` over `duration`.
    pub fn transition_to(&mut self, target: u32, duration: u64) -> (r: &mut Self)
        requires
            old(self).well_formed(),
            old(self).total_time + duration <= u64::MAX,
        ensures
            *final(self) == *final(r),
            r.well_formed(),
            r.nodes@ == old(self).nodes@.push(EffectNode { duration: duration, target: target, hold: false }),
            r.total_time == old(self).total_time + duration,
            r.name == old(self).name,
            r.regs == old(self).regs,
            r.initializer == old(self).initializer,
            r.disabled == old(self).disabled,
            r.max_color_segments == old(self).max_color_segments,
            r.min_hex_units == old(self).min_hex_units,
    {
        self.add_node(EffectNode { duration: duration, target: target, hold: false });
        self
    }

    /// Adds a move to `target` over `duration`, held for each unit's
    /// offset longer.
    pub fn transition_to_and_hold(&mut self, target: u32, duration: u64) -> (r: &mut Self)
        requires
            old(self).well_formed(),
            old(self).total_time + duration <= u64::MAX,
        ensures
            *final(self) == *final(r),
            r.well_formed(),
            r.nodes@ == old(self).nodes@.push(EffectNode { duration: duration, target: target, hold: true }),
            r.total_time == old(self).total_time + duration,
            r.name == old(self).name,
            r.regs == old(self).regs,
            r.initializer == old(self).initializer,
            r.disabled == old(self).disabled,
            r.max_color_segments == old(self).max_color_segments,
            r.min_hex_units == old(self).min_hex_units,
    {
        self.add_node(EffectNode { duration: duration, target: target, hold: true });
        self
    }

    /// A copy of the effect.
    pub fn build(&self) -> (r: Self)
        ensures
            r.same_moves(self),
            r.initializer == self.initializer,
            r.disabled == self.disabled,
            r.max_color_segments == self.max_color_segments,
            r.min_hex_units == self.min_hex_units,
    {
        Effect {
            name: self.name,
            initializer: self.initializer,
            nodes: self.nodes.clone(),
            total_time: self.total_time,
            disabled: self.disabled,
            max_color_segments: self.max_color_segments,
            min_hex_units: self.min_hex_units,
            regs: self.regs,
        }
    }

    /// Runs the initializer on `ctx` with the random draws `draws`.
    pub fn initialize(&mut self, ctx: &Context, draws: (u64, u64)) -> (r: Context)
        requires
            old(self).initializer == Some(EffectInitializer::Distributed) ==> ctx.total_nodes > 0
                && ctx.node_id * (EFFECT_TIME / ctx.total_nodes) <= u64::MAX,
        ensures
            r.node_id == ctx.node_id,
            r.total_nodes == ctx.total_nodes,
            r.temperature == ctx.temperature,
            r.registers == ctx.registers,
            r.initialized == ctx.initialized,
            old(self).initializer is None ==> r.offset == ctx.offset && final(self).regs
                == old(self).regs,
            old(self).initializer matches Some(init) ==> ({
                let (offset, group) = initialized_offset(init, *ctx, old(self).regs[1], draws);
                &&& r.offset == offset
                &&& final(self).regs@ == old(self).regs@.update(1, group)
            }),
            final(self).same_moves_but_regs(old(self)),
    {
        let mut next = *ctx;
        match self.initializer {
            None => {},
            Some(EffectInitializer::Distributed) => {
                let step = EFFECT_TIME / ctx.total_nodes;
                next.offset = ctx.node_id * step;
            },
            Some(EffectInitializer::Randomized) => {
                next.offset = draws.0 % EFFECT_TIME;
            },
            Some(EffectInitializer::Grouped) => {
                if ctx.node_id == 0 || draws.1 % 2 == 0 {
                    self.regs[1] = draws.0 as i32;
                }
                next.offset = (self.regs[1] as u64) % EFFECT_TIME;
            },
            Some(EffectInitializer::Surprise) => {
                next.offset = draws.0 % EFFECT_TIME / 2;
            },
        }
        proof {
            if !(old(self).initializer == Some(EffectInitializer::Grouped)) {
                assert(self.regs@ =~= old(self).regs@.update(1, old(self).regs[1]));
            } else {
                assert(self.regs@ =~= old(self).regs@.update(1, self.regs[1]));
            }
        }
        next
    }

    /// Everything but the registers is unchanged.
    pub open spec fn same_moves_but_regs(&self, other: &Effect) -> bool {
        &&& self.name == other.name
        &&& self.nodes@ == other.nodes@
        &&& self.total_time == other.total_time
        &&& self.initializer == other.initializer
        &&& self.disabled == other.disabled
        &&& self.max_color_segments == other.max_color_segments
        &&& self.min_hex_units == other.min_hex_units
    }

    /// The move under way for a unit with offset `offset` at `current_time`:
    /// the time is shifted by the offset and taken modulo the cycle.
    pub fn segment_at(&self, offset: u64, current_time: u64) -> (s: EffectSegment)
        requires
            self.well_formed(),
            self.total_time > 0,
            offset + current_time <= u64::MAX,
            offset + self.total_time <= u64::MAX,
        ensures
            s == effect_segment_from(self.nodes@, 0, 0, 0, offset, ((offset + current_time) % (self.total_time as int)) as nat),
            forall|k: int| #[trigger] move_under_way(self.nodes@, k, offset,
                ((offset + current_time) % (self.total_time as int)) as nat) ==> {
                &&& s.from == if k == 0 { 0 } else { self.nodes@[k - 1].target }
                &&& s.to == self.nodes@[k].target
                &&& s.elapsed == (offset + current_time) % (self.total_time as int) - moves_before(self.nodes@, k)
                &&& s.duration == node_span(self.nodes@[k], offset)
            },
            (forall|j: int| 0 <= j < self.nodes@.len() ==> #[trigger] move_over(self.nodes@, j, offset,
                ((offset + current_time) % (self.total_time as int)) as nat))
                ==> s.from == self.nodes@.last().target && s.to == self.nodes@.last().target,
    {
        let normalized = (offset + current_time) % self.total_time;
        let mut start_time: u32 = 0;
        let mut elapsed: u64 = 0;
        let mut idx: usize = 0;
        loop
            invariant
                self.well_formed(),
                0 < self.nodes@.len(),
                idx < self.nodes@.len(),
                normalized < self.total_time,
                offset + self.total_time <= u64::MAX,
                elapsed == nodes_time(self.nodes@.take(idx as int)),
                elapsed <= normalized,
                effect_segment_from(self.nodes@, 0, 0, 0, offset, normalized as nat) == effect_segment_from(
                    self.nodes@,
                    idx as int,
                    start_time,
                    elapsed as nat,
                    offset,
                    normalized as nat,
                ),
            ensures
                0 < self.nodes@.len(),
                idx < self.nodes@.len(),
                elapsed <= normalized,
                elapsed == nodes_time(self.nodes@.take(idx as int)),
                offset + self.total_time <= u64::MAX,
                elapsed + node_span(self.nodes@[idx as int], offset) > normalized || idx == self.nodes@.len() - 1,
                effect_segment_from(self.nodes@, 0, 0, 0, offset, normalized as nat) == effect_segment_from(
                    self.nodes@,
                    idx as int,
                    start_time,
                    elapsed as nat,
                    offset,
                    normalized as nat,
                ),
            decreases self.nodes@.len() - idx,
        {
            proof {
                lemma_nodes_time_prefix(self.nodes@, idx + 1);
                assert(self.nodes@.take(self.nodes@.len() as int) =~= self.nodes@);
                assert(self.nodes@.take(idx + 1).drop_last() =~= self.nodes@.take(idx as int));
            }
            let node = self.nodes[idx];
            let span = if node.hold { node.duration + offset } else { node.duration };
            if elapsed + span > normalized || idx >= self.nodes.len() - 1 {
                break;
            }
            elapsed = elapsed + node.duration;
            start_time = node.target;
            idx = idx + 1;
        }
        proof {
            lemma_nodes_time_prefix(self.nodes@, idx + 1);
            assert(self.nodes@.take(self.nodes@.len() as int) =~= self.nodes@);
            assert(self.nodes@.take(idx + 1).drop_last() =~= self.nodes@.take(idx as int));
        }
        let node = self.nodes[idx];
        let span = if node.hold { node.duration + offset } else { node.duration };
        let s = if elapsed + span > normalized {
            EffectSegment { from: start_time, to: node.target, elapsed: normalized - elapsed, duration: span }
        } else {
            EffectSegment {
                from: node.target,
                to: node.target,
                elapsed: normalized - (elapsed + node.duration),
                duration: span,
            }
        };
        assert(effect_segment_from(self.nodes@, idx as int, start_time, elapsed as nat, offset, normalized as nat) == s);
        proof {
            let t = ((offset + current_time) % (self.total_time as int)) as nat;
            assert(t == normalized as nat);
            if forall|j: int| 0 <= j < self.nodes@.len() ==> #[trigger] move_over(self.nodes@, j, offset, t) {
                lemma_effect_all_moves_over(self.nodes@, offset, normalized as nat);
            }
        }
        assert forall|k: int| #[trigger] move_under_way(self.nodes@, k, offset, normalized as nat) implies {
            &&& s.from == if k == 0 { 0 } else { self.nodes@[k - 1].target }
            &&& s.to == self.nodes@[k].target
            &&& s.elapsed == normalized - moves_before(self.nodes@, k)
            &&& s.duration == node_span(self.nodes@[k], offset)
        } by {
            lemma_effect_move_under_way(self.nodes@, offset, normalized as nat, k);
            lemma_moves_before_next(self.nodes@, k);
            lemma_nodes_time_prefix(self.nodes@, k + 1);
            if k > 0 {
                assert(move_over(self.nodes@, k - 1, offset, normalized as nat));
                lemma_moves_before_next(self.nodes@, k - 1);
            } else {
                assert(self.nodes@.take(0) =~= Seq::<EffectNode>::empty());
            }
        }
        s
    }

    /// One step of the effect for a unit: a unit not yet initialized runs
    /// the initializer with `draws` and is marked initialized; then the
    /// move under way at `current_time` is found.
    pub fn process(&mut self, ctx: &Context, current_time: u64, draws: (u64, u64)) -> (r: (EffectSegment, Context))
        requires
            old(self).well_formed(),
            old(self).total_time > 0,
            !ctx.initialized && old(self).initializer == Some(EffectInitializer::Distributed) ==> ctx.total_nodes > 0
                && ctx.node_id * (EFFECT_TIME / ctx.total_nodes) <= u64::MAX,
            ({
                let offset = if !ctx.initialized && old(self).initializer is Some {
                    initialized_offset(old(self).initializer->0, *ctx, old(self).regs[1], draws).0
                } else {
                    ctx.offset
                };
                offset + current_time <= u64::MAX && offset + old(self).total_time <= u64::MAX
            }),
        ensures
            r.1.initialized,
            r.1.node_id == ctx.node_id,
            r.1.total_nodes == ctx.total_nodes,
            r.1.registers == ctx.registers,
            r.1.offset == if !ctx.initialized && old(self).initializer is Some {
                initialized_offset(old(self).initializer->0, *ctx, old(self).regs[1], draws).0
            } else {
                ctx.offset
            },
            r.0 == effect_segment_from(
                old(self).nodes@,
                0,
                0,
                0,
                r.1.offset,
                ((r.1.offset + current_time) % (old(self).total_time as int)) as nat,
            ),
            final(self).same_moves_but_regs(old(self)),
            final(self).regs@ == if !ctx.initialized && old(self).initializer is Some {
                old(self).regs@.update(1, initialized_offset(old(self).initializer->0, *ctx, old(self).regs[1], draws).1)
            } else {
                old(self).regs@
            },
    {
        let mut next = *ctx;
        if !ctx.initialized {
            next = self.initialize(ctx, draws);
            next.initialized = true;
        }
        let s = self.segment_at(next.offset, current_time);
        (s, next)
    }
}

/// The duration of the first `k` moves.
pub open spec fn moves_before(nodes: Seq<EffectNode>, k: int) -> nat {
    nodes_time(nodes.take(k))
}

/// Move `j` has ended by time `t` of the cycle for a unit with offset
/// `offset`.
pub open spec fn move_over(nodes: Seq<EffectNode>, j: int, offset: u64, t: nat) -> bool {
    moves_before(nodes, j) + node_span(nodes[j], offset) <= t
}

/// Move `k` is under way at time `t`: every move before it has ended and
/// it has not.
pub open spec fn move_under_way(nodes: Seq<EffectNode>, k: int, offset: u64, t: nat) -> bool {
    &&& 0 <= k < nodes.len()
    &&& forall|j: int| 0 <= j < k ==> #[trigger] move_over(nodes, j, offset, t)
    &&& !move_over(nodes, k, offset, t)
}

/// The duration of `k + 1` moves is that of `k` moves and then move `k`.
proof fn lemma_moves_before_next(nodes: Seq<EffectNode>, k: int)
    requires
        0 <= k < nodes.len(),
    ensures
        moves_before(nodes, k + 1) == moves_before(nodes, k) + nodes[k].duration,
{
    assert(nodes.take(k + 1).drop_last() =~= nodes.take(k));
}

proof fn lemma_effect_walk(nodes: Seq<EffectNode>, i: int, from: u32, offset: u64, t: nat, k: int)
    requires
        0 <= i <= k,
        move_under_way(nodes, k, offset, t),
    ensures
        effect_segment_from(nodes, i, from, moves_before(nodes, i), offset, t) == (EffectSegment {
            from: if k == i { from } else { nodes[k - 1].target },
            to: nodes[k].target,
            elapsed: (t - moves_before(nodes, k)) as u64,
            duration: node_span(nodes[k], offset) as u64,
        }),
    decreases k - i,
{
    if i < k {
        assert(move_over(nodes, i, offset, t));
        lemma_moves_before_next(nodes, i);
        lemma_effect_walk(nodes, i + 1, nodes[i].target, offset, t, k);
    }
}

/// Where a unit stands in its effect, read off the moves: while move `k`
/// is under way it goes from where the previous move ended (0 for the
/// first move) to move `k`'s target, and is as far into it as `t` is past
/// the moves before it.
pub proof fn lemma_effect_move_under_way(nodes: Seq<EffectNode>, offset: u64, t: nat, k: int)
    requires
        move_under_way(nodes, k, offset, t),
    ensures
        effect_segment_from(nodes, 0, 0, 0, offset, t) == (EffectSegment {
            from: if k == 0 { 0 } else { nodes[k - 1].target },
            to: nodes[k].target,
            elapsed: (t - moves_before(nodes, k)) as u64,
            duration: node_span(nodes[k], offset) as u64,
        }),
{
    assert(nodes.take(0) =~= Seq::<EffectNode>::empty());
    lemma_effect_walk(nodes, 0, 0, offset, t, k);
}

proof fn lemma_effect_walk_past(nodes: Seq<EffectNode>, i: int, from: u32, offset: u64, t: nat)
    requires
        0 <= i < nodes.len(),
        forall|j: int| 0 <= j < nodes.len() ==> #[trigger] move_over(nodes, j, offset, t),
    ensures
        effect_segment_from(nodes, i, from, moves_before(nodes, i), offset, t) == (EffectSegment {
            from: nodes.last().target,
            to: nodes.last().target,
            elapsed: (t - moves_before(nodes, nodes.len() as int)) as u64,
            duration: node_span(nodes.last(), offset) as u64,
        }),
    decreases nodes.len() - i,
{
    assert(move_over(nodes, i, offset, t));
    lemma_moves_before_next(nodes, i);
    if i < nodes.len() - 1 {
        lemma_effect_walk_past(nodes, i + 1, nodes[i].target, offset, t);
    }
}

/// Once every move has ended, a unit rests at the last move's target.
pub proof fn lemma_effect_all_moves_over(nodes: Seq<EffectNode>, offset: u64, t: nat)
    requires
        nodes.len() > 0,
        forall|j: int| 0 <= j < nodes.len() ==> #[trigger] move_over(nodes, j, offset, t),
    ensures
        effect_segment_from(nodes, 0, 0, 0, offset, t) == (EffectSegment {
            from: nodes.last().target,
            to: nodes.last().target,
            elapsed: (t - nodes_time(nodes)) as u64,
            duration: node_span(nodes.last(), offset) as u64,
        }),
{
    assert(nodes.take(0) =~= Seq::<EffectNode>::empty());
    assert(nodes.take(nodes.len() as int) =~= nodes);
    lemma_effect_walk_past(nodes, 0, 0, offset, t);
}

/// Every initializer puts a unit somewhere in the cycle (for even
/// spacing, when the unit is one of the `total_nodes`); a surprise start
/// lies in the first half of the cycle.
pub proof fn lemma_offset_in_cycle(init: EffectInitializer, ctx: Context, group: i32, draws: (u64, u64))
    requires
        init == EffectInitializer::Distributed ==> ctx.node_id < ctx.total_nodes,
    ensures
        initialized_offset(init, ctx, group, draws).0 < EFFECT_TIME,
        init == EffectInitializer::Surprise ==> initialized_offset(init, ctx, group, draws).0 < EFFECT_TIME / 2,
{
    if init == EffectInitializer::Distributed {
        let q = EFFECT_TIME / ctx.total_nodes;
        assert(ctx.total_nodes * q <= EFFECT_TIME) by (nonlinear_arith)
            requires
                ctx.total_nodes > 0,
                q == EFFECT_TIME / ctx.total_nodes,
        ;
        assert(ctx.node_id * q < EFFECT_TIME) by (nonlinear_arith)
            requires
                ctx.node_id < ctx.total_nodes,
                ctx.total_nodes * q <= EFFECT_TIME,
                0 <= q,
        ;
    }
}

/// Evenly spread units: the first starts the cycle, and each next unit
/// starts the cycle's share of one unit later than the one before.
pub proof fn lemma_distributed_spacing(ctx: Context, next: Context, group: i32, draws: (u64, u64))
    requires
        ctx.total_nodes > 0,
        next.total_nodes == ctx.total_nodes,
        next.node_id == ctx.node_id + 1,
        next.node_id * (EFFECT_TIME / next.total_nodes) <= u64::MAX,
    ensures
        ctx.node_id == 0 ==> initialized_offset(EffectInitializer::Distributed, ctx, group, draws).0 == 0,
        initialized_offset(EffectInitializer::Distributed, next, group, draws).0 == initialized_offset(
            EffectInitializer::Distributed,
            ctx,
            group,
            draws,
        ).0 + EFFECT_TIME / ctx.total_nodes,
{
    let q = EFFECT_TIME / ctx.total_nodes;
    assert(next.node_id * q == ctx.node_id * q + q && 0 <= ctx.node_id * q) by (nonlinear_arith)
        requires
            next.node_id == ctx.node_id + 1,
            0 <= q,
            0 <= ctx.node_id,
    ;
    if ctx.node_id == 0 {
        assert(ctx.node_id * q == 0) by (nonlinear_arith)
            requires
                ctx.node_id == 0,
        ;
    }
}

/// Grouped units: the first unit always starts a group, and a unit that
/// does not start one (its coin comes up odd) joins the group of the unit
/// before it, at the same point of the cycle.
pub proof fn lemma_grouped_units(
    first: Context,
    second: Context,
    group: i32,
    first_draws: (u64, u64),
    second_draws: (u64, u64),
)
    requires
        second.node_id != 0,
        second_draws.1 % 2 == 1,
    ensures
        first.node_id == 0 ==> initialized_offset(EffectInitializer::Grouped, first, group, first_draws).1
            == first_draws.0 as i32,
        ({
            let a = initialized_offset(EffectInitializer::Grouped, first, group, first_draws);
            let b = initialized_offset(EffectInitializer::Grouped, second, a.1, second_draws);
            b.0 == a.0 && b.1 == a.1
        }),
{
}

/// The duration of a prefix of the moves is at most that of them all.
proof fn lemma_nodes_time_prefix(nodes: Seq<EffectNode>, k: int)
    requires
        0 <= k <= nodes.len(),
    ensures
        nodes_time(nodes.take(k)) <= nodes_time(nodes),
    decreases nodes.len() - k,
{
    if k < nodes.len() {
        lemma_nodes_time_prefix(nodes, k + 1);
        assert(nodes.take(k + 1).drop_last() =~= nodes.take(k));
    } else {
        assert(nodes.take(k) =~= nodes);
    }
}

} // verus!
