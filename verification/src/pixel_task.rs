//! The pixel task: shows the current colour animation through the current
//! effect on the hexagon units, moves to another animation from time to
//! time, and blends each unit from its last colour into the new animation.
//! The colour arithmetic, done in floating point, and the random draws
//! are the caller's; the task decides what is drawn when.
use vstd::prelude::*;
use vstd::string::StringSliceAdditionalSpecFns;
use crate::date_time::{DateTime, MS_TO_NANO, S_TO_NANO};
use crate::drivers::ws2812::{Node, WS2812Driver, node_of_word};
use crate::effects::{effect_catalogue, initialize_effects};
use crate::pixel_engine::color::{Color, hex_word};
use crate::pixel_engine::context::Context;
use crate::pixel_engine::effect::{Effect, EffectSegment, EFFECT_TIME, effect_segment_from, initialized_offset};
use crate::pixel_engine::shader::Shader;
use crate::shaders::{initialize_shaders, shader_catalogue};
use crate::strings::{bytes_contain, contains_bytes};

verus! {

/// The number of hexagon units.
pub const HEX_UNITS: usize = 4;
/// The LEDs in each unit.
pub const LEDS_PER_UNIT: usize = 3;
/// The LEDs on the strip.
pub const LEDS: usize = 12;
/// How long a blend into a new animation lasts, in milliseconds.
pub const TRANSITION_TIME: u64 = 1000;
/// Whether the animation is chosen from the downloaded schedule.
pub const USE_WIFI: bool = false;
/// How long after start-up the day is first checked, in nanoseconds.
pub const DAY_CHECK_DELAY: u64 = 1_800_000_000_000;
/// The longest effect the task runs, in milliseconds.
pub const MAX_EFFECT_TIME: u64 = 1_000_000;
/// The data pin of the LED strip.
pub const LED_PIN: usize = 18;

/// Where the task stands.
#[derive(Copy, Clone, PartialEq, Eq, Structural, Debug)]
pub enum PixelState {
    Loading,
    Transitioning,
    MainSequence,
}

/// What the caller draws in a frame.
#[derive(Copy, Clone, PartialEq, Eq, Structural, Debug)]
pub enum Frame {
    /// Nothing: the frame is not due.
    Idle,
    /// The blend has ended and the new animation is now current; nothing
    /// is drawn this frame.
    Arrived,
    /// Each unit blends from its remembered colour into the next
    /// animation, `elapsed` milliseconds into the blend.
    Blend { elapsed: u64 },
    /// Each unit shows the current animation, `elapsed` milliseconds on.
    Show { elapsed: u64 },
}

/// What the task wants once a frame has been drawn.
#[derive(Copy, Clone, PartialEq, Eq, Structural, Debug)]
pub enum FrameEnd {
    Nothing,
    /// Move to another animation.
    Randomize,
    /// Read the date and hand it to `check_day`.
    CheckDay,
}

/// Whether `a` and `b` hold the same bytes.
fn same_bytes(a: &[u8], b: &[u8]) -> (r: bool)
    ensures
        r == (a@ == b@),
{
    if a.len() != b.len() {
        return false;
    }
    let mut k: usize = 0;
    while k < a.len()
        invariant
            a@.len() == b@.len(),
            k <= a@.len(),
            forall|t: int| 0 <= t < k ==> a@[t] == b@[t],
        decreases a@.len() - k,
    {
        if a[k] != b[k] {
            return false;
        }
        k = k + 1;
    }
    assert(a@ =~= b@);
    true
}

/// An animation the task can show: consistent, with a positive total time.
pub open spec fn shader_ok(s: Shader) -> bool {
    s.well_formed() && s.total_time > 0
}

/// An effect the task can run: consistent, with a positive total time no
/// longer than `MAX_EFFECT_TIME`.
pub open spec fn effect_ok(e: Effect) -> bool {
    e.well_formed() && 0 < e.total_time <= MAX_EFFECT_TIME
}

/// `a` is a copy of the animation `b`.
pub open spec fn same_shader(a: Shader, b: Shader) -> bool {
    &&& a.name == b.name
    &&& a.sealed == b.sealed
    &&& a.color == b.color
    &&& a.steps@ == b.steps@
    &&& a.total_time == b.total_time
    &&& a.disabled == b.disabled
    &&& a.wifi_only == b.wifi_only
    &&& a.segment_count == b.segment_count
}

/// `a` is a copy of the effect `b`.
pub open spec fn same_effect(a: Effect, b: Effect) -> bool {
    &&& a.same_moves(&b)
    &&& a.initializer == b.initializer
    &&& a.disabled == b.disabled
    &&& a.max_color_segments == b.max_color_segments
    &&& a.min_hex_units == b.min_hex_units
}

/// A copy of `s`.
fn copy_shader(s: &Shader) -> (r: Shader)
    ensures
        same_shader(r, *s),
{
    Shader {
        name: s.name,
        sealed: s.sealed,
        color: s.color,
        steps: s.steps.clone(),
        total_time: s.total_time,
        disabled: s.disabled,
        wifi_only: s.wifi_only,
        segment_count: s.segment_count,
    }
}

/// The first animation, from `from` on, whose name occurs in `name`.
pub open spec fn first_named(shaders: Seq<Shader>, name: Seq<u8>, from: int) -> Option<int>
    decreases shaders.len() - from,
{
    if from < 0 || from >= shaders.len() {
        None
    } else if bytes_contain(name, shaders[from].name.spec_bytes()) {
        Some(from)
    } else {
        first_named(shaders, name, from + 1)
    }
}

/// What `first_named` finds is an animation, at or after `from`, whose
/// name occurs in `name`.
proof fn lemma_first_named_found(shaders: Seq<Shader>, name: Seq<u8>, from: int)
    ensures
        first_named(shaders, name, from) matches Some(i) ==> 0 <= from <= i < shaders.len()
            && bytes_contain(name, shaders[i].name.spec_bytes()),
    decreases shaders.len() - from,
{
    if 0 <= from < shaders.len() && !bytes_contain(name, shaders[from].name.spec_bytes()) {
        lemma_first_named_found(shaders, name, from + 1);
    }
}

/// The first effect, from `from` on, named `name`.
pub open spec fn first_effect_named(effects: Seq<Effect>, name: Seq<u8>, from: int) -> Option<int>
    decreases effects.len() - from,
{
    if from < 0 || from >= effects.len() {
        None
    } else if effects[from].name.spec_bytes() == name {
        Some(from)
    } else {
        first_effect_named(effects, name, from + 1)
    }
}

/// The least number of units an effect asks for.
pub open spec fn min_units(e: Effect) -> usize {
    match e.min_hex_units {
        Some(n) => n,
        None => 0,
    }
}

/// Whether the task may run effect `e`: it is enabled and the units are
/// enough for it.
pub open spec fn effect_eligible(e: Effect) -> bool {
    !e.disabled && min_units(e) <= HEX_UNITS
}

/// The LEDs after unit `node_id` is set to the word `word`: its three
/// LEDs take the colour, the others keep theirs.
pub open spec fn unit_lit(leds: Seq<Node>, node_id: int, word: u32) -> Seq<Node> {
    Seq::new(
        leds.len(),
        |i: int|
            if node_id * 3 <= i < node_id * 3 + 3 {
                node_of_word(word)
            } else {
                leds[i]
            },
    )
}

/// The pixel task.
pub struct PixelTask {
    pub state: PixelState,
    pub shader: Option<Shader>,
    pub next_shader: Option<Shader>,
    pub shaders: Vec<Shader>,
    pub contexts: [Context; HEX_UNITS],
    pub effect: Option<Effect>,
    pub effects: Vec<Effect>,
    pub driver: WS2812Driver<LEDS>,
    pub target: u64,
    pub day_target: u64,
    /// The day on which the animation was last changed.
    pub day_processed: u64,
    pub randomize_target: u64,
    pub ready: bool,
    pub color_buffer: [Color; HEX_UNITS],
    pub transition_start: u64,
    pub transition_offset: u64,
}

impl PixelTask {
    /// The task's consistency condition: the animations and effects can
    /// all be run, the units' offsets lie inside an effect's time, and the
    /// time base is the start of the last blend, or zero during one.
    pub open spec fn well_formed(&self) -> bool {
        &&& self.shaders@.len() > 0
        &&& forall|i: int| 0 <= i < self.shaders@.len() ==> shader_ok(#[trigger] self.shaders@[i])
        &&& self.effects@.len() > 0
        &&& forall|i: int| 0 <= i < self.effects@.len() ==> effect_ok(#[trigger] self.effects@[i])
        &&& (self.shader matches Some(s) ==> shader_ok(s))
        &&& (self.next_shader matches Some(s) ==> shader_ok(s))
        &&& (self.effect matches Some(e) ==> effect_ok(e))
        &&& forall|i: int| 0 <= i < HEX_UNITS ==> (#[trigger] self.contexts@[i]).offset < EFFECT_TIME
        &&& self.transition_offset == 0 || self.transition_offset == self.transition_start
        &&& self.state == PixelState::Transitioning ==> self.transition_offset == 0
    }

    /// Each unit's context knows its number and the number of units.
    pub open spec fn contexts_ok(&self) -> bool {
        forall|i: int|
            0 <= i < HEX_UNITS ==> (#[trigger] self.contexts@[i]).node_id == i && self.contexts@[i].total_nodes
                == HEX_UNITS
    }

    /// A task that is loading, with the catalogues of animations and
    /// effects, none chosen yet, and a dark strip.
    pub fn new() -> (r: PixelTask)
        ensures
            r.well_formed(),
            r.state == PixelState::Loading,
            r.shader is None,
            r.next_shader is None,
            shader_catalogue(r.shaders@),
            r.effect is None,
            effect_catalogue(r.effects@),
            r.driver.pin == LED_PIN,
            r.driver.iteration == 0,
            r.driver.nodes@ == Seq::new(LEDS as nat, |i: int| Node { green: 0, red: 0, blue: 0 }),
            forall|i: int|
                0 <= i < HEX_UNITS ==> !(#[trigger] r.contexts@[i]).initialized && r.contexts@[i].node_id == 0
                    && r.contexts@[i].total_nodes == 0 && r.contexts@[i].offset == 0,
            r.color_buffer@ == Seq::new(HEX_UNITS as nat, |i: int| Color { r: 255, g: 255, b: 255 }),
            r.target == 0,
            r.day_target == 0,
            r.day_processed == 0,
            r.randomize_target == 0,
            !r.ready,
            r.transition_start == 0,
            r.transition_offset == 0,
    {
        let shaders = initialize_shaders();
        let effects = initialize_effects();
        let r = PixelTask {
            state: PixelState::Loading,
            shader: None,
            next_shader: None,
            shaders: shaders,
            contexts: [Context::empty(); HEX_UNITS],
            effect: None,
            effects: effects,
            driver: WS2812Driver::<LEDS>::new(LED_PIN),
            target: 0,
            day_target: 0,
            day_processed: 0,
            randomize_target: 0,
            ready: false,
            color_buffer: [Color::blank(); HEX_UNITS],
            transition_start: 0,
            transition_offset: 0,
        };
        assert(r.color_buffer@ =~= Seq::new(HEX_UNITS as nat, |i: int| Color { r: 255, g: 255, b: 255 }));
        r
    }

    /// The first effect named `name`, copied.
    #[allow(dead_code)]
    fn find_effect(&self, name: &str) -> (r: Option<Effect>)
        ensures
            match first_effect_named(self.effects@, name.spec_bytes(), 0) {
                Some(i) => r matches Some(e) && same_effect(e, self.effects@[i]),
                None => r is None,
            },
    {
        let wanted = name.as_bytes();
        let mut i: usize = 0;
        while i < self.effects.len()
            invariant
                i <= self.effects@.len(),
                wanted@ == name.spec_bytes(),
                first_effect_named(self.effects@, name.spec_bytes(), 0) == first_effect_named(
                    self.effects@,
                    name.spec_bytes(),
                    i as int,
                ),
            decreases self.effects@.len() - i,
        {
            if same_bytes(self.effects[i].name.as_bytes(), wanted) {
                return Some(self.effects[i].build());
            }
            i = i + 1;
        }
        None
    }

    /// The first animation whose name occurs in `name`, copied.
    pub fn find_shader(&self, name: &[u8]) -> (r: Option<Shader>)
        ensures
            match first_named(self.shaders@, name@, 0) {
                Some(i) => r matches Some(s) && same_shader(s, self.shaders@[i]),
                None => r is None,
            },
    {
        let mut i: usize = 0;
        while i < self.shaders.len()
            invariant
                i <= self.shaders@.len(),
                first_named(self.shaders@, name@, 0) == first_named(self.shaders@, name@, i as int),
            decreases self.shaders@.len() - i,
        {
            if contains_bytes(name, self.shaders[i].name.as_bytes()) {
                return Some(copy_shader(&self.shaders[i]));
            }
            i = i + 1;
        }
        None
    }

    /// The animation to move to. With the schedule in use, the one the
    /// schedule names (`scheduled`), or the first when none matches;
    /// otherwise the one `draw` picks, or `None` when that one is shown
    /// only with the network up, and another draw is needed.
    pub fn get_next_shader(&self, draw: u64, scheduled: &[u8]) -> (r: Option<Shader>)
        requires
            self.well_formed(),
        ensures
            USE_WIFI ==> match first_named(self.shaders@, scheduled@, 0) {
                Some(i) => r matches Some(s) && same_shader(s, self.shaders@[i]),
                None => r matches Some(s) && same_shader(s, self.shaders@[0]),
            },
            !USE_WIFI ==> ({
                let pick = self.shaders@[(draw % (self.shaders@.len() as u64)) as int];
                if pick.wifi_only {
                    r is None
                } else {
                    r matches Some(s) && same_shader(s, pick)
                }
            }),
    {
        if USE_WIFI {
            match self.find_shader(scheduled) {
                None => Some(copy_shader(&self.shaders[0])),
                Some(shader) => {
                    proof {
                        lemma_first_named_found(self.shaders@, scheduled@, 0);
                    }
                    Some(shader)
                },
            }
        } else {
            let idx = draw % (self.shaders.len() as u64);
            let next = &self.shaders[idx as usize];
            if next.wifi_only {
                None
            } else {
                Some(copy_shader(next))
            }
        }
    }

    /// The effect `draw` picks, copied, or `None` when that one is
    /// disabled or needs more units than there are, and another draw is
    /// needed.
    pub fn get_next_effect(&self, draw: u64) -> (r: Option<Effect>)
        requires
            self.well_formed(),
        ensures
            ({
                let pick = self.effects@[(draw % (self.effects@.len() as u64)) as int];
                if effect_eligible(pick) {
                    r matches Some(e) && same_effect(e, pick)
                } else {
                    r is None
                }
            }),
    {
        let idx = draw % (self.effects.len() as u64);
        let next = &self.effects[idx as usize];
        let min = match next.min_hex_units {
            Some(n) => n,
            None => 0,
        };
        if next.disabled || min > HEX_UNITS {
            None
        } else {
            Some(next.build())
        }
    }

    /// Starts the task at `now` with the effect `effect`: each unit learns
    /// its number and that it is not set up, the day is first checked
    /// after `DAY_CHECK_DELAY`, and the Medbay animation is shown.
    pub fn init(&mut self, now: u64, effect: Effect)
        requires
            old(self).well_formed(),
            effect_ok(effect),
            now + DAY_CHECK_DELAY <= u64::MAX,
        ensures
            final(self).well_formed(),
            final(self).contexts_ok(),
            forall|i: int|
                0 <= i < HEX_UNITS ==> !(#[trigger] final(self).contexts@[i]).initialized
                    && final(self).contexts@[i].offset == old(self).contexts@[i].offset
                    && final(self).contexts@[i].registers == old(self).contexts@[i].registers
                    && final(self).contexts@[i].temperature == old(self).contexts@[i].temperature,
            final(self).day_target == now + DAY_CHECK_DELAY,
            final(self).effect == Some(effect),
            match first_named(old(self).shaders@, "Medbay".spec_bytes(), 0) {
                Some(i) => final(self).shader matches Some(s) && same_shader(s, old(self).shaders@[i]),
                None => final(self).shader is None,
            },
            final(self).state == old(self).state,
            final(self).next_shader == old(self).next_shader,
            final(self).shaders == old(self).shaders,
            final(self).effects == old(self).effects,
            final(self).driver == old(self).driver,
            final(self).target == old(self).target,
            final(self).day_processed == old(self).day_processed,
            final(self).randomize_target == old(self).randomize_target,
            final(self).ready == old(self).ready,
            final(self).color_buffer == old(self).color_buffer,
            final(self).transition_start == old(self).transition_start,
            final(self).transition_offset == old(self).transition_offset,
    {
        let mut node_id: usize = 0;
        while node_id < HEX_UNITS
            invariant
                node_id <= HEX_UNITS,
                self.contexts@.len() == HEX_UNITS,
                forall|i: int|
                    0 <= i < node_id ==> (#[trigger] self.contexts@[i]).node_id == i
                        && self.contexts@[i].total_nodes == HEX_UNITS && !self.contexts@[i].initialized
                        && self.contexts@[i].offset == old(self).contexts@[i].offset
                        && self.contexts@[i].registers == old(self).contexts@[i].registers
                        && self.contexts@[i].temperature == old(self).contexts@[i].temperature,
                forall|i: int| node_id <= i < HEX_UNITS ==> #[trigger] self.contexts@[i] == old(self).contexts@[i],
                self.state == old(self).state,
                self.shader == old(self).shader,
                self.next_shader == old(self).next_shader,
                self.shaders == old(self).shaders,
                self.effect == old(self).effect,
                self.effects == old(self).effects,
                self.driver == old(self).driver,
                self.target == old(self).target,
                self.day_target == old(self).day_target,
                self.day_processed == old(self).day_processed,
                self.randomize_target == old(self).randomize_target,
                self.ready == old(self).ready,
                self.color_buffer == old(self).color_buffer,
                self.transition_start == old(self).transition_start,
                self.transition_offset == old(self).transition_offset,
            decreases HEX_UNITS - node_id,
        {
            let mut ctx = self.contexts[node_id];
            ctx.node_id = node_id as u64;
            ctx.total_nodes = HEX_UNITS as u64;
            ctx.initialized = false;
            self.contexts[node_id] = ctx;
            node_id = node_id + 1;
        }
        self.day_target = now + DAY_CHECK_DELAY;
        self.effect = Some(effect);
        self.shader = self.find_shader("Medbay".as_bytes());
        proof {
            lemma_first_named_found(self.shaders@, "Medbay".spec_bytes(), 0);
        }
    }

    /// Starts blending at `now` into `next_shader`, through the effect
    /// `effect`: each unit is set up again, and the time base is reset.
    pub fn transition_to(&mut self, next_shader: Shader, effect: Effect, now: u64)
        requires
            old(self).well_formed(),
            shader_ok(next_shader),
            effect_ok(effect),
        ensures
            final(self).well_formed(),
            old(self).contexts_ok() ==> final(self).contexts_ok(),
            forall|i: int|
                0 <= i < HEX_UNITS ==> !(#[trigger] final(self).contexts@[i]).initialized
                    && final(self).contexts@[i].node_id == i
                    && final(self).contexts@[i].total_nodes == old(self).contexts@[i].total_nodes
                    && final(self).contexts@[i].offset == old(self).contexts@[i].offset
                    && final(self).contexts@[i].registers == old(self).contexts@[i].registers
                    && final(self).contexts@[i].temperature == old(self).contexts@[i].temperature,
            final(self).next_shader == Some(next_shader),
            final(self).effect == Some(effect),
            final(self).transition_start == now,
            final(self).transition_offset == 0,
            final(self).state == PixelState::Transitioning,
            final(self).shader == old(self).shader,
            final(self).shaders == old(self).shaders,
            final(self).effects == old(self).effects,
            final(self).driver == old(self).driver,
            final(self).target == old(self).target,
            final(self).day_target == old(self).day_target,
            final(self).day_processed == old(self).day_processed,
            final(self).randomize_target == old(self).randomize_target,
            final(self).ready == old(self).ready,
            final(self).color_buffer == old(self).color_buffer,
    {
        self.next_shader = Some(next_shader);
        let mut node_id: usize = 0;
        while node_id < HEX_UNITS
            invariant
                node_id <= HEX_UNITS,
                self.contexts@.len() == HEX_UNITS,
                forall|i: int|
                    0 <= i < node_id ==> !(#[trigger] self.contexts@[i]).initialized
                        && self.contexts@[i].node_id == i
                        && self.contexts@[i].total_nodes == old(self).contexts@[i].total_nodes
                        && self.contexts@[i].offset == old(self).contexts@[i].offset
                        && self.contexts@[i].registers == old(self).contexts@[i].registers
                        && self.contexts@[i].temperature == old(self).contexts@[i].temperature,
                forall|i: int| node_id <= i < HEX_UNITS ==> #[trigger] self.contexts@[i] == old(self).contexts@[i],
                self.next_shader == Some(next_shader),
                self.state == old(self).state,
                self.shader == old(self).shader,
                self.shaders == old(self).shaders,
                self.effect == old(self).effect,
                self.effects == old(self).effects,
                self.driver == old(self).driver,
                self.target == old(self).target,
                self.day_target == old(self).day_target,
                self.day_processed == old(self).day_processed,
                self.randomize_target == old(self).randomize_target,
                self.ready == old(self).ready,
                self.color_buffer == old(self).color_buffer,
                self.transition_start == old(self).transition_start,
                self.transition_offset == old(self).transition_offset,
            decreases HEX_UNITS - node_id,
        {
            let mut ctx = self.contexts[node_id];
            ctx.initialized = false;
            ctx.node_id = node_id as u64;
            self.contexts[node_id] = ctx;
            node_id = node_id + 1;
        }
        self.effect = Some(effect);
        self.transition_start = now;
        self.transition_offset = 0;
        self.state = PixelState::Transitioning;
    }

    /// Moves to `next_shader` through `effect` at `now`, and schedules the
    /// next move `delay` nanoseconds on.
    pub fn randomize(&mut self, now: u64, delay: u64, next_shader: Shader, effect: Effect)
        requires
            old(self).well_formed(),
            shader_ok(next_shader),
            effect_ok(effect),
            now + delay <= u64::MAX,
        ensures
            final(self).well_formed(),
            old(self).contexts_ok() ==> final(self).contexts_ok(),
            final(self).randomize_target == now + delay,
            final(self).next_shader == Some(next_shader),
            final(self).effect == Some(effect),
            final(self).transition_start == now,
            final(self).transition_offset == 0,
            final(self).state == PixelState::Transitioning,
            forall|i: int|
                0 <= i < HEX_UNITS ==> !(#[trigger] final(self).contexts@[i]).initialized
                    && final(self).contexts@[i].node_id == i,
            final(self).shader == old(self).shader,
            final(self).shaders == old(self).shaders,
            final(self).effects == old(self).effects,
            final(self).driver == old(self).driver,
            final(self).day_target == old(self).day_target,
            final(self).day_processed == old(self).day_processed,
            final(self).ready == old(self).ready,
            final(self).color_buffer == old(self).color_buffer,
    {
        self.randomize_target = now + delay;
        self.transition_to(next_shader, effect, now);
    }

    /// Marks the task ready; true the first time, when the caller is to
    /// move to a new animation.
    pub fn ready(&mut self) -> (go: bool)
        ensures
            go == !old(self).ready,
            final(self).ready,
            final(self).state == old(self).state,
            final(self).shader == old(self).shader,
            final(self).next_shader == old(self).next_shader,
            final(self).effect == old(self).effect,
            final(self).contexts == old(self).contexts,
            final(self).randomize_target == old(self).randomize_target,
    {
        if !self.ready {
            self.ready = true;
            true
        } else {
            false
        }
    }

    /// Starts a frame at `now`. Time runs from the task's time base. When
    /// the frame is due: a blend that has lasted its time ends, and the
    /// next animation becomes the current one, taking the blend's start as
    /// the time base; a blend under way is drawn; otherwise the current
    /// animation is drawn.
    pub fn begin_frame(&mut self, now: u64) -> (f: Frame)
        requires
            old(self).well_formed(),
            now >= old(self).transition_start,
            now + TRANSITION_TIME * MS_TO_NANO <= u64::MAX,
        ensures
            final(self).well_formed(),
            ({
                let time = now - old(self).transition_offset;
                if time <= old(self).target {
                    f == Frame::Idle && *final(self) == *old(self)
                } else if old(self).state == PixelState::Transitioning {
                    if time > old(self).transition_start + TRANSITION_TIME * MS_TO_NANO {
                        &&& f == Frame::Arrived
                        &&& final(self).state == PixelState::MainSequence
                        &&& match old(self).next_shader {
                            Some(n) => final(self).shader matches Some(s) && same_shader(s, n),
                            None => final(self).shader is None,
                        }
                        &&& final(self).transition_offset == old(self).transition_start
                        &&& final(self).next_shader == old(self).next_shader
                        &&& final(self).contexts == old(self).contexts
                        &&& final(self).effect == old(self).effect
                        &&& final(self).color_buffer == old(self).color_buffer
                        &&& final(self).driver == old(self).driver
                        &&& final(self).transition_start == old(self).transition_start
                        &&& final(self).randomize_target == old(self).randomize_target
                        &&& final(self).day_target == old(self).day_target
                    } else {
                        f == (Frame::Blend { elapsed: ((time - old(self).transition_start) / MS_TO_NANO as int) as u64 })
                            && *final(self) == *old(self)
                    }
                } else {
                    f == (Frame::Show { elapsed: (time / MS_TO_NANO as int) as u64 }) && *final(self) == *old(self)
                }
            }),
    {
        let time = now - self.transition_offset;
        if time <= self.target {
            return Frame::Idle;
        }
        match self.state {
            PixelState::Transitioning => {
                if time > self.transition_start + TRANSITION_TIME * MS_TO_NANO {
                    self.state = PixelState::MainSequence;
                    self.shader = match &self.next_shader {
                        Some(next) => Some(copy_shader(next)),
                        None => None,
                    };
                    self.transition_offset = self.transition_start;
                    Frame::Arrived
                } else {
                    Frame::Blend { elapsed: (time - self.transition_start) / MS_TO_NANO }
                }
            },
            _ => Frame::Show { elapsed: time / MS_TO_NANO },
        }
    }

    /// Runs the effect for unit `node_id` at `current_time` milliseconds,
    /// with the random draws `draws` for a unit not yet set up; the unit's
    /// context is updated and the effect's move under way is returned.
    pub fn node_effect(&mut self, node_id: usize, current_time: u64, draws: (u64, u64)) -> (s: EffectSegment)
        requires
            old(self).well_formed(),
            old(self).contexts_ok(),
            old(self).effect is Some,
            node_id < HEX_UNITS,
            current_time <= u64::MAX - EFFECT_TIME,
        ensures
            final(self).well_formed(),
            final(self).contexts_ok(),
            ({
                let e = old(self).effect.unwrap();
                let ctx = old(self).contexts@[node_id as int];
                let next = final(self).contexts@[node_id as int];
                &&& next.initialized
                &&& next.node_id == ctx.node_id
                &&& next.total_nodes == ctx.total_nodes
                &&& next.registers == ctx.registers
                &&& next.offset == if !ctx.initialized && e.initializer is Some {
                    initialized_offset(e.initializer->0, ctx, e.regs[1], draws).0
                } else {
                    ctx.offset
                }
                &&& s == effect_segment_from(
                    e.nodes@,
                    0,
                    0,
                    0,
                    next.offset,
                    ((next.offset + current_time) % (e.total_time as int)) as nat,
                )
                &&& final(self).effect matches Some(f) && f.same_moves_but_regs(&e) && f.regs@ == if !ctx.initialized
                    && e.initializer is Some {
                    e.regs@.update(1, initialized_offset(e.initializer->0, ctx, e.regs[1], draws).1)
                } else {
                    e.regs@
                }
            }),
            forall|i: int|
                0 <= i < HEX_UNITS && i != node_id ==> #[trigger] final(self).contexts@[i] == old(self).contexts@[i],
            final(self).state == old(self).state,
            final(self).shader == old(self).shader,
            final(self).next_shader == old(self).next_shader,
            final(self).color_buffer == old(self).color_buffer,
            final(self).driver == old(self).driver,
            final(self).transition_start == old(self).transition_start,
            final(self).transition_offset == old(self).transition_offset,
    {
        let ctx = self.contexts[node_id];
        let mut effect = self.effect.take().unwrap();
        proof {
            lemma_offset_inside(effect, ctx, node_id as int, draws);
        }
        let (segment, next) = effect.process(&ctx, current_time, draws);
        self.effect = Some(effect);
        self.contexts[node_id] = next;
        segment
    }

    /// Shows `color` on unit `node_id`'s LEDs, and remembers it as the
    /// unit's colour when `remember` is set.
    pub fn show_node(&mut self, node_id: usize, color: Color, remember: bool)
        requires
            node_id < HEX_UNITS,
        ensures
            remember ==> final(self).color_buffer@ == old(self).color_buffer@.update(node_id as int, color),
            !remember ==> final(self).color_buffer == old(self).color_buffer,
            final(self).driver.nodes@ == unit_lit(old(self).driver.nodes@, node_id as int, hex_word(color) as u32),
            final(self).driver.pin == old(self).driver.pin,
            final(self).driver.iteration == old(self).driver.iteration,
            final(self).state == old(self).state,
            final(self).shader == old(self).shader,
            final(self).next_shader == old(self).next_shader,
            final(self).effect == old(self).effect,
            final(self).contexts == old(self).contexts,
            final(self).transition_start == old(self).transition_start,
            final(self).transition_offset == old(self).transition_offset,
    {
        if remember {
            self.color_buffer[node_id] = color;
        }
        let hex = color.as_hex();
        let ghost leds = self.driver.nodes@;
        let mut pixel_id: usize = 0;
        while pixel_id < LEDS_PER_UNIT
            invariant
                node_id < HEX_UNITS,
                pixel_id <= LEDS_PER_UNIT,
                hex == hex_word(color),
                self.driver.nodes@.len() == LEDS,
                leds.len() == LEDS,
                forall|i: int|
                    0 <= i < LEDS ==> #[trigger] self.driver.nodes@[i] == if node_id * 3 <= i < node_id * 3
                        + pixel_id {
                        node_of_word(hex)
                    } else {
                        leds[i]
                    },
                self.driver.pin == old(self).driver.pin,
                self.driver.iteration == old(self).driver.iteration,
                remember ==> self.color_buffer@ == old(self).color_buffer@.update(node_id as int, color),
                !remember ==> self.color_buffer == old(self).color_buffer,
                leds == old(self).driver.nodes@,
                self.state == old(self).state,
                self.shader == old(self).shader,
                self.next_shader == old(self).next_shader,
                self.effect == old(self).effect,
                self.contexts == old(self).contexts,
                self.transition_start == old(self).transition_start,
                self.transition_offset == old(self).transition_offset,
            decreases LEDS_PER_UNIT - pixel_id,
        {
            self.driver.set_color(node_id * LEDS_PER_UNIT + pixel_id, hex);
            pixel_id = pixel_id + 1;
        }
        assert(self.driver.nodes@ =~= unit_lit(leds, node_id as int, hex));
    }

    /// Ends a frame at `now`. In the main sequence: with the schedule in
    /// use, once the day check is due it is due again a second later and
    /// the caller is to read the date; otherwise, past the move time, the
    /// caller is to move to another animation.
    pub fn end_frame(&mut self, now: u64) -> (e: FrameEnd)
        requires
            now + S_TO_NANO <= u64::MAX,
        ensures
            old(self).state != PixelState::MainSequence ==> e == FrameEnd::Nothing && *final(self) == *old(self),
            old(self).state == PixelState::MainSequence ==> if USE_WIFI && now > old(self).day_target {
                e == FrameEnd::CheckDay && final(self).day_target == now + S_TO_NANO
            } else {
                *final(self) == *old(self) && e == if now > old(self).randomize_target {
                    FrameEnd::Randomize
                } else {
                    FrameEnd::Nothing
                }
            },
            final(self).state == old(self).state,
            final(self).shader == old(self).shader,
            final(self).next_shader == old(self).next_shader,
            final(self).effect == old(self).effect,
            final(self).contexts == old(self).contexts,
            final(self).randomize_target == old(self).randomize_target,
            final(self).day_processed == old(self).day_processed,
            final(self).transition_start == old(self).transition_start,
            final(self).transition_offset == old(self).transition_offset,
    {
        match self.state {
            PixelState::MainSequence => {
                if USE_WIFI && now > self.day_target {
                    self.day_target = now + S_TO_NANO;
                    FrameEnd::CheckDay
                } else if now > self.randomize_target {
                    FrameEnd::Randomize
                } else {
                    FrameEnd::Nothing
                }
            },
            _ => FrameEnd::Nothing,
        }
    }

    /// Hands the task today's date: on a day not yet handled, from six
    /// o'clock on, the day is recorded and the caller is to move to another
    /// animation.
    pub fn check_day(&mut self, today: DateTime) -> (go: bool)
        ensures
            go == (old(self).day_processed != today.days && today.hour >= 6),
            go ==> final(self).day_processed == today.days,
            !go ==> final(self).day_processed == old(self).day_processed,
            final(self).state == old(self).state,
            final(self).day_target == old(self).day_target,
            final(self).randomize_target == old(self).randomize_target,
    {
        if self.day_processed != today.days && today.hour >= 6 {
            self.day_processed = today.days;
            true
        } else {
            false
        }
    }
}

/// A unit's offset stays inside an effect's time: the offsets every
/// initializer hands out are.
proof fn lemma_offset_inside(effect: Effect, ctx: Context, i: int, draws: (u64, u64))
    requires
        0 <= i < HEX_UNITS,
        ctx.node_id == i,
        ctx.total_nodes == HEX_UNITS,
    ensures
        effect.initializer matches Some(init) ==> initialized_offset(init, ctx, effect.regs[1], draws).0 < EFFECT_TIME,
{
    assert(EFFECT_TIME / 4 == 1050);
    assert(ctx.node_id * 1050 < EFFECT_TIME) by (nonlinear_arith)
        requires
            ctx.node_id < 4,
    ;
}

} // verus!
