//! Rules for picking a shader by date: each rule names a shader, the time
//! range it applies in, and a weight; a weight of 255 wins outright.
use vstd::prelude::*;

verus! {

/// The configuration of one shader.
pub struct ShaderConfig {
    /// Unix time, in seconds, from which the rule applies.
    pub time_range_start: u64,
    /// Unix time, in seconds, up to which the rule applies.
    pub time_range_end: u64,
    /// The name of the shader the rule is for.
    pub shader: Vec<u8>,
    /// The weight of the rule, from 0 to 255.
    pub probability: u64,
}

/// The shader rules in force.
pub struct ShaderConfigList {
    pub configs: Vec<ShaderConfig>,
}

/// Whether rule `c` applies at `date`: strictly inside its range.
pub open spec fn applies(c: ShaderConfig, date: u64) -> bool {
    c.time_range_start < date && c.time_range_end > date
}

/// The rules of `cs` that apply at `date`, in order.
pub open spec fn candidates(cs: Seq<ShaderConfig>, date: u64) -> Seq<ShaderConfig>
    decreases cs.len(),
{
    if cs.len() == 0 {
        Seq::empty()
    } else if applies(cs.last(), date) {
        candidates(cs.drop_last(), date).push(cs.last())
    } else {
        candidates(cs.drop_last(), date)
    }
}

/// The sum of the weights of `cs`.
pub open spec fn total_weight(cs: Seq<ShaderConfig>) -> nat
    decreases cs.len(),
{
    if cs.len() == 0 {
        0
    } else {
        total_weight(cs.drop_last()) + cs.last().probability as nat
    }
}

/// Whether some rule applying at `date` has weight 255.
pub open spec fn has_winner(cs: Seq<ShaderConfig>, date: u64) -> bool {
    exists|i: int| 0 <= i < cs.len() && applies(#[trigger] cs[i], date) && cs[i].probability == 255
}

/// The first rule applying at `date` with weight 255.
pub open spec fn first_winner(cs: Seq<ShaderConfig>, date: u64) -> int {
    choose|i: int|
        0 <= i < cs.len() && applies(#[trigger] cs[i], date) && cs[i].probability == 255 && forall|
            j: int,
        |
            0 <= j < i ==> !(applies(#[trigger] cs[j], date) && cs[j].probability == 255)
}

/// The shader of the first rule of `order` at which the running sum of
/// weights reaches `target`; no name when none does.
pub open spec fn weighted_pick(order: Seq<ShaderConfig>, target: nat, acc: nat) -> Seq<u8>
    decreases order.len(),
{
    if order.len() == 0 {
        Seq::empty()
    } else if acc + order[0].probability >= target {
        order[0].shader@
    } else {
        weighted_pick(order.drop_first(), target, acc + order[0].probability as nat)
    }
}

/// `order` lists the rules of `cs` in some order, each once.
pub open spec fn is_shuffle(order: Seq<usize>, n: nat) -> bool {
    &&& order.len() == n
    &&& order.no_duplicates()
    &&& forall|k: int| 0 <= k < order.len() ==> #[trigger] order[k] < n
}

impl ShaderConfigList {
    /// No rules.
    pub fn new() -> (r: Self)
        ensures
            r.configs@.len() == 0,
    {
        ShaderConfigList { configs: Vec::new() }
    }

    /// The number of rules.
    pub fn size(&self) -> (n: usize)
        ensures
            n == self.configs@.len(),
    {
        self.configs.len()
    }

    /// Adds a rule at the end.
    pub fn add_config(&mut self, config: ShaderConfig)
        ensures
            final(self).configs@ == old(self).configs@.push(config),
    {
        self.configs.push(config);
    }

    /// The positions of the rules that apply at `date`, in order; or the
    /// position of the first rule that applies with weight 255, which
    /// wins.
    pub fn candidates_at(&self, date: u64) -> (r: Result<Vec<usize>, usize>)
        ensures
            has_winner(self.configs@, date) <==> r is Err,
            r matches Err(i) ==> i == first_winner(self.configs@, date) && i < self.configs@.len(),
            r matches Ok(c) ==> c@.map_values(|k: usize| self.configs@[k as int]) == candidates(
                self.configs@,
                date,
            ) && forall|k: int| 0 <= k < c@.len() ==> #[trigger] c@[k] < self.configs@.len(),
            r matches Err(i) ==> self.configs@[i as int].time_range_start < date
                && date < self.configs@[i as int].time_range_end
                && self.configs@[i as int].probability == 255,
            r matches Err(i) ==> forall|j: int| 0 <= j < i ==> !(
                #[trigger] self.configs@[j].time_range_start < date
                && date < self.configs@[j].time_range_end && self.configs@[j].probability == 255),
            r matches Ok(c) ==> forall|k: int| 0 <= k < c@.len() ==>
                self.configs@[#[trigger] c@[k] as int].time_range_start < date
                && date < self.configs@[c@[k] as int].time_range_end,
            r matches Ok(c) ==> forall|i: int| 0 <= i < self.configs@.len()
                && #[trigger] self.configs@[i].time_range_start < date
                && date < self.configs@[i].time_range_end ==> c@.contains(i as usize),
            r is Ok <==> forall|i: int| 0 <= i < self.configs@.len() ==> !(
                #[trigger] self.configs@[i].time_range_start < date
                && date < self.configs@[i].time_range_end && self.configs@[i].probability == 255),
    {
        let mut found: Vec<usize> = Vec::new();
        let mut idx: usize = 0;
        while idx < self.configs.len()
            invariant
                idx <= self.configs@.len(),
                found@.map_values(|k: usize| self.configs@[k as int]) == candidates(
                    self.configs@.take(idx as int),
                    date,
                ),
                forall|k: int| 0 <= k < found@.len() ==> #[trigger] found@[k] < idx,
                forall|k: int| 0 <= k < found@.len() ==>
                    self.configs@[#[trigger] found@[k] as int].time_range_start < date
                    && date < self.configs@[found@[k] as int].time_range_end,
                forall|i: int| 0 <= i < idx
                    && #[trigger] self.configs@[i].time_range_start < date
                    && date < self.configs@[i].time_range_end ==> found@.contains(i as usize),
                forall|j: int|
                    0 <= j < idx ==> !(applies(#[trigger] self.configs@[j], date)
                        && self.configs@[j].probability == 255),
            decreases self.configs@.len() - idx,
        {
            assert(self.configs@.take(idx + 1).drop_last() =~= self.configs@.take(idx as int));
            let c = &self.configs[idx];
            if c.time_range_start < date && c.time_range_end > date {
                if c.probability == 255 {
                    proof {
                        let w = first_winner(self.configs@, date);
                        assert(applies(self.configs@[idx as int], date));
                        assert(has_winner(self.configs@, date));
                        if w != idx {
                            if w < idx {
                                assert(!(applies(self.configs@[w], date) && self.configs@[w].probability == 255));
                            } else {
                                assert(!(applies(self.configs@[idx as int], date) && self.configs@[idx as int].probability == 255));
                            }
                        }
                    }
                    return Err(idx);
                }
                let ghost before = found@;
                found.push(idx);
                proof {
                    assert(found@[before.len() as int] == idx);
                    assert forall|i: int| 0 <= i < idx + 1
                        && #[trigger] self.configs@[i].time_range_start < date
                        && date < self.configs@[i].time_range_end implies found@.contains(i as usize) by {
                        if i < idx {
                            let k = choose|k: int| 0 <= k < before.len() && before[k] == i as usize;
                            assert(found@[k] == i as usize);
                        } else {
                            assert(found@[before.len() as int] == i as usize);
                        }
                    }
                }
                assert(found@.map_values(|k: usize| self.configs@[k as int]) =~= before.map_values(
                    |k: usize| self.configs@[k as int],
                ).push(self.configs@[idx as int]));
            }
            idx = idx + 1;
        }
        assert(self.configs@.take(idx as int) =~= self.configs@);
        Ok(found)
    }

    /// The name of the shader to run at `date`. The first rule that
    /// applies with weight 255 wins outright. Otherwise the applying rules
    /// are taken in the shuffled order `order` (positions among them), and
    /// the first at which the running sum of weights reaches `draw`
    /// modulo the total weight is picked.
    pub fn get_shader(&self, date: u64, order: &[usize], draw: u64) -> (r: Vec<u8>)
        requires
            !has_winner(self.configs@, date) ==> {
                let c = candidates(self.configs@, date);
                &&& is_shuffle(order@, c.len())
                &&& 0 < total_weight(c) <= u64::MAX
            },
        ensures
            has_winner(self.configs@, date) ==> r@ == self.configs@[first_winner(
                self.configs@,
                date,
            )].shader@,
            !has_winner(self.configs@, date) ==> {
                let c = candidates(self.configs@, date);
                r@ == weighted_pick(
                    order@.map_values(|k: usize| c[k as int]),
                    (draw % (total_weight(c) as u64)) as nat,
                    0,
                )
            },
            !has_winner(self.configs@, date) ==> {
                let c = candidates(self.configs@, date);
                let shuffled = order@.map_values(|k: usize| c[k as int]);
                let target = (draw % (total_weight(c) as u64)) as nat;
                &&& forall|k: int| #[trigger] first_reaching(shuffled, target, k) ==> r@ == shuffled[k].shader@
                &&& (forall|k: int| 0 <= k < shuffled.len() ==> #[trigger] total_weight(shuffled.take(k + 1)) < target)
                    ==> r@.len() == 0
            },
            r@.len() == 0 || exists|i: int| 0 <= i < self.configs@.len()
                && #[trigger] self.configs@[i].time_range_start < date
                && date < self.configs@[i].time_range_end && self.configs@[i].shader@ == r@,
    {
        let mut result: Vec<u8> = Vec::new();
        match self.candidates_at(date) {
            Err(i) => {
                crate::debug::append_bytes(&mut result, self.configs[i].shader.as_slice());
                assert(result@ =~= self.configs@[i as int].shader@);
                assert(self.configs@[i as int].time_range_start < date);
                result
            },
            Ok(found) => {
                let ghost c = candidates(self.configs@, date);
                let mut total: u64 = 0;
                let mut idx: usize = 0;
                while idx < found.len()
                    invariant
                        found@.map_values(|k: usize| self.configs@[k as int]) == c,
                        forall|k: int| 0 <= k < found@.len() ==> #[trigger] found@[k] < self.configs@.len(),
                        c == candidates(self.configs@, date),
                        total_weight(c) <= u64::MAX,
                        idx <= found@.len(),
                        total == total_weight(c.take(idx as int)),
                    decreases found@.len() - idx,
                {
                    proof {
                        assert(c.take(idx + 1).drop_last() =~= c.take(idx as int));
                        lemma_weight_prefix(c, idx + 1);
                        assert(c[idx as int] == self.configs@[found@[idx as int] as int]);
                    }
                    total = total + self.configs[found[idx]].probability;
                    idx = idx + 1;
                }
                assert(c.take(idx as int) =~= c);
                let target = draw % total;
                let ghost shuffled = order@.map_values(|k: usize| c[k as int]);
                let mut acc: u128 = 0;
                let mut j: usize = 0;
                assert(shuffled.skip(0) =~= shuffled);
                while j < order.len()
                    invariant
                        found@.map_values(|k: usize| self.configs@[k as int]) == c,
                        forall|k: int| 0 <= k < found@.len() ==> #[trigger] found@[k] < self.configs@.len(),
                        !has_winner(self.configs@, date),
                        c == candidates(self.configs@, date),
                        is_shuffle(order@, c.len()),
                        forall|k: int| 0 <= k < found@.len() ==>
                            self.configs@[#[trigger] found@[k] as int].time_range_start < date
                            && date < self.configs@[found@[k] as int].time_range_end,
                        shuffled == order@.map_values(|k: usize| c[k as int]),
                        j <= order@.len(),
                        acc <= j * (u64::MAX as int),
                        total == total_weight(c),
                        target == draw % total,
                        weighted_pick(shuffled, target as nat, 0) == weighted_pick(
                            shuffled.skip(j as int),
                            target as nat,
                            acc as nat,
                        ),
                        result@.len() == 0,
                    decreases order@.len() - j,
                {
                    let k = order[j];
                    let config = &self.configs[found[k]];
                    proof {
                        assert(shuffled.skip(j as int)[0] == c[k as int]);
                        assert(c[k as int] == self.configs@[found@[k as int] as int]);
                        assert(shuffled.skip(j as int).drop_first() =~= shuffled.skip(j + 1));
                        assert(acc + config.probability <= (j + 1) * (u64::MAX as int)) by (nonlinear_arith)
                            requires
                                acc <= j * (u64::MAX as int),
                                config.probability <= u64::MAX,
                        ;
                        assert((j + 1) * (u64::MAX as int) <= u128::MAX) by (nonlinear_arith)
                            requires
                                j < usize::MAX,
                                usize::MAX <= u64::MAX,
                        ;
                    }
                    acc = acc + config.probability as u128;
                    if acc >= target as u128 {
                        crate::debug::append_bytes(&mut result, config.shader.as_slice());
                        proof {
                            let i = found@[k as int] as int;
                            assert(result@ =~= self.configs@[i].shader@);
                            assert(self.configs@[i].time_range_start < date);
                            lemma_weighted_pick_first_reaching(shuffled, target as nat);
                        }
                        return result;
                    }
                    j = j + 1;
                }
                assert(shuffled.skip(j as int) =~= Seq::<ShaderConfig>::empty());
                proof {
                    lemma_weighted_pick_first_reaching(shuffled, target as nat);
                }
                result
            },
        }
    }
}

/// Position `k` of `order` is the first at which the running sum of
/// weights reaches `target`.
pub open spec fn first_reaching(order: Seq<ShaderConfig>, target: nat, k: int) -> bool {
    &&& 0 <= k < order.len()
    &&& total_weight(order.take(k + 1)) >= target
    &&& forall|j: int| 0 <= j < k ==> #[trigger] total_weight(order.take(j + 1)) < target
}

proof fn lemma_weight_next(cs: Seq<ShaderConfig>, i: int)
    requires
        0 <= i < cs.len(),
    ensures
        total_weight(cs.take(i + 1)) == total_weight(cs.take(i)) + cs[i].probability,
{
    assert(cs.take(i + 1).drop_last() =~= cs.take(i));
}

proof fn lemma_pick_walk(order: Seq<ShaderConfig>, target: nat, i: int)
    requires
        0 <= i <= order.len(),
        forall|j: int| 0 <= j < i ==> #[trigger] total_weight(order.take(j + 1)) < target,
    ensures
        forall|k: int| #[trigger] first_reaching(order, target, k) && i <= k ==> weighted_pick(
            order.skip(i),
            target,
            total_weight(order.take(i)),
        ) == order[k].shader@,
        (forall|j: int| 0 <= j < order.len() ==> #[trigger] total_weight(order.take(j + 1)) < target)
            ==> weighted_pick(order.skip(i), target, total_weight(order.take(i))) == Seq::<u8>::empty(),
    decreases order.len() - i,
{
    if i < order.len() {
        lemma_weight_next(order, i);
        assert(order.skip(i)[0] == order[i]);
        assert(order.skip(i).drop_first() =~= order.skip(i + 1));
        if total_weight(order.take(i + 1)) < target {
            lemma_pick_walk(order, target, i + 1);
            assert forall|k: int| #[trigger] first_reaching(order, target, k) && i <= k implies weighted_pick(
                order.skip(i),
                target,
                total_weight(order.take(i)),
            ) == order[k].shader@ by {
                if k == i {
                    assert(false);
                }
            }
        } else {
            assert forall|k: int| #[trigger] first_reaching(order, target, k) && i <= k implies weighted_pick(
                order.skip(i),
                target,
                total_weight(order.take(i)),
            ) == order[k].shader@ by {
                if k > i {
                    assert(total_weight(order.take(i + 1)) < target);
                }
            }
        }
    } else {
        assert(order.skip(i) =~= Seq::<ShaderConfig>::empty());
    }
}

/// The weighted pick takes the first rule of `order` at which the running
/// sum of weights reaches `target`, and nothing when no running sum does.
pub proof fn lemma_weighted_pick_first_reaching(order: Seq<ShaderConfig>, target: nat)
    ensures
        forall|k: int| #[trigger] first_reaching(order, target, k) ==> weighted_pick(order, target, 0)
            == order[k].shader@,
        (forall|j: int| 0 <= j < order.len() ==> #[trigger] total_weight(order.take(j + 1)) < target)
            ==> weighted_pick(order, target, 0) == Seq::<u8>::empty(),
{
    assert(order.skip(0) =~= order);
    assert(order.take(0) =~= Seq::<ShaderConfig>::empty());
    lemma_pick_walk(order, target, 0);
}

/// The weight of a prefix is at most the weight of the whole.
proof fn lemma_weight_prefix(cs: Seq<ShaderConfig>, k: int)
    requires
        0 <= k <= cs.len(),
    ensures
        total_weight(cs.take(k)) <= total_weight(cs),
    decreases cs.len() - k,
{
    if k < cs.len() {
        lemma_weight_prefix(cs, k + 1);
        assert(cs.take(k + 1).drop_last() =~= cs.take(k));
    } else {
        assert(cs.take(k) =~= cs);
    }
}

/// The weight of a non-empty list is its first weight plus the rest's.
proof fn lemma_weight_first(cs: Seq<ShaderConfig>)
    ensures
        cs.len() > 0 ==> total_weight(cs) == cs[0].probability + total_weight(cs.drop_first()),
    decreases cs.len(),
{
    if cs.len() > 1 {
        lemma_weight_first(cs.drop_last());
        assert(cs.drop_last().drop_first() =~= cs.drop_first().drop_last());
    } else if cs.len() == 1 {
        assert(cs.drop_first() =~= Seq::<ShaderConfig>::empty());
        assert(cs.drop_last() =~= Seq::<ShaderConfig>::empty());
    }
}

} // verus!
