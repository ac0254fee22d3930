use vstd::prelude::*;

verus! {

/// Why an entity is removed from the world.
#[derive(Clone, Copy, Debug, PartialEq, Eq, Structural, Hash)]
pub enum RemoveSource {
    /// The entity has reached zero health.
    HealthLoss,
    /// The entity's life duration has run out.
    TimedOut,
    /// A projectile has hit something.
    ProjectileCollision,
    /// An enemy has reached the bottom of the screen.
    EnemyReachedBottom,
    /// An enemy has run into a building.
    BuildingCollision,
}

/// Whether `removals` holds `source`.
pub fn contains_removal(removals: &[RemoveSource], source: RemoveSource) -> (r: bool)
    ensures
        r == removals@.contains(source),
{
    let mut i: usize = 0;
    while i < removals.len()
        invariant
            i <= removals.len(),
            forall|j: int| 0 <= j < i ==> removals@[j] != source,
        decreases removals.len() - i,
    {
        if removals[i] == source {
            return true;
        }
        i = i + 1;
    }
    false
}


/// The timing of an effect that lies on an entity, in nanoseconds: how
/// long it lasts (`None`: until removed otherwise) and how long it has lain.
#[derive(Clone, Copy, Debug, PartialEq, Eq, Structural)]
pub struct EffectClock {
    pub duration: Option<u64>,
    pub alive: u64,
}

impl EffectClock {
    /// An effect that lasts until it is removed otherwise.
    pub fn unlimited() -> (r: Self)
        ensures
            r == (EffectClock { duration: None, alive: 0 }),
    {
        EffectClock { duration: None, alive: 0 }
    }

    /// An effect that acts once, in the frame in which it is applied.
    pub fn once() -> (r: Self)
        ensures
            r == (EffectClock { duration: Some(0), alive: 0 }),
    {
        EffectClock { duration: Some(0), alive: 0 }
    }

    /// The same effect, limited to `duration` nanoseconds.
    pub fn with_duration(self, duration: u64) -> (r: Self)
        ensures
            r == (EffectClock { duration: Some(duration), ..self }),
    {
        EffectClock { duration: Some(duration), ..self }
    }
}

/// When an effect acts on its targets, as far as time and removal decide it.
/// (Transformations, reactions and repetitions act in every frame; what a
/// repetition applies, and how often, is counted by the caller.)
#[derive(Clone, Copy, Debug, PartialEq, Eq, Structural)]
pub enum EffectTrigger {
    EveryFrame,
    Once,
    OnDeath(RemoveSource),
}

/// A one-time effect is due once its duration has passed by the end of
/// this frame.
pub open spec fn once_due(clock: EffectClock, delta: u64) -> bool {
    clock.duration is Some && clock.duration->0 <= clock.alive + delta
}

/// Whether an effect acts this frame: never while its source is silenced;
/// otherwise every frame, when a one-time effect is due, or when the source
/// is removed for the effect's reason.
pub open spec fn acts(trigger: EffectTrigger, clock: EffectClock, delta: u64, removals: Seq<RemoveSource>, silence: u64) -> bool {
    silence == 0 && match trigger {
        EffectTrigger::EveryFrame => true,
        EffectTrigger::Once => once_due(clock, delta),
        EffectTrigger::OnDeath(reason) => removals.contains(reason),
    }
}

/// Whether the effect acts this frame (see [`acts`]).
pub fn effect_acts(trigger: EffectTrigger, clock: EffectClock, delta: u64, removals: &[RemoveSource], silence: u64) -> (r: bool)
    requires
        clock.alive + delta <= u64::MAX,
    ensures
        r == acts(trigger, clock, delta, removals@, silence),
{
    if silence != 0 {
        return false;
    }
    match trigger {
        EffectTrigger::EveryFrame => true,
        EffectTrigger::Once => match clock.duration {
            Some(d) => d <= clock.alive + delta,
            None => false,
        },
        EffectTrigger::OnDeath(reason) => contains_removal(removals, reason),
    }
}

/// An effect after another `delta` nanoseconds.
pub open spec fn aged(clock: EffectClock, delta: u64) -> EffectClock {
    EffectClock { alive: (clock.alive + delta) as u64, ..clock }
}

/// An effect stays while its duration has not passed.
pub open spec fn lasting(clock: EffectClock) -> bool {
    match clock.duration {
        Some(d) => d > clock.alive,
        None => true,
    }
}

/// Ages all effects of an entity by `delta` and drops those whose duration
/// has passed. Returns the effects that stay, aged, with their indices in
/// `clocks` (in order), so that the caller can drop the same effects.
pub fn advance_effects(clocks: &[EffectClock], delta: u64) -> (r: (Vec<EffectClock>, Vec<usize>))
    requires
        forall|i: int| 0 <= i < clocks@.len() ==> clocks@[i].alive + delta <= u64::MAX,
    ensures
        r.0@.len() == r.1@.len(),
        forall|k: int| 0 <= k < r.1@.len() ==> r.1@[k] < clocks@.len(),
        forall|k: int, l: int| 0 <= k < l < r.1@.len() ==> r.1@[k] < r.1@[l],
        forall|k: int| 0 <= k < r.1@.len() ==> r.0@[k] == aged(clocks@[r.1@[k] as int], delta),
        forall|i: int| 0 <= i < clocks@.len() ==>
            (lasting(aged(clocks@[i], delta)) <==> r.1@.contains(i as usize)),
{
    let mut out: Vec<EffectClock> = Vec::new();
    let mut idx: Vec<usize> = Vec::new();
    let mut i: usize = 0;
    while i < clocks.len()
        invariant
            i <= clocks@.len(),
            forall|j: int| 0 <= j < clocks@.len() ==> clocks@[j].alive + delta <= u64::MAX,
            out@.len() == idx@.len(),
            forall|k: int| 0 <= k < idx@.len() ==> idx@[k] < i,
            forall|k: int, l: int| 0 <= k < l < idx@.len() ==> idx@[k] < idx@[l],
            forall|k: int| 0 <= k < idx@.len() ==> out@[k] == aged(clocks@[idx@[k] as int], delta),
            forall|j: int| 0 <= j < i ==> (lasting(aged(clocks@[j], delta)) <==> idx@.contains(j as usize)),
        decreases clocks@.len() - i,
    {
        let c = clocks[i];
        let a = EffectClock { alive: c.alive + delta, ..c };
        let stays = match a.duration {
            Some(d) => d > a.alive,
            None => true,
        };
        let ghost before = idx@;
        if stays {
            out.push(a);
            idx.push(i);
        }
        proof {
            assert forall|j: int| 0 <= j < i + 1 implies (lasting(aged(clocks@[j], delta)) <==> idx@.contains(j as usize)) by {
                if j < i {
                    if before.contains(j as usize) {
                        let w = choose|w: int| 0 <= w < before.len() && before[w] == j as usize;
                        assert(idx@[w] == j as usize);
                    }
                    if idx@.contains(j as usize) {
                        let w = choose|w: int| 0 <= w < idx@.len() && idx@[w] == j as usize;
                        if w < before.len() {
                            assert(before[w] == j as usize);
                        }
                    }
                } else {
                    if stays {
                        assert(idx@[idx@.len() - 1] == i);
                    } else {
                        if idx@.contains(j as usize) {
                            let w = choose|w: int| 0 <= w < idx@.len() && idx@[w] == j as usize;
                            assert(idx@[w] < i);
                        }
                    }
                }
            }
        }
        i = i + 1;
    }
    (out, idx)
}

/// A silence runs out as time passes, and ends at zero.
pub fn tick_silence(silence: u64, delta: u64) -> (r: u64)
    ensures
        r == if silence >= delta { silence - delta } else { 0 },
{
    silence.saturating_sub(delta)
}

/// The sum of the silences an entity received this frame.
pub open spec fn total(s: Seq<u64>) -> int
    decreases s.len(),
{
    if s.len() == 0 { 0 } else { total(s.drop_last()) + s.last() }
}

/// Adds the silences an entity received this frame to its silence.
pub fn add_silence(silence: u64, received: &[u64]) -> (r: u64)
    requires
        silence + total(received@) <= u64::MAX,
    ensures
        r == silence + total(received@),
{
    let mut acc: u64 = silence;
    let mut i: usize = 0;
    while i < received.len()
        invariant
            i <= received@.len(),
            silence + total(received@) <= u64::MAX,
            acc == silence + total(received@.subrange(0, i as int)),
        decreases received@.len() - i,
    {
        proof {
            assert(received@.subrange(0, i as int + 1).drop_last() =~= received@.subrange(0, i as int));
            lemma_total_prefix(received@, i as int + 1);
        }
        acc = acc + received[i];
        i = i + 1;
    }
    assert(received@.subrange(0, received@.len() as int) =~= received@);
    acc
}

/// A prefix of a list of silences sums to no more than the whole list.
proof fn lemma_total_prefix(s: Seq<u64>, n: int)
    requires
        0 <= n <= s.len(),
    ensures
        total(s.subrange(0, n)) <= total(s),
    decreases s.len() - n,
{
    if n < s.len() {
        lemma_total_prefix(s, n + 1);
        assert(s.subrange(0, n + 1).drop_last() =~= s.subrange(0, n));
    } else {
        assert(s.subrange(0, n) =~= s);
    }
}

/// A one-time effect acts in the frame in which it is applied and is gone
/// after that frame, however long the frame.
pub proof fn law_once_acts_once(delta: u64, removals: Seq<RemoveSource>)
    ensures
        acts(EffectTrigger::Once, EffectClock { duration: Some(0), alive: 0 }, delta, removals, 0),
        !lasting(aged(EffectClock { duration: Some(0), alive: 0 }, delta)),
{
}

/// An effect without a duration is never dropped by time, and one with a
/// duration stays exactly while it has lain less than its duration.
pub proof fn law_effects_last_their_duration(clock: EffectClock, delta: u64)
    requires
        clock.alive + delta <= u64::MAX,
    ensures
        clock.duration is None ==> lasting(aged(clock, delta)),
        clock.duration is Some ==> (lasting(aged(clock, delta)) <==> clock.alive + delta < clock.duration->0),
{
}

/// Which entities an effect reaches, beside the distance, which the caller
/// measures: enemies only or all, the source itself or not, and at most how
/// many (the nearest first; `None`: all).
#[derive(Clone, Copy, Debug, PartialEq, Eq, Structural)]
pub struct TargetRule {
    pub enemies_only: bool,
    pub affect_self: bool,
    pub limit: Option<usize>,
}

impl TargetRule {
    /// Every entity in range except the source, however many.
    pub fn new() -> (r: Self)
        ensures
            r == (TargetRule { enemies_only: false, affect_self: false, limit: None }),
    {
        TargetRule { enemies_only: false, affect_self: false, limit: None }
    }

    /// The source alone.
    pub fn new_only_self() -> (r: Self)
        ensures
            r == (TargetRule { enemies_only: false, affect_self: true, limit: Some(1) }),
    {
        TargetRule { enemies_only: false, affect_self: true, limit: Some(1) }
    }

    pub fn with_enemies_only(self, val: bool) -> (r: Self)
        ensures
            r == (TargetRule { enemies_only: val, ..self }),
    {
        TargetRule { enemies_only: val, ..self }
    }

    pub fn with_affect_self(self, val: bool) -> (r: Self)
        ensures
            r == (TargetRule { affect_self: val, ..self }),
    {
        TargetRule { affect_self: val, ..self }
    }

    pub fn with_limit(self, limit: usize) -> (r: Self)
        ensures
            r == (TargetRule { limit: Some(limit), ..self }),
    {
        TargetRule { limit: Some(limit), ..self }
    }
}

/// An entity that an effect might reach, as the caller saw it: its id,
/// whether it lies within the effect's range, whether it is an enemy and
/// whether it is the effect's source.
#[derive(Clone, Copy, Debug, PartialEq, Eq, Structural)]
pub struct Candidate {
    pub entity: u64,
    pub in_range: bool,
    pub is_enemy: bool,
    pub is_source: bool,
}

/// Whether the rule admits the candidate.
pub open spec fn admits(rule: TargetRule, c: Candidate) -> bool {
    c.in_range && (!rule.enemies_only || c.is_enemy) && (rule.affect_self || !c.is_source)
}

/// The ids of the admitted candidates, in order.
pub open spec fn admitted(rule: TargetRule, cs: Seq<Candidate>) -> Seq<u64>
    decreases cs.len(),
{
    if cs.len() == 0 {
        Seq::empty()
    } else if admits(rule, cs.last()) {
        admitted(rule, cs.drop_last()).push(cs.last().entity)
    } else {
        admitted(rule, cs.drop_last())
    }
}

/// The targets of an effect: of the candidates, sorted by distance from the
/// source, those the rule admits, up to the rule's limit.
pub open spec fn targets(rule: TargetRule, cs: Seq<Candidate>) -> Seq<u64> {
    let all = admitted(rule, cs);
    match rule.limit {
        Some(n) => if n < all.len() { all.take(n as int) } else { all },
        None => all,
    }
}

/// A limit keeps the nearest targets: with a limit of `n`, the targets are
/// the first `n` of those picked without a limit (all of them when fewer),
/// in the same order. In particular `n` or more admitted candidates give
/// exactly `n` targets.
pub proof fn law_limit_keeps_the_nearest(rule: TargetRule, cs: Seq<Candidate>, n: usize)
    ensures
        ({
            let all = targets(TargetRule { limit: None, ..rule }, cs);
            let some = targets(TargetRule { limit: Some(n), ..rule }, cs);
            &&& some.len() == if n < all.len() { n as int } else { all.len() as int }
            &&& forall|k: int| 0 <= k < some.len() ==> #[trigger] some[k] == all[k]
        }),
{
    lemma_admitted_same_rule(rule, TargetRule { limit: None, ..rule }, cs);
    lemma_admitted_same_rule(rule, TargetRule { limit: Some(n), ..rule }, cs);
}

/// Without a limit, every target is an admitted candidate: in range, an
/// enemy where only enemies count, and not the source unless the source
/// counts. When every candidate is admitted, all of them are targets, in
/// order; when none is, there are no targets.
pub proof fn law_targets_are_admitted(rule: TargetRule, cs: Seq<Candidate>)
    requires
        rule.limit is None,
    ensures
        targets(rule, cs).len() <= cs.len(),
        forall|k: int| 0 <= k < targets(rule, cs).len() ==> exists|j: int| 0 <= j < cs.len()
            && #[trigger] targets(rule, cs)[k] == cs[j].entity
            && cs[j].in_range && (!rule.enemies_only || cs[j].is_enemy) && (rule.affect_self || !cs[j].is_source),
        (forall|j: int| #![trigger cs[j]] 0 <= j < cs.len() ==> cs[j].in_range && (!rule.enemies_only || cs[j].is_enemy)
            && (rule.affect_self || !cs[j].is_source)) ==>
            targets(rule, cs) == cs.map_values(|c: Candidate| c.entity),
        (forall|j: int| #![trigger cs[j]] 0 <= j < cs.len() ==> !(cs[j].in_range && (!rule.enemies_only || cs[j].is_enemy)
            && (rule.affect_self || !cs[j].is_source))) ==> targets(rule, cs).len() == 0,
    decreases cs.len(),
{
    if cs.len() > 0 {
        let rest = cs.drop_last();
        law_targets_are_admitted(rule, rest);
        assert forall|k: int| 0 <= k < targets(rule, cs).len() implies exists|j: int| 0 <= j < cs.len()
            && #[trigger] targets(rule, cs)[k] == cs[j].entity
            && cs[j].in_range && (!rule.enemies_only || cs[j].is_enemy) && (rule.affect_self || !cs[j].is_source) by {
            if k < targets(rule, rest).len() {
                assert(targets(rule, cs)[k] == targets(rule, rest)[k]);
                let j = choose|j: int| 0 <= j < rest.len()
                    && #[trigger] targets(rule, rest)[k] == rest[j].entity
                    && rest[j].in_range && (!rule.enemies_only || rest[j].is_enemy) && (rule.affect_self || !rest[j].is_source);
                assert(cs[j] == rest[j]);
            } else {
                assert(cs[cs.len() - 1] == cs.last());
            }
        }
        if forall|j: int| #![trigger cs[j]] 0 <= j < cs.len() ==> cs[j].in_range && (!rule.enemies_only || cs[j].is_enemy)
            && (rule.affect_self || !cs[j].is_source) {
            assert forall|j: int| #![trigger rest[j]] 0 <= j < rest.len() implies rest[j].in_range && (!rule.enemies_only || rest[j].is_enemy)
                && (rule.affect_self || !rest[j].is_source) by {
                assert(rest[j] == cs[j]);
            }
            assert(cs[cs.len() - 1] == cs.last());
            assert(rest.map_values(|c: Candidate| c.entity) =~= cs.map_values(|c: Candidate| c.entity).drop_last());
            assert(targets(rule, cs) =~= cs.map_values(|c: Candidate| c.entity));
        }
        if forall|j: int| #![trigger cs[j]] 0 <= j < cs.len() ==> !(cs[j].in_range && (!rule.enemies_only || cs[j].is_enemy)
            && (rule.affect_self || !cs[j].is_source)) {
            assert forall|j: int| #![trigger rest[j]] 0 <= j < rest.len() implies !(rest[j].in_range && (!rule.enemies_only || rest[j].is_enemy)
                && (rule.affect_self || !rest[j].is_source)) by {
                assert(rest[j] == cs[j]);
            }
            assert(cs[cs.len() - 1] == cs.last());
        }
    }
}

/// Which candidates are admitted does not depend on the limit.
proof fn lemma_admitted_same_rule(a: TargetRule, b: TargetRule, cs: Seq<Candidate>)
    requires
        a.enemies_only == b.enemies_only,
        a.affect_self == b.affect_self,
    ensures
        admitted(a, cs) == admitted(b, cs),
    decreases cs.len(),
{
    if cs.len() > 0 {
        lemma_admitted_same_rule(a, b, cs.drop_last());
    }
}

/// Picks the targets of an effect (see [`targets`]) from candidates that
/// the caller has sorted by distance from the source.
pub fn select_targets(rule: TargetRule, candidates: &[Candidate]) -> (r: Vec<u64>)
    ensures
        r@ == targets(rule, candidates@),
{
    let mut all: Vec<u64> = Vec::new();
    let mut i: usize = 0;
    while i < candidates.len()
        invariant
            i <= candidates@.len(),
            all@ == admitted(rule, candidates@.subrange(0, i as int)),
        decreases candidates@.len() - i,
    {
        let c = candidates[i];
        proof {
            assert(candidates@.subrange(0, i as int + 1).drop_last() =~= candidates@.subrange(0, i as int));
        }
        if c.in_range && (!rule.enemies_only || c.is_enemy) && (rule.affect_self || !c.is_source) {
            all.push(c.entity);
        }
        i = i + 1;
    }
    assert(candidates@.subrange(0, candidates@.len() as int) =~= candidates@);
    match rule.limit {
        Some(n) => {
            if n < all.len() {
                all.truncate(n);
                assert(all@ =~= admitted(rule, candidates@).take(n as int));
            }
            all
        },
        None => all,
    }
}

/// One entry handed to an entity's action queue: nothing, an effect to lay
/// on the entity (of type `E`), or an action to perform this frame (of type
/// `A`).
pub enum Queued<A, E> {
    Nothing,
    Effect(E),
    Act(A),
}

/// The actions an entity performs this frame and the effects that lie on
/// it. Effects are registered as they arrive; empty entries are dropped.
pub struct Actions<A, E> {
    queue: Vec<A>,
    effects: Vec<E>,
}

impl<A, E> Actions<A, E> {
    /// The actions queued this frame, in order.
    pub closed spec fn queued(&self) -> Seq<A> {
        self.queue@
    }

    /// The effects lying on the entity, in the order they arrived.
    pub closed spec fn laid(&self) -> Seq<E> {
        self.effects@
    }

    /// No actions and no effects.
    pub fn new() -> (r: Self)
        ensures
            r.queued() == Seq::<A>::empty(),
            r.laid() == Seq::<E>::empty(),
    {
        Actions { queue: Vec::new(), effects: Vec::new() }
    }

    /// The same entity with `effect` lying on it from the start.
    pub fn with_effect(self, effect: E) -> (r: Self)
        ensures
            r.queued() == self.queued(),
            r.laid() == self.laid().push(effect),
    {
        let mut a = self;
        a.effects.push(effect);
        a
    }

    /// Takes in one entry: an effect is laid on the entity at once, an
    /// action is queued, nothing is dropped.
    pub fn push(&mut self, entry: Queued<A, E>)
        ensures
            final(self).queued() == queue_after(old(self).queued(), seq![entry]),
            final(self).laid() == laid_after(old(self).laid(), seq![entry]),
    {
        proof {
            reveal_with_fuel(queue_after, 2);
            reveal_with_fuel(laid_after, 2);
        }
        match entry {
            Queued::Effect(e) => self.effects.push(e),
            Queued::Act(a) => self.queue.push(a),
            Queued::Nothing => {},
        }
    }

    /// Takes in several entries, in order.
    pub fn push_container(&mut self, entries: Vec<Queued<A, E>>)
        ensures
            final(self).queued() == queue_after(old(self).queued(), entries@),
            final(self).laid() == laid_after(old(self).laid(), entries@),
    {
        let ghost all = entries@;
        let mut rest = entries;
        let ghost mut k: int = 0;
        while rest.len() > 0
            invariant
                0 <= k <= all.len(),
                rest@ == all.skip(k),
                self.queued() == queue_after(old(self).queued(), all.take(k)),
                self.laid() == laid_after(old(self).laid(), all.take(k)),
            decreases rest@.len(),
        {
            let ghost done = all.take(k);
            let entry = rest.remove(0);
            proof {
                assert(entry == all[k]);
                assert(all.take(k + 1) =~= done.push(entry));
                assert(rest@ =~= all.skip(k + 1));
                lemma_after_push(old(self).queued(), old(self).laid(), done, entry);
                k = k + 1;
            }
            self.push(entry);
        }
        assert(all.take(k) =~= all);
    }

    /// The actions queued this frame.
    pub fn get_actions(&self) -> (r: &[A])
        ensures
            r@ == self.queued(),
    {
        self.queue.as_slice()
    }

    /// The effects lying on the entity.
    pub fn get_effects(&self) -> (r: &[E])
        ensures
            r@ == self.laid(),
    {
        self.effects.as_slice()
    }

    /// Empties the queue at the end of a frame; the effects stay.
    pub fn clear(&mut self)
        ensures
            final(self).queued() == Seq::<A>::empty(),
            final(self).laid() == old(self).laid(),
    {
        self.queue.clear();
    }
}

/// The queue after taking in `entries`, in order: their actions are added.
pub open spec fn queue_after<A, E>(queue: Seq<A>, entries: Seq<Queued<A, E>>) -> Seq<A>
    decreases entries.len(),
{
    if entries.len() == 0 {
        queue
    } else {
        let q = queue_after(queue, entries.drop_last());
        match entries.last() {
            Queued::Act(a) => q.push(a),
            _ => q,
        }
    }
}

/// The effects after taking in `entries`, in order: their effects are added.
pub open spec fn laid_after<A, E>(laid: Seq<E>, entries: Seq<Queued<A, E>>) -> Seq<E>
    decreases entries.len(),
{
    if entries.len() == 0 {
        laid
    } else {
        let l = laid_after(laid, entries.drop_last());
        match entries.last() {
            Queued::Effect(e) => l.push(e),
            _ => l,
        }
    }
}

/// Taking in entries together is taking them in one after another: the
/// queue and effects after `first + second` are those after `first`, then
/// `second`. So one `push_container` equals the series of `push` calls of
/// its entries.
pub proof fn law_container_is_series_of_pushes<A, E>(queue: Seq<A>, laid: Seq<E>, first: Seq<Queued<A, E>>, second: Seq<Queued<A, E>>)
    ensures
        queue_after(queue, first + second) == queue_after(queue_after(queue, first), second),
        laid_after(laid, first + second) == laid_after(laid_after(laid, first), second),
    decreases second.len(),
{
    if second.len() == 0 {
        assert(first + second =~= first);
    } else {
        law_container_is_series_of_pushes(queue, laid, first, second.drop_last());
        assert((first + second).drop_last() =~= first + second.drop_last());
        assert((first + second).last() == second.last());
    }
}

proof fn lemma_after_push<A, E>(queue: Seq<A>, laid: Seq<E>, done: Seq<Queued<A, E>>, entry: Queued<A, E>)
    ensures
        queue_after(queue, done.push(entry)) == queue_after(queue_after(queue, done), seq![entry]),
        laid_after(laid, done.push(entry)) == laid_after(laid_after(laid, done), seq![entry]),
{
    reveal_with_fuel(queue_after, 2);
    reveal_with_fuel(laid_after, 2);
    assert(done.push(entry).drop_last() =~= done);
    assert(seq![entry].drop_last() =~= Seq::<Queued<A, E>>::empty());
}

/// How long an entity lives: the nanoseconds it has lived and the
/// nanoseconds it may live.
#[derive(Clone, Copy, Debug, PartialEq, Eq, Structural)]
pub struct LifeDuration {
    pub life_duration: u64,
    pub max_duration: u64,
}

impl LifeDuration {
    /// A fresh entity that may live `max_duration` nanoseconds.
    pub fn new(max_duration: u64) -> (r: Self)
        ensures
            r == (LifeDuration { life_duration: 0, max_duration }),
    {
        LifeDuration { life_duration: 0, max_duration }
    }

    /// Lets `delta` nanoseconds pass; once the entity's time is up, it is
    /// to be removed as timed out (in every later frame as well).
    pub fn manage(&mut self, delta: u64) -> (r: Option<RemoveSource>)
        requires
            old(self).life_duration + delta <= u64::MAX,
        ensures
            final(self).life_duration == old(self).life_duration + delta,
            final(self).max_duration == old(self).max_duration,
            r == if final(self).life_duration >= final(self).max_duration {
                Some(RemoveSource::TimedOut)
            } else {
                None::<RemoveSource>
            },
    {
        self.life_duration = self.life_duration + delta;
        if self.life_duration >= self.max_duration {
            Some(RemoveSource::TimedOut)
        } else {
            None
        }
    }
}

} // verus!
