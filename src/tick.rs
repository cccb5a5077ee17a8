use crate::ability::{CancelCastAbility, TryAbility};
use crate::effect::{
    periodic_fired, point_bounds, Effect, MomentaryEffectPerformed, PerformEffect,
    PerformMomentaryEffect,
};
use crate::geometry::Vec2;
use crate::mana::REGEN_MANA_INTERVAL;
use crate::world::{
    aging_events, area_events, attempt_handled, cancel_handled, cast_advanced, cast_events,
    completes, cooldowns_expired, each_creature, effect_events, effect_performed, effect_wf,
    effects_aged, lemma_periodic_fired_wf, mana_regenerated, momentary_performed, positions,
    regen_steps, resolution_events, AbilityError, Creature, World,
};
use crate::ability::Ability;
use vstd::prelude::*;

verus! {
/// Every effect of `s` has its bounds in order.
pub open spec fn events_wf(s: Seq<PerformEffect>) -> bool {
    forall|k: int| 0 <= k < s.len() ==> effect_wf(#[trigger] s[k].effect)
}

pub(crate) proof fn lemma_events_wf_concat(a: Seq<PerformEffect>, b: Seq<PerformEffect>)
    requires
        events_wf(a),
        events_wf(b),
    ensures
        events_wf(a + b),
{
    assert forall|k: int| 0 <= k < (a + b).len() implies effect_wf(#[trigger] (a + b)[k].effect) by {
        if k < a.len() {
            assert((a + b)[k] == a[k]);
        } else {
            assert((a + b)[k] == b[k - a.len()]);
        }
    }
}

pub(crate) proof fn lemma_area_events_wf(
    positions: Seq<Vec2>,
    obstacles: Seq<Vec2>,
    source: usize,
    effect: Effect,
    range: u32,
    k: int,
)
    requires
        effect_wf(effect),
    ensures
        events_wf(area_events(positions, obstacles, source, effect, range, k)),
    decreases k,
{
    if k > 0 {
        lemma_area_events_wf(positions, obstacles, source, effect, range, k - 1);
    }
}

pub(crate) proof fn lemma_resolution_events_wf(
    positions: Seq<Vec2>,
    obstacles: Seq<Vec2>,
    source: usize,
    ability: Ability,
    target: Option<usize>,
)
    requires
        ability.wf(),
    ensures
        events_wf(resolution_events(positions, obstacles, source, ability, target)),
{
    lemma_area_events_wf(positions, obstacles, source, ability.effect.0, ability.range, positions.len() as int);
    let first = effect_events(positions, obstacles, source, ability.effect, ability.range, target);
    let second = match ability.secondary_effect {
        Some(e) => effect_events(positions, obstacles, source, e, ability.range, target),
        None => seq![],
    };
    if let Some(e) = ability.secondary_effect {
        lemma_area_events_wf(positions, obstacles, source, e.0, ability.range, positions.len() as int);
    }
    lemma_events_wf_concat(first, second);
}

pub(crate) proof fn lemma_cast_events_wf(creatures: Seq<Creature>, obstacles: Seq<Vec2>, delta: u64, k: int)
    requires
        k <= creatures.len(),
        forall|i: int| 0 <= i < creatures.len() ==> (#[trigger] creatures[i]).wf(),
    ensures
        events_wf(cast_events(creatures, obstacles, delta, k)),
    decreases k,
{
    if k > 0 {
        lemma_cast_events_wf(creatures, obstacles, delta, k - 1);
        let c = creatures[k - 1];
        if completes(c, delta) {
            assert(c.wf());
            lemma_resolution_events_wf(
                positions(creatures),
                obstacles,
                (k - 1) as usize,
                c.cast_ability.unwrap().ability,
                c.cast_ability.unwrap().target,
            );
            lemma_events_wf_concat(
                cast_events(creatures, obstacles, delta, k - 1),
                resolution_events(
                    positions(creatures),
                    obstacles,
                    (k - 1) as usize,
                    c.cast_ability.unwrap().ability,
                    c.cast_ability.unwrap().target,
                ),
            );
        }
    }
}

/// Every momentary effect of `s` has its bounds in order.
pub open spec fn momentary_events_wf(s: Seq<PerformMomentaryEffect>) -> bool {
    forall|k: int|
        0 <= k < s.len() ==> point_bounds((#[trigger] s[k]).effect).0 <= point_bounds(s[k].effect).1
}

pub(crate) proof fn lemma_aging_events_wf(creatures: Seq<Creature>, delta: u64, k: int)
    requires
        k <= creatures.len(),
        forall|i: int| 0 <= i < creatures.len() ==> (#[trigger] creatures[i]).wf(),
    ensures
        momentary_events_wf(aging_events(creatures, delta, k)),
    decreases k,
{
    if k > 0 {
        lemma_aging_events_wf(creatures, delta, k - 1);
        assert(creatures[k - 1].wf());
        let a = aging_events(creatures, delta, k - 1);
        let b = periodic_fired(
            creatures[k - 1].periodic_momentary_effects.instances@,
            delta,
            (k - 1) as usize,
        );
        lemma_periodic_fired_wf(
            creatures[k - 1].periodic_momentary_effects.instances@,
            delta,
            (k - 1) as usize,
        );
        assert forall|j: int| 0 <= j < (a + b).len() implies point_bounds(
            (#[trigger] (a + b)[j]).effect,
        ).0 <= point_bounds((a + b)[j].effect).1 by {
            if j < a.len() {
                assert((a + b)[j] == a[j]);
            } else {
                assert((a + b)[j] == b[j - a.len()]);
            }
        }
    }
}

/// The results of ability attempts as the caller sees them.
pub open spec fn attempt_result(r: Result<Seq<PerformEffect>, AbilityError>) -> Result<(), AbilityError> {
    match r {
        Ok(_) => Ok(()),
        Err(e) => Err(e),
    }
}

/// The effect requests of the accepted attempts among `rs`, in order.
pub open spec fn accepted_events(rs: Seq<Result<Seq<PerformEffect>, AbilityError>>) -> Seq<PerformEffect>
    decreases rs.len(),
{
    if rs.len() == 0 {
        seq![]
    } else {
        accepted_events(rs.drop_last()) + match rs.last() {
            Ok(v) => v,
            Err(_) => seq![],
        }
    }
}

/// The notifications among `rs`, in order.
pub open spec fn notifications(rs: Seq<Option<MomentaryEffectPerformed>>) -> Seq<MomentaryEffectPerformed>
    decreases rs.len(),
{
    if rs.len() == 0 {
        seq![]
    } else {
        notifications(rs.drop_last()) + match rs.last() {
            Some(n) => seq![n],
            None => seq![],
        }
    }
}

/// The intermediate states of one simulation step.
pub struct TickTrace {
    pub expired: World,
    pub attempt_worlds: Seq<World>,
    pub attempt_results: Seq<Result<Seq<PerformEffect>, AbilityError>>,
    pub cancel_worlds: Seq<World>,
    pub cast_world: World,
    pub effect_requests: Seq<PerformEffect>,
    pub effect_worlds: Seq<World>,
    pub effect_results: Seq<Option<MomentaryEffectPerformed>>,
    pub regen_world: World,
    pub aged_world: World,
    pub fired: Seq<PerformMomentaryEffect>,
    pub momentary_worlds: Seq<World>,
    pub momentary_results: Seq<Option<MomentaryEffectPerformed>>,
}

/// One simulation step of `delta` milliseconds, in order: cooldowns and regeneration
/// pauses age; attempts, then cancellations, are handled; casts advance; the effect
/// requests of accepted instant attempts and of completed casts are handled; mana
/// regenerates; lasting and periodic effects age and the periodic ones apply.
pub open spec fn tick_trace(
    before: World,
    after: World,
    delta: u64,
    tries: Seq<TryAbility>,
    cancels: Seq<CancelCastAbility>,
    attempts: Seq<Result<(), AbilityError>>,
    performed: Seq<MomentaryEffectPerformed>,
    t: TickTrace,
) -> bool {
    let n = tries.len();
    let m = cancels.len();
    let e = t.effect_requests.len();
    let f = t.fired.len();
    &&& each_creature(before, t.expired, |b: Creature, a: Creature| cooldowns_expired(b, a, delta))
    &&& t.expired.regen_elapsed == before.regen_elapsed
    &&& t.attempt_worlds.len() == n + 1 && t.attempt_results.len() == n
    &&& t.attempt_worlds[0] == t.expired
    &&& forall|k: int|
        0 <= k < n ==> attempt_handled(
            #[trigger] t.attempt_worlds[k],
            t.attempt_worlds[k + 1],
            tries[k],
            t.attempt_results[k],
        )
    &&& attempts.len() == n
    &&& forall|k: int| 0 <= k < n ==> #[trigger] attempts[k] == attempt_result(t.attempt_results[k])
    &&& t.cancel_worlds.len() == m + 1
    &&& t.cancel_worlds[0] == t.attempt_worlds[n as int]
    &&& forall|k: int|
        0 <= k < m ==> cancel_handled(#[trigger] t.cancel_worlds[k], t.cancel_worlds[k + 1], cancels[k])
    &&& each_creature(t.cancel_worlds[m as int], t.cast_world, |b: Creature, a: Creature| cast_advanced(b, a, delta))
    &&& t.cast_world.regen_elapsed == t.cancel_worlds[m as int].regen_elapsed
    &&& t.effect_requests == accepted_events(t.attempt_results) + cast_events(
        t.cancel_worlds[m as int].creatures@,
        t.cancel_worlds[m as int].obstacles@,
        delta,
        t.cancel_worlds[m as int].creatures@.len() as int,
    )
    &&& t.effect_worlds.len() == e + 1 && t.effect_results.len() == e
    &&& t.effect_worlds[0] == t.cast_world
    &&& forall|k: int|
        0 <= k < e ==> effect_performed(
            #[trigger] t.effect_worlds[k],
            t.effect_worlds[k + 1],
            t.effect_requests[k],
            t.effect_results[k],
        )
    &&& t.regen_world.regen_elapsed == (t.effect_worlds[e as int].regen_elapsed + delta) % (REGEN_MANA_INTERVAL as int)
    &&& each_creature(
        t.effect_worlds[e as int],
        t.regen_world,
        |b: Creature, a: Creature| mana_regenerated(b, a, regen_steps(t.effect_worlds[e as int].regen_elapsed, delta)),
    )
    &&& each_creature(t.regen_world, t.aged_world, |b: Creature, a: Creature| effects_aged(b, a, delta))
    &&& t.aged_world.regen_elapsed == t.regen_world.regen_elapsed
    &&& t.fired == aging_events(t.regen_world.creatures@, delta, t.regen_world.creatures@.len() as int)
    &&& t.momentary_worlds.len() == f + 1 && t.momentary_results.len() == f
    &&& t.momentary_worlds[0] == t.aged_world
    &&& forall|k: int|
        0 <= k < f ==> momentary_performed(
            #[trigger] t.momentary_worlds[k],
            t.momentary_worlds[k + 1],
            t.fired[k],
            t.momentary_results[k],
        )
    &&& after == t.momentary_worlds[f as int]
    &&& performed == notifications(t.effect_results) + notifications(t.momentary_results)
}

/// What one simulation step reports: the result of each attempt, in order, and the
/// momentary effects applied.
pub struct TickOutcome {
    pub attempts: Vec<Result<(), AbilityError>>,
    pub performed: Vec<MomentaryEffectPerformed>,
}

impl World {
    /// Runs one simulation step of `delta` milliseconds with the attempts `tries` and the
    /// cancellations `cancels` that arrived during it.
    pub fn tick(
        &mut self,
        delta: u64,
        tries: &Vec<TryAbility>,
        cancels: &Vec<CancelCastAbility>,
    ) -> (r: TickOutcome)
        requires
            old(self).wf(),
            forall|k: int|
                0 <= k < tries@.len() ==> (#[trigger] tries@[k]).source < old(self).creatures@.len()
                    && tries@[k].ability.wf(),
        ensures
            final(self).wf(),
            final(self).creatures@.len() == old(self).creatures@.len(),
            exists|t: TickTrace|
                tick_trace(
                    *old(self),
                    *final(self),
                    delta,
                    tries@,
                    cancels@,
                    r.attempts@,
                    r.performed@,
                    t,
                ),
    {
        let ghost before = *old(self);
        let ghost n_creatures = self.creatures@.len();
        self.expire_cooldowns(delta);
        let ghost expired = *self;

        let mut attempts: Vec<Result<(), AbilityError>> = Vec::new();
        let mut requests: Vec<PerformEffect> = Vec::new();
        let ghost mut aw: Seq<World> = seq![*self];
        let ghost mut ar: Seq<Result<Seq<PerformEffect>, AbilityError>> = seq![];
        let mut k: usize = 0;
        while k < tries.len()
            invariant
                k <= tries@.len(),
                self.wf(),
                self.creatures@.len() == n_creatures,
                forall|j: int|
                    0 <= j < tries@.len() ==> (#[trigger] tries@[j]).source < n_creatures
                        && tries@[j].ability.wf(),
                aw.len() == k + 1,
                ar.len() == k,
                aw[0] == expired,
                aw[k as int] == *self,
                forall|j: int| 0 <= j < k ==> attempt_handled(#[trigger] aw[j], aw[j + 1], tries@[j], ar[j]),
                attempts@.len() == k,
                forall|j: int| 0 <= j < k ==> #[trigger] attempts@[j] == attempt_result(ar[j]),
                requests@ == accepted_events(ar),
                events_wf(requests@),
            decreases tries@.len() - k,
        {
            let ghost w0 = *self;
            let result = self.try_ability(&tries[k]);
            let ghost gr = match &result {
                Ok(v) => Ok(v@),
                Err(e) => Err(*e),
            };
            proof {
                assert(ar.push(gr).drop_last() =~= ar);
                if let Ok(v) = &result {
                    lemma_resolution_events_wf(
                        positions(w0.creatures@),
                        w0.obstacles@,
                        tries@[k as int].source,
                        tries@[k as int].ability,
                        tries@[k as int].target,
                    );
                    lemma_events_wf_concat(requests@, v@);
                }
                aw = aw.push(*self);
                ar = ar.push(gr);
            }
            match result {
                Ok(mut v) => {
                    requests.append(&mut v);
                    attempts.push(Ok(()));
                },
                Err(e) => {
                    attempts.push(Err(e));
                },
            }
            k = k + 1;
        }

        let ghost mut cw: Seq<World> = seq![*self];
        let mut k: usize = 0;
        while k < cancels.len()
            invariant
                k <= cancels@.len(),
                self.wf(),
                self.creatures@.len() == n_creatures,
                cw.len() == k + 1,
                cw[0] == aw[tries@.len() as int],
                cw[k as int] == *self,
                forall|j: int| 0 <= j < k ==> cancel_handled(#[trigger] cw[j], cw[j + 1], cancels@[j]),
            decreases cancels@.len() - k,
        {
            self.cancel_cast_ability(&cancels[k]);
            proof {
                cw = cw.push(*self);
            }
            k = k + 1;
        }

        let ghost cancelled = *self;
        let mut completed = self.cast_abilities(delta);
        proof {
            lemma_cast_events_wf(cancelled.creatures@, cancelled.obstacles@, delta, cancelled.creatures@.len() as int);
            lemma_events_wf_concat(requests@, completed@);
        }
        requests.append(&mut completed);
        let ghost cast_world = *self;

        let mut performed: Vec<MomentaryEffectPerformed> = Vec::new();
        let ghost mut ew: Seq<World> = seq![*self];
        let ghost mut er: Seq<Option<MomentaryEffectPerformed>> = seq![];
        let mut k: usize = 0;
        while k < requests.len()
            invariant
                k <= requests@.len(),
                self.wf(),
                self.creatures@.len() == n_creatures,
                events_wf(requests@),
                ew.len() == k + 1,
                er.len() == k,
                ew[0] == cast_world,
                ew[k as int] == *self,
                forall|j: int| 0 <= j < k ==> effect_performed(#[trigger] ew[j], ew[j + 1], requests@[j], er[j]),
                performed@ == notifications(er),
            decreases requests@.len() - k,
        {
            let result = self.perform_effect(&requests[k]);
            proof {
                assert(er.push(result).drop_last() =~= er);
                ew = ew.push(*self);
                er = er.push(result);
            }
            if let Some(p) = result {
                performed.push(p);
            }
            k = k + 1;
        }

        self.regen_mana(delta);
        let ghost regen_world = *self;
        let fired = self.tick_effects(delta);
        let ghost aged_world = *self;
        proof {
            lemma_aging_events_wf(regen_world.creatures@, delta, regen_world.creatures@.len() as int);
        }

        let ghost mut mw: Seq<World> = seq![*self];
        let ghost mut mr: Seq<Option<MomentaryEffectPerformed>> = seq![];
        let ghost performed_by_effects = performed@;
        let mut k: usize = 0;
        while k < fired.len()
            invariant
                k <= fired@.len(),
                self.wf(),
                self.creatures@.len() == n_creatures,
                momentary_events_wf(fired@),
                mw.len() == k + 1,
                mr.len() == k,
                mw[0] == aged_world,
                mw[k as int] == *self,
                forall|j: int| 0 <= j < k ==> momentary_performed(#[trigger] mw[j], mw[j + 1], fired@[j], mr[j]),
                performed@ == performed_by_effects + notifications(mr),
            decreases fired@.len() - k,
        {
            let result = self.perform_momentary_effect(&fired[k]);
            proof {
                assert(mr.push(result).drop_last() =~= mr);
                mw = mw.push(*self);
                mr = mr.push(result);
            }
            if let Some(p) = result {
                performed.push(p);
            }
            k = k + 1;
        }
        let ghost trace = TickTrace {
            expired,
            attempt_worlds: aw,
            attempt_results: ar,
            cancel_worlds: cw,
            cast_world,
            effect_requests: requests@,
            effect_worlds: ew,
            effect_results: er,
            regen_world,
            aged_world,
            fired: fired@,
            momentary_worlds: mw,
            momentary_results: mr,
        };
        let r = TickOutcome { attempts, performed };
        assert(tick_trace(before, *self, delta, tries@, cancels@, r.attempts@, r.performed@, trace));
        r
    }

}

} // verus!
