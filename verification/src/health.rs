use vstd::prelude::*;
use crate::actions::RemoveSource;
use crate::game_data::{GameDataAction, fits_i32};
use crate::game_message::GameMessage;

verus! {

/// The health of a unit that can take damage.
pub struct Health {
    curr_health: i32,
    max_health: i32,
}

/// What an action does to a unit's health.
#[derive(Clone, Copy, Debug, PartialEq, Eq, Structural)]
pub enum HealthAction {
    /// The unit takes damage.
    TakeDamage { dmg: i32 },
    /// The unit is healed, but not above its maximum health.
    TakeHealing { heal: i32 },
    /// The action does not concern health.
    Unrelated,
}

/// The health `curr` after `action`, with `max` the maximum health.
pub open spec fn health_step(curr: int, max: int, action: HealthAction) -> int {
    match action {
        HealthAction::TakeDamage { dmg } => curr - dmg,
        HealthAction::TakeHealing { heal } => if curr + heal < max { curr + heal } else { max },
        HealthAction::Unrelated => curr,
    }
}

/// The health `curr` after `actions`, in order, with `max` the maximum health.
pub open spec fn health_after(curr: int, max: int, actions: Seq<HealthAction>) -> int
    decreases actions.len(),
{
    if actions.len() == 0 {
        curr
    } else {
        health_step(health_after(curr, max, actions.drop_last()), max, actions.last())
    }
}

/// Whether applying `action` to the health `curr` stays within `i32`.
pub open spec fn step_fits(curr: int, action: HealthAction) -> bool {
    match action {
        HealthAction::TakeDamage { dmg } => fits_i32(curr - dmg),
        HealthAction::TakeHealing { heal } => fits_i32(curr + heal),
        HealthAction::Unrelated => true,
    }
}

impl Health {
    /// The current health.
    pub closed spec fn current(self) -> i32 {
        self.curr_health
    }

    /// The maximum health.
    pub closed spec fn maximum(self) -> i32 {
        self.max_health
    }

    /// A unit at full health `health`.
    pub fn new(health: i32) -> (r: Self)
        ensures
            r.current() == health,
            r.maximum() == health,
    {
        Health { curr_health: health, max_health: health }
    }

    /// The current health, not below zero.
    pub fn get_current_health(&self) -> (r: i32)
        ensures
            r == if self.current() > 0 { self.current() } else { 0 },
    {
        if self.curr_health > 0 { self.curr_health } else { 0 }
    }

    /// The maximum health, not below zero.
    pub fn get_max_health(&self) -> (r: i32)
        ensures
            r == if self.maximum() > 0 { self.maximum() } else { 0 },
    {
        if self.max_health > 0 { self.max_health } else { 0 }
    }

    /// Whether the unit has no health left.
    pub fn is_dead(&self) -> (r: bool)
        ensures
            r == (self.current() <= 0),
    {
        self.curr_health <= 0
    }
}

/// Applies damage and healing, in order, to a unit's health; healing does
/// not raise it above the maximum.
pub fn resolve_damage(health: &mut Health, actions: &[HealthAction])
    requires
        forall|k: int| 0 <= k < actions@.len() ==>
            step_fits(health_after(old(health).current() as int, old(health).maximum() as int, actions@.take(k)), #[trigger] actions@[k]),
    ensures
        final(health).current() == health_after(old(health).current() as int, old(health).maximum() as int, actions@),
        final(health).maximum() == old(health).maximum(),
{
    let ghost c0 = health.curr_health as int;
    let ghost m = health.max_health as int;
    let mut i: usize = 0;
    while i < actions.len()
        invariant
            i <= actions@.len(),
            m == health.max_health,
            m == old(health).maximum(),
            c0 == old(health).current(),
            health.curr_health == health_after(c0, m, actions@.take(i as int)),
            forall|k: int| 0 <= k < actions@.len() ==>
                step_fits(health_after(c0, m, actions@.take(k)), #[trigger] actions@[k]),
        decreases actions.len() - i,
    {
        assert(actions@.take(i + 1).drop_last() =~= actions@.take(i as int));
        assert(actions@.take(i + 1).last() == actions@[i as int]);
        match actions[i] {
            HealthAction::TakeDamage { dmg } => {
                health.curr_health = health.curr_health - dmg;
            },
            HealthAction::TakeHealing { heal } => {
                let healed = health.curr_health + heal;
                health.curr_health = if healed < health.max_health { healed } else { health.max_health };
            },
            HealthAction::Unrelated => {},
        }
        i = i + 1;
    }
    assert(actions@.take(actions@.len() as int) =~= actions@);
}

/// Whether `actions` hold no negative damage.
pub open spec fn only_harm(actions: Seq<HealthAction>) -> bool {
    forall|k: int| 0 <= k < actions.len() ==> (#[trigger] actions[k] matches HealthAction::TakeDamage { dmg } ==> dmg >= 0)
}

/// Healing never raises a unit above its maximum health: a unit at or below
/// its maximum stays there through any damage (of at least zero) and healing.
pub proof fn law_healing_is_capped(curr: int, max: int, actions: Seq<HealthAction>)
    requires
        curr <= max,
        only_harm(actions),
    ensures
        health_after(curr, max, actions) <= max,
    decreases actions.len(),
{
    if actions.len() > 0 {
        let rest = actions.drop_last();
        assert(only_harm(rest)) by {
            assert forall|k: int| 0 <= k < rest.len() implies (#[trigger] rest[k] matches HealthAction::TakeDamage { dmg } ==> dmg >= 0) by {
                assert(rest[k] == actions[k]);
            }
        }
        law_healing_is_capped(curr, max, rest);
        assert(actions.last() == actions[actions.len() - 1]);
    }
}

/// An enemy: the damage it deals to the city when it reaches it, and the
/// bounty it grants when killed.
pub struct Enemy {
    damage: i32,
    bounty: i32,
}

impl Enemy {
    /// The damage the enemy deals to the city.
    pub closed spec fn damage(self) -> i32 {
        self.damage
    }

    /// The bounty the enemy grants when killed.
    pub closed spec fn bounty(self) -> i32 {
        self.bounty
    }

    /// A new enemy.
    pub fn new(damage: i32, bounty: i32) -> (r: Self)
        ensures
            r.damage() == damage,
            r.bounty() == bounty,
    {
        Enemy { damage, bounty }
    }

    /// The damage the enemy deals to the city.
    pub fn get_damage(&self) -> (r: i32)
        ensures
            r == self.damage(),
    {
        self.damage
    }

    /// The bounty the enemy grants when killed.
    pub fn get_bounty(&self) -> (r: i32)
        ensures
            r == self.bounty(),
    {
        self.bounty
    }
}

/// What follows from a unit's death or from an enemy reaching the city.
#[derive(Clone, Copy, Debug, PartialEq, Eq, Structural)]
pub enum DeathEffect {
    /// A game-data action to take.
    Data(GameDataAction),
    /// A message to send.
    Message(GameMessage),
    /// The unit is removed for this reason.
    Remove(RemoveSource),
}

/// What a unit with no health left causes: an enemy grants its bounty as
/// gold and is announced as killed; every such unit is removed.
pub fn destroy_by_health(health: &Health, enemy: Option<&Enemy>) -> (r: Vec<DeathEffect>)
    ensures
        health.current() > 0 ==> r@ == Seq::<DeathEffect>::empty(),
        health.current() <= 0 ==> r@ == match enemy {
            Some(e) => seq![
                DeathEffect::Data(GameDataAction::GainGold { amount: e.bounty() }),
                DeathEffect::Message(GameMessage::EnemyKilled(e.bounty())),
                DeathEffect::Remove(RemoveSource::HealthLoss),
            ],
            None => seq![DeathEffect::Remove(RemoveSource::HealthLoss)],
        },
{
    let mut effects: Vec<DeathEffect> = Vec::new();
    if health.curr_health <= 0 {
        if let Some(e) = enemy {
            effects.push(DeathEffect::Data(GameDataAction::GainGold { amount: e.bounty }));
            effects.push(DeathEffect::Message(GameMessage::EnemyKilled(e.bounty)));
        }
        effects.push(DeathEffect::Remove(RemoveSource::HealthLoss));
    }
    effects
}

/// What an enemy that reached the city causes: damage to the city, and its removal.
pub fn enemy(reached: &Enemy) -> (r: Vec<DeathEffect>)
    ensures
        r@ == seq![
            DeathEffect::Data(GameDataAction::TakeCityDamage { dmg: reached.damage() }),
            DeathEffect::Remove(RemoveSource::EnemyReachedBottom),
        ],
{
    let mut effects: Vec<DeathEffect> = Vec::new();
    effects.push(DeathEffect::Data(GameDataAction::TakeCityDamage { dmg: reached.damage }));
    effects.push(DeathEffect::Remove(RemoveSource::EnemyReachedBottom));
    effects
}

} // verus!
