use vstd::prelude::*;
use crate::buildings::{Buildings, BUILDING_MAX_LEVEL, BUILDING_TYPES, building_costs, get_building_info};
use crate::game_message::GameMessage;

verus! {

/// The general data of a game: score, gold, the city's health and the buildings.
pub struct GameData {
    /// The total score achieved so far.
    score: i32,
    /// The gold the player holds.
    gold: i32,
    /// The gold the player held when it was last announced.
    last_gold: i32,
    /// The health the city has left.
    pub city_health: i32,
    /// The state of the buildings.
    pub buildings: Buildings,
}

/// What a game action does to the game data.
#[derive(Clone, Copy, Debug, PartialEq, Eq, Structural)]
pub enum GameDataAction {
    /// The player earns gold (and as much score).
    GainGold { amount: i32 },
    /// The city takes damage.
    TakeCityDamage { dmg: i32 },
    /// The action does not concern the game data.
    Unrelated,
}

/// The gold earned by `actions`.
pub open spec fn gold_gained(actions: Seq<GameDataAction>) -> int
    decreases actions.len(),
{
    if actions.len() == 0 {
        0
    } else {
        gold_gained(actions.drop_last()) + match actions.last() {
            GameDataAction::GainGold { amount } => amount as int,
            _ => 0,
        }
    }
}

/// The damage `actions` deal to the city.
pub open spec fn city_damage(actions: Seq<GameDataAction>) -> int
    decreases actions.len(),
{
    if actions.len() == 0 {
        0
    } else {
        city_damage(actions.drop_last()) + match actions.last() {
            GameDataAction::TakeCityDamage { dmg } => dmg as int,
            _ => 0,
        }
    }
}

/// Whether `action` damages the city (a damage of zero counts too).
pub open spec fn is_city_hit(action: GameDataAction) -> bool {
    action matches GameDataAction::TakeCityDamage { .. }
}

/// Whether one of `actions` damages the city (a damage of zero counts too).
pub open spec fn hits_city(actions: Seq<GameDataAction>) -> bool {
    exists|i: int| 0 <= i < actions.len() && #[trigger] is_city_hit(actions[i])
}

/// Whether `x` fits into an `i32`.
pub open spec fn fits_i32(x: int) -> bool {
    i32::MIN <= x <= i32::MAX
}

impl GameData {
    /// The total score achieved so far.
    pub closed spec fn score(self) -> i32 {
        self.score
    }

    /// The gold the player holds.
    pub closed spec fn gold(self) -> i32 {
        self.gold
    }

    /// The gold the player held when it was last announced.
    pub closed spec fn last_gold(self) -> i32 {
        self.last_gold
    }

    /// The health the city has left.
    pub closed spec fn city(self) -> i32 {
        self.city_health
    }

    /// The state of the buildings.
    pub closed spec fn town(self) -> Buildings {
        self.buildings
    }

    /// A new game with no score, the given gold and city health, and no buildings.
    pub fn new(gold: i32, city_health: i32) -> (r: Self)
        ensures
            r.score() == 0,
            r.gold() == gold,
            r.last_gold() == 0,
            r.city() == city_health,
            r.town().target_levels() == seq![0u8, 0u8, 0u8],
            r.town().current_levels() == seq![0u8, 0u8, 0u8],
    {
        GameData { score: 0, gold, last_gold: 0, city_health, buildings: Buildings::new() }
    }

    /// Adds `amount` to both the gold and the score.
    pub fn add_gold(&mut self, amount: i32)
        requires
            fits_i32(old(self).score() + amount),
            fits_i32(old(self).gold() + amount),
        ensures
            final(self).score() == old(self).score() + amount,
            final(self).gold() == old(self).gold() + amount,
            final(self).last_gold() == old(self).last_gold(),
            final(self).city() == old(self).city(),
            final(self).town() == old(self).town(),
    {
        self.score = self.score + amount;
        self.gold = self.gold + amount;
    }

    /// Spends `amount` gold if the player holds at least that much; returns
    /// whether it was spent. Nothing changes when it was not.
    pub fn spend(&mut self, amount: i32) -> (r: bool)
        requires
            amount <= old(self).gold() ==> fits_i32(old(self).gold() - amount),
        ensures
            r == (amount <= old(self).gold()),
            final(self).gold() == if r { old(self).gold() - amount } else { old(self).gold() as int },
            final(self).score() == old(self).score(),
            final(self).last_gold() == old(self).last_gold(),
            final(self).city() == old(self).city(),
            final(self).town() == old(self).town(),
    {
        if amount <= self.gold {
            self.gold = self.gold - amount;
            true
        } else {
            false
        }
    }

    /// The total score achieved so far.
    pub fn get_score(&self) -> (r: i32)
        ensures
            r == self.score(),
    {
        self.score
    }

    /// The gold the player holds.
    pub fn get_gold(&self) -> (r: i32)
        ensures
            r == self.gold(),
    {
        self.gold
    }

    /// The level of building `i` that the player has paid for.
    pub fn building_level(&self, i: usize) -> (r: u8)
        requires
            i < BUILDING_TYPES,
        ensures
            r == self.town().target_levels()[i as int],
    {
        self.buildings.target_level(i)
    }

    /// Whether the city has fallen, which ends the game.
    pub fn is_game_over(&self) -> (r: bool)
        ensures
            r == (self.city() <= 0),
    {
        self.city_health <= 0
    }

    /// Raises building `i` by one level if it is below the highest level and
    /// the player can pay for the next level; returns whether it was raised.
    pub fn purchase_building(&mut self, i: usize) -> (r: bool)
        requires
            i < BUILDING_TYPES,
        ensures
            ({
                let level = old(self).town().target_levels()[i as int];
                let cost = building_costs(i as int)[level as int];
                &&& r == (level < BUILDING_MAX_LEVEL && cost <= old(self).gold())
                &&& final(self).gold() == if r { old(self).gold() - cost } else { old(self).gold() as int }
                &&& final(self).town().target_levels() == if r {
                    old(self).town().target_levels().update(i as int, (level + 1) as u8)
                } else {
                    old(self).town().target_levels()
                }
            }),
            final(self).town().current_levels() == old(self).town().current_levels(),
            final(self).score() == old(self).score(),
            final(self).last_gold() == old(self).last_gold(),
            final(self).city() == old(self).city(),
    {
        let level = self.buildings.target_level(i);
        if (level as usize) < BUILDING_MAX_LEVEL {
            let info = get_building_info(i);
            let cost = info.level_cost(level as usize);
            if self.spend(cost as i32) {
                self.buildings.set_target_level(i, level + 1);
                return true;
            }
        }
        false
    }
}

/// The gold, score and gold spent after the purse operations `ops`, in
/// order, starting from `gold` and `score` with nothing spent: `(true, a)`
/// earns `a` (as [GameData::add_gold]), `(false, a)` tries to spend `a` (as
/// [GameData::spend]).
pub open spec fn purse_run(gold: int, score: int, ops: Seq<(bool, int)>) -> (int, int, int)
    decreases ops.len(),
{
    if ops.len() == 0 {
        (gold, score, 0)
    } else {
        let (g, s, spent) = purse_run(gold, score, ops.drop_last());
        let (earn, a) = ops.last();
        if earn {
            (g + a, s + a, spent)
        } else if a <= g {
            (g - a, s, spent + a)
        } else {
            (g, s, spent)
        }
    }
}

/// The gold a player holds is the starting gold plus the score earned
/// since, minus the gold spent.
pub proof fn law_gold_is_score_minus_spent(gold: int, score: int, ops: Seq<(bool, int)>)
    ensures
        purse_run(gold, score, ops).0 == gold + (purse_run(gold, score, ops).1 - score) - purse_run(gold, score, ops).2,
    decreases ops.len(),
{
    if ops.len() > 0 {
        law_gold_is_score_minus_spent(gold, score, ops.drop_last());
    }
}

/// Applies the game-data part of one entity's actions (gold earned, damage
/// to the city) and returns the messages to send: the new gold when it
/// differs from the gold last announced, then the new city health when the
/// city was hit.
pub fn resolve_gama_data(game_data: &mut GameData, actions: &[GameDataAction]) -> (r: Vec<GameMessage>)
    requires
        forall|k: int| 0 <= k <= actions@.len() ==> {
            &&& fits_i32(old(game_data).score() + gold_gained(actions@.take(k)))
            &&& fits_i32(old(game_data).gold() + gold_gained(actions@.take(k)))
            &&& fits_i32(old(game_data).city() - city_damage(actions@.take(k)))
        },
    ensures
        final(game_data).score() == old(game_data).score() + gold_gained(actions@),
        final(game_data).gold() == old(game_data).gold() + gold_gained(actions@),
        final(game_data).city() == old(game_data).city() - city_damage(actions@),
        final(game_data).last_gold() == final(game_data).gold(),
        final(game_data).town() == old(game_data).town(),
        r@ == (if old(game_data).last_gold() != final(game_data).gold() {
            seq![GameMessage::UpdateGold(final(game_data).gold())]
        } else {
            Seq::empty()
        }) + (if hits_city(actions@) {
            seq![GameMessage::UpdateCityHealth(final(game_data).city())]
        } else {
            Seq::empty()
        }),
{
    let mut change_city = false;
    let mut i: usize = 0;
    while i < actions.len()
        invariant
            i <= actions.len(),
            forall|k: int| 0 <= k <= actions@.len() ==> {
                &&& fits_i32(old(game_data).score() + gold_gained(actions@.take(k)))
                &&& fits_i32(old(game_data).gold() + gold_gained(actions@.take(k)))
                &&& fits_i32(old(game_data).city() - city_damage(actions@.take(k)))
            },
            game_data.score() == old(game_data).score() + gold_gained(actions@.take(i as int)),
            game_data.gold() == old(game_data).gold() + gold_gained(actions@.take(i as int)),
            game_data.city() == old(game_data).city() - city_damage(actions@.take(i as int)),
            game_data.last_gold() == old(game_data).last_gold(),
            game_data.town() == old(game_data).town(),
            change_city == hits_city(actions@.take(i as int)),
        decreases actions.len() - i,
    {
        let ghost prefix = actions@.take(i as int);
        let ghost next = actions@.take(i + 1);
        assert(next.drop_last() =~= prefix);
        assert(next.last() == actions@[i as int]);
        match actions[i] {
            GameDataAction::GainGold { amount } => {
                game_data.add_gold(amount);
            },
            GameDataAction::TakeCityDamage { dmg } => {
                game_data.city_health = game_data.city_health - dmg;
                change_city = true;
            },
            GameDataAction::Unrelated => {},
        }
        proof {
            if hits_city(next) {
                let j = choose|j: int| 0 <= j < next.len() && #[trigger] is_city_hit(next[j]);
                if j < i {
                    assert(prefix[j] == next[j]);
                }
            }
            if hits_city(prefix) {
                let j = choose|j: int| 0 <= j < prefix.len() && #[trigger] is_city_hit(prefix[j]);
                assert(next[j] == prefix[j]);
            }
            if is_city_hit(actions@[i as int]) {
                assert(next[i as int] == actions@[i as int]);
            }
        }
        i = i + 1;
    }
    assert(actions@.take(actions@.len() as int) =~= actions@);
    let mut messages: Vec<GameMessage> = Vec::new();
    if game_data.last_gold != game_data.gold {
        messages.push(GameMessage::UpdateGold(game_data.gold));
        game_data.last_gold = game_data.gold;
    }
    if change_city {
        messages.push(GameMessage::UpdateCityHealth(game_data.city_health));
    }
    assert(messages@ =~= (if old(game_data).last_gold() != game_data.gold() {
            seq![GameMessage::UpdateGold(game_data.gold())]
        } else {
            Seq::empty()
        }) + (if hits_city(actions@) {
            seq![GameMessage::UpdateCityHealth(game_data.city())]
        } else {
            Seq::empty()
        }));
    messages
}

} // verus!
