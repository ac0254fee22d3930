use radish::achievements::{AchievementProgressSource, AchievementSet};
use radish::controller::{Command, Interactions};
use radish::director::{generate_templates, wave_from_draws, Director, DirectorAction, DirectorState, EnemyTemplate, NANOS_PER_SEC};
use radish::game_message::GameMessage;
use radish::spell::{init_base_spells, init_spell_pool, spell_casting, Spell, SpellCaster, SpellTemplate};

fn template(cost: u32, spawner: usize) -> EnemyTemplate {
    EnemyTemplate::new("/icon", "Enemy", "Desc", cost, spawner)
}

#[test]
fn enemy_templates() {
    let t = generate_templates();
    assert_eq!(t.len(), 16);
    let costs: Vec<u32> = t.iter().map(|x| x.get_cost()).collect();
    assert_eq!(costs, vec![40, 70, 80, 80, 90, 110, 180, 100, 110, 150, 150, 170, 200, 200, 200, 220]);
    assert_eq!(t[13].name, "Ghost");
    assert_eq!(t[13].get_spawner(), 13);
}

#[test]
fn a_new_director() {
    let d = Director::new(generate_templates());
    assert_eq!(d.get_wave(), 1);
    assert_eq!(d.get_state(), DirectorState::Spawning(50));
    assert_eq!(d.get_credits(), 0);
    let e = d.get_enemies();
    assert_eq!(e[0].name, "Skeleton");
    assert_eq!(e[3].name, "Runner");
}

#[test]
fn credits_are_granted_every_second() {
    let mut d = Director::new(generate_templates());
    assert_eq!(d.direct(NANOS_PER_SEC / 2, 0), DirectorAction::Nothing);
    assert_eq!(d.direct(NANOS_PER_SEC / 2, 0), DirectorAction::SpendRound { credits: 13 });
    assert_eq!(d.get_credits(), 13);
    assert_eq!(d.direct(22 * NANOS_PER_SEC, 0), DirectorAction::SpendRound { credits: 13 + 14 });
}

#[test]
fn spawning_uses_up_the_pool() {
    let mut d = Director::new(vec![template(40, 0), template(70, 1)]);
    d.direct(NANOS_PER_SEC, 0);
    d.direct(NANOS_PER_SEC, 0);
    d.direct(NANOS_PER_SEC, 0);
    assert_eq!(d.get_credits(), 39);
    d.direct(NANOS_PER_SEC, 0);
    assert_eq!(d.get_credits(), 52);
    // wave [0, 0, 1, 1]: from position 3 the runner costs 70 > 45, downgrade to the skeleton
    assert_eq!(d.downgrade(3, 45), Some(0));
    assert_eq!(d.downgrade(3, 70), Some(1));
    assert_eq!(d.downgrade(1, 39), None);
    let left = d.record_spawn(0, 45);
    assert_eq!(left, 5);
    assert_eq!(d.get_credits(), 12);
    assert_eq!(d.get_state(), DirectorState::Spawning(10));
    let chosen = d.choose_spawn(100);
    assert!(chosen == Some(0) || chosen == Some(1));
    assert_eq!(d.choose_spawn(10), None);
}

#[test]
fn a_wave_ends_when_its_enemies_are_gone() {
    let mut d = Director::new(vec![template(40, 0), template(70, 1), template(90, 2)]);
    drain_pool(&mut d);
    assert_eq!(d.get_state(), DirectorState::WaitingForDead);
    assert_eq!(d.direct(1, 3), DirectorAction::Nothing);
    assert_eq!(d.direct(1, 0), DirectorAction::WaveCleared(GameMessage::NextWave(2)));
    assert_eq!(d.get_state(), DirectorState::WaitingForMenu);
    assert!(d.is_between_waves());
    let e = d.get_enemies();
    assert_eq!(e.len(), 4);
    d.next_wave();
    assert_eq!(d.get_wave(), 2);
    assert_eq!(d.get_state(), DirectorState::Spawning(900));
    d.next_wave();
    assert_eq!(d.get_wave(), 2);
}

#[test]
fn rerolled_waves_are_sorted_and_valid() {
    let mut d = Director::new(generate_templates());
    for _ in 0..20 {
        d.reroll_wave_enemies();
        let e = d.get_enemies();
        let costs_known = e.iter().all(|t| t.get_spawner() < 16);
        assert!(costs_known);
        let spawners: Vec<usize> = e.iter().map(|t| t.get_spawner()).collect();
        assert!(spawners.windows(2).all(|w| w[0] <= w[1]));
    }
}

fn spell(slots: &[u64]) -> Spell {
    Spell::new("Fireball", "Hurl a ball of fire.", "/sprites/spells/fireball", Some("/audio/fire"), Some(0), slots)
}

#[test]
fn spells_keep_their_parts() {
    let s = spell(&[1_500_000_000, 5_000_000_000]);
    assert_eq!(s.get_name(), "Fireball");
    assert_eq!(s.slot_count(), 2);
    assert_eq!(s.slot_time(1), 5_000_000_000);
    let c = s.clone();
    assert_eq!(c.slot_time(0), 1_500_000_000);
    assert_eq!(c.get_sound(), Some("/audio/fire"));
    assert_eq!(c.get_effect(), Some(0));
    let na = Spell::not_available("why");
    assert_eq!(na.get_description(), "why");
    assert_eq!(na.slot_count(), 0);
    assert_eq!(na.get_effect(), None);
}

#[test]
fn casting_blocks_free_slots_in_order() {
    let mut caster = SpellCaster::new(vec![spell(&[100, 200]), spell(&[50, 50, 50])], 4);
    assert_eq!(caster.get_slots(), 4);
    assert_eq!(caster.get_free_slots(), 4);
    assert!(caster.attempt_cast(0).is_some());
    assert_eq!(caster.get_free_slots(), 2);
    assert!(caster.attempt_cast(1).is_none());
    assert_eq!(caster.get_free_slots(), 2);
    assert!(caster.attempt_cast(5).is_none());
    caster.tick_slots(100);
    assert_eq!(caster.get_free_slots(), 3);
    assert!(caster.attempt_cast(1).is_some());
    assert_eq!(caster.get_free_slots(), 0);
    assert!(!caster.can_add() || caster.get_slots() < 8);
}

#[test]
fn extra_slots_follow_the_mana_well() {
    let mut caster = SpellCaster::new(vec![spell(&[100])], 4);
    caster.set_extra_slots(2);
    assert_eq!(caster.get_slots(), 6);
    assert!(caster.can_add());
    caster.set_extra_slots(4);
    assert_eq!(caster.get_slots(), 8);
    assert!(!caster.can_add());
    assert!(caster.attempt_cast(0).is_some());
    caster.set_extra_slots(0);
    assert_eq!(caster.get_slots(), 4);
    assert_eq!(caster.get_free_slots(), 3);
}

#[test]
fn a_frame_of_spell_casting() {
    let mut caster = SpellCaster::new(vec![spell(&[1000]), spell(&[1000, 1000, 1000])], 3);
    let mut ix = Interactions::new(0);
    ix.insert(Command::Spell0);
    ix.insert(Command::Spell1);
    let out = spell_casting(&mut caster, &ix);
    assert_eq!(out.casts, vec![0]);
    assert_eq!(out.fired.len(), 1);
    assert!(out.shown.is_empty());
    let out = spell_casting(&mut caster, &Interactions::new(400));
    assert_eq!(out.shown, vec![(0, 600, 1000)]);
    assert!(out.casts.is_empty());
    let out = spell_casting(&mut caster, &Interactions::new(600));
    assert_eq!(out.shown, vec![(0, 0, 1000)]);
    let out = spell_casting(&mut caster, &Interactions::new(1));
    assert!(out.shown.is_empty());
    assert_eq!(caster.get_free_slots(), 3);
}

#[test]
fn equipping_spells() {
    let mut caster = SpellCaster::new(vec![spell(&[1])], 2);
    caster.equip_spell(0, spell(&[2, 2]));
    assert_eq!(caster.get_spells()[0].slot_count(), 2);
    caster.equip_spell(3, spell(&[3]));
    assert_eq!(caster.get_spells().len(), 2);
}

#[test]
fn locked_spells_name_their_achievement() {
    let set = AchievementSet::load(AchievementProgressSource::Cache, &[]);
    let t = SpellTemplate::new(spell(&[1]), 150).guild_condition(3).achievement_condition(set.get(8));
    assert_eq!(t.level, 0);
    assert_eq!(t.cost, 0);
    assert_eq!(t.guild_condition, 3);
    assert_eq!(t.spell.get_description(), "Complete the achievement 'Royal Blood' to unlock this spell for future games.");
    let done = AchievementSet::load(AchievementProgressSource::Cache, &[1; 16]);
    let t = SpellTemplate::new(spell(&[1]), 150).purchased().achievement_condition(done.get(8));
    assert_eq!((t.level, t.cost), (1, 150));
    assert_eq!(t.spell.get_name(), "Fireball");
}

#[test]
fn the_spell_pool() {
    let spells: Vec<Spell> = (0..18).map(|i| Spell::new("S", "D", "I", None, Some(i), &[1])).collect();
    let set = AchievementSet::load(AchievementProgressSource::Cache, &[]);
    let pool = init_spell_pool(spells, &set);
    assert!(pool.0.is_none());
    assert_eq!(pool.1.len(), 18);
    assert_eq!((pool.1[0].level, pool.1[0].cost), (1, 50));
    assert_eq!((pool.1[2].level, pool.1[2].cost, pool.1[2].guild_condition), (0, 145, 1));
    assert_eq!(pool.1[4].cost, 0);
    assert_eq!(pool.1[4].spell.get_effect(), None);
    assert_eq!(pool.1[6].level, 1);
    let bar = init_base_spells(&pool, &[1, 7, 0, 19]);
    assert_eq!(bar[0].get_effect(), Some(0));
    assert_eq!(bar[1].get_effect(), Some(6));
    assert_eq!(bar[2].get_description(), "Purchase & equip more spells between waves!");
    assert_eq!(bar[3].get_effect(), None);
}

/// Lets the director spend all it earns until the wave's pool is used up.
pub fn drain_pool(d: &mut Director) {
    while let DirectorState::Spawning(_) = d.get_state() {
        d.direct(NANOS_PER_SEC, 0);
        let credits = d.get_credits();
        d.spend_round(credits);
    }
}

#[test]
fn every_spawn_of_a_round_lowers_the_pool() {
    let mut d = Director::new(vec![template(40, 0), template(70, 1)]);
    for _ in 0..4 {
        d.direct(NANOS_PER_SEC, 0);
    }
    assert_eq!(d.get_credits(), 52);
    // Every draw downgrades to the skeleton (70 > 52), then 12 buys nothing.
    assert_eq!(d.spend_round(52), vec![0]);
    assert_eq!(d.get_credits(), 12);
    assert_eq!(d.get_state(), DirectorState::Spawning(10));
    for _ in 0..10 {
        d.direct(NANOS_PER_SEC, 0);
    }
    let credits = d.get_credits();
    assert_eq!(credits, 12 + 10 * 13);
    // 142 buys at most one runner and one skeleton or three skeletons.
    let picks = d.spend_round(credits);
    let spent: u32 = picks.iter().map(|&t| if t == 0 { 40 } else { 70 }).sum();
    assert!(spent <= credits && credits - spent < 40);
    assert_eq!(d.get_credits(), credits - spent);
    assert_eq!(d.get_state(), DirectorState::WaitingForDead);
    assert_eq!(d.spend_round(0), Vec::<usize>::new());
}

#[test]
fn a_cast_sets_off_the_spells_effect_and_sound() {
    let loud = Spell::new("Fireball", "Boom.", "/fire", Some("/audio/fire"), Some(3), &[100]);
    let silent = Spell::new("Ward", "Hush.", "/ward", None, None, &[100]);
    let mut caster = SpellCaster::new(vec![loud, silent], 4);
    let c = caster.attempt_cast(0).unwrap();
    assert_eq!(c.effect, Some(3));
    assert_eq!(c.sound.as_deref(), Some("/audio/fire"));
    let quiet = caster.attempt_cast(1).unwrap();
    assert_eq!(quiet.sound, None);
    assert_eq!(quiet.effect, None);
}

#[test]
fn placeholders_are_the_unavailable_spell() {
    let s = Spell::not_available("Because.");
    assert_eq!(s.get_name(), "Spell not available");
    assert_eq!(s.get_icon(), "/sprites/ui/lock");
    assert_eq!(s.get_sound(), None);
    assert_eq!(s.slot_count(), 0);
    let t = generate_templates();
    assert_eq!(t[6].name, "Loot Goblin");
    assert_eq!(t[6].icon, "/sprites/enemies/skeleton_loot");
}

#[test]
fn waves_come_from_the_draws() {
    assert_eq!(wave_from_draws([17, 3, 8, 30], 16), [1, 3, 8, 14]);
    assert_eq!(wave_from_draws([5, 5, 0, 1], 2), [0, 1, 1, 1]);
    assert_eq!(wave_from_draws([9, 9, 9, 9], 1), [0, 0, 0, 0]);
}

#[test]
fn a_round_books_only_the_waves_kinds() {
    // Kind 2 is cheapest in the catalogue but not in the wave [0, 0, 1, 1].
    let mut d = Director::new(vec![template(40, 0), template(70, 1), template(10, 2)]);
    for _ in 0..10 {
        d.direct(NANOS_PER_SEC, 0);
    }
    let credits = d.get_credits();
    let picks = d.spend_round(credits);
    assert!(!picks.is_empty());
    assert!(picks.iter().all(|&t| t == 0 || t == 1));
}
