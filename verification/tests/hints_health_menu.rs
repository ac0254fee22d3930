use radish::achievements::{AchievementProgressSource, AchievementSet};
use radish::director::{generate_templates, Director, DirectorState, NANOS_PER_SEC};
use radish::game_data::GameData;
use radish::game_message::{GameMessage, UiMessage};
use radish::health::{destroy_by_health, enemy, resolve_damage, DeathEffect, Enemy, Health, HealthAction};
use radish::actions::RemoveSource;
use radish::game_data::GameDataAction;
use radish::spell::{init_spell_pool, Spell, SpellCaster};
use radish::tutorial::{TutorialManager, TutorialMessage, TutorialStep, TUTORIAL_CLOSE};
use radish::wave_menu::{handle_wave_menu, shop_click, sync_ui, MenuAction, Submenu, ID_NEXT_WAVE, ID_SPELLS};
use radish::game_message::{GameMessageFilter, UiMessageFilter};

#[test]
fn tutorial_hints_show_once() {
    let mut t = TutorialManager::new();
    assert!(!t.is_active());
    let steps = t.receive(&UiMessage::Extern(GameMessage::EnemyKilled(12)));
    assert_eq!(steps, vec![TutorialStep { replace_previous: false, message: 2 }, TutorialStep { replace_previous: true, message: 3 }]);
    assert!(t.is_active());
    assert!(t.receive(&UiMessage::Extern(GameMessage::EnemyKilled(12))).is_empty());
    t.receive(&UiMessage::Triggered(TUTORIAL_CLOSE));
    assert!(!t.is_active());
    let steps = t.receive(&UiMessage::Triggered(ID_SPELLS));
    assert_eq!(steps, vec![TutorialStep { replace_previous: false, message: 6 }]);
    assert_eq!(t.get_message(6).unwrap().get_title(), "Spell Book");
    let empty = TutorialManager::new_empty();
    assert!(empty.get_message(0).is_none());
}

#[test]
fn tutorial_message_starts_hidden() {
    let m = TutorialMessage::new("T", "M", UiMessageFilter::Ext(GameMessage::NextWave(2), GameMessageFilter::Equality));
    assert_eq!(m.get_title(), "T");
    assert_eq!(m.get_message(), "M");
}

#[test]
fn damage_and_capped_healing() {
    let mut h = Health::new(75);
    resolve_damage(&mut h, &[HealthAction::TakeDamage { dmg: 30 }, HealthAction::TakeHealing { heal: 10 }]);
    assert_eq!(h.get_current_health(), 55);
    resolve_damage(&mut h, &[HealthAction::TakeHealing { heal: 40 }, HealthAction::Unrelated]);
    assert_eq!(h.get_current_health(), 75);
    resolve_damage(&mut h, &[HealthAction::TakeDamage { dmg: 100 }]);
    assert_eq!(h.get_current_health(), 0);
    assert!(h.is_dead());
    assert_eq!(h.get_max_health(), 75);
}

#[test]
fn deaths_and_arrivals() {
    let e = Enemy::new(3, 30);
    let dead = Health::new(0);
    assert_eq!(
        destroy_by_health(&dead, Some(&e)),
        vec![
            DeathEffect::Data(GameDataAction::GainGold { amount: 30 }),
            DeathEffect::Message(GameMessage::EnemyKilled(30)),
            DeathEffect::Remove(RemoveSource::HealthLoss),
        ]
    );
    assert_eq!(destroy_by_health(&dead, None), vec![DeathEffect::Remove(RemoveSource::HealthLoss)]);
    assert!(destroy_by_health(&Health::new(1), Some(&e)).is_empty());
    assert_eq!(
        enemy(&e),
        vec![
            DeathEffect::Data(GameDataAction::TakeCityDamage { dmg: 3 }),
            DeathEffect::Remove(RemoveSource::EnemyReachedBottom),
        ]
    );
    assert_eq!(e.get_bounty(), 30);
    assert_eq!(e.get_damage(), 3);
}

fn pool() -> radish::spell::SpellPool {
    let spells: Vec<Spell> = (0..18).map(|i| Spell::new("S", "D", "I", None, Some(i), &[1])).collect();
    init_spell_pool(spells, &AchievementSet::load(AchievementProgressSource::Cache, &[1; 16]))
}

#[test]
fn buying_a_spell_raises_other_prices() {
    let mut data = GameData::new(100, 10);
    let mut p = pool();
    let mut caster = SpellCaster::new(vec![Spell::not_available("x")], 4);
    // scorch: 90 gold, no guild needed
    assert_eq!(shop_click(&UiMessage::Triggered(241), &mut data, &mut p, &mut caster), (true, false));
    assert_eq!(data.get_gold(), 10);
    assert_eq!(p.1[1].level, 1);
    assert_eq!(p.1[1].cost, 110);
    assert_eq!(p.1[3].cost, 70);
    assert_eq!(p.0.as_ref().unwrap().get_effect(), Some(1));
    // mortar needs the guild
    assert_eq!(shop_click(&UiMessage::Triggered(242), &mut data, &mut p, &mut caster), (false, false));
    // equip the picked spell at bar position 0
    assert_eq!(shop_click(&UiMessage::Triggered(230), &mut data, &mut p, &mut caster), (true, true));
    assert!(p.0.is_none());
    assert_eq!(caster.get_spells()[0].get_effect(), Some(1));
    assert_eq!(shop_click(&UiMessage::Triggered(231), &mut data, &mut p, &mut caster), (false, false));
    assert_eq!(shop_click(&UiMessage::Clicked(241), &mut data, &mut p, &mut caster), (false, false));
}

#[test]
fn the_wave_menu() {
    let mut data = GameData::new(500, 10);
    let mut director = Director::new(generate_templates());
    while let DirectorState::Spawning(_) = director.get_state() {
        director.direct(NANOS_PER_SEC, 0);
        let credits = director.get_credits();
        director.spend_round(credits);
    }
    director.direct(1, 0);
    assert_eq!(director.get_state(), DirectorState::WaitingForMenu);
    let mut p = pool();
    let mut caster = SpellCaster::new(vec![Spell::not_available("x")], 4);
    let out = handle_wave_menu(
        &[
            UiMessage::Extern(GameMessage::NextWave(2)),
            UiMessage::Triggered(ID_SPELLS),
            UiMessage::Triggered(241),
            UiMessage::Triggered(224),
            UiMessage::Triggered(ID_NEXT_WAVE),
        ],
        &mut data,
        &mut director,
        &mut p,
        &mut caster,
        50,
    );
    assert_eq!(
        out.actions,
        vec![
            MenuAction::OpenWaveMenu(1),
            MenuAction::ShowSubmenu(Submenu::Spells),
            MenuAction::ShowSubmenu(Submenu::Spells),
            MenuAction::ShowSubmenu(Submenu::Buildings),
            MenuAction::CloseWaveMenu,
            MenuAction::AnnounceWave(2),
        ]
    );
    assert!(out.player_sync_needed);
    assert_eq!(data.get_gold(), 500 - 90 - 250);
    assert_eq!(data.building_level(2), 1);
    assert_eq!(director.get_wave(), 2);
    assert_eq!(director.get_state(), DirectorState::Spawning(900));
    sync_ui(&data, &mut caster);
    assert_eq!(caster.get_slots(), 5);
}

#[test]
fn reroll_needs_a_watchtower_and_costs_nothing_without_one() {
    let mut data = GameData::new(100, 10);
    let mut director = Director::new(generate_templates());
    let mut p = pool();
    let mut caster = SpellCaster::new(Vec::new(), 4);
    let out = handle_wave_menu(&[UiMessage::Triggered(221)], &mut data, &mut director, &mut p, &mut caster, 30);
    assert!(out.actions.is_empty());
    assert!(!out.player_sync_needed);
    assert_eq!(data.get_gold(), 100);
    assert_eq!(director.get_enemies().map(|t| t.get_cost()), [40, 40, 70, 70]);
}

#[test]
fn reroll_with_a_watchtower_is_paid() {
    let mut data = GameData::new(200, 10);
    assert!(data.purchase_building(0));
    assert_eq!(data.get_gold(), 100);
    let mut director = Director::new(generate_templates());
    let mut p = pool();
    let mut caster = SpellCaster::new(Vec::new(), 4);
    let out = handle_wave_menu(&[UiMessage::Triggered(221)], &mut data, &mut director, &mut p, &mut caster, 30);
    assert_eq!(out.actions, vec![MenuAction::ShowSubmenu(Submenu::Enemies)]);
    assert_eq!(data.get_gold(), 70);
    // Too expensive: nothing happens.
    let out = handle_wave_menu(&[UiMessage::Triggered(221)], &mut data, &mut director, &mut p, &mut caster, 500);
    assert!(out.actions.is_empty());
    assert_eq!(data.get_gold(), 70);
}

#[test]
fn building_hints_fire_for_any_building() {
    let mut t = TutorialManager::new();
    let steps = t.receive(&UiMessage::Extern(GameMessage::BuildingUp(2, 1)));
    assert_eq!(steps, vec![TutorialStep { replace_previous: false, message: 8 }]);
    t.receive(&UiMessage::Triggered(TUTORIAL_CLOSE));
    let steps = t.receive(&UiMessage::Extern(GameMessage::BuildingDown(1, 0)));
    assert_eq!(steps, vec![TutorialStep { replace_previous: false, message: 9 }]);
}

#[test]
fn tutorial_hints_have_their_titles() {
    let t = TutorialManager::new();
    assert_eq!(t.get_message(3).unwrap().get_title(), "You killed an elite enemy");
    assert_eq!(t.get_message(5).unwrap().get_title(), "Lookout");
    assert_eq!(t.get_message(9).unwrap().get_title(), "You just lost a building");
    assert!(t.get_message(10).is_none());
}

#[test]
fn law_empty_tutorial_stays_inactive_on_values() {
    let mut t = TutorialManager::new_empty();
    for m in [
        UiMessage::Extern(GameMessage::EnemyKilled(12)),
        UiMessage::Triggered(ID_SPELLS),
        UiMessage::Extern(GameMessage::BuildingDown(1, 0)),
    ] {
        assert!(t.receive(&m).is_empty());
        assert!(!t.is_active());
    }
}
