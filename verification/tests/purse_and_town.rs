use radish::actions::RemoveSource;
use radish::buildings::{create_buildings, destroy_buildings, get_building_info, Building, BuildingEvent, BuildingType, Buildings};
use radish::game_data::{resolve_gama_data, GameData, GameDataAction};
use radish::game_message::GameMessage;
use radish::game_state::{gameplay_runs, quick_start_update};
use radish::options::{init_tutorial, OptionsConfig};
use radish::director::Director;
use radish::tutorial::TutorialManager;

#[test]
fn new_game_data() {
    let data = GameData::new(120, 10);
    assert_eq!(data.get_score(), 0);
    assert_eq!(data.get_gold(), 120);
    assert_eq!(data.city_health, 10);
    assert!(!data.is_game_over());
    assert_eq!(data.buildings.target, [0, 0, 0]);
}

#[test]
fn earning_raises_gold_and_score() {
    let mut data = GameData::new(5, 10);
    data.add_gold(40);
    assert_eq!(data.get_gold(), 45);
    assert_eq!(data.get_score(), 40);
}

#[test]
fn spending_needs_enough_gold() {
    let mut data = GameData::new(100, 10);
    assert!(data.spend(60));
    assert_eq!(data.get_gold(), 40);
    assert!(!data.spend(41));
    assert_eq!(data.get_gold(), 40);
    assert!(data.spend(40));
    assert_eq!(data.get_gold(), 0);
    assert_eq!(data.get_score(), 0);
}

#[test]
fn law_gold_is_start_plus_score_minus_spent() {
    let mut data = GameData::new(30, 10);
    let mut spent = 0;
    data.add_gold(50);
    if data.spend(70) {
        spent += 70;
    }
    data.add_gold(10);
    if data.spend(100) {
        spent += 100;
    }
    assert_eq!(data.get_gold(), 30 + data.get_score() - spent);
    assert_eq!(data.get_gold(), 20);
}

#[test]
fn resolving_actions_announces_changes() {
    let mut data = GameData::new(0, 10);
    let messages = resolve_gama_data(
        &mut data,
        &[
            GameDataAction::GainGold { amount: 15 },
            GameDataAction::Unrelated,
            GameDataAction::TakeCityDamage { dmg: 3 },
            GameDataAction::GainGold { amount: 5 },
        ],
    );
    assert_eq!(messages, vec![GameMessage::UpdateGold(20), GameMessage::UpdateCityHealth(7)]);
    assert_eq!(data.get_score(), 20);
    assert_eq!(data.city_health, 7);
    // gold was announced; nothing new to say
    let messages = resolve_gama_data(&mut data, &[GameDataAction::Unrelated]);
    assert!(messages.is_empty());
    // a zero hit still counts as a hit
    let messages = resolve_gama_data(&mut data, &[GameDataAction::TakeCityDamage { dmg: 0 }]);
    assert_eq!(messages, vec![GameMessage::UpdateCityHealth(7)]);
}

#[test]
fn starting_gold_is_announced_once() {
    let mut data = GameData::new(100, 10);
    assert_eq!(resolve_gama_data(&mut data, &[]), vec![GameMessage::UpdateGold(100)]);
    assert!(resolve_gama_data(&mut data, &[]).is_empty());
}

#[test]
fn game_over_when_city_falls() {
    let mut data = GameData::new(0, 2);
    resolve_gama_data(&mut data, &[GameDataAction::TakeCityDamage { dmg: 2 }]);
    assert!(data.is_game_over());
}

#[test]
fn building_costs() {
    assert_eq!(get_building_info(0).level_costs, [100, 150, 200, 200]);
    assert_eq!(get_building_info(1).name, "Mage's Guild");
    assert_eq!(get_building_info(2).level_costs, [250, 300, 350, 400]);
    assert_eq!(get_building_info(7).level_costs, [0, 0, 0, 0]);
    assert_eq!(get_building_info(7).name, "No Building");
    assert_eq!(get_building_info(0).sprite(), "/sprites/environment/watchtower");
    assert_eq!(BuildingType::Manawell.index(), 2);
}

#[test]
fn purchasing_building_levels() {
    let mut data = GameData::new(260, 10);
    assert!(data.purchase_building(2));
    assert_eq!(data.get_gold(), 10);
    assert_eq!(data.building_level(2), 1);
    assert!(!data.purchase_building(0));
    assert_eq!(data.get_gold(), 10);
    assert_eq!(data.building_level(0), 0);
}

#[test]
fn buildings_stop_at_the_highest_level() {
    let mut data = GameData::new(10_000, 10);
    for _ in 0..4 {
        assert!(data.purchase_building(1));
    }
    assert_eq!(data.get_gold(), 10_000 - 650);
    assert!(!data.purchase_building(1));
    assert_eq!(data.building_level(1), 4);
    assert_eq!(data.get_gold(), 10_000 - 650);
}

#[test]
fn creating_buildings_spawns_and_announces() {
    let mut b = Buildings::new();
    b.target = [1, 0, 2];
    let events = create_buildings(&mut b);
    assert_eq!(
        events,
        vec![
            BuildingEvent::Spawn(0),
            BuildingEvent::Message(GameMessage::BuildingUp(0, 1)),
            BuildingEvent::Spawn(2),
            BuildingEvent::Message(GameMessage::BuildingUp(2, 2)),
        ]
    );
    assert_eq!(b.current_level(0), 1);
    assert_eq!(b.current_level(2), 2);
    b.target = [2, 0, 2];
    assert_eq!(create_buildings(&mut b), vec![BuildingEvent::Message(GameMessage::BuildingUp(0, 2))]);
    assert!(create_buildings(&mut b).is_empty());
}

#[test]
fn destroyed_buildings_are_lowered() {
    let mut b = Buildings::new();
    b.target = [0, 3, 0];
    create_buildings(&mut b);
    let guild = Building::new(1);
    destroy_buildings(&mut b, &guild, &[RemoveSource::HealthLoss]);
    assert_eq!(b.target, [0, 3, 0]);
    destroy_buildings(&mut b, &guild, &[RemoveSource::BuildingCollision]);
    assert_eq!(b.target, [0, 0, 0]);
    assert_eq!(create_buildings(&mut b), vec![BuildingEvent::Message(GameMessage::BuildingDown(1, 0))]);
    assert_eq!(b.current_level(1), 0);
}

#[test]
fn quick_start_keeps_the_best_half_wave() {
    assert_eq!(quick_start_update(2, 50, 10, 300), (5, 100));
    assert_eq!(quick_start_update(5, 50, 10, 300), (5, 50));
    assert_eq!(quick_start_update(0, 0, 1, 300), (0, 0));
    assert_eq!(quick_start_update(0, 0, 4, -4), (2, -1));
}

#[test]
fn default_options() {
    let o = OptionsConfig::default();
    assert_eq!((o.volume, o.music_volume, o.tutorial), (50, 50, true));
}

#[test]
fn tutorial_shown_only_once_by_options() {
    let (manager, save) = init_tutorial(&OptionsConfig::default());
    assert!(manager.get_message(9).is_some());
    let save = save.unwrap();
    assert!(!save.tutorial);
    assert_eq!(save.volume, 50);
    let (manager, save) = init_tutorial(&save);
    assert!(manager.get_message(0).is_none());
    assert!(save.is_none());
}

#[test]
fn gameplay_pauses_for_hints_during_waves() {
    let director = Director::new(Vec::new());
    assert!(gameplay_runs(&TutorialManager::new(), &director));
}
