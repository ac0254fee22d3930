use radish::controller::{control, Command, Controller, Interactions, Key};
use radish::game_message::{GameMessage, GameMessageFilter, UiMessage, UiMessageFilter};

#[test]
fn filters_compare_values_of_one_kind() {
    let model = GameMessage::EnemyKilled(10);
    assert!(GameMessageFilter::Type.check(&model, &GameMessage::EnemyKilled(3)));
    assert!(GameMessageFilter::Max.check(&model, &GameMessage::EnemyKilled(3)));
    assert!(!GameMessageFilter::Min.check(&model, &GameMessage::EnemyKilled(3)));
    assert!(GameMessageFilter::Min.check(&model, &GameMessage::EnemyKilled(16)));
    assert!(GameMessageFilter::Min.check(&model, &GameMessage::EnemyKilled(10)));
    assert!(GameMessageFilter::Max.check(&model, &GameMessage::EnemyKilled(10)));
    assert!(!GameMessageFilter::Equality.check(&model, &GameMessage::EnemyKilled(11)));
    assert!(GameMessageFilter::Equality.check(&model, &GameMessage::EnemyKilled(10)));
}

#[test]
fn filters_reject_other_kinds() {
    let model = GameMessage::NextWave(2);
    for filter in [GameMessageFilter::Type, GameMessageFilter::Max, GameMessageFilter::Min, GameMessageFilter::Equality] {
        assert!(!filter.check(&model, &GameMessage::UpdateGold(2)));
    }
}

#[test]
fn spell_slot_updates_compare_by_share_only() {
    let model = GameMessage::UpdateSpellSlots(0, 16);
    assert!(GameMessageFilter::Max.check(&model, &GameMessage::UpdateSpellSlots(5, 3)));
    assert!(!GameMessageFilter::Max.check(&model, &GameMessage::UpdateSpellSlots(0, 20)));
    assert_eq!(model.partial_cmp(&GameMessage::UpdateSpellSlots(7, 16)), Some(std::cmp::Ordering::Equal));
}

#[test]
fn building_messages_order_by_level_per_building() {
    let m = GameMessage::BuildingUp(0, 1);
    assert_eq!(m.partial_cmp(&m), Some(std::cmp::Ordering::Equal));
    assert!(GameMessageFilter::Equality.check(&m, &m));
    assert!(GameMessageFilter::Type.check(&m, &m));
    assert!(GameMessageFilter::Min.check(&m, &GameMessage::BuildingUp(0, 2)));
    assert!(!GameMessageFilter::Min.check(&GameMessage::BuildingUp(2, 1), &GameMessage::BuildingUp(0, 3)));
    assert_eq!(m.partial_cmp(&GameMessage::BuildingUp(1, 1)), None);
    // Any lost building is of the model's kind.
    assert!(GameMessageFilter::Type.check(&GameMessage::BuildingDown(0, 0), &GameMessage::BuildingDown(2, 0)));
    assert!(!GameMessageFilter::Type.check(&GameMessage::BuildingDown(0, 0), &GameMessage::BuildingUp(0, 1)));
}

#[test]
fn law_max_mirrors_min_on_values() {
    let a = GameMessage::UpdateCityHealth(4);
    let b = GameMessage::UpdateCityHealth(9);
    assert_eq!(GameMessageFilter::Max.check(&a, &b), GameMessageFilter::Min.check(&b, &a));
    assert_eq!(GameMessageFilter::Max.check(&b, &a), GameMessageFilter::Min.check(&a, &b));
    assert!(GameMessageFilter::Type.check(&a, &b) && GameMessageFilter::Type.check(&b, &a));
}

#[test]
fn ui_filters() {
    let ext = UiMessageFilter::Ext(GameMessage::EnemyKilled(0), GameMessageFilter::Type);
    assert!(ext.check(&UiMessage::Extern(GameMessage::EnemyKilled(40))));
    assert!(!ext.check(&UiMessage::Triggered(3)));
    let ui = UiMessageFilter::Ui(UiMessage::Triggered(202));
    assert!(ui.check(&UiMessage::Triggered(202)));
    assert!(!ui.check(&UiMessage::Clicked(202)));
}

#[test]
fn spell_commands_by_position() {
    assert_eq!(Command::spell_from_int(0), Command::Spell0);
    assert_eq!(Command::spell_from_int(1), Command::Spell1);
    assert_eq!(Command::spell_from_int(2), Command::Spell2);
    assert_eq!(Command::spell_from_int(3), Command::Spell3);
    assert_eq!(Command::spell_from_int(4), Command::NoCommand);
    assert_eq!(Command::default(), Command::NoCommand);
}

#[test]
fn interactions_keep_each_command_once() {
    let mut ix = Interactions::new(16_000_000);
    ix.insert(Command::Spell1);
    ix.insert(Command::Spell1);
    ix.insert(Command::MoveLeft);
    assert_eq!(ix.commands.len(), 2);
    assert!(ix.contains(Command::Spell1));
    assert!(!ix.contains(Command::Spell0));
    assert_eq!(ix.delta, 16_000_000);
}

#[test]
fn control_orders_follow_commands() {
    let mut ix = Interactions::new(0);
    ix.insert(Command::MoveLeft);
    ix.insert(Command::Spell3);
    ix.insert(Command::Spell0);
    let orders = control(&ix);
    assert_eq!(orders.direction, -1);
    assert_eq!(orders.sprite_variant, 2);
    assert_eq!(orders.casts, vec![0, 3]);

    ix.insert(Command::MoveRight);
    let orders = control(&ix);
    assert_eq!(orders.direction, 0);
    assert_eq!(orders.sprite_variant, 1);

    let idle = control(&Interactions::new(0));
    assert_eq!(idle.direction, 0);
    assert_eq!(idle.sprite_variant, 0);
    assert!(idle.casts.is_empty());
}

#[test]
fn pressed_keys_give_their_commands_once() {
    let c = Controller::default();
    assert_eq!(c.command_map.len(), 13);
    let ix = c.get_interactions(&[Key::A, Key::Left, Key::V], 500);
    assert_eq!(ix.delta, 500);
    assert_eq!(ix.commands, vec![Command::MoveLeft, Command::Spell3]);
    let none = c.get_interactions(&[], 7);
    assert!(none.commands.is_empty());
    let ix = c.get_interactions(&[Key::Semicolon, Key::Z, Key::K, Key::C, Key::D], 1);
    assert_eq!(ix.commands, vec![Command::MoveRight, Command::Spell0, Command::Spell1, Command::Spell2, Command::Spell3]);
}
