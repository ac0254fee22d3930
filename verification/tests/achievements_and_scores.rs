use radish::achievements::{achievement_list, record_highscore, Achievement, AchievementProgressSource, AchievementSet};
use radish::game_message::{GameMessage, GameMessageFilter, UiMessage};

#[test]
fn listening_counts_matches_and_reports_completion_once() {
    let mut a = Achievement::new("Royal Blood", "Kill an elite enemy.", None, 2, (GameMessage::EnemyKilled(10), GameMessageFilter::Min));
    assert!(!a.listen(&GameMessage::EnemyKilled(5)));
    assert_eq!(a.get_progress(), 0);
    assert!(!a.listen(&GameMessage::EnemyKilled(10)));
    assert!(!a.is_achieved());
    assert!(a.listen(&GameMessage::EnemyKilled(30)));
    assert!(a.is_achieved());
    assert!(!a.listen(&GameMessage::EnemyKilled(30)));
    assert_eq!(a.get_progress(), 3);
    a.reset_progress();
    assert_eq!(a.get_progress(), 0);
    assert_eq!(a.get_name(), "Royal Blood");
    assert_eq!(a.get_description(), "Kill an elite enemy.");
    assert!(a.get_icon().is_none());
}

#[test]
fn the_game_has_sixteen_achievements() {
    let list = achievement_list();
    assert_eq!(list.len(), 16);
    assert_eq!(list[0].get_name(), "First Blood");
    assert_eq!(list[2].get_target(), 1000);
    assert_eq!(list[15].get_name(), "Oops");
    assert_eq!(list[4].get_icon(), Some("/sprites/achievements/a05_16_16.png"));
    assert!(list.iter().all(|a| a.get_progress() == 0));
}

#[test]
fn loading_progress() {
    let set = AchievementSet::load(AchievementProgressSource::Cache, &[3, 50, 7]);
    assert_eq!(set.list[0].get_progress(), 3);
    assert_eq!(set.list[1].get_progress(), 50);
    assert!(set.list[1].is_achieved());
    assert_eq!(set.list[2].get_progress(), 7);
    assert_eq!(set.list[3].get_progress(), 0);
    let saved = set.save().unwrap();
    assert_eq!(saved.progress_vals.len(), 16);
    assert_eq!(&saved.progress_vals[..4], &[3, 50, 7, 0]);
    let shares = AchievementSet::load(AchievementProgressSource::Percentage, &[1; 20]);
    assert!(shares.save().is_none());
    assert_eq!(shares.list[15].get_progress(), 1);
}

#[test]
fn receiving_reports_completed_achievements() {
    let mut set = AchievementSet::load(AchievementProgressSource::Cache, &[0, 49]);
    let done = set.receive(&UiMessage::Extern(GameMessage::EnemyKilled(10)));
    // first blood (target 1), to dust (49 -> 50), royal blood (elite, target 1)
    assert_eq!(done, vec![0, 1, 8]);
    assert_eq!(set.list[3].get_progress(), 1);
    assert!(set.receive(&UiMessage::Triggered(1)).is_empty());
    assert!(set.receive(&UiMessage::Extern(GameMessage::NextWave(3))).is_empty());
    assert_eq!(set.receive(&UiMessage::Extern(GameMessage::NextWave(2))), vec![4]);
    assert_eq!(set.get(4).unwrap().get_progress(), 1);
    assert!(set.get(16).is_none());
}

#[test]
fn highscore_goes_before_the_first_score_it_reaches() {
    let mut scores = vec![500, 300, 100];
    assert_eq!(record_highscore(&mut scores, 300), Some(1));
    assert_eq!(scores, vec![500, 300, 300, 100]);
    assert_eq!(record_highscore(&mut scores, 50), Some(4));
    assert_eq!(scores, vec![500, 300, 300, 100, 50]);
    assert_eq!(record_highscore(&mut scores, 900), Some(0));
    assert_eq!(scores[0], 900);
    let mut empty = Vec::new();
    assert_eq!(record_highscore(&mut empty, -5), Some(0));
    assert_eq!(empty, vec![-5]);
}

#[test]
fn full_highscore_list_keeps_twenty_five() {
    let mut scores: Vec<i32> = (0..25).map(|i| 1000 - 10 * i).collect();
    let last = *scores.last().unwrap();
    assert_eq!(record_highscore(&mut scores, last - 1), None);
    assert_eq!(scores.len(), 25);
    assert_eq!(record_highscore(&mut scores, last), Some(24));
    assert_eq!(scores.len(), 25);
    assert_eq!(record_highscore(&mut scores, 995), Some(1));
    assert_eq!(scores.len(), 25);
    assert_eq!(scores[1], 995);
    assert_eq!(*scores.last().unwrap(), last + 10);
    assert!(scores.windows(2).all(|w| w[0] >= w[1]));
}

#[test]
fn overlong_highscore_list_is_cut_by_one() {
    let mut scores: Vec<i32> = (0..30).map(|i| 300 - i).collect();
    assert_eq!(record_highscore(&mut scores, 400), Some(0));
    assert_eq!(scores.len(), 30);
    assert_eq!(scores[0], 400);
    assert_eq!(*scores.last().unwrap(), 272);
}

#[test]
fn building_achievements_progress() {
    let mut set = AchievementSet::load(AchievementProgressSource::Cache, &[]);
    set.receive(&UiMessage::Extern(GameMessage::BuildingUp(2, 1)));
    set.receive(&UiMessage::Extern(GameMessage::BuildingUp(2, 3)));
    set.receive(&UiMessage::Extern(GameMessage::BuildingUp(0, 1)));
    set.receive(&UiMessage::Extern(GameMessage::BuildingDown(1, 0)));
    assert_eq!(set.get(12).unwrap().get_progress(), 1);
    assert_eq!(set.get(13).unwrap().get_progress(), 0);
    assert_eq!(set.get(14).unwrap().get_progress(), 2);
    assert_eq!(set.get(15).unwrap().get_progress(), 1);
}

#[test]
fn achievements_have_their_names_and_icons() {
    let list = achievement_list();
    assert_eq!(list[0].get_name(), "First Blood");
    assert_eq!(list[15].get_description(), "Lose ten buildings.");
    assert_eq!(list[8].get_icon(), Some("/sprites/achievements/a09_16_16.png"));
}
