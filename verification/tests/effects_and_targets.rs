use radish::actions::{
    Actions, LifeDuration, Queued, add_silence, advance_effects, effect_acts, select_targets, tick_silence, Candidate, EffectClock,
    EffectTrigger, RemoveSource, TargetRule,
};

fn cand(entity: u64, in_range: bool, is_enemy: bool, is_source: bool) -> Candidate {
    Candidate { entity, in_range, is_enemy, is_source }
}

#[test]
fn once_effect_acts_in_its_first_frame_and_is_gone() {
    let clock = EffectClock::once();
    assert!(effect_acts(EffectTrigger::Once, clock, 16_000_000, &[], 0));
    let (kept, idx) = advance_effects(&[clock], 16_000_000);
    assert!(kept.is_empty());
    assert!(idx.is_empty());
}

#[test]
fn timed_once_effect_waits_for_its_duration() {
    let clock = EffectClock::once().with_duration(1_000);
    assert!(!effect_acts(EffectTrigger::Once, clock, 400, &[], 0));
    let (kept, _) = advance_effects(&[clock], 400);
    assert_eq!(kept, vec![EffectClock { duration: Some(1_000), alive: 400 }]);
    assert!(effect_acts(EffectTrigger::Once, kept[0], 600, &[], 0));
    let (kept, _) = advance_effects(&kept, 600);
    assert!(kept.is_empty());
}

#[test]
fn silenced_sources_do_not_act() {
    let clock = EffectClock::unlimited();
    assert!(effect_acts(EffectTrigger::EveryFrame, clock, 10, &[], 0));
    assert!(!effect_acts(EffectTrigger::EveryFrame, clock, 10, &[], 5));
}

#[test]
fn death_effects_need_the_right_reason() {
    let clock = EffectClock::unlimited();
    let trigger = EffectTrigger::OnDeath(RemoveSource::HealthLoss);
    assert!(!effect_acts(trigger, clock, 10, &[RemoveSource::TimedOut], 0));
    assert!(effect_acts(trigger, clock, 10, &[RemoveSource::TimedOut, RemoveSource::HealthLoss], 0));
}

#[test]
fn advance_keeps_unlimited_and_running_effects_in_order() {
    let clocks = [
        EffectClock::unlimited(),
        EffectClock { duration: Some(100), alive: 90 },
        EffectClock { duration: Some(100), alive: 0 },
    ];
    let (kept, idx) = advance_effects(&clocks, 10);
    assert_eq!(idx, vec![0, 2]);
    assert_eq!(
        kept,
        vec![EffectClock { duration: None, alive: 10 }, EffectClock { duration: Some(100), alive: 10 }]
    );
}

#[test]
fn silence_adds_up_and_runs_out() {
    assert_eq!(add_silence(5, &[10, 20]), 35);
    assert_eq!(add_silence(5, &[]), 5);
    assert_eq!(tick_silence(35, 10), 25);
    assert_eq!(tick_silence(5, 10), 0);
}

#[test]
fn targets_follow_the_rule_and_the_limit() {
    let cs = [
        cand(1, true, false, true),
        cand(2, true, true, false),
        cand(3, false, true, false),
        cand(4, true, false, false),
        cand(5, true, true, false),
    ];
    assert_eq!(select_targets(TargetRule::new(), &cs), vec![2, 4, 5]);
    assert_eq!(select_targets(TargetRule::new().with_enemies_only(true), &cs), vec![2, 5]);
    assert_eq!(select_targets(TargetRule::new().with_affect_self(true).with_limit(2), &cs), vec![1, 2]);
    assert_eq!(select_targets(TargetRule::new_only_self(), &cs), vec![1]);
    assert_eq!(select_targets(TargetRule::new().with_limit(10), &cs), vec![2, 4, 5]);
}

#[test]
fn entries_split_into_actions_and_effects() {
    let mut a: Actions<u32, &str> = Actions::new().with_effect("aura");
    a.push(Queued::Act(7));
    a.push(Queued::Nothing);
    a.push(Queued::Effect("burn"));
    a.push_container(vec![Queued::Act(8), Queued::Effect("slow"), Queued::Nothing, Queued::Act(9)]);
    assert_eq!(a.get_actions(), &[7, 8, 9]);
    assert_eq!(a.get_effects(), &["aura", "burn", "slow"]);
    a.clear();
    assert_eq!(a.get_effects().len(), 3);
    assert!(a.get_actions().is_empty());
    a.push(Queued::Act(1));
    assert_eq!(a.get_actions(), &[1]);
}

#[test]
fn life_runs_out() {
    let mut d = LifeDuration::new(1_000);
    assert_eq!(d.manage(600), None);
    assert_eq!(d.manage(400), Some(RemoveSource::TimedOut));
    assert_eq!(d.life_duration, 1_000);
    assert_eq!(d.manage(1), Some(RemoveSource::TimedOut));
}

#[test]
fn law_container_is_series_of_pushes_on_values() {
    let mut together: Actions<u32, u8> = Actions::new();
    together.push_container(vec![Queued::Act(1), Queued::Effect(2), Queued::Nothing, Queued::Act(3)]);
    let mut apart: Actions<u32, u8> = Actions::new();
    apart.push(Queued::Act(1));
    apart.push(Queued::Effect(2));
    apart.push(Queued::Nothing);
    apart.push(Queued::Act(3));
    assert_eq!(together.get_actions(), apart.get_actions());
    assert_eq!(together.get_effects(), apart.get_effects());
}
