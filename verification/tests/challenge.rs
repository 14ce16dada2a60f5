use er_overlay::challenge::{
    ChallengeConfig, ChallengePersisted, ChallengeSnapshot, ChallengeTracker, PbDirection,
};

fn state_path() -> String {
    "challenge_state.toml".to_string()
}

fn tracker(max_deaths: u32) -> ChallengeTracker {
    let mut config = ChallengeConfig::default();
    config.enabled = true;
    config.budget_max = max_deaths;
    ChallengeTracker::new(config, state_path(), ChallengePersisted::default())
}

fn tracker_budget(budget_metric: &str, budget_max: u32) -> ChallengeTracker {
    let mut config = ChallengeConfig::default();
    config.enabled = true;
    config.budget_metric = budget_metric.to_string();
    config.budget_max = budget_max;
    ChallengeTracker::new(config, state_path(), ChallengePersisted::default())
}

/// Classic max/deaths challenge frame: budget = deaths, PB metric = bosses.
fn started(t: &mut ChallengeTracker, deaths: u32, bosses: u32) -> ChallengeSnapshot {
    t.update(Some(deaths), Some(bosses), Some(true))
}

/// Goal challenge frame: budget = bosses, PB metric = deaths.
fn goal(t: &mut ChallengeTracker, bosses: u32, deaths: u32) -> ChallengeSnapshot {
    t.update(Some(bosses), Some(deaths), Some(true))
}

#[test]
fn disabled_returns_empty_snapshot() {
    let mut t =
        ChallengeTracker::new(ChallengeConfig::default(), state_path(), ChallengePersisted::default());
    let snap = t.update(Some(0), Some(0), Some(true));
    assert!(!snap.enabled);
    assert_eq!(snap.pb, 0);
}

#[test]
fn deaths_before_start_flag_are_ignored() {
    let mut t = tracker(0);
    let snap = t.update(Some(3), Some(2), Some(false));
    assert_eq!(snap.tries, 0);
    assert_eq!(snap.pb, 0);
}

#[test]
fn pb_updates_while_within_budget() {
    let mut t = tracker(0);
    started(&mut t, 0, 3);
    let snap = started(&mut t, 0, 5);
    assert_eq!(snap.pb, 5);
    assert!(snap.pb_available);
}

#[test]
fn pb_min_records_deaths_when_boss_goal_reached() {
    let mut t = tracker_budget("bosses", 3);
    t.configure("deaths", PbDirection::Min, "bosses", 3);
    assert!(!goal(&mut t, 1, 4).pb_available);
    let done = goal(&mut t, 3, 5);
    assert_eq!(done.pb, 5);
    assert!(done.pb_available);
    assert_eq!(done.tries, 1);
    assert_eq!(goal(&mut t, 3, 9).pb, 5);
}

#[test]
fn pb_min_keeps_lowest_across_runs() {
    let mut t = tracker_budget("bosses", 2);
    t.configure("deaths", PbDirection::Min, "bosses", 2);
    assert_eq!(goal(&mut t, 2, 8).pb, 8);
    t.update(Some(0), Some(0), Some(false));
    t.update(Some(0), Some(0), Some(true));
    let better = t.update(Some(2), Some(3), Some(true));
    assert_eq!(better.pb, 3);
    assert_eq!(better.tries, 2);
}

#[test]
fn changing_pb_settings_resets_pb() {
    let mut t = tracker(3);
    t.configure("bosses", PbDirection::Max, "deaths", 3);
    assert_eq!(started(&mut t, 0, 7).pb, 7);
    t.configure("deaths", PbDirection::Min, "bosses", 3);
    let snap = t.snapshot();
    assert_eq!(snap.pb, 0);
    assert!(!snap.pb_available);
}

#[test]
fn deathless_increments_tries_once_on_first_death() {
    let mut t = tracker(0);
    started(&mut t, 0, 3);
    let failed = started(&mut t, 1, 3);
    assert_eq!(failed.pb, 3);
    assert_eq!(failed.tries, 1);

    let second_death = started(&mut t, 2, 4);
    assert_eq!(second_death.tries, 1);
    assert_eq!(second_death.pb, 3);
}

#[test]
fn jumping_past_the_cap_counts_one_try() {
    let mut t = tracker(0);
    started(&mut t, 0, 1);
    let snap = started(&mut t, 2, 1);
    assert_eq!(snap.tries, 1);
    assert_eq!(started(&mut t, 3, 2).tries, 1);
    let mut u = tracker(2);
    started(&mut u, 0, 0);
    assert_eq!(started(&mut u, 5, 0).tries, 1);
}

#[test]
fn two_deaths_on_same_run_count_one_try() {
    let mut t = tracker(0);
    started(&mut t, 0, 1);
    started(&mut t, 1, 1);
    started(&mut t, 1, 2);
    let snap = started(&mut t, 2, 2);
    assert_eq!(snap.pb, 1);
    assert_eq!(snap.tries, 1);
}

#[test]
fn pb_frozen_after_death_on_same_run() {
    let mut t = tracker(0);
    started(&mut t, 0, 1);
    started(&mut t, 1, 1);
    let snap = started(&mut t, 1, 2);
    assert_eq!(snap.pb, 1);
    assert_eq!(snap.tries, 1);
}

#[test]
fn pb_stays_frozen_if_start_flag_rebaseline_after_fail() {
    let mut t = tracker(0);
    started(&mut t, 0, 1);
    started(&mut t, 1, 1);
    t.update(Some(1), Some(1), Some(false));
    let snap = t.update(Some(1), Some(2), Some(true));
    assert_eq!(snap.pb, 1);
    assert_eq!(snap.tries, 1);
}

#[test]
fn max_deaths_allows_budget_before_fail() {
    let mut t = tracker(2);
    started(&mut t, 0, 0);
    started(&mut t, 1, 2);
    assert_eq!(started(&mut t, 2, 4).pb, 4);

    let failed = started(&mut t, 3, 5);
    assert_eq!(failed.tries, 1);
    assert_eq!(failed.pb, 4);
}

#[test]
fn clearing_start_flag_resets_run_on_new_game() {
    let mut t = tracker(0);
    t.update(Some(5), Some(2), Some(false));
    started(&mut t, 5, 2);
    started(&mut t, 6, 2);
    let reset = t.update(Some(0), Some(0), Some(false));
    assert_eq!(reset.tries, 1);
    assert_eq!(reset.pb, 2);
    let new_run = started(&mut t, 0, 3);
    assert_eq!(new_run.pb, 3);
}

#[test]
fn readme_deathless_table() {
    // Kill 1 boss with no deaths, then die, then kill another boss on the same save.
    let mut t = tracker(0);
    let a = started(&mut t, 0, 1);
    assert_eq!((a.pb, a.tries), (1, 0));
    let b = started(&mut t, 1, 1);
    assert_eq!((b.pb, b.tries), (1, 1));
    let c = started(&mut t, 1, 2);
    assert_eq!((c.pb, c.tries), (1, 1));
}

#[test]
fn missing_budget_reading_reports_current_state() {
    let mut t = tracker(0);
    started(&mut t, 0, 4);
    let snap = t.update(None, Some(9), Some(true));
    assert_eq!(snap.pb, 4);
    assert_eq!(snap, t.snapshot());
}

#[test]
fn repeated_reading_changes_nothing() {
    let mut t = tracker(0);
    started(&mut t, 0, 2);
    let first = started(&mut t, 1, 2);
    let again = started(&mut t, 1, 2);
    assert_eq!(first, again);
}

#[test]
fn flush_clears_dirty_only_after_a_successful_write() {
    let mut t = tracker(0);
    started(&mut t, 0, 2);
    assert!(t.pending_state().is_some());
    t.flush(false);
    assert!(t.pending_state().is_some());
    assert_eq!(t.pending_state().unwrap().pb, 2);
    t.flush(true);
    assert!(t.pending_state().is_none());
}

#[test]
fn configure_twice_with_same_settings_keeps_pb() {
    let mut t = tracker(3);
    t.configure("bosses", PbDirection::Max, "deaths", 3);
    started(&mut t, 0, 6);
    t.configure("bosses", PbDirection::Max, "deaths", 3);
    assert_eq!(t.snapshot().pb, 6);
}

#[test]
fn state_path_is_kept() {
    let t = tracker(0);
    assert_eq!(t.state_path(), "challenge_state.toml");
}
