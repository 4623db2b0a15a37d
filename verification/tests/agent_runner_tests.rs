use trippy_ants::agent::{
    plan_wall_bounce, speed_seed, value_seed, AxisMove, Heading, Rating, WallBounceReaction,
};
use trippy_ants::config::ConfigWatcher;
use trippy_ants::runner::{
    advance_deadline, agent_index, chunk_sizes, resize_agents, window_action, AppAction, Key,
    StepHistory, Timings, WindowInput, TPS_HISTORY_MAX,
};

#[test]
fn no_plan_inside_the_grid() {
    let reaction: WallBounceReaction<f32> = WallBounceReaction::Clip;
    assert!(plan_wall_bounce(&reaction, true, Rating::Equal, Rating::Equal).is_none());
}

#[test]
fn clip_moves_to_the_edges() {
    let reaction: WallBounceReaction<f32> = WallBounceReaction::Clip;
    let plan = plan_wall_bounce(&reaction, true, Rating::Less, Rating::Equal).unwrap();
    assert!(plan.negate_value);
    assert_eq!(plan.x, AxisMove::ToLowEdge);
    assert_eq!(plan.y, AxisMove::Keep);
    assert!(!plan.flip_x && !plan.renormalize);
}

#[test]
fn wrap_around_wraps() {
    let reaction: WallBounceReaction<f32> = WallBounceReaction::WrapAround;
    let plan = plan_wall_bounce(&reaction, false, Rating::Greater, Rating::Less).unwrap();
    assert!(!plan.negate_value);
    assert_eq!(plan.x, AxisMove::WrapBack);
    assert_eq!(plan.y, AxisMove::WrapForward);
}

#[test]
fn center_and_random_respawn() {
    let center: WallBounceReaction<f32> = WallBounceReaction::Center;
    let plan = plan_wall_bounce(&center, false, Rating::Equal, Rating::Greater).unwrap();
    assert_eq!((plan.x, plan.y), (AxisMove::ToCenter, AxisMove::ToCenter));
    let random: WallBounceReaction<f32> = WallBounceReaction::Random;
    let plan = plan_wall_bounce(&random, false, Rating::Less, Rating::Equal).unwrap();
    assert_eq!((plan.x, plan.y), (AxisMove::ToRandom, AxisMove::ToRandom));
}

#[test]
fn face_away_draws_headings_away_from_walls() {
    let reaction = WallBounceReaction::FaceAway(0.5f32);
    let plan = plan_wall_bounce(&reaction, false, Rating::Greater, Rating::Less).unwrap();
    assert_eq!(plan.x, AxisMove::ToHighEdge);
    assert_eq!(plan.y, AxisMove::ToLowEdge);
    assert_eq!(plan.x_heading, Some(Heading::NegativeX));
    assert_eq!(plan.y_heading, Some(Heading::PositiveY));
    let plan = plan_wall_bounce(&reaction, false, Rating::Less, Rating::Equal).unwrap();
    assert_eq!(plan.x_heading, Some(Heading::PositiveX));
    assert_eq!(plan.y_heading, None);
}

#[test]
fn bounce_off_mirrors_the_hit_axis() {
    let reaction: WallBounceReaction<f32> = WallBounceReaction::BounceOff;
    let plan = plan_wall_bounce(&reaction, false, Rating::Equal, Rating::Greater).unwrap();
    assert!(!plan.flip_x);
    assert!(plan.flip_y);
    assert!(plan.renormalize);
    assert_eq!(plan.y, AxisMove::ToHighEdge);
    assert_eq!(plan.x, AxisMove::Keep);
}

#[test]
fn seeds_are_xored_indices() {
    assert_eq!(speed_seed(0), 0x1234_5678);
    assert_eq!(value_seed(1), 0x8765_4320);
    assert_ne!(speed_seed(3), speed_seed(4));
}

#[test]
fn chunks_share_agents_evenly() {
    assert_eq!(chunk_sizes(10, 4), vec![3, 3, 2, 2]);
    assert_eq!(chunk_sizes(3, 5), vec![1, 1, 1, 0, 0]);
    assert_eq!(chunk_sizes(0, 2), vec![0, 0]);
    assert_eq!(chunk_sizes(20_000, 8).iter().sum::<usize>(), 20_000);
}

#[test]
fn agent_indices_saturate() {
    assert_eq!(agent_index(7), 7);
    assert_eq!(agent_index(u32::MAX as usize), u32::MAX);
    if usize::BITS > 32 {
        assert_eq!(agent_index(u32::MAX as usize + 5), u32::MAX);
    }
}

#[test]
fn resize_grows_and_shrinks() {
    let mut agents = vec![100u32, 101];
    resize_agents(&mut agents, 5, |index: u32| index * 10);
    assert_eq!(agents, vec![100, 101, 20, 30, 40]);
    resize_agents(&mut agents, 3, |index: u32| index);
    assert_eq!(agents, vec![100, 101, 20]);
    resize_agents(&mut agents, 0, |index: u32| index);
    assert!(agents.is_empty());
}

#[test]
fn deadlines_advance_past_now() {
    assert_eq!(advance_deadline(100, 50, 30), 100);
    assert_eq!(advance_deadline(100, 100, 30), 130);
    assert_eq!(advance_deadline(100, 195, 30), 220);
    assert_eq!(advance_deadline(100, 190, 30), 220);
    assert_eq!(advance_deadline(100, 189, 30), 190);
}

#[test]
fn history_keeps_most_recent_samples() {
    let mut history = StepHistory::new();
    for sample in 0..(TPS_HISTORY_MAX as u64 + 3) {
        history.push(sample);
    }
    let samples = history.samples();
    assert_eq!(samples.len(), TPS_HISTORY_MAX);
    assert_eq!(samples[0], 3);
    assert_eq!(*samples.last().unwrap(), TPS_HISTORY_MAX as u64 + 2);
}

#[test]
fn timings_reset_to_zero() {
    let mut timings = Timings::default();
    timings.blur = 5;
    timings.sync = 9;
    timings.reset();
    assert_eq!(timings.blur, 0);
    assert_eq!(timings.sync, 0);
}

#[test]
fn window_events_map_to_actions() {
    assert_eq!(window_action(WindowInput::CloseRequested), AppAction::Exit);
    assert_eq!(window_action(WindowInput::KeyPressed(Key::Escape)), AppAction::Exit);
    assert_eq!(window_action(WindowInput::KeyPressed(Key::Space)), AppAction::SaveScreenshot);
    assert_eq!(window_action(WindowInput::KeyPressed(Key::Other)), AppAction::Ignore);
    assert_eq!(window_action(WindowInput::RedrawRequested), AppAction::Redraw);
    assert_eq!(window_action(WindowInput::Other), AppAction::Ignore);
}

#[test]
fn watcher_polls_only_after_load_and_cooldown() {
    let mut watcher = ConfigWatcher::new(0);
    assert_eq!(watcher.path(), "");
    assert!(!watcher.poll_due(5_000_000_000));
    watcher.record_load("demo.config.toml".to_string(), Some(42), 1_000_000_000);
    assert_eq!(watcher.path(), "demo.config.toml");
    assert!(!watcher.poll_due(1_500_000_000));
    assert!(watcher.poll_due(2_000_000_000));
    assert!(!watcher.poll_due(2_999_999_999));
    assert!(watcher.poll_due(3_000_000_000));
    assert!(!watcher.is_update(42));
    assert!(!watcher.is_update(41));
    assert!(watcher.is_update(43));
    watcher.record_update(43);
    assert!(!watcher.is_update(43));
}

#[test]
fn watcher_without_modification_time_does_not_poll() {
    let mut watcher = ConfigWatcher::new(0);
    watcher.record_load("a.toml".to_string(), None, 10);
    assert_eq!(watcher.path(), "a.toml");
    assert!(!watcher.poll_due(10_000_000_000));
}
