use potion_panic::enemies::skeleton::{ai, checks, health, health_effects, Skeleton};
use potion_panic::enemies::DamageGiven;
use potion_panic::events::CollisionEvent;
use potion_panic::player::abilities::{green, purple, SpeedEffect};
use potion_panic::player::{PlayerHealth, Vel2};
use potion_panic::{
    game_over, heart_checks, health_game_over, start_menu, switch_levels, update_timer,
    win_screen, GameState, GameTimer,
};

#[test]
fn start_input_begins_gameplay() {
    let mut state = GameState::StartMenu;
    start_menu(&mut state, false);
    assert_eq!(state, GameState::StartMenu);
    start_menu(&mut state, true);
    assert_eq!(state, GameState::Gameplay);
    // outside the menu the system does nothing
    start_menu(&mut state, true);
    assert_eq!(state, GameState::Gameplay);
}

#[test]
fn timer_expiry_during_gameplay_ends_the_game() {
    let mut timer = GameTimer::default();
    assert_eq!(timer.0.duration_ms, 180000);
    let mut state = GameState::Gameplay;
    let display = update_timer(&mut timer, &mut state, 179000);
    assert_eq!(state, GameState::Gameplay);
    assert_eq!(display, (0, 1, false));
    update_timer(&mut timer, &mut state, 1000);
    assert_eq!(state, GameState::GameOver);
}

#[test]
fn timer_is_frozen_outside_gameplay() {
    let mut timer = GameTimer::default();
    let mut state = GameState::StartMenu;
    update_timer(&mut timer, &mut state, 5000);
    assert_eq!(timer.0.elapsed_ms, 0);
    assert_eq!(state, GameState::StartMenu);
}

#[test]
fn timer_display_formats_minutes_and_seconds() {
    let mut timer = GameTimer::default();
    let mut state = GameState::Gameplay;
    // 60500ms elapsed leaves 119500ms: shown as 01:59
    let display = update_timer(&mut timer, &mut state, 60500);
    assert_eq!((display.0, display.1), (1, 59));
    assert!(!display.2);
}

#[test]
fn timer_flashes_red_on_even_seconds_under_thirty() {
    let mut timer = GameTimer::default();
    let mut state = GameState::Gameplay;
    // 28 seconds remain: even, and under thirty
    let display = update_timer(&mut timer, &mut state, 152000);
    assert_eq!(display.1, 28);
    assert!(display.2);
    // 27 seconds remain: odd
    let display = update_timer(&mut timer, &mut state, 1000);
    assert_eq!(display.1, 27);
    assert!(!display.2);
}

#[test]
fn health_zero_ends_the_game() {
    let mut state = GameState::Gameplay;
    health_game_over(&PlayerHealth(1), &mut state);
    assert_eq!(state, GameState::Gameplay);
    health_game_over(&PlayerHealth(0), &mut state);
    assert_eq!(state, GameState::GameOver);
}

#[test]
fn reaching_the_heart_wins_whatever_the_health() {
    let heart = 77u64;
    let mut state = GameState::Gameplay;
    let events = vec![
        CollisionEvent::Started(1, 2, true),
        CollisionEvent::Started(3, heart, true),
    ];
    heart_checks(&events, heart, &mut state);
    assert_eq!(state, GameState::WinScreen);

    // a non-sensor touch or an ended overlap does not win
    let mut state = GameState::Gameplay;
    let events = vec![
        CollisionEvent::Started(3, heart, false),
        CollisionEvent::Stopped(heart, 3, true),
    ];
    heart_checks(&events, heart, &mut state);
    assert_eq!(state, GameState::Gameplay);
}

#[test]
fn restart_resets_the_run() {
    let mut state = GameState::GameOver;
    let mut timer = GameTimer(potion_panic::timer::TickTimer {
        elapsed_ms: 180000,
        duration_ms: 180000,
    });
    let mut health = PlayerHealth(0);
    let mut level = 3usize;
    let mut hurt = DamageGiven(true);
    let outcome = game_over(
        &mut state, &mut timer, &mut health, &mut level, &mut hurt, true, false,
    );
    assert!(outcome.restarted);
    assert!(!outcome.quit);
    assert_eq!(state, GameState::Gameplay);
    assert_eq!(timer.0.elapsed_ms, 0);
    assert_eq!(timer.0.duration_ms, 180000);
    assert_eq!(health.0, 6);
    assert_eq!(level, 0);
    assert!(!hurt.0);
}

#[test]
fn quit_is_accepted_on_both_end_screens() {
    let mut state = GameState::WinScreen;
    let mut timer = GameTimer::default();
    let mut health = PlayerHealth(6);
    let mut level = 0usize;
    let mut hurt = DamageGiven(false);
    let outcome = win_screen(
        &mut state, &mut timer, &mut health, &mut level, &mut hurt, false, true,
    );
    assert!(outcome.quit);
    assert_eq!(state, GameState::WinScreen);

    // during gameplay the end screens ignore input
    let mut state = GameState::Gameplay;
    let outcome = game_over(
        &mut state, &mut timer, &mut health, &mut level, &mut hurt, true, true,
    );
    assert!(!outcome.restarted);
    assert!(!outcome.quit);
    assert_eq!(state, GameState::Gameplay);
}

#[test]
fn falling_below_the_floor_switches_levels() {
    let mut level = 0usize;
    assert!(!switch_levels(12800, &mut level));
    assert_eq!(level, 0);
    assert!(switch_levels(12799, &mut level));
    assert_eq!(level, 1);
}

#[test]
fn two_weak_potions_leave_four_half_hearts_and_a_speed_boost() {
    // the struck entity takes one half-heart per green splash and carries
    // the doubled speed multiplier afterwards
    let mut hp = 6i32;
    let mut boost: Option<SpeedEffect> = None;
    for _ in 0..2 {
        let (damage, speed) = green::checks();
        hp += damage.amount;
        boost = Some(speed);
    }
    assert_eq!(hp, 4);
    assert_eq!(boost.unwrap().multiplier_centi, 200);
}

#[test]
fn one_strong_potion_leaves_four_and_a_damage_boost() {
    let mut hp = 6i32;
    let (damage, boost) = purple::checks();
    hp += damage.amount;
    assert_eq!(hp, 4);
    assert_eq!(boost.multiplier_centi, 300);
}

#[test]
fn three_hits_despawn_a_skeleton() {
    let mut skeleton = Skeleton::default();
    assert_eq!(skeleton.hp, 3);
    let mut hurt = DamageGiven(false);
    for _ in 0..3 {
        assert!(!health(&skeleton));
        let (damage, _) = green::checks();
        health_effects(&mut skeleton, damage, &mut hurt);
    }
    assert!(health(&skeleton));
    assert!(hurt.0);
}

#[test]
fn skeleton_turns_at_a_wall_but_not_in_a_corner() {
    let mut s = Skeleton { going_right: true, left_sensor: 0, right_sensor: 1, hp: 3 };
    let mut v = Vel2 { x: 0, y: 0 };
    ai(&mut s, &mut v, None, 1000);
    assert!(!s.going_right);
    assert_eq!(v.x, -100000);

    // both sensors triggered: the heading is held
    let mut s = Skeleton { going_right: true, left_sensor: 1, right_sensor: 1, hp: 3 };
    let mut v = Vel2 { x: 0, y: 0 };
    ai(&mut s, &mut v, None, 1000);
    assert!(s.going_right);
    assert_eq!(v.x, 100000);
}

#[test]
fn speed_effect_scales_the_patrol() {
    let mut s = Skeleton { going_right: true, left_sensor: 0, right_sensor: 0, hp: 3 };
    let mut v = Vel2 { x: 0, y: 0 };
    let boost = SpeedEffect { multiplier_centi: 200 };
    ai(&mut s, &mut v, Some(&boost), 1000);
    assert_eq!(v.x, 200000);
}

#[test]
fn skeleton_side_sensors_count_overlaps() {
    let mut skeletons = vec![Skeleton::default()];
    let left = vec![(30u64, 0usize)];
    let right = vec![(31u64, 0usize)];
    let events = vec![
        CollisionEvent::Started(30, 100, true),
        CollisionEvent::Started(100, 31, true),
        CollisionEvent::Stopped(31, 100, true),
    ];
    checks(&mut skeletons, &left, &right, &events);
    assert_eq!(skeletons[0].left_sensor, 1);
    assert_eq!(skeletons[0].right_sensor, 0);
}
