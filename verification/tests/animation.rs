use potion_panic::animator::{
    ability_cooldown, animate_sprite, damage_flash, AnimationIndices, AnimationTimer, DamageFlash,
};
use potion_panic::player::abilities::Cooldown;
use potion_panic::player::{health_flash, heart_levels, update_viewport};
use potion_panic::timer::{RepeatingTimer, TickTimer};
use potion_panic::GameState;

#[test]
fn frames_step_and_wrap() {
    let indices = AnimationIndices { first: 0, last: 2 };
    let mut timer = AnimationTimer(RepeatingTimer { elapsed_ms: 0, period_ms: 100 });
    let mut index = 0usize;
    // not enough time: no step
    assert!(!animate_sprite(&mut index, &indices, &mut timer, false, 50, &GameState::Gameplay));
    assert_eq!(index, 0);
    // the period completes: one step
    animate_sprite(&mut index, &indices, &mut timer, false, 50, &GameState::Gameplay);
    assert_eq!(index, 1);
    animate_sprite(&mut index, &indices, &mut timer, false, 100, &GameState::Gameplay);
    assert_eq!(index, 2);
    // wrapping from the last frame restarts at the first
    animate_sprite(&mut index, &indices, &mut timer, false, 100, &GameState::Gameplay);
    assert_eq!(index, 0);
}

#[test]
fn destruct_entities_despawn_on_wrap() {
    let indices = AnimationIndices { first: 0, last: 1 };
    let mut timer = AnimationTimer(RepeatingTimer { elapsed_ms: 0, period_ms: 100 });
    let mut index = 1usize;
    let despawn = animate_sprite(&mut index, &indices, &mut timer, true, 100, &GameState::Gameplay);
    assert!(despawn);
    assert_eq!(index, 0);
}

#[test]
fn animation_pauses_outside_gameplay() {
    let indices = AnimationIndices { first: 0, last: 1 };
    let mut timer = AnimationTimer(RepeatingTimer { elapsed_ms: 0, period_ms: 100 });
    let mut index = 0usize;
    animate_sprite(&mut index, &indices, &mut timer, false, 500, &GameState::GameOver);
    assert_eq!(index, 0);
    assert_eq!(timer.0.elapsed_ms, 0);
}

#[test]
fn damage_flash_lasts_a_tenth_of_a_second() {
    let mut flash = DamageFlash::default();
    assert!(!damage_flash(&mut flash, 50));
    assert!(!damage_flash(&mut flash, 49));
    assert!(damage_flash(&mut flash, 1));
}

#[test]
fn cooldown_indicator_tracks_the_elapsed_fraction() {
    let mut cooldown = Cooldown(TickTimer { elapsed_ms: 0, duration_ms: 750 });
    let (frame, done) = ability_cooldown(&mut cooldown, 375);
    assert_eq!(frame, 375 * 17 / 750);
    assert!(!done);
    // at the end the frame clamps to the last valid index
    let (frame, done) = ability_cooldown(&mut cooldown, 375);
    assert_eq!(frame, 16);
    assert!(done);
}

#[test]
fn heart_levels_follow_half_heart_thresholds() {
    assert_eq!(heart_levels(6), (2, 2, 2));
    assert_eq!(heart_levels(5), (2, 2, 1));
    assert_eq!(heart_levels(4), (2, 2, 0));
    assert_eq!(heart_levels(3), (2, 1, 0));
    assert_eq!(heart_levels(2), (2, 0, 0));
    assert_eq!(heart_levels(1), (1, 0, 0));
    assert_eq!(heart_levels(0), (0, 0, 0));
    assert_eq!(heart_levels(-2), (0, 0, 0));
}

#[test]
fn health_flash_blinks_faster_when_hurt() {
    // with one half-heart left, the dark phase is 300ms
    let mut flash = false;
    let mut elapsed = 0u64;
    health_flash(&mut flash, &mut elapsed, 300, 1);
    assert!(!flash);
    health_flash(&mut flash, &mut elapsed, 1, 1);
    assert!(flash);
    assert_eq!(elapsed, 0);
    // the flash phase always lasts a quarter second
    health_flash(&mut flash, &mut elapsed, 251, 1);
    assert!(!flash);
}

#[test]
fn viewport_scales_and_centres() {
    let (x, y, w, h) = update_viewport(1000, 700);
    assert_eq!((w, h), (960, 640));
    assert_eq!((x, y), (20, 30));
    // a window smaller than the base resolution collapses the viewport
    let (x, y, w, h) = update_viewport(400, 300);
    assert_eq!((w, h), (0, 0));
    assert_eq!((x, y), (200, 150));
}
