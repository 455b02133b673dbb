use potion_panic::events::CollisionEvent;
use potion_panic::player::abilities::{
    collect_potion_hits, green, purple, throw_offset_x, update_active_ability, update_cooldowns,
    update_potion_gravity, use_ability, AbilityCooldown, ActiveAbility, PotionHit,
};
use potion_panic::player::Vel2;
use potion_panic::GameState;

#[test]
fn activation_is_rejected_while_cooling_down() {
    let mut cooldown = AbilityCooldown::default();
    let caster = Vel2 { x: 10000, y: -5000 };

    let first = ActiveAbility::Green.activate(&mut cooldown, caster, true);
    assert!(first.is_some());
    assert!(cooldown.green.is_some());

    // the cooldown slot is occupied: the second activation is a no-op
    let second = ActiveAbility::Green.activate(&mut cooldown, caster, true);
    assert!(second.is_none());
    let slot = cooldown.green;
    assert_eq!(cooldown.green, slot);

    // once the cooldown expires the slot frees and activation succeeds
    update_cooldowns(&mut cooldown, 750);
    assert!(cooldown.green.is_none());
    let third = ActiveAbility::Green.activate(&mut cooldown, caster, true);
    assert!(third.is_some());
}

#[test]
fn cooldowns_tick_independently_of_selection() {
    let mut cooldown = AbilityCooldown::default();
    let caster = Vel2 { x: 0, y: 0 };
    ActiveAbility::Green.activate(&mut cooldown, caster, true);
    ActiveAbility::Purple.activate(&mut cooldown, caster, true);

    // the green cooldown finishes in the background while purple runs on
    update_cooldowns(&mut cooldown, 750);
    assert!(cooldown.green.is_none());
    let purple_slot = cooldown.purple.unwrap();
    assert_eq!(purple_slot.elapsed_ms, 750);
    assert_eq!(purple_slot.duration_ms, 1500);

    update_cooldowns(&mut cooldown, 750);
    assert!(cooldown.purple.is_none());
}

#[test]
fn launch_arc_adds_half_the_caster_velocity() {
    let mut cooldown = AbilityCooldown::default();
    let caster = Vel2 { x: 10000, y: -5000 };
    let act = ActiveAbility::Green.activate(&mut cooldown, caster, true).unwrap();
    assert_eq!(act.projectile_velocity, Vel2 { x: 40000 + 5000, y: 20000 - 2500 });

    let mut cooldown = AbilityCooldown::default();
    let act = ActiveAbility::Green.activate(&mut cooldown, caster, false).unwrap();
    assert_eq!(act.projectile_velocity, Vel2 { x: -40000 + 5000, y: 20000 - 2500 });
}

#[test]
fn use_ability_is_gated_by_state_and_press() {
    let mut cooldown = AbilityCooldown::default();
    let caster = Vel2 { x: 0, y: 0 };
    let r = use_ability(
        &GameState::StartMenu,
        true,
        &ActiveAbility::Green,
        &mut cooldown,
        caster,
        true,
    );
    assert!(r.is_none());
    assert!(cooldown.green.is_none());

    let r = use_ability(
        &GameState::Gameplay,
        false,
        &ActiveAbility::Green,
        &mut cooldown,
        caster,
        true,
    );
    assert!(r.is_none());

    let r = use_ability(
        &GameState::Gameplay,
        true,
        &ActiveAbility::Green,
        &mut cooldown,
        caster,
        true,
    );
    assert!(r.is_some());
}

#[test]
fn selection_cycles_between_the_two_kinds() {
    let mut active = ActiveAbility::Green;
    active.add();
    assert_eq!(active, ActiveAbility::Purple);
    active.add();
    assert_eq!(active, ActiveAbility::Green);
    active.subtract();
    assert_eq!(active, ActiveAbility::Purple);

    update_active_ability(&mut active, 3);
    assert_eq!(active, ActiveAbility::Green);
    update_active_ability(&mut active, 0);
    assert_eq!(active, ActiveAbility::Green);
    update_active_ability(&mut active, -1);
    assert_eq!(active, ActiveAbility::Purple);
}

#[test]
fn ui_slot_positions() {
    assert_eq!(ActiveAbility::Green.ui_position(), -120);
    assert_eq!(ActiveAbility::Purple.ui_position(), -80);
}

#[test]
fn green_payload_is_weak_with_a_speed_boost() {
    let (health, speed) = green::checks();
    assert_eq!(health.amount, -1);
    assert_eq!(speed.multiplier_centi, 200);
}

#[test]
fn purple_payload_is_strong_with_a_damage_boost() {
    let (health, damage) = purple::checks();
    assert_eq!(health.amount, -2);
    assert_eq!(damage.multiplier_centi, 300);
}

#[test]
fn potion_hits_name_the_struck_collider() {
    let potions = vec![7u64, 8u64];
    let events = vec![
        CollisionEvent::Started(7, 100, false),
        CollisionEvent::Started(7, 100, true),   // sensors never splash
        CollisionEvent::Started(100, 8, false),  // the sides are interchangeable
        CollisionEvent::Stopped(7, 100, false),
        CollisionEvent::Started(1, 2, false),
    ];
    let hits = collect_potion_hits(&events, &potions);
    assert_eq!(
        hits,
        vec![
            PotionHit { potion: 7, other: 100 },
            PotionHit { potion: 8, other: 100 },
        ]
    );
}

#[test]
fn potion_gravity_pulls_the_arc_down() {
    let mut v = Vel2 { x: 40000, y: 20000 };
    update_potion_gravity(&mut v, 1000);
    assert_eq!(v, Vel2 { x: 40000, y: 20000 - 171675 });
    let mut v = Vel2 { x: 0, y: 0 };
    update_potion_gravity(&mut v, 16);
    assert_eq!(v.y, -(171675 * 16 / 1000));
}

#[test]
fn throw_position_is_offset_by_facing() {
    assert_eq!(throw_offset_x(5000, true), 6200);
    assert_eq!(throw_offset_x(5000, false), 3800);
}
