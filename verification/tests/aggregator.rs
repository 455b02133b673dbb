use potion_panic::enemies::{enemy_direction, enemy_gravity, enemy_physics_checks, EnemyPhysics};
use potion_panic::events::CollisionEvent;
use potion_panic::player::{
    damage_amount, player_physics_checks, DamageSource, PlayerHealth, PlayerPhysics, Vel2,
};

const GROUND: u64 = 10;
const DAMAGE: u64 = 11;

fn fresh_player() -> PlayerPhysics {
    PlayerPhysics {
        total_ground_collisions: 0,
        grounded: false,
        slamming: false,
        early_jump: None,
        coyote_time: None,
    }
}

fn begin(a: u64, b: u64) -> CollisionEvent {
    CollisionEvent::Started(a, b, true)
}

fn end(a: u64, b: u64) -> CollisionEvent {
    CollisionEvent::Stopped(a, b, true)
}

#[test]
fn grounded_follows_the_counter_through_multi_contact() {
    let mut physics = fresh_player();
    let mut health = PlayerHealth(6);
    // two overlapping ground contacts; leaving one keeps the player grounded
    let events = vec![begin(GROUND, 100), begin(101, GROUND), end(GROUND, 100)];
    player_physics_checks(
        &mut physics,
        &mut health,
        &events,
        GROUND,
        DAMAGE,
        &vec![],
        &vec![],
    );
    assert_eq!(physics.total_ground_collisions, 1);
    assert!(physics.grounded);

    // leaving the last contact clears the flag
    let events = vec![end(101, GROUND)];
    player_physics_checks(
        &mut physics,
        &mut health,
        &events,
        GROUND,
        DAMAGE,
        &vec![],
        &vec![],
    );
    assert_eq!(physics.total_ground_collisions, 0);
    assert!(!physics.grounded);
}

#[test]
fn grounded_invariant_holds_after_every_event() {
    let mut physics = fresh_player();
    let mut health = PlayerHealth(6);
    let stream = vec![
        begin(GROUND, 1),
        begin(GROUND, 2),
        end(GROUND, 1),
        begin(GROUND, 3),
        end(GROUND, 2),
        end(GROUND, 3),
    ];
    for e in stream {
        player_physics_checks(
            &mut physics,
            &mut health,
            &vec![e],
            GROUND,
            DAMAGE,
            &vec![],
            &vec![],
        );
        assert!(physics.total_ground_collisions >= 0);
        assert_eq!(physics.grounded, physics.total_ground_collisions > 0);
    }
}

#[test]
fn non_sensor_events_are_ignored() {
    let mut physics = fresh_player();
    let mut health = PlayerHealth(6);
    let events = vec![CollisionEvent::Started(GROUND, 100, false)];
    player_physics_checks(
        &mut physics,
        &mut health,
        &events,
        GROUND,
        DAMAGE,
        &vec![],
        &vec![],
    );
    assert_eq!(physics.total_ground_collisions, 0);
    assert!(!physics.grounded);
}

#[test]
fn damage_contact_applies_source_damage() {
    let mut physics = fresh_player();
    let mut health = PlayerHealth(6);
    let activator = DamageSource { entity: 50, parent: 40, damage: -1 };
    let events = vec![begin(DAMAGE, 50)];
    let flashes = player_physics_checks(
        &mut physics,
        &mut health,
        &events,
        GROUND,
        DAMAGE,
        &vec![activator],
        &vec![],
    );
    assert_eq!(health.0, 5);
    assert_eq!(flashes, 1);
}

#[test]
fn damage_multiplier_on_the_owner_scales_the_hit() {
    let mut physics = fresh_player();
    let mut health = PlayerHealth(6);
    let activator = DamageSource { entity: 50, parent: 40, damage: -1 };
    // the owner carries a tripled damage multiplier
    let events = vec![begin(50, DAMAGE)];
    player_physics_checks(
        &mut physics,
        &mut health,
        &events,
        GROUND,
        DAMAGE,
        &vec![activator],
        &vec![(40, 300)],
    );
    assert_eq!(health.0, 3);
}

#[test]
fn unknown_collider_is_dropped_silently() {
    let mut physics = fresh_player();
    let mut health = PlayerHealth(6);
    let events = vec![begin(DAMAGE, 99)];
    let flashes = player_physics_checks(
        &mut physics,
        &mut health,
        &events,
        GROUND,
        DAMAGE,
        &vec![],
        &vec![],
    );
    assert_eq!(health.0, 6);
    assert_eq!(flashes, 0);
}

#[test]
fn damage_amount_rounds_to_nearest() {
    assert_eq!(damage_amount(-1, 100), -1);
    assert_eq!(damage_amount(-1, 300), -3);
    assert_eq!(damage_amount(-1, 150), -2);
    assert_eq!(damage_amount(-3, 50), -2);
    assert_eq!(damage_amount(-1, 140), -1);
    assert_eq!(damage_amount(2, 250), 5);
    assert_eq!(damage_amount(0, 300), 0);
}

#[test]
fn enemy_checks_route_events_to_their_owner() {
    let mut enemies = vec![
        EnemyPhysics { total_ground_collisions: 0, grounded: false },
        EnemyPhysics { total_ground_collisions: 0, grounded: false },
    ];
    let sensors = vec![(20u64, 0usize), (21u64, 1usize)];
    let events = vec![begin(20, 100), begin(21, 100), end(21, 100)];
    enemy_physics_checks(&mut enemies, &sensors, &events);
    assert_eq!(enemies[0].total_ground_collisions, 1);
    assert!(enemies[0].grounded);
    assert_eq!(enemies[1].total_ground_collisions, 0);
    assert!(!enemies[1].grounded);
}

#[test]
fn enemy_gravity_only_pulls_airborne_enemies() {
    let airborne = EnemyPhysics { total_ground_collisions: 0, grounded: false };
    let grounded = EnemyPhysics { total_ground_collisions: 1, grounded: true };
    let mut v = Vel2 { x: 5, y: 0 };
    enemy_gravity(&mut v, &airborne, 1000);
    assert_eq!(v, Vel2 { x: 5, y: -269775 });
    let mut v = Vel2 { x: 5, y: 0 };
    enemy_gravity(&mut v, &grounded, 1000);
    assert_eq!(v, Vel2 { x: 5, y: 0 });
}

#[test]
fn enemy_facing_has_a_dead_zone() {
    let mut flip = false;
    enemy_direction(&Vel2 { x: -11, y: 0 }, &mut flip);
    assert!(flip);
    enemy_direction(&Vel2 { x: 5, y: 0 }, &mut flip);
    assert!(flip);
    enemy_direction(&Vel2 { x: 11, y: 0 }, &mut flip);
    assert!(!flip);
}
