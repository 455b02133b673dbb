use potion_panic::player::{
    player_movement, speed, MoveInput, PlayerPhysics, Vel2, AIR_FORCE, DOWN_GRAVITY,
    EASY_DOWN_GRAVITY, EASY_UP_GRAVITY, JUMP_IMPULSE, MAX_GROUND_SPEED, SLAM_FORCE, UP_GRAVITY,
};
use potion_panic::GameState;

fn idle() -> MoveInput {
    MoveInput {
        left: false,
        right: false,
        jump_just_pressed: false,
        jump_held: false,
        crouch_just_pressed: false,
    }
}

fn grounded_physics() -> PlayerPhysics {
    PlayerPhysics {
        total_ground_collisions: 1,
        grounded: true,
        slamming: false,
        early_jump: None,
        coyote_time: None,
    }
}

fn airborne_physics() -> PlayerPhysics {
    PlayerPhysics {
        total_ground_collisions: 0,
        grounded: false,
        slamming: false,
        early_jump: None,
        coyote_time: None,
    }
}

#[test]
fn outside_gameplay_is_a_no_op() {
    let mut physics = grounded_physics();
    let mut velocity = Vel2 { x: 123, y: 456 };
    let mut facing = true;
    let input = MoveInput { right: true, ..idle() };
    player_movement(
        &mut physics,
        &mut velocity,
        &mut facing,
        input,
        1000,
        16,
        &GameState::StartMenu,
    );
    assert_eq!(velocity, Vel2 { x: 123, y: 456 });
    assert_eq!(physics, grounded_physics());
}

#[test]
fn grounded_run_accelerates_and_arms_coyote() {
    let mut physics = grounded_physics();
    let mut velocity = Vel2 { x: 0, y: 0 };
    let mut facing = false;
    let input = MoveInput { right: true, ..idle() };
    player_movement(
        &mut physics,
        &mut velocity,
        &mut facing,
        input,
        5000,
        16,
        &GameState::Gameplay,
    );
    // the ground force is clamped to the ground speed cap
    assert_eq!(velocity.x, MAX_GROUND_SPEED * 16 / 1000);
    assert_eq!(velocity.y, 0);
    assert!(facing);
    assert_eq!(physics.coyote_time, Some(5000));
    assert!(!physics.slamming);
}

#[test]
fn grounded_jump_grants_impulse() {
    let mut physics = grounded_physics();
    let mut velocity = Vel2 { x: 0, y: 0 };
    let mut facing = false;
    let input = MoveInput { jump_just_pressed: true, ..idle() };
    player_movement(
        &mut physics,
        &mut velocity,
        &mut facing,
        input,
        5000,
        16,
        &GameState::Gameplay,
    );
    assert_eq!(velocity.y, JUMP_IMPULSE);
    assert_eq!(physics.coyote_time, None);
}

#[test]
fn coyote_jump_within_window_grants_impulse_once() {
    // the player left the ground at 5000ms; a jump 50ms later still works
    let mut physics = PlayerPhysics { coyote_time: Some(5000), ..airborne_physics() };
    let mut velocity = Vel2 { x: 0, y: 0 };
    let mut facing = false;
    let input = MoveInput { jump_just_pressed: true, ..idle() };
    player_movement(
        &mut physics,
        &mut velocity,
        &mut facing,
        input,
        5050,
        16,
        &GameState::Gameplay,
    );
    assert_eq!(velocity.y, JUMP_IMPULSE);
    assert_eq!(physics.coyote_time, None);
    assert_eq!(physics.early_jump, None);

    // an identical second press finds no window and gains nothing
    let vy = velocity.y;
    player_movement(
        &mut physics,
        &mut velocity,
        &mut facing,
        input,
        5066,
        16,
        &GameState::Gameplay,
    );
    assert!(velocity.y < vy + JUMP_IMPULSE);
    assert_eq!(physics.coyote_time, None);
}

#[test]
fn coyote_jump_after_window_grants_nothing() {
    let mut physics = PlayerPhysics { coyote_time: Some(5000), ..airborne_physics() };
    let mut velocity = Vel2 { x: 0, y: 0 };
    let mut facing = false;
    let input = MoveInput { jump_just_pressed: true, ..idle() };
    player_movement(
        &mut physics,
        &mut velocity,
        &mut facing,
        input,
        5100,
        16,
        &GameState::Gameplay,
    );
    // only gravity applies; the press is buffered for an early jump instead
    assert_eq!(velocity.y, -(UP_GRAVITY * 16 / 1000));
    assert_eq!(physics.coyote_time, None);
    assert_eq!(physics.early_jump, Some(5100));
}

#[test]
fn early_jump_granted_on_landing_within_window() {
    // pressed in the air at 7000ms
    let mut physics = airborne_physics();
    let mut velocity = Vel2 { x: 0, y: -100 };
    let mut facing = false;
    let press = MoveInput { jump_just_pressed: true, ..idle() };
    player_movement(
        &mut physics,
        &mut velocity,
        &mut facing,
        press,
        7000,
        16,
        &GameState::Gameplay,
    );
    assert_eq!(physics.early_jump, Some(7000));

    // landed 30ms later: the buffered press is honoured
    physics.grounded = true;
    physics.total_ground_collisions = 1;
    let before = velocity.y;
    player_movement(
        &mut physics,
        &mut velocity,
        &mut facing,
        idle(),
        7030,
        16,
        &GameState::Gameplay,
    );
    assert_eq!(velocity.y, before + JUMP_IMPULSE);
}

#[test]
fn early_jump_expires_after_window() {
    let mut physics = PlayerPhysics { early_jump: Some(7000), ..airborne_physics() };
    physics.grounded = true;
    physics.total_ground_collisions = 1;
    let mut velocity = Vel2 { x: 0, y: 0 };
    let mut facing = false;
    player_movement(
        &mut physics,
        &mut velocity,
        &mut facing,
        idle(),
        7040,
        16,
        &GameState::Gameplay,
    );
    assert_eq!(velocity.y, 0);
    assert_eq!(physics.early_jump, None);
}

#[test]
fn crouch_in_air_latches_slam() {
    let mut physics = airborne_physics();
    let mut velocity = Vel2 { x: 0, y: 100 };
    let mut facing = false;
    let input = MoveInput { crouch_just_pressed: true, ..idle() };
    player_movement(
        &mut physics,
        &mut velocity,
        &mut facing,
        input,
        9000,
        100,
        &GameState::Gameplay,
    );
    assert!(physics.slamming);
    assert_eq!(velocity.y, 100 - (SLAM_FORCE + UP_GRAVITY) * 100 / 1000);
}

#[test]
fn landing_clears_slam() {
    let mut physics = PlayerPhysics { slamming: true, ..grounded_physics() };
    let mut velocity = Vel2 { x: 0, y: 0 };
    let mut facing = false;
    player_movement(
        &mut physics,
        &mut velocity,
        &mut facing,
        idle(),
        9000,
        16,
        &GameState::Gameplay,
    );
    assert!(!physics.slamming);
}

#[test]
fn gravity_table_four_cases() {
    let cases = [
        (1i64, true, EASY_UP_GRAVITY),
        (1, false, UP_GRAVITY),
        (-1, true, EASY_DOWN_GRAVITY),
        (-1, false, DOWN_GRAVITY),
    ];
    for (vy, held, gravity) in cases {
        let mut physics = airborne_physics();
        let mut velocity = Vel2 { x: 0, y: vy };
        let mut facing = false;
        let input = MoveInput { jump_held: held, ..idle() };
        player_movement(
            &mut physics,
            &mut velocity,
            &mut facing,
            input,
            9000,
            1000,
            &GameState::Gameplay,
        );
        assert_eq!(velocity.y, vy - gravity);
    }
}

#[test]
fn airborne_horizontal_force_is_weaker() {
    let mut physics = airborne_physics();
    let mut velocity = Vel2 { x: 0, y: -1 };
    let mut facing = false;
    let input = MoveInput { right: true, ..idle() };
    player_movement(
        &mut physics,
        &mut velocity,
        &mut facing,
        input,
        9000,
        100,
        &GameState::Gameplay,
    );
    // the air force of 250000 clamps to the air cap of 100000
    assert_eq!(velocity.x, 100000 * 100 / 1000);
    let _ = AIR_FORCE;
}

#[test]
fn speed_cap_never_decelerates_a_fast_player() {
    // moving faster than the ground cap: the cap rises to the current speed
    let mut physics = grounded_physics();
    let mut velocity = Vel2 { x: 200000, y: 0 };
    let mut facing = false;
    let input = MoveInput { right: true, ..idle() };
    player_movement(
        &mut physics,
        &mut velocity,
        &mut facing,
        input,
        9000,
        1000,
        &GameState::Gameplay,
    );
    assert_eq!(velocity.x, 200000 + 200000);
}

#[test]
fn speed_is_the_euclidean_length_rounded_down() {
    assert_eq!(speed(&Vel2 { x: 3, y: 4 }), 5);
    assert_eq!(speed(&Vel2 { x: -3, y: 4 }), 5);
    assert_eq!(speed(&Vel2 { x: 1, y: 1 }), 1);
    assert_eq!(speed(&Vel2 { x: 0, y: 0 }), 0);
    assert_eq!(speed(&Vel2 { x: 150000, y: 0 }), 150000);
}
