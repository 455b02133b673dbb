//! Gameplay core of a 2D platformer.
//!
//! The engine (rendering, audio, physics solving, asset loading, window
//! input) is an external collaborator; this crate holds the verified game
//! logic it drives: a greedy wall mesher that turns level grids into
//! collision rectangles, a collision-event aggregator that maintains
//! grounded/sensor counters, the player movement state machine with
//! coyote-time and early-jump buffering, the skeleton patrol AI, the
//! potion ability and status-effect system, and the game progression
//! state machine.
//!
//! All quantities the logic decides on are plain integers: velocities and
//! forces in centi-units (one hundredth of a world unit) per second, and
//! times in milliseconds.
use vstd::prelude::*;

pub mod animator;
pub mod enemies;
pub mod events;
pub mod player;
pub mod timer;
pub mod world;

verus! {

/// Global game state; gates which systems may act each tick.
#[derive(Clone, Copy, PartialEq, Eq, Structural, Debug)]
pub enum GameState {
    StartMenu,
    Gameplay,
    GameOver,
    WinScreen,
}

/// Seconds on the countdown clock at the start of a playthrough.
pub const GAME_TIME: u64 = 180;

/// The level countdown clock.
#[derive(Clone, Copy, PartialEq, Eq, Structural, Debug)]
pub struct GameTimer(pub timer::TickTimer);

impl Default for GameTimer {
    /// A fresh clock counts down the whole game time.
    fn default() -> (r: Self)
        ensures
            r.0.elapsed_ms == 0,
            r.0.duration_ms == GAME_TIME * 1000,
    {
        GameTimer(timer::TickTimer { elapsed_ms: 0, duration_ms: 180000 })
    }
}

/// While on the start menu, a start input moves the game to `Gameplay`;
/// any other input leaves the state alone, and outside the menu the
/// system is a no-op.
pub fn start_menu(game_state: &mut GameState, start_pressed: bool)
    ensures
        *final(game_state) == if *old(game_state) == GameState::StartMenu
            && start_pressed { GameState::Gameplay } else { *old(game_state) },
{
    if *game_state != GameState::StartMenu {
        return;
    }
    if start_pressed {
        *game_state = GameState::Gameplay;
    }
}

/// What one end-screen tick decided: whether to quit the process, and
/// whether a restart happened (the caller then respawns the world).
#[derive(Clone, Copy, PartialEq, Eq, Structural, Debug)]
pub struct EndScreenOutcome {
    pub restarted: bool,
    pub quit: bool,
}

/// Handle input on an end screen (game over or win): a restart input
/// returns to gameplay and resets the clock, the health, the level and
/// the hurt flag to their initial values; a quit input ends the
/// process. Outside the given screen the system is a no-op.
fn end_screen(
    screen: GameState,
    game_state: &mut GameState,
    game_timer: &mut GameTimer,
    health: &mut player::PlayerHealth,
    level_index: &mut usize,
    damage_given: &mut enemies::DamageGiven,
    restart_pressed: bool,
    quit_pressed: bool,
) -> (r: EndScreenOutcome)
    ensures
        *old(game_state) != screen ==> *final(game_state) == *old(game_state) && *final(game_timer) == *old(game_timer) && *final(health) == *old(health) && *final(level_index) == *old(level_index) && *final(damage_given) == *old(damage_given) && !r.restarted && !r.quit,
        *old(game_state) == screen ==> ({
            &&& r.restarted == restart_pressed
            &&& r.quit == quit_pressed
            &&& restart_pressed ==> *final(game_state) == GameState::Gameplay && final(game_timer).0.elapsed_ms == 0 && final(game_timer).0.duration_ms == GAME_TIME * 1000 && final(health).0 == 6 && *final(level_index) == 0 && !final(damage_given).0
            &&& !restart_pressed ==> *final(game_state) == *old(game_state) && *final(game_timer)
                == *old(game_timer) && *final(health) == *old(health) && *final(level_index)
                == *old(level_index) && *final(damage_given) == *old(damage_given)
        }),
{
    if *game_state != screen {
        return EndScreenOutcome { restarted: false, quit: false };
    }
    if restart_pressed {
        *game_state = GameState::Gameplay;
        *game_timer = GameTimer::default();
        *health = player::PlayerHealth(6);
        *level_index = 0;
        *damage_given = enemies::DamageGiven(false);
    }
    EndScreenOutcome { restarted: restart_pressed, quit: quit_pressed }
}

/// Handle input on the game-over screen.
pub fn game_over(
    game_state: &mut GameState,
    game_timer: &mut GameTimer,
    health: &mut player::PlayerHealth,
    level_index: &mut usize,
    damage_given: &mut enemies::DamageGiven,
    restart_pressed: bool,
    quit_pressed: bool,
) -> (r: EndScreenOutcome)
    ensures
        *old(game_state) != GameState::GameOver ==> *final(game_state) == *old(game_state)
            && *final(game_timer) == *old(game_timer) && *final(health) == *old(health) && *final(level_index) == *old(level_index) && *final(damage_given) == *old(damage_given) && !r.restarted
            && !r.quit,
        *old(game_state) == GameState::GameOver ==> ({
            &&& r.restarted == restart_pressed
            &&& r.quit == quit_pressed
            &&& restart_pressed ==> *final(game_state) == GameState::Gameplay && final(game_timer).0.elapsed_ms == 0 && final(game_timer).0.duration_ms == GAME_TIME * 1000 && final(health).0 == 6 && *final(level_index) == 0 && !final(damage_given).0
            &&& !restart_pressed ==> *final(game_state) == *old(game_state) && *final(game_timer)
                == *old(game_timer) && *final(health) == *old(health) && *final(level_index)
                == *old(level_index) && *final(damage_given) == *old(damage_given)
        }),
{
    end_screen(
        GameState::GameOver,
        game_state,
        game_timer,
        health,
        level_index,
        damage_given,
        restart_pressed,
        quit_pressed,
    )
}

/// Handle input on the win screen.
pub fn win_screen(
    game_state: &mut GameState,
    game_timer: &mut GameTimer,
    health: &mut player::PlayerHealth,
    level_index: &mut usize,
    damage_given: &mut enemies::DamageGiven,
    restart_pressed: bool,
    quit_pressed: bool,
) -> (r: EndScreenOutcome)
    ensures
        *old(game_state) != GameState::WinScreen ==> *final(game_state) == *old(game_state)
            && *final(game_timer) == *old(game_timer) && *final(health) == *old(health) && *final(level_index) == *old(level_index) && *final(damage_given) == *old(damage_given) && !r.restarted
            && !r.quit,
        *old(game_state) == GameState::WinScreen ==> ({
            &&& r.restarted == restart_pressed
            &&& r.quit == quit_pressed
            &&& restart_pressed ==> *final(game_state) == GameState::Gameplay && final(game_timer).0.elapsed_ms == 0 && final(game_timer).0.duration_ms == GAME_TIME * 1000 && final(health).0 == 6 && *final(level_index) == 0 && !final(damage_given).0
            &&& !restart_pressed ==> *final(game_state) == *old(game_state) && *final(game_timer)
                == *old(game_timer) && *final(health) == *old(health) && *final(level_index)
                == *old(level_index) && *final(damage_given) == *old(damage_given)
        }),
{
    end_screen(
        GameState::WinScreen,
        game_state,
        game_timer,
        health,
        level_index,
        damage_given,
        restart_pressed,
        quit_pressed,
    )
}

/// Advance the level clock during gameplay and report the mm:ss display
/// with its red-flash flag; an expired clock ends the game. Outside
/// gameplay the clock is frozen.
pub fn update_timer(game_timer: &mut GameTimer, game_state: &mut GameState, dt_ms: u64) -> (display:
    (u64, u64, bool))
    ensures
        *old(game_state) != GameState::Gameplay ==> *final(game_timer) == *old(game_timer)
            && *final(game_state) == *old(game_state),
        *old(game_state) == GameState::Gameplay ==> ({
            let t = old(game_timer).0.spec_tick(dt_ms);
            let rem = t.spec_remaining();
            &&& final(game_timer).0 == t
            &&& *final(game_state) == if t.spec_finished() {
                GameState::GameOver
            } else {
                GameState::Gameplay
            }
            &&& display.0 == timer::spec_display_minutes(rem as u64)
            &&& display.1 == timer::spec_display_seconds(rem as u64)
            &&& display.2 == (rem < 30000 && timer::spec_display_seconds(rem as u64) % 2 == 0)
        }),
{
    if *game_state != GameState::Gameplay {
        return (0, 0, false);
    }
    game_timer.0.tick(dt_ms);
    let remaining = game_timer.0.remaining_ms();
    let (minutes, seconds) = timer::display_time(remaining);
    let red = timer::display_red(remaining);
    if game_timer.0.finished() {
        *game_state = GameState::GameOver;
    }
    (minutes, seconds, red)
}

/// Health reaching zero ends the game, whatever screen change the rest
/// of the tick wanted.
pub fn health_game_over(health: &player::PlayerHealth, game_state: &mut GameState)
    ensures
        *final(game_state) == if health.0 <= 0 {
            GameState::GameOver
        } else {
            *old(game_state)
        },
{
    if health.0 > 0 {
        return;
    }
    if *game_state != GameState::GameOver {
        *game_state = GameState::GameOver;
    }
}

/// Falling below the level floor advances to the next level; the caller
/// then despawns the current level geometry. The threshold is in
/// centi-units.
pub fn switch_levels(player_y: i64, level_index: &mut usize) -> (switched: bool)
    requires
        *old(level_index) < usize::MAX,
    ensures
        switched == (player_y < 12800),
        *final(level_index) == if player_y < 12800 {
            *old(level_index) + 1
        } else {
            *old(level_index) as int
        },
{
    if player_y < 12800 {
        *level_index = *level_index + 1;
        true
    } else {
        false
    }
}

/// Some begun sensor overlap in the batch names the goal heart.
pub open spec fn heart_touched(events: Seq<events::CollisionEvent>, heart: u64) -> bool {
    exists|i: int| 0 <= i < events.len() && match #[trigger] events[i] {
        events::CollisionEvent::Started(a, b, sensor) => sensor && (a == heart || b == heart),
        events::CollisionEvent::Stopped(_, _, _) => false,
    }
}

/// Reaching the goal heart wins the game, whatever the health: any
/// begun sensor overlap naming the heart moves the game to the win
/// screen.
pub fn heart_checks(
    events: &Vec<events::CollisionEvent>,
    heart: u64,
    game_state: &mut GameState,
)
    ensures
        *final(game_state) == if heart_touched(events@, heart) {
            GameState::WinScreen
        } else {
            *old(game_state)
        },
{
    let mut i: usize = 0;
    let mut touched = false;
    while i < events.len()
        invariant
            i <= events@.len(),
            touched == heart_touched(events@.take(i as int), heart),
        decreases events@.len() - i,
    {
        proof {
            assert(events@.take(i + 1).drop_last() =~= events@.take(i as int));
            assert forall|k: int| 0 <= k < i + 1 implies events@.take(i + 1)[k] == events@[k] by {}
        }
        match events[i] {
            events::CollisionEvent::Started(a, b, sensor) => {
                if sensor && (a == heart || b == heart) {
                    touched = true;
                }
            },
            events::CollisionEvent::Stopped(_, _, _) => {},
        }
        proof {
            if touched && !heart_touched(events@.take(i + 1), heart) {
                assert(false);
            }
        }
        i += 1;
    }
    proof {
        assert(events@.take(events@.len() as int) =~= events@);
    }
    if touched {
        *game_state = GameState::WinScreen;
    }
}


/// The verdicts shown on the win screen: whether the player finished
/// untouched, and whether no enemy was hurt. Each true verdict is shown
/// in green, a failed one in red.
pub fn win_screen_verdicts(health: &player::PlayerHealth, damage_given: &enemies::DamageGiven)
    -> (r: (bool, bool))
    ensures
        r.0 == (health.0 == 6),
        r.1 == !damage_given.0,
{
    (health.0 == 6, !damage_given.0)
}

} // verus!
