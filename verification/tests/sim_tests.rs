use asteroids::audio::VoiceKind;
use asteroids::color::Color;
use asteroids::entity::Shape;
use asteroids::geometry::Coordinate;
use asteroids::input::{Button, InputEvent};
use asteroids::sim::{Cue, Game, Phase, TickRandoms};

fn draws() -> TickRandoms {
    TickRandoms {
        heal_period: 1000,
        heal_pos: Coordinate { x: 20, y: 20 },
        shield_pos: Coordinate { x: 40, y: 40 },
        hazard_x: 10,
        hazard_speed: 1,
        hazard_red: 50,
        hazard_green: 50,
    }
}

fn no_events() -> Vec<InputEvent> {
    Vec::new()
}

fn hazard_at(x: u8, y: u8, speed: u8) -> Shape {
    Shape {
        position: Coordinate { x, y },
        color: Color { red: 50, green: 50, blue: 0, alpha: 100 },
        width: 4,
        height: 4,
        speed,
        is_alive: true,
    }
}

fn pickup_at(x: u8, y: u8, w: u8, h: u8) -> Shape {
    Shape {
        position: Coordinate { x, y },
        color: Color { red: 65, green: 33, blue: 7, alpha: 100 },
        width: w,
        height: h,
        speed: 0,
        is_alive: true,
    }
}

#[test]
fn new_game_initial_state() {
    let g = Game::new();
    assert_eq!(g.lives, 3);
    assert_eq!(g.game_timer, 0);
    assert_eq!(g.phase, Phase::Active);
    assert_eq!(g.player.position, Coordinate { x: 127, y: 251 });
    assert_eq!(g.player.width, 10);
    assert_eq!(g.player.height, 10);
    assert_eq!(g.background_color, Color { red: 100, green: 100, blue: 100, alpha: 100 });
    assert!(g.asteroids.is_empty());
    assert!(g.mushrooms.is_empty());
    assert!(g.crystals.is_empty());
    assert_eq!(g.collisions_count, 0);
}

#[test]
fn overlapping_hazard_costs_one_life_and_darkens_background() {
    // A hazard directly overlapping the player is destroyed by one
    // tick, lives drop by exactly one, and each background channel darkens
    // by exactly one step.
    let mut g = Game::new();
    g.player.position = Coordinate { x: 128, y: 128 };
    g.asteroids.push(hazard_at(128, 128, 0));
    let cues = g.tick_with(&no_events(), &draws());
    assert_eq!(g.lives, 2);
    assert_eq!(g.background_color, Color { red: 96, green: 96, blue: 96, alpha: 100 });
    assert_eq!(g.collisions_count, 1);
    assert_eq!(cues, vec![Cue { duration_ms: 1100, volume: 20, kind: VoiceKind::Noise }]);
    // The struck hazard is swept out; the tick's spawn check added a fresh
    // one at the top edge.
    assert_eq!(g.asteroids.len(), 1);
    assert_eq!(g.asteroids[0].position.y, 0);
}

#[test]
fn many_simultaneous_hits_floor_lives_at_zero() {
    // However many collisions one tick holds, lives saturate at zero.
    let mut g = Game::new();
    g.player.position = Coordinate { x: 128, y: 128 };
    for _ in 0..5 {
        g.asteroids.push(hazard_at(128, 128, 0));
    }
    let cues = g.tick_with(&no_events(), &draws());
    assert_eq!(g.lives, 0);
    assert_eq!(g.collisions_count, 5);
    assert_eq!(cues.len(), 5);
    // Five darkening steps of 4, floored per channel at zero.
    assert_eq!(g.background_color, Color { red: 80, green: 80, blue: 80, alpha: 100 });
    assert_eq!(g.phase, Phase::Active);
}

#[test]
fn heal_pickup_grants_a_life_and_saturates_at_the_maximum() {
    let mut g = Game::new();
    g.mushrooms.push(pickup_at(127, 251, 16, 4));
    let cues = g.tick_with(&no_events(), &draws());
    assert_eq!(g.lives, 4);
    assert!(g.mushrooms.is_empty());
    assert_eq!(cues[0], Cue { duration_ms: 500, volume: 40, kind: VoiceKind::Sin });

    // At the type's maximum a heal changes nothing.
    let mut g2 = Game::new();
    g2.lives = u8::MAX;
    g2.mushrooms.push(pickup_at(127, 251, 16, 4));
    let _ = g2.tick_with(&no_events(), &draws());
    assert_eq!(g2.lives, u8::MAX);
}

#[test]
fn shield_pickup_clears_hazards_and_starts_rest() {
    let mut g = Game::new();
    g.crystals.push(pickup_at(127, 251, 17, 17));
    g.asteroids.push(hazard_at(10, 10, 2));
    g.asteroids.push(hazard_at(200, 30, 3));
    let cues = g.tick_with(&no_events(), &draws());
    // Every hazard died and was swept; the spawn check of the same tick
    // still ran (it saw the pre-shield rest state), adding one fresh hazard.
    assert_eq!(g.asteroids.len(), 1);
    assert_eq!(g.asteroids[0].position.y, 0);
    assert!(g.crystals.is_empty());
    assert_eq!(g.phase, Phase::Resting { until: 181 });
    assert_eq!(
        cues,
        vec![
            Cue { duration_ms: 2300, volume: 20, kind: VoiceKind::Noise },
            Cue { duration_ms: 2500, volume: 40, kind: VoiceKind::Square },
        ]
    );
    // While resting, no hazard spawns: the survivor drifts, nothing joins.
    let _ = g.tick_with(&no_events(), &draws());
    assert_eq!(g.asteroids.len(), 1);
    assert_eq!(g.asteroids[0].position.y, 1);
    assert_eq!(g.phase, Phase::Resting { until: 181 });
}

#[test]
fn rest_window_expires_at_its_tick() {
    let mut g = Game::new();
    g.game_timer = 4;
    g.phase = Phase::Resting { until: 5 };
    let _ = g.tick_with(&no_events(), &draws());
    // Tick 5 reached the deadline: the rest is over.
    assert_eq!(g.phase, Phase::Active);
    let mut g2 = Game::new();
    g2.game_timer = 3;
    g2.phase = Phase::Resting { until: 5 };
    let _ = g2.tick_with(&no_events(), &draws());
    assert_eq!(g2.phase, Phase::Resting { until: 5 });
}

#[test]
fn last_life_then_game_over_cue_exactly_once() {
    // A collision at one life leaves lives at zero on that tick; the
    // next tick enters the terminal state and raises the game-over cues
    // once; after that, ticks change nothing and stay silent.
    let mut g = Game::new();
    g.lives = 1;
    g.player.position = Coordinate { x: 128, y: 128 };
    g.asteroids.push(hazard_at(128, 128, 0));
    let _ = g.tick_with(&no_events(), &draws());
    assert_eq!(g.lives, 0);
    assert_ne!(g.phase, Phase::GameOver);

    let cues = g.tick_with(&no_events(), &draws());
    assert_eq!(g.phase, Phase::GameOver);
    assert_eq!(
        cues,
        vec![
            Cue { duration_ms: 3500, volume: 20, kind: VoiceKind::Noise },
            Cue { duration_ms: 3400, volume: 1, kind: VoiceKind::Square },
            Cue { duration_ms: 3500, volume: 40, kind: VoiceKind::Sin },
            Cue { duration_ms: 3100, volume: 20, kind: VoiceKind::Noise },
        ]
    );

    let timer = g.game_timer;
    for _ in 0..10 {
        let later = g.tick_with(&no_events(), &draws());
        assert!(later.is_empty());
        assert_eq!(g.phase, Phase::GameOver);
        assert_eq!(g.game_timer, timer);
        assert_eq!(g.lives, 0);
    }
}

#[test]
fn hazard_count_climbs_to_the_target_and_stays_there() {
    // With nothing removing hazards, the live count grows by one per
    // tick up to the target (base count plus elapsed ticks over the growth
    // divisor) and never exceeds it.
    let mut g = Game::new();
    g.player.position = Coordinate { x: 250, y: 251 };
    for k in 1..=20u32 {
        let _ = g.tick_with(&no_events(), &draws());
        let target = 8 + k / 700;
        assert!(g.asteroids.len() as u32 <= target);
        assert_eq!(g.asteroids.len() as u32, target.min(k));
    }
    assert_eq!(g.asteroids.len(), 8);
}

#[test]
fn held_buttons_move_the_player_each_tick_until_released() {
    let mut g = Game::new();
    g.player.position = Coordinate { x: 100, y: 100 };
    let press = vec![InputEvent { button: Button::Right, pressed: true }];
    let _ = g.tick_with(&press, &draws());
    assert_eq!(g.player.position, Coordinate { x: 103, y: 100 });
    assert!(g.pressed(Button::Right));
    // Still held with no new events.
    let _ = g.tick_with(&no_events(), &draws());
    assert_eq!(g.player.position, Coordinate { x: 106, y: 100 });
    let release = vec![InputEvent { button: Button::Right, pressed: false }];
    let _ = g.tick_with(&release, &draws());
    assert_eq!(g.player.position, Coordinate { x: 106, y: 100 });
    assert!(!g.pressed(Button::Right));
}

#[test]
fn movement_saturates_at_the_grid_edges() {
    let mut g = Game::new();
    g.player.position = Coordinate { x: 1, y: 254 };
    let held = vec![
        InputEvent { button: Button::Left, pressed: true },
        InputEvent { button: Button::Down, pressed: true },
    ];
    let _ = g.tick_with(&held, &draws());
    assert_eq!(g.player.position, Coordinate { x: 0, y: 255 });
    let _ = g.tick_with(&no_events(), &draws());
    assert_eq!(g.player.position, Coordinate { x: 0, y: 255 });
}

#[test]
fn pickups_spawn_on_their_periods() {
    let mut g = Game::new();
    g.game_timer = 999;
    g.player.position = Coordinate { x: 250, y: 251 };
    let _ = g.tick_with(&no_events(), &draws());
    // Tick 1000 is a multiple of the drawn heal period 1000.
    assert_eq!(g.mushrooms.len(), 1);
    assert_eq!(g.mushrooms[0].position, Coordinate { x: 20, y: 20 });
    assert!(g.crystals.is_empty());

    let mut g2 = Game::new();
    g2.game_timer = 1199;
    g2.player.position = Coordinate { x: 250, y: 251 };
    let _ = g2.tick_with(&no_events(), &draws());
    // Tick 1200 is the shield spawn period; 1200 is no multiple of 1000.
    assert_eq!(g2.crystals.len(), 1);
    assert_eq!(g2.crystals[0].position, Coordinate { x: 40, y: 40 });
    assert!(g2.mushrooms.is_empty());
}

#[test]
fn entities_past_the_bottom_edge_are_swept() {
    let mut g = Game::new();
    g.player.position = Coordinate { x: 250, y: 10 };
    // Speed 4 carries this hazard from row 252 to the saturated row 255,
    // past the bottom edge.
    g.asteroids.push(hazard_at(10, 252, 4));
    let _ = g.tick_with(&no_events(), &draws());
    assert!(g.asteroids.iter().all(|a| a.position.y != 255));
    // Only the freshly spawned hazard remains.
    assert_eq!(g.asteroids.len(), 1);
    assert_eq!(g.asteroids[0].position.y, 0);
}

#[test]
fn score_counts_ticks_over_sixty() {
    let mut g = Game::new();
    assert_eq!(g.score(), 0);
    g.game_timer = 120;
    assert_eq!(g.score(), 2);
    g.game_timer = 119;
    assert_eq!(g.score(), 1);
}

#[test]
fn random_tick_draws_values_in_range() {
    let mut g = Game::new();
    g.player.position = Coordinate { x: 250, y: 251 };
    let _ = g.tick(&no_events());
    assert_eq!(g.game_timer, 1);
    assert_eq!(g.asteroids.len(), 1);
    let a = g.asteroids[0];
    assert!(a.speed >= 1 && a.speed < 5);
    assert_eq!(a.position.y, 0);
    assert!(a.color.red < 100 && a.color.green < 100);
    assert_eq!(a.color.blue, 0);
}
