//! The fixed-tick simulation engine. `Game` owns the player, the three
//! non-player collections (hazards fall and damage, heal pickups restore a
//! life, shield pickups clear all hazards and grant a rest window), the
//! background tint, the lives and tick counters, and the explicit phase of
//! the implicit state machine: active, resting until a tick, or game over.
//!
//! One call of [`Game::tick_with`] advances the world exactly one tick, in
//! the fixed order: game-over latch, tick counter, rest resolution, input,
//! heal pass, shield pass, hazard pass, the three spawn checks, sweep. The
//! audio cues raised along the way are returned in order; the caller hands
//! them to the audio engine.

use vstd::prelude::*;
use crate::audio::VoiceKind;
use crate::color::{Color, CHANNEL_MAX, DARKEN_STEP};
use crate::entity::Shape;
use crate::geometry::Coordinate;
use crate::input::{latch_all, latch_events, Button, ButtonsState, InputEvent};

verus! {

/// How many hazards the engine aims to keep alive at tick zero.
pub const BASE_HAZARD_COUNT: u32 = 8;

/// Every this many ticks, the hazard target grows by one.
pub const HAZARD_GROWTH_DIVISOR: u32 = 700;

/// A shield pickup spawns when the tick counter is a multiple of this.
pub const SHIELD_SPAWN_PERIOD: u32 = 1200;

/// How many ticks of rest a shield pickup grants.
pub const REST_GRACE_TICKS: u32 = 180;

/// How far one held direction moves the player per tick.
pub const PLAYER_STEP: u8 = 3;

/// Entities whose center row has reached this value have drifted past the
/// bottom edge and are swept.
pub const BOTTOM_EDGE: u8 = 255;

/// Ticks per score point: the score shown is the tick counter over this.
pub const TICKS_PER_SCORE: u32 = 60;

/// The simulation's phase: the reified state machine of the engine.
#[derive(Copy, Clone, Debug, PartialEq, Eq, Structural)]
pub enum Phase {
    /// Lives remain and hazards spawn normally.
    Active,
    /// Lives remain, but hazard spawning is suppressed until the given tick.
    Resting { until: u32 },
    /// Lives reached zero; ticks no longer mutate the world.
    GameOver,
}

/// One audio cue raised by the simulation: the arguments of the enqueue
/// call the driver makes on the audio engine.
#[derive(Copy, Clone, Debug, PartialEq, Eq, Structural)]
pub struct Cue {
    pub duration_ms: u32,
    pub volume: u8,
    pub kind: VoiceKind,
}

/// The cue raised when a heal pickup is collected.
pub open spec fn heal_cue() -> Cue {
    Cue { duration_ms: 500, volume: 40, kind: VoiceKind::Sin }
}

/// The cue raised when a hazard hits the player.
pub open spec fn hit_cue() -> Cue {
    Cue { duration_ms: 1100, volume: 20, kind: VoiceKind::Noise }
}

/// The two cues raised, in order, when a shield pickup is collected.
pub open spec fn shield_cues_one() -> Seq<Cue> {
    seq![
        Cue { duration_ms: 2300, volume: 20, kind: VoiceKind::Noise },
        Cue { duration_ms: 2500, volume: 40, kind: VoiceKind::Square },
    ]
}

/// The shield cues for `n` collected shield pickups, in order.
pub open spec fn shield_cues(n: nat) -> Seq<Cue>
    decreases n,
{
    if n == 0 {
        Seq::empty()
    } else {
        shield_cues((n - 1) as nat) + shield_cues_one()
    }
}

/// The four cues raised, in order, the one time the engine enters game over.
pub open spec fn game_over_cues() -> Seq<Cue> {
    seq![
        Cue { duration_ms: 3500, volume: 20, kind: VoiceKind::Noise },
        Cue { duration_ms: 3400, volume: 1, kind: VoiceKind::Square },
        Cue { duration_ms: 3500, volume: 40, kind: VoiceKind::Sin },
        Cue { duration_ms: 3100, volume: 20, kind: VoiceKind::Noise },
    ]
}

/// The random draws one tick consumes, taken before the tick runs so that
/// the transition itself is a function of its inputs.
#[derive(Copy, Clone, Debug, PartialEq, Eq, Structural)]
pub struct TickRandoms {
    /// Heal-pickup spawn period for this tick's check, drawn from
    /// `[1000, 1200)`.
    pub heal_period: u32,
    /// Where a heal pickup spawned this tick would sit.
    pub heal_pos: Coordinate,
    /// Where a shield pickup spawned this tick would sit.
    pub shield_pos: Coordinate,
    /// Column of a hazard spawned this tick.
    pub hazard_x: u8,
    /// Speed of a hazard spawned this tick, drawn from `[1, 5)`.
    pub hazard_speed: u8,
    /// Red channel of a hazard spawned this tick, below full intensity.
    pub hazard_red: u8,
    /// Green channel of a hazard spawned this tick, below full intensity.
    pub hazard_green: u8,
}

impl TickRandoms {
    /// The ranges the draws come from.
    pub open spec fn valid(self) -> bool {
        &&& 1000 <= self.heal_period < 1200
        &&& 1 <= self.hazard_speed < 5
        &&& self.hazard_red < CHANNEL_MAX
        &&& self.hazard_green < CHANNEL_MAX
    }
}

/// The shape of a heal pickup sitting at `pos`.
pub open spec fn heal_pickup_shape(pos: Coordinate) -> Shape {
    Shape {
        position: pos,
        color: Color { red: 65, green: 33, blue: 7, alpha: 100 },
        width: 16,
        height: 4,
        speed: 0,
        is_alive: true,
    }
}

/// The shape of a shield pickup sitting at `pos`.
pub open spec fn shield_pickup_shape(pos: Coordinate) -> Shape {
    Shape {
        position: pos,
        color: Color { red: 41, green: 100, blue: 99, alpha: 100 },
        width: 17,
        height: 17,
        speed: 0,
        is_alive: true,
    }
}

/// The shape of a hazard spawned at the top edge in column `x`.
pub open spec fn hazard_shape(x: u8, speed: u8, red: u8, green: u8) -> Shape {
    Shape {
        position: Coordinate { x, y: 0 },
        color: Color { red, green, blue: 0, alpha: 100 },
        width: 4,
        height: 4,
        speed,
        is_alive: true,
    }
}

/// The player's shape at game start: near the bottom of the coordinate
/// space, horizontally centered.
pub open spec fn initial_player() -> Shape {
    Shape {
        position: Coordinate { x: 127, y: 251 },
        color: Color { red: 100, green: 0, blue: 50, alpha: 100 },
        width: 10,
        height: 10,
        speed: 1,
        is_alive: true,
    }
}

/// The player's position after one tick of held input, each held direction
/// moving one step, saturating at the coordinate bounds, applied in the
/// fixed order down, up, left, right.
pub open spec fn player_moved(p: Coordinate, b: ButtonsState) -> Coordinate {
    let y1 = if b.down {
        p.y.saturating_add(PLAYER_STEP)
    } else {
        p.y
    };
    let y2 = if b.up {
        y1.saturating_sub(PLAYER_STEP)
    } else {
        y1
    };
    let x1 = if b.left {
        p.x.saturating_sub(PLAYER_STEP)
    } else {
        p.x
    };
    let x2 = if b.right {
        x1.saturating_add(PLAYER_STEP)
    } else {
        x1
    };
    Coordinate { x: x2, y: y2 }
}

/// Whether a pickup is collected this tick: still alive and overlapping the
/// player.
pub open spec fn collected_pred(player: Shape) -> spec_fn(Shape) -> bool {
    |m: Shape| m.is_alive && Shape::overlaps(m, player)
}

/// How many entities of `shapes` are collected against `player` this tick.
pub open spec fn collected_count(shapes: Seq<Shape>, player: Shape) -> int {
    shapes.filter(collected_pred(player)).len() as int
}

/// Every collected entity marked dead; the rest unchanged.
pub open spec fn mark_collected(shapes: Seq<Shape>, player: Shape) -> Seq<Shape> {
    shapes.map_values(
        |m: Shape|
            if m.is_alive && Shape::overlaps(m, player) {
                Shape { is_alive: false, ..m }
            } else {
                m
            },
    )
}

/// Every entity marked dead.
pub open spec fn all_dead(shapes: Seq<Shape>) -> Seq<Shape> {
    shapes.map_values(|m: Shape| Shape { is_alive: false, ..m })
}

/// A hazard after its downward drift: the center row advances by its speed,
/// saturating at the bottom.
pub open spec fn drifted(a: Shape) -> Shape {
    Shape { position: Coordinate { x: a.position.x, y: a.position.y.saturating_add(a.speed) }, ..a }
}

/// Whether a hazard hits the player this tick: alive, and overlapping the
/// player once drifted.
pub open spec fn hazard_hit_pred(player: Shape) -> spec_fn(Shape) -> bool {
    |a: Shape| a.is_alive && Shape::overlaps(drifted(a), player)
}

/// How many hazards hit the player this tick.
pub open spec fn hazard_hits(hazards: Seq<Shape>, player: Shape) -> int {
    hazards.filter(hazard_hit_pred(player)).len() as int
}

/// One hazard after the hazard pass: dead ones are left alone; live ones
/// drift, and die if they then overlap the player.
pub open spec fn hazard_stepped(a: Shape, player: Shape) -> Shape {
    if !a.is_alive {
        a
    } else if Shape::overlaps(drifted(a), player) {
        Shape { is_alive: false, ..drifted(a) }
    } else {
        drifted(a)
    }
}

/// The whole hazard collection after the hazard pass.
pub open spec fn hazards_stepped(hazards: Seq<Shape>, player: Shape) -> Seq<Shape> {
    hazards.map_values(|a: Shape| hazard_stepped(a, player))
}

/// One color channel lowered by `n` darkening steps, floored at zero.
pub open spec fn channel_darkened(c: u8, n: int) -> u8 {
    if c - n * DARKEN_STEP < 0 {
        0
    } else {
        (c - n * DARKEN_STEP) as u8
    }
}

/// The background after `n` collisions this tick: each color channel loses
/// one darkening step per collision, floored at minimum intensity; alpha is
/// untouched.
pub open spec fn background_darkened(c: Color, n: int) -> Color {
    Color {
        red: channel_darkened(c.red, n),
        green: channel_darkened(c.green, n),
        blue: channel_darkened(c.blue, n),
        alpha: c.alpha,
    }
}

/// Whether a sweep keeps an entity: still alive and not yet past the bottom
/// edge.
pub open spec fn kept_pred() -> spec_fn(Shape) -> bool {
    |s: Shape| s.position.y < BOTTOM_EDGE && s.is_alive
}

/// A collection after its end-of-tick sweep.
pub open spec fn swept(shapes: Seq<Shape>) -> Seq<Shape> {
    shapes.filter(kept_pred())
}

/// The rest window resolved against the just-advanced tick counter: a rest
/// that has been reached or passed ends.
pub open spec fn rest_resolved(phase: Phase, timer: u32) -> Phase {
    match phase {
        Phase::Resting { until } => if until > timer {
            phase
        } else {
            Phase::Active
        },
        _ => phase,
    }
}

/// How many live hazards the engine aims for at the given tick: a base
/// count that grows by one every `HAZARD_GROWTH_DIVISOR` ticks.
pub open spec fn hazard_target(timer: u32) -> int {
    BASE_HAZARD_COUNT + timer / HAZARD_GROWTH_DIVISOR
}

/// The simulation engine's whole state.
pub struct Game {
    /// Background tint, darkened by collisions.
    pub background_color: Color,
    /// Tick counter; advances once per non-terminal tick.
    pub game_timer: u32,
    /// Remaining lives; the game ends when they reach zero.
    pub lives: u8,
    /// The player's entity.
    pub player: Shape,
    /// Active, resting, or game over.
    pub phase: Phase,
    /// Latched button state.
    pub buttons_state: ButtonsState,
    /// Falling hazards.
    pub asteroids: Vec<Shape>,
    /// Heal pickups.
    pub mushrooms: Vec<Shape>,
    /// Shield pickups.
    pub crystals: Vec<Shape>,
    /// How many hazard collisions have occurred over the whole session.
    pub collisions_count: u32,
}

impl Game {
    /// A fresh game: full white background, three lives, the player near
    /// the bottom, no non-player entities, tick counter at zero.
    pub fn new() -> (g: Game)
        ensures
            g.background_color == (Color { red: 100, green: 100, blue: 100, alpha: 100 }),
            g.game_timer == 0,
            g.lives == 3,
            g.player == initial_player(),
            g.phase == Phase::Active,
            g.buttons_state == (ButtonsState { up: false, down: false, left: false, right: false }),
            g.asteroids@ =~= Seq::<Shape>::empty(),
            g.mushrooms@ =~= Seq::<Shape>::empty(),
            g.crystals@ =~= Seq::<Shape>::empty(),
            g.collisions_count == 0,
    {
        Game {
            background_color: Color { red: 100, green: 100, blue: 100, alpha: 100 },
            game_timer: 0,
            lives: 3,
            player: Shape {
                position: Coordinate { x: 127, y: 251 },
                color: Color { red: 100, green: 0, blue: 50, alpha: 100 },
                width: 10,
                height: 10,
                speed: 1,
                is_alive: true,
            },
            phase: Phase::Active,
            buttons_state: ButtonsState::released(),
            asteroids: Vec::new(),
            mushrooms: Vec::new(),
            crystals: Vec::new(),
            collisions_count: 0,
        }
    }

    /// Whether `button` is latched as held.
    pub fn pressed(&self, button: Button) -> (r: bool)
        ensures
            r == self.buttons_state.spec_pressed(button),
    {
        self.buttons_state.pressed(button)
    }

    /// Width and height of the pixel buffer `render` expects.
    pub fn dimensions(&self) -> (d: (usize, usize))
        ensures
            d.0 == crate::geometry::SCREEN_SIZE,
            d.1 == crate::geometry::SCREEN_SIZE,
    {
        (crate::geometry::SCREEN_SIZE, crate::geometry::SCREEN_SIZE)
    }

    /// The score shown to the player: elapsed ticks over `TICKS_PER_SCORE`.
    pub fn score(&self) -> (s: u32)
        ensures
            s == self.game_timer / TICKS_PER_SCORE,
    {
        self.game_timer / TICKS_PER_SCORE
    }
}

/// Move the player by this tick's held directions, saturating at the
/// coordinate bounds.
fn move_player(player: &mut Shape, buttons: &ButtonsState)
    ensures
        *final(player) == (Shape { position: player_moved(old(player).position, *buttons), ..*old(player) }),
{
    if buttons.down {
        player.position.y = player.position.y.saturating_add(PLAYER_STEP);
    }
    if buttons.up {
        player.position.y = player.position.y.saturating_sub(PLAYER_STEP);
    }
    if buttons.left {
        player.position.x = player.position.x.saturating_sub(PLAYER_STEP);
    }
    if buttons.right {
        player.position.x = player.position.x.saturating_add(PLAYER_STEP);
    }
}

/// The heal pass: every live heal pickup that overlaps the player is
/// consumed, each granting one life (saturating at the type's maximum) and
/// raising one heal cue.
fn heal_pass(mushrooms: &mut Vec<Shape>, player: &Shape, lives: &mut u8, cues: &mut Vec<Cue>)
    ensures
        final(mushrooms)@ == mark_collected(old(mushrooms)@, *player),
        *final(lives) == (if *old(lives) + collected_count(old(mushrooms)@, *player) > u8::MAX {
            u8::MAX as int
        } else {
            *old(lives) + collected_count(old(mushrooms)@, *player)
        }),
        final(cues)@ == old(cues)@ + Seq::new(
            collected_count(old(mushrooms)@, *player) as nat,
            |i: int| heal_cue(),
        ),
{
    let ghost ms0 = mushrooms@;
    let ghost pred = collected_pred(*player);
    let mut j: usize = 0;
    while j < mushrooms.len()
        invariant
            j <= ms0.len(),
            mushrooms@.len() == ms0.len(),
            forall|k: int| j <= k < ms0.len() ==> mushrooms@[k] == ms0[k],
            forall|k: int|
                0 <= k < j ==> mushrooms@[k] == #[trigger] mark_collected(ms0, *player)[k],
            *lives == (if *old(lives) + collected_count(ms0.take(j as int), *player) > u8::MAX {
                u8::MAX as int
            } else {
                *old(lives) + collected_count(ms0.take(j as int), *player)
            }),
            cues@ == old(cues)@ + Seq::new(
                collected_count(ms0.take(j as int), *player) as nat,
                |i: int| heal_cue(),
            ),
        decreases mushrooms.len() - j,
    {
        let ghost cnt = collected_count(ms0.take(j as int), *player);
        proof {
            assert(ms0.take(j + 1).drop_last() =~= ms0.take(j as int));
            ms0.take(j as int).lemma_filter_push(ms0[j as int], collected_pred(*player));
            assert(ms0.take(j + 1) =~= ms0.take(j as int).push(ms0[j as int]));
        }
        let m = mushrooms[j];
        if m.is_alive && m.collides(player) {
            *lives = lives.saturating_add(1);
            cues.push(Cue { duration_ms: 500, volume: 40, kind: VoiceKind::Sin });
            mushrooms.set(j, Shape { is_alive: false, ..m });
            proof {
                assert(Seq::new((cnt + 1) as nat, |i: int| heal_cue()) =~= Seq::new(
                    cnt as nat,
                    |i: int| heal_cue(),
                ).push(heal_cue()));
            }
        }
        j += 1;
    }
    proof {
        assert(ms0.take(ms0.len() as int) =~= ms0);
        assert(mushrooms@ =~= mark_collected(ms0, *player));
    }
}

/// Mark every hazard dead, as a collected shield pickup demands.
fn mark_all_dead(shapes: &mut Vec<Shape>)
    ensures
        final(shapes)@ == all_dead(old(shapes)@),
{
    let ghost s0 = shapes@;
    let mut j: usize = 0;
    while j < shapes.len()
        invariant
            j <= s0.len(),
            shapes@.len() == s0.len(),
            forall|k: int| j <= k < s0.len() ==> shapes@[k] == s0[k],
            forall|k: int| 0 <= k < j ==> shapes@[k] == #[trigger] all_dead(s0)[k],
        decreases shapes.len() - j,
    {
        let s = shapes[j];
        shapes.set(j, Shape { is_alive: false, ..s });
        j += 1;
    }
    proof {
        assert(shapes@ =~= all_dead(s0));
    }
}

/// The shield pass: every live shield pickup that overlaps the player is
/// consumed; each consumption marks every hazard dead, starts a rest window
/// of `REST_GRACE_TICKS` ticks from the current tick, and raises the two
/// shield cues.
fn shield_pass(
    crystals: &mut Vec<Shape>,
    asteroids: &mut Vec<Shape>,
    player: &Shape,
    timer: u32,
    phase: &mut Phase,
    cues: &mut Vec<Cue>,
)
    ensures
        final(crystals)@ == mark_collected(old(crystals)@, *player),
        collected_count(old(crystals)@, *player) > 0 ==> final(asteroids)@ == all_dead(
            old(asteroids)@,
        ) && *final(phase) == (Phase::Resting { until: timer.saturating_add(REST_GRACE_TICKS) }),
        collected_count(old(crystals)@, *player) == 0 ==> final(asteroids)@ == old(asteroids)@
            && *final(phase) == *old(phase),
        final(cues)@ == old(cues)@ + shield_cues(collected_count(old(crystals)@, *player) as nat),
{
    let ghost cs0 = crystals@;
    let ghost ast0 = asteroids@;
    let mut j: usize = 0;
    while j < crystals.len()
        invariant
            j <= cs0.len(),
            crystals@.len() == cs0.len(),
            forall|k: int| j <= k < cs0.len() ==> crystals@[k] == cs0[k],
            forall|k: int| 0 <= k < j ==> crystals@[k] == #[trigger] mark_collected(cs0, *player)[k],
            collected_count(cs0.take(j as int), *player) > 0 ==> asteroids@ == all_dead(ast0)
                && *phase == (Phase::Resting { until: timer.saturating_add(REST_GRACE_TICKS) }),
            collected_count(cs0.take(j as int), *player) == 0 ==> asteroids@ == ast0 && *phase
                == *old(phase),
            cues@ == old(cues)@ + shield_cues(collected_count(cs0.take(j as int), *player) as nat),
        decreases crystals.len() - j,
    {
        let ghost cnt = collected_count(cs0.take(j as int), *player);
        proof {
            ms_take_push_facts(cs0, j as int, *player, collected_pred(*player));
        }
        let c = crystals[j];
        if c.is_alive && c.collides(player) {
            *phase = Phase::Resting { until: timer.saturating_add(REST_GRACE_TICKS) };
            let ghost before = asteroids@;
            mark_all_dead(asteroids);
            proof {
                if cnt > 0 {
                    assert(all_dead(all_dead(ast0)) =~= all_dead(ast0));
                }
            }
            cues.push(Cue { duration_ms: 2300, volume: 20, kind: VoiceKind::Noise });
            cues.push(Cue { duration_ms: 2500, volume: 40, kind: VoiceKind::Square });
            crystals.set(j, Shape { is_alive: false, ..c });
        }
        j += 1;
    }
    proof {
        assert(cs0.take(cs0.len() as int) =~= cs0);
        assert(crystals@ =~= mark_collected(cs0, *player));
    }
}

/// Facts the pass loops need about one step of a filtered prefix.
proof fn ms_take_push_facts(s: Seq<Shape>, j: int, player: Shape, pred: spec_fn(Shape) -> bool)
    requires
        0 <= j < s.len(),
    ensures
        s.take(j + 1) =~= s.take(j).push(s[j]),
        s.take(j).push(s[j]).filter(pred) == if pred(s[j]) {
            s.take(j).filter(pred).push(s[j])
        } else {
            s.take(j).filter(pred)
        },
{
    assert(s.take(j + 1) =~= s.take(j).push(s[j]));
    s.take(j).lemma_filter_push(s[j], pred);
}

/// The hazard pass: every live hazard drifts down by its speed (saturating
/// at the bottom), and each one that then overlaps the player is destroyed,
/// costs one life (floored at zero), darkens the background by one step per
/// channel, counts one collision, and raises one hit cue.
fn hazard_pass(
    asteroids: &mut Vec<Shape>,
    player: &Shape,
    lives: &mut u8,
    background: &mut Color,
    collisions: &mut u32,
    cues: &mut Vec<Cue>,
)
    ensures
        final(asteroids)@ == hazards_stepped(old(asteroids)@, *player),
        *final(lives) == (if *old(lives) - hazard_hits(old(asteroids)@, *player) < 0 {
            0int
        } else {
            *old(lives) - hazard_hits(old(asteroids)@, *player)
        }),
        *final(background) == background_darkened(
            *old(background),
            hazard_hits(old(asteroids)@, *player),
        ),
        *final(collisions) == (if *old(collisions) + hazard_hits(old(asteroids)@, *player)
            > u32::MAX {
            u32::MAX as int
        } else {
            *old(collisions) + hazard_hits(old(asteroids)@, *player)
        }),
        final(cues)@ == old(cues)@ + Seq::new(
            hazard_hits(old(asteroids)@, *player) as nat,
            |i: int| hit_cue(),
        ),
{
    let ghost ast0 = asteroids@;
    let mut j: usize = 0;
    while j < asteroids.len()
        invariant
            j <= ast0.len(),
            asteroids@.len() == ast0.len(),
            forall|k: int| j <= k < ast0.len() ==> asteroids@[k] == ast0[k],
            forall|k: int|
                0 <= k < j ==> asteroids@[k] == #[trigger] hazards_stepped(ast0, *player)[k],
            *lives == (if *old(lives) - hazard_hits(ast0.take(j as int), *player) < 0 {
                0int
            } else {
                *old(lives) - hazard_hits(ast0.take(j as int), *player)
            }),
            *background == background_darkened(
                *old(background),
                hazard_hits(ast0.take(j as int), *player),
            ),
            *collisions == (if *old(collisions) + hazard_hits(ast0.take(j as int), *player)
                > u32::MAX {
                u32::MAX as int
            } else {
                *old(collisions) + hazard_hits(ast0.take(j as int), *player)
            }),
            cues@ == old(cues)@ + Seq::new(
                hazard_hits(ast0.take(j as int), *player) as nat,
                |i: int| hit_cue(),
            ),
        decreases asteroids.len() - j,
    {
        let ghost cnt = hazard_hits(ast0.take(j as int), *player);
        proof {
            ms_take_push_facts(ast0, j as int, *player, hazard_hit_pred(*player));
        }
        let a = asteroids[j];
        if a.is_alive {
            let moved = Shape {
                position: Coordinate { x: a.position.x, y: a.position.y.saturating_add(a.speed) },
                ..a
            };
            if moved.collides(player) {
                cues.push(Cue { duration_ms: 1100, volume: 20, kind: VoiceKind::Noise });
                *collisions = collisions.saturating_add(1);
                *background = background.darkened();
                asteroids.set(j, Shape { is_alive: false, ..moved });
                *lives = lives.saturating_sub(1);
                proof {
                    assert(Seq::new((cnt + 1) as nat, |i: int| hit_cue()) =~= Seq::new(
                        cnt as nat,
                        |i: int| hit_cue(),
                    ).push(hit_cue()));
                }
            } else {
                asteroids.set(j, moved);
            }
        }
        j += 1;
    }
    proof {
        assert(ast0.take(ast0.len() as int) =~= ast0);
        assert(asteroids@ =~= hazards_stepped(ast0, *player));
    }
}

/// A pixel buffer after a whole collection is drawn over it in order; dead
/// entities are skipped, and later entities overwrite earlier ones where
/// they overlap.
pub open spec fn draw_layer(p: Seq<Color>, shapes: Seq<Shape>) -> Seq<Color>
    decreases shapes.len(),
{
    if shapes.len() == 0 {
        p
    } else {
        let q = draw_layer(p, shapes.drop_last());
        if shapes.last().is_alive {
            shapes.last().draw_spec(q)
        } else {
            q
        }
    }
}

/// What one render call leaves in a pixel buffer of `len` cells: the
/// background tint everywhere, then the player, hazards, heal pickups and
/// shield pickups drawn in that order, later layers overwriting earlier
/// ones. Nothing of the buffer's previous contents survives.
pub open spec fn render_spec(g: Game, len: nat) -> Seq<Color> {
    let bg = Seq::new(len, |i: int| g.background_color);
    let base = g.player.draw_spec(bg);
    draw_layer(draw_layer(draw_layer(base, g.asteroids@), g.mushrooms@), g.crystals@)
}

/// Draw every live entity of a collection over the buffer, in order.
fn draw_all(pixels: &mut Vec<Color>, shapes: &Vec<Shape>)
    requires
        old(pixels)@.len() == crate::geometry::SCREEN_SIZE * crate::geometry::SCREEN_SIZE,
    ensures
        final(pixels)@ == draw_layer(old(pixels)@, shapes@),
        final(pixels)@.len() == old(pixels)@.len(),
{
    let ghost p0 = pixels@;
    let mut j: usize = 0;
    while j < shapes.len()
        invariant
            j <= shapes@.len(),
            pixels@.len() == p0.len(),
            p0.len() == crate::geometry::SCREEN_SIZE * crate::geometry::SCREEN_SIZE,
            pixels@ == draw_layer(p0, shapes@.take(j as int)),
        decreases shapes.len() - j,
    {
        proof {
            assert(shapes@.take(j + 1).drop_last() =~= shapes@.take(j as int));
        }
        let s = shapes[j];
        if s.is_alive {
            s.draw(pixels);
        }
        j += 1;
    }
    proof {
        assert(shapes@.take(shapes@.len() as int) =~= shapes@);
    }
}

impl Game {
    /// Fill the whole pixel buffer for this frame: background first, then
    /// the player, hazards, heal pickups and shield pickups, in that order.
    #[verifier::loop_isolation(false)]
    pub fn render(&self, pixels: &mut Vec<Color>)
        requires
            old(pixels)@.len() == crate::geometry::SCREEN_SIZE * crate::geometry::SCREEN_SIZE,
        ensures
            final(pixels)@ == render_spec(*self, old(pixels)@.len()),
    {
        let mut i: usize = 0;
        while i < pixels.len()
            invariant
                i <= pixels@.len(),
                pixels@.len() == old(pixels)@.len(),
                forall|k: int| 0 <= k < i ==> pixels@[k] == self.background_color,
            decreases pixels@.len() - i,
        {
            pixels.set(i, self.background_color);
            i += 1;
        }
        proof {
            assert(pixels@ =~= Seq::new(old(pixels)@.len(), |k: int| self.background_color));
        }
        self.player.draw(pixels);
        draw_all(pixels, &self.asteroids);
        draw_all(pixels, &self.mushrooms);
        draw_all(pixels, &self.crystals);
    }
}

/// Everything of `b` but the phase and the cues matches `a`: the frame of
/// the two terminal branches of a tick.
pub open spec fn same_world(a: Game, b: Game) -> bool {
    &&& b.background_color == a.background_color
    &&& b.game_timer == a.game_timer
    &&& b.lives == a.lives
    &&& b.player == a.player
    &&& b.buttons_state == a.buttons_state
    &&& b.asteroids@ == a.asteroids@
    &&& b.mushrooms@ == a.mushrooms@
    &&& b.crystals@ == a.crystals@
    &&& b.collisions_count == a.collisions_count
}

/// The tick counter after one non-terminal tick: one more, saturating.
pub open spec fn tick_timer(pre: Game) -> u32 {
    pre.game_timer.saturating_add(1)
}

/// The latched buttons after this tick's events.
pub open spec fn tick_buttons(pre: Game, events: Seq<InputEvent>) -> ButtonsState {
    latch_all(pre.buttons_state, events)
}

/// The player after this tick's movement.
pub open spec fn tick_player(pre: Game, events: Seq<InputEvent>) -> Shape {
    Shape {
        position: player_moved(pre.player.position, tick_buttons(pre, events)),
        ..pre.player
    }
}

/// How many heal pickups the player collects this tick.
pub open spec fn tick_heals(pre: Game, events: Seq<InputEvent>) -> int {
    collected_count(pre.mushrooms@, tick_player(pre, events))
}

/// How many shield pickups the player collects this tick.
pub open spec fn tick_shields(pre: Game, events: Seq<InputEvent>) -> int {
    collected_count(pre.crystals@, tick_player(pre, events))
}

/// The hazards as the hazard pass finds them: untouched, unless a shield
/// was collected first, which marked them all dead.
pub open spec fn tick_hazards_pre_drift(pre: Game, events: Seq<InputEvent>) -> Seq<Shape> {
    if tick_shields(pre, events) > 0 {
        all_dead(pre.asteroids@)
    } else {
        pre.asteroids@
    }
}

/// How many hazards hit the player this tick.
pub open spec fn tick_hits(pre: Game, events: Seq<InputEvent>) -> int {
    hazard_hits(tick_hazards_pre_drift(pre, events), tick_player(pre, events))
}

/// The whole transition of one tick: `post` and `cues` are what one call of
/// [`Game::tick_with`] on `pre` with this tick's `events` and random draws
/// `r` leaves behind.
///
/// In game over nothing changes and no cue is raised; on the tick that
/// finds the lives at zero the engine enters game over and raises the four
/// game-over cues once; otherwise the per-tick passes run in their fixed
/// order, and every numeric step saturates at its type's bounds.
pub open spec fn tick_rel(
    pre: Game,
    post: Game,
    events: Seq<InputEvent>,
    r: TickRandoms,
    cues: Seq<Cue>,
) -> bool {
    if pre.phase is GameOver {
        &&& same_world(pre, post)
        &&& post.phase == pre.phase
        &&& cues == Seq::<Cue>::empty()
    } else if pre.lives == 0 {
        &&& same_world(pre, post)
        &&& post.phase == Phase::GameOver
        &&& cues == game_over_cues()
    } else {
        let timer1 = tick_timer(pre);
        let phase1 = rest_resolved(pre.phase, timer1);
        let resting = phase1 is Resting;
        let buttons1 = tick_buttons(pre, events);
        let player1 = tick_player(pre, events);
        let heal_n = tick_heals(pre, events);
        let mush1 = mark_collected(pre.mushrooms@, player1);
        let lives1: int = if pre.lives + heal_n > u8::MAX {
            u8::MAX as int
        } else {
            pre.lives + heal_n
        };
        let shield_n = tick_shields(pre, events);
        let cry1 = mark_collected(pre.crystals@, player1);
        let ast1 = tick_hazards_pre_drift(pre, events);
        let phase2 = if shield_n > 0 {
            Phase::Resting { until: timer1.saturating_add(REST_GRACE_TICKS) }
        } else {
            phase1
        };
        let hits = tick_hits(pre, events);
        let ast2 = hazards_stepped(ast1, player1);
        let lives2: int = if lives1 - hits < 0 {
            0int
        } else {
            lives1 - hits
        };
        let coll1: int = if pre.collisions_count + hits > u32::MAX {
            u32::MAX as int
        } else {
            pre.collisions_count + hits
        };
        let mush2 = if timer1 % r.heal_period == 0 {
            mush1.push(heal_pickup_shape(r.heal_pos))
        } else {
            mush1
        };
        let cry2 = if timer1 % SHIELD_SPAWN_PERIOD == 0 {
            cry1.push(shield_pickup_shape(r.shield_pos))
        } else {
            cry1
        };
        let ast3 = if ast2.len() < hazard_target(timer1) && !resting {
            ast2.push(hazard_shape(r.hazard_x, r.hazard_speed, r.hazard_red, r.hazard_green))
        } else {
            ast2
        };
        &&& post.game_timer == timer1
        &&& post.phase == phase2
        &&& post.buttons_state == buttons1
        &&& post.player == player1
        &&& post.lives == lives2
        &&& post.background_color == background_darkened(pre.background_color, hits)
        &&& post.collisions_count == coll1
        &&& post.mushrooms@ == swept(mush2)
        &&& post.crystals@ == swept(cry2)
        &&& post.asteroids@ == swept(ast3)
        &&& cues == Seq::new(heal_n as nat, |i: int| heal_cue()) + shield_cues(shield_n as nat)
            + Seq::new(hits as nat, |i: int| hit_cue())
    }
}

impl Game {
    /// Advance the world exactly one tick, with this tick's input events and
    /// the tick's random draws passed in. Returns the audio cues the tick
    /// raised, in order.
    pub fn tick_with(&mut self, events: &Vec<InputEvent>, r: &TickRandoms) -> (cues: Vec<Cue>)
        requires
            r.valid(),
        ensures
            tick_rel(*old(self), *final(self), events@, *r, cues@),
    {
        let mut cues: Vec<Cue> = Vec::new();
        if matches!(self.phase, Phase::GameOver) {
            return cues;
        }
        if self.lives == 0 {
            self.phase = Phase::GameOver;
            cues.push(Cue { duration_ms: 3500, volume: 20, kind: VoiceKind::Noise });
            cues.push(Cue { duration_ms: 3400, volume: 1, kind: VoiceKind::Square });
            cues.push(Cue { duration_ms: 3500, volume: 40, kind: VoiceKind::Sin });
            cues.push(Cue { duration_ms: 3100, volume: 20, kind: VoiceKind::Noise });
            proof {
                assert(cues@ =~= game_over_cues());
            }
            return cues;
        }
        self.game_timer = self.game_timer.saturating_add(1);
        match self.phase {
            Phase::Resting { until } => {
                if !(until > self.game_timer) {
                    self.phase = Phase::Active;
                }
            },
            _ => {},
        }
        let resting = matches!(self.phase, Phase::Resting { .. });
        latch_events(&mut self.buttons_state, events);
        move_player(&mut self.player, &self.buttons_state);
        heal_pass(&mut self.mushrooms, &self.player, &mut self.lives, &mut cues);
        shield_pass(
            &mut self.crystals,
            &mut self.asteroids,
            &self.player,
            self.game_timer,
            &mut self.phase,
            &mut cues,
        );
        hazard_pass(
            &mut self.asteroids,
            &self.player,
            &mut self.lives,
            &mut self.background_color,
            &mut self.collisions_count,
            &mut cues,
        );
        if self.game_timer % r.heal_period == 0 {
            self.mushrooms.push(
                Shape {
                    position: r.heal_pos,
                    color: Color { red: 65, green: 33, blue: 7, alpha: 100 },
                    width: 16,
                    height: 4,
                    speed: 0,
                    is_alive: true,
                },
            );
        }
        if self.game_timer % SHIELD_SPAWN_PERIOD == 0 {
            self.crystals.push(
                Shape {
                    position: r.shield_pos,
                    color: Color { red: 41, green: 100, blue: 99, alpha: 100 },
                    width: 17,
                    height: 17,
                    speed: 0,
                    is_alive: true,
                },
            );
        }
        let target: u32 = BASE_HAZARD_COUNT + self.game_timer / HAZARD_GROWTH_DIVISOR;
        if (self.asteroids.len() as u64) < target as u64 && !resting {
            self.asteroids.push(
                Shape {
                    position: Coordinate { x: r.hazard_x, y: 0 },
                    color: Color { red: r.hazard_red, green: r.hazard_green, blue: 0, alpha: 100 },
                    width: 4,
                    height: 4,
                    speed: r.hazard_speed,
                    is_alive: true,
                },
            );
        }
        sweep(&mut self.asteroids);
        sweep(&mut self.mushrooms);
        sweep(&mut self.crystals);
        cues
    }

    /// Advance the world one tick, drawing this tick's randomness from the
    /// pseudo-random source: some valid set of draws explains the transition.
    pub fn tick(&mut self, events: &Vec<InputEvent>) -> (cues: Vec<Cue>)
        ensures
            exists|r: TickRandoms|
                r.valid() && tick_rel(*old(self), *final(self), events@, r, cues@),
    {
        let heal_period = crate::rng::gen_range_u32(1000, 1200);
        let hx = crate::rng::gen_range_u32(0, 256) as u8;
        let hy = crate::rng::gen_range_u32(0, 256) as u8;
        let sx = crate::rng::gen_range_u32(0, 256) as u8;
        let sy = crate::rng::gen_range_u32(0, 256) as u8;
        let ax = crate::rng::gen_range_u32(0, 256) as u8;
        let speed = crate::rng::gen_range_u32(1, 5) as u8;
        let red = crate::rng::gen_range_u32(0, 100) as u8;
        let green = crate::rng::gen_range_u32(0, 100) as u8;
        let r = TickRandoms {
            heal_period,
            heal_pos: Coordinate { x: hx, y: hy },
            shield_pos: Coordinate { x: sx, y: sy },
            hazard_x: ax,
            hazard_speed: speed,
            hazard_red: red,
            hazard_green: green,
        };
        let cues = self.tick_with(events, &r);
        proof {
            assert(r.valid() && tick_rel(*old(self), *self, events@, r, cues@));
        }
        cues
    }
}

/// The end-of-tick sweep: keep exactly the entities that are still alive
/// and have not drifted past the bottom edge.
fn sweep(shapes: &mut Vec<Shape>)
    ensures
        final(shapes)@ == swept(old(shapes)@),
{
    let mut r: Vec<Shape> = Vec::new();
    let mut j: usize = 0;
    while j < shapes.len()
        invariant
            j <= shapes@.len(),
            shapes@ == old(shapes)@,
            r@ == swept(shapes@.take(j as int)),
        decreases shapes.len() - j,
    {
        let s = shapes[j];
        proof {
            assert(shapes@.take(j + 1) =~= shapes@.take(j as int).push(shapes@[j as int]));
            shapes@.take(j as int).lemma_filter_push(shapes@[j as int], kept_pred());
        }
        if s.position.y < BOTTOM_EDGE && s.is_alive {
            r.push(s);
        }
        j += 1;
    }
    proof {
        assert(shapes@.take(shapes@.len() as int) =~= shapes@);
    }
    *shapes = r;
}

/// A sweep over entities that are all alive and above the bottom edge keeps
/// every one of them.
proof fn lemma_sweep_keeps_all(s: Seq<Shape>)
    requires
        forall|i: int| 0 <= i < s.len() ==> s[i].is_alive && s[i].position.y < BOTTOM_EDGE,
    ensures
        swept(s) == s,
    decreases s.len(),
{
    reveal(Seq::filter);
    if s.len() > 0 {
        lemma_sweep_keeps_all(s.drop_last());
        assert(swept(s) =~= s);
    } else {
        assert(swept(s) =~= s);
    }
}

/// Whatever heals and hits one tick brings, the lives counter lands exactly
/// on its saturating value: the heals are added first, capped at the type's
/// maximum, then the hits are subtracted, floored at zero. In particular it
/// never wraps below zero or above the maximum, however many collisions one
/// tick holds.
pub proof fn lemma_lives_saturate(
    pre: Game,
    post: Game,
    events: Seq<InputEvent>,
    r: TickRandoms,
    cues: Seq<Cue>,
)
    requires
        tick_rel(pre, post, events, r, cues),
        !(pre.phase is GameOver),
        pre.lives > 0,
    ensures
        post.lives == ({
            let up: int = if pre.lives + tick_heals(pre, events) > u8::MAX {
                u8::MAX as int
            } else {
                pre.lives + tick_heals(pre, events)
            };
            if up - tick_hits(pre, events) < 0 {
                0int
            } else {
                up - tick_hits(pre, events)
            }
        }),
{
}

/// The live-hazard target never shrinks as the tick counter advances.
proof fn lemma_hazard_target_monotone(t1: u32, t2: u32)
    requires
        t1 <= t2,
    ensures
        hazard_target(t1) <= hazard_target(t2),
{
    vstd::arithmetic::div_mod::lemma_div_is_ordered(
        t1 as int,
        t2 as int,
        HAZARD_GROWTH_DIVISOR as int,
    );
}

/// A tick never pushes the hazard count past the target for its tick
/// counter: a hazard spawns only while the count is below the target, and
/// the target itself only grows.
pub proof fn lemma_hazard_count_bounded(
    pre: Game,
    post: Game,
    events: Seq<InputEvent>,
    r: TickRandoms,
    cues: Seq<Cue>,
)
    requires
        tick_rel(pre, post, events, r, cues),
        pre.asteroids@.len() <= hazard_target(pre.game_timer),
    ensures
        post.asteroids@.len() <= hazard_target(post.game_timer),
{
    broadcast use Seq::<Shape>::lemma_filter_len;

    if !(pre.phase is GameOver) && pre.lives != 0 {
        lemma_hazard_target_monotone(pre.game_timer, tick_timer(pre));
    }
}

/// While the engine is short of its hazard target and nothing removes a
/// hazard — not resting, no shield collected, every hazard alive, none
/// hitting the player, none reaching the bottom edge — one tick grows the
/// hazard count by exactly one. Together with the bound above, the count
/// climbs to the target and then follows it.
pub proof fn lemma_hazard_count_grows(
    pre: Game,
    post: Game,
    events: Seq<InputEvent>,
    r: TickRandoms,
    cues: Seq<Cue>,
)
    requires
        tick_rel(pre, post, events, r, cues),
        !(pre.phase is GameOver),
        pre.lives > 0,
        !(rest_resolved(pre.phase, tick_timer(pre)) is Resting),
        tick_shields(pre, events) == 0,
        tick_hits(pre, events) == 0,
        pre.asteroids@.len() < hazard_target(tick_timer(pre)),
        forall|i: int|
            0 <= i < pre.asteroids@.len() ==> (#[trigger] pre.asteroids@[i]).is_alive && drifted(
                pre.asteroids@[i],
            ).position.y < BOTTOM_EDGE,
    ensures
        post.asteroids@.len() == pre.asteroids@.len() + 1,
{
    let player1 = tick_player(pre, events);
    let ast1 = tick_hazards_pre_drift(pre, events);
    let ast2 = hazards_stepped(ast1, player1);
    let spawned = hazard_shape(r.hazard_x, r.hazard_speed, r.hazard_red, r.hazard_green);
    let ast3 = ast2.push(spawned);
    assert forall|i: int| 0 <= i < ast3.len() implies ast3[i].is_alive && ast3[i].position.y
        < BOTTOM_EDGE by {
        if i < ast2.len() {
            let a = ast1[i];
            if hazard_hit_pred(player1)(a) {
                lemma_hit_makes_count_positive(ast1, player1, i);
            }
            assert(ast3[i] == hazard_stepped(a, player1));
        }
    }
    lemma_sweep_keeps_all(ast3);
}

/// A hazard that hits the player makes the tick's hit count positive.
proof fn lemma_hit_makes_count_positive(hazards: Seq<Shape>, player: Shape, i: int)
    requires
        0 <= i < hazards.len(),
        hazard_hit_pred(player)(hazards[i]),
    ensures
        hazard_hits(hazards, player) > 0,
{
    hazards.lemma_filter_contains(hazard_hit_pred(player), i);
    let f = hazards.filter(hazard_hit_pred(player));
    assert(f.contains(hazards[i]));
}

/// The tick that finds the lives at zero is the one that enters the
/// terminal state, and it raises the four game-over cues.
pub proof fn lemma_game_over_entry(
    pre: Game,
    post: Game,
    events: Seq<InputEvent>,
    r: TickRandoms,
    cues: Seq<Cue>,
)
    requires
        tick_rel(pre, post, events, r, cues),
        !(pre.phase is GameOver),
        pre.lives == 0,
    ensures
        post.phase == Phase::GameOver,
        cues == game_over_cues(),
        same_world(pre, post),
{
}

/// Once terminal, the engine stays terminal, mutates nothing and raises no
/// further cue — so the game-over cues sound exactly once, however many
/// ticks follow.
pub proof fn lemma_game_over_is_terminal(
    pre: Game,
    post: Game,
    events: Seq<InputEvent>,
    r: TickRandoms,
    cues: Seq<Cue>,
)
    requires
        tick_rel(pre, post, events, r, cues),
        pre.phase is GameOver,
    ensures
        post.phase == pre.phase,
        same_world(pre, post),
        cues == Seq::<Cue>::empty(),
{
}

/// Every entity of a collection keeps the rectangle invariant: positive
/// width and height.
pub open spec fn entities_wf(s: Seq<Shape>) -> bool {
    forall|i: int| 0 <= i < s.len() ==> (#[trigger] s[i]).wf()
}

impl Game {
    /// The engine's structural invariant: every rectangle in the world has
    /// positive extents.
    pub open spec fn wf(self) -> bool {
        &&& self.player.wf()
        &&& entities_wf(self.asteroids@)
        &&& entities_wf(self.mushrooms@)
        &&& entities_wf(self.crystals@)
    }
}

/// A sweep only drops entities, so it keeps the rectangle invariant.
proof fn lemma_swept_wf(s: Seq<Shape>)
    requires
        entities_wf(s),
    ensures
        entities_wf(swept(s)),
{
    let f = swept(s);
    assert forall|i: int| 0 <= i < f.len() implies (#[trigger] f[i]).wf() by {
        assert(f.contains(f[i]));
        s.lemma_filter_contains_rev(kept_pred(), f[i]);
        let j = choose|j: int| 0 <= j < s.len() && s[j] == f[i];
        assert(s[j].wf());
    }
}

/// Ticks preserve the rectangle invariant: moving, marking and sweeping
/// never touch an extent, and every spawned entity has positive extents.
pub proof fn lemma_tick_preserves_wf(
    pre: Game,
    post: Game,
    events: Seq<InputEvent>,
    r: TickRandoms,
    cues: Seq<Cue>,
)
    requires
        tick_rel(pre, post, events, r, cues),
        pre.wf(),
    ensures
        post.wf(),
{
    if !(pre.phase is GameOver) && pre.lives != 0 {
        let player1 = tick_player(pre, events);
        let timer1 = tick_timer(pre);
        let mush1 = mark_collected(pre.mushrooms@, player1);
        let mush2 = if timer1 % r.heal_period == 0 {
            mush1.push(heal_pickup_shape(r.heal_pos))
        } else {
            mush1
        };
        assert(entities_wf(mush2));
        lemma_swept_wf(mush2);
        let cry1 = mark_collected(pre.crystals@, player1);
        let cry2 = if timer1 % SHIELD_SPAWN_PERIOD == 0 {
            cry1.push(shield_pickup_shape(r.shield_pos))
        } else {
            cry1
        };
        assert(entities_wf(cry2));
        lemma_swept_wf(cry2);
        let ast1 = tick_hazards_pre_drift(pre, events);
        let ast2 = hazards_stepped(ast1, player1);
        let resting = rest_resolved(pre.phase, timer1) is Resting;
        let ast3 = if ast2.len() < hazard_target(timer1) && !resting {
            ast2.push(hazard_shape(r.hazard_x, r.hazard_speed, r.hazard_red, r.hazard_green))
        } else {
            ast2
        };
        assert(entities_wf(ast3));
        lemma_swept_wf(ast3);
    }
}

} // verus!
