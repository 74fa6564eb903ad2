use asteroids::color::Color;
use asteroids::entity::Shape;
use asteroids::geometry::{Coordinate, SCREEN_SIZE};
use asteroids::sim::Game;

fn buffer() -> Vec<Color> {
    vec![Color { red: 0, green: 0, blue: 0, alpha: 0 }; SCREEN_SIZE * SCREEN_SIZE]
}

fn at(pixels: &[Color], x: usize, y: usize) -> Color {
    pixels[y * SCREEN_SIZE + x]
}

#[test]
fn render_fills_background_and_draws_player() {
    let g = Game::new();
    let mut pixels = buffer();
    g.render(&mut pixels);
    let bg = Color { red: 100, green: 100, blue: 100, alpha: 100 };
    let player = Color { red: 100, green: 0, blue: 50, alpha: 100 };
    // Far corners show the background: nothing of the old buffer survives.
    assert_eq!(at(&pixels, 0, 0), bg);
    assert_eq!(at(&pixels, 511, 511), bg);
    // The player is a 10 by 10 rectangle centered at (127, 251): columns
    // [122, 132), rows [246, 256).
    assert_eq!(at(&pixels, 127, 251), player);
    assert_eq!(at(&pixels, 122, 246), player);
    assert_eq!(at(&pixels, 131, 255), player);
    assert_eq!(at(&pixels, 121, 251), bg);
    assert_eq!(at(&pixels, 132, 251), bg);
    assert_eq!(at(&pixels, 127, 245), bg);
}

#[test]
fn later_layers_overwrite_earlier_ones() {
    let mut g = Game::new();
    let hazard_color = Color { red: 50, green: 40, blue: 0, alpha: 100 };
    let crystal_color = Color { red: 41, green: 100, blue: 99, alpha: 100 };
    // A hazard over the player's center, and a shield pickup over both.
    g.asteroids.push(Shape {
        position: Coordinate { x: 127, y: 251 },
        color: hazard_color,
        width: 4,
        height: 4,
        speed: 1,
        is_alive: true,
    });
    g.crystals.push(Shape {
        position: Coordinate { x: 127, y: 251 },
        color: crystal_color,
        width: 2,
        height: 2,
        speed: 0,
        is_alive: true,
    });
    let mut pixels = buffer();
    g.render(&mut pixels);
    // The crystal (drawn last) wins at the center; the hazard shows where
    // the crystal does not reach; the player shows outside both.
    assert_eq!(at(&pixels, 127, 251), crystal_color);
    assert_eq!(at(&pixels, 128, 250), hazard_color);
    assert_eq!(at(&pixels, 124, 248), Color { red: 100, green: 0, blue: 50, alpha: 100 });
}

#[test]
fn dead_entities_are_not_drawn() {
    let mut g = Game::new();
    g.asteroids.push(Shape {
        position: Coordinate { x: 10, y: 10 },
        color: Color { red: 1, green: 2, blue: 3, alpha: 100 },
        width: 4,
        height: 4,
        speed: 1,
        is_alive: false,
    });
    let mut pixels = buffer();
    g.render(&mut pixels);
    assert_eq!(at(&pixels, 10, 10), Color { red: 100, green: 100, blue: 100, alpha: 100 });
}

#[test]
fn rectangle_cut_off_at_the_grid_edge() {
    let mut g = Game::new();
    let c = Color { red: 9, green: 9, blue: 9, alpha: 100 };
    // Centered at the origin, half the rectangle falls off the grid: only
    // the cells inside [0, 256) on both axes are painted.
    g.asteroids.push(Shape {
        position: Coordinate { x: 0, y: 0 },
        color: c,
        width: 8,
        height: 8,
        speed: 1,
        is_alive: true,
    });
    let mut pixels = buffer();
    g.render(&mut pixels);
    assert_eq!(at(&pixels, 0, 0), c);
    assert_eq!(at(&pixels, 3, 3), c);
    assert_eq!(at(&pixels, 4, 0), Color { red: 100, green: 100, blue: 100, alpha: 100 });
}

#[test]
fn hazard_crossing_the_coordinate_edge_does_not_paint_the_far_columns() {
    // Cells live in the [0, 256) coordinate grid of a 512-wide buffer: the
    // right half of each row belongs to no coordinate and keeps the
    // background.
    let g = Game::new();
    let mut pixels = buffer();
    g.render(&mut pixels);
    let bg = Color { red: 100, green: 100, blue: 100, alpha: 100 };
    assert_eq!(at(&pixels, 256, 251), bg);
    assert_eq!(at(&pixels, 300, 100), bg);
}
