use breakout::geometry::{Circle, Vec2};
use breakout::layout::{ArenaBounds, LayoutError};
use breakout::settings::{
    Config, BOTTOM_WALL, GAP_BETWEEN_PADDLE_AND_FLOOR, LEFT_WALL, PADDLE_SPEED, RIGHT_WALL,
    TOP_WALL, UNITS_PER_PIXEL,
};
use breakout::structures::{CollisionEvent, Scoreboard, WallLocation};
use breakout::world::{PaddleInput, SetupError, World};

const P: i64 = UNITS_PER_PIXEL;
const IDLE: PaddleInput = PaddleInput::Keys { left: false, right: false };
const RADIUS: i64 = 15 * P;
const DIAGONAL: i64 = 72407;

fn standard_bounds() -> ArenaBounds {
    ArenaBounds {
        left_wall: LEFT_WALL,
        right_wall: RIGHT_WALL,
        bottom_wall: BOTTOM_WALL,
        top_wall: TOP_WALL,
    }
}

fn standard_world() -> World {
    World::setup(standard_bounds(), Config::standard()).unwrap()
}

/// Puts the ball where one step of `(vx, vy)` takes it to `(x, y)`.
fn place_ball_arriving_at(w: &mut World, x: i64, y: i64, vx: i64, vy: i64) {
    w.ball.body.center = Vec2::new(x - vx, y - vy);
    w.velocity.0 = Vec2::new(vx, vy);
}

#[test]
fn setup_builds_the_standard_game() {
    let w = standard_world();
    assert_eq!(w.ball.body, Circle { center: Vec2::new(0, -50 * P), radius: RADIUS });
    assert_eq!(w.velocity.0, Vec2::new(DIAGONAL, -DIAGONAL));
    assert_eq!(w.paddle.center, Vec2::new(0, BOTTOM_WALL + GAP_BETWEEN_PADDLE_AND_FLOOR));
    assert_eq!(w.walls.len(), 4);
    assert_eq!(w.walls[0].location, WallLocation::Left);
    assert_eq!(w.walls[1].location, WallLocation::Right);
    assert_eq!(w.walls[2].location, WallLocation::Bottom);
    assert_eq!(w.walls[3].location, WallLocation::Top);
    assert_eq!(w.bricks.len(), 100);
    assert_eq!(w.bricks[0].collider.body.min, Vec2::new(-4375 * P / 10, 30 * P));
    assert_eq!(w.bricks[0].collider.body.max, Vec2::new(-3545 * P / 10, 50 * P));
    assert_eq!(w.scoreboard.value(), 0);
}

#[test]
fn initial_speed_matches_four_hundred_pixels_per_second() {
    let w = standard_world();
    let per_tick_px = w.velocity.0.x as f64 / P as f64;
    let expected = 400.0 / 64.0 * std::f64::consts::FRAC_1_SQRT_2;
    assert!((per_tick_px - expected).abs() < 1e-4);
}

#[test]
fn setup_errors() {
    let b = standard_bounds();
    let mut c = Config::standard();
    c.ball_direction = Vec2::new(0, 0);
    assert_eq!(World::setup(b, c).err(), Some(SetupError::NoDirection));
    let mut c = Config::standard();
    c.target_columns = 0;
    assert_eq!(World::setup(b, c).err(), Some(SetupError::Layout(LayoutError::NoColumns)));
}

#[test]
fn paddle_wider_than_its_range_is_centred() {
    let mut c = Config::standard();
    c.paddle_half_size = Vec2::new(RIGHT_WALL, 10 * P);
    let mut w = World::setup(standard_bounds(), c).unwrap();
    assert_eq!(w.paddle.center.x, 0);
    w.move_paddle(PaddleInput::Keys { left: false, right: true });
    assert_eq!(w.paddle.center.x, 0);
}

#[test]
fn free_flight_advances_by_velocity() {
    let mut w = standard_world();
    assert!(w.check_can_advance());
    let ev = w.tick(IDLE);
    assert_eq!(ev, None);
    assert_eq!(w.ball.body.center, Vec2::new(DIAGONAL, -50 * P - DIAGONAL));
    assert_eq!(w.velocity.0, Vec2::new(DIAGONAL, -DIAGONAL));
    let x_px = w.ball.body.center.x as f64 / P as f64;
    let y_px = w.ball.body.center.y as f64 / P as f64;
    assert!((x_px - 4.4194174).abs() < 1e-4);
    assert!((y_px + 54.4194174).abs() < 1e-4);
    assert_eq!(w.bricks.len(), 100);
    assert_eq!(w.scoreboard.value(), 0);
}

#[test]
fn bottom_wall_bounce() {
    let mut w = standard_world();
    // The bottom wall's top face is at -295 px; the ball arrives 100000 units above it.
    place_ball_arriving_at(&mut w, 160 * P, -295 * P + 100000, DIAGONAL, -DIAGONAL);
    let ev = w.tick(IDLE);
    assert_eq!(ev, Some(CollisionEvent));
    assert_eq!(w.velocity.0, Vec2::new(DIAGONAL, DIAGONAL));
    assert_eq!(w.ball.body.center, Vec2::new(160 * P, -295 * P + RADIUS + 1));
    assert_eq!(w.scoreboard.value(), 0);
    assert_eq!(w.bricks.len(), 100);
    // Clear of the wall: the next tick is free flight.
    assert_eq!(w.tick(IDLE), None);
}

#[test]
fn side_wall_bounce() {
    let mut w = standard_world();
    place_ball_arriving_at(&mut w, 445 * P - 100000, 10000, 80000, 10000);
    assert_eq!(w.tick(IDLE), Some(CollisionEvent));
    assert_eq!(w.velocity.0, Vec2::new(-80000, 10000));
    assert_eq!(w.ball.body.center, Vec2::new(445 * P - RADIUS - 1, 10000));
}

#[test]
fn brick_hit_removes_brick_and_scores() {
    let mut w = standard_world();
    let struck = w.bricks[0];
    place_ball_arriving_at(&mut w, -400 * P, 30 * P - 100000, DIAGONAL, DIAGONAL);
    let ev = w.tick(IDLE);
    assert_eq!(ev, Some(CollisionEvent));
    assert_eq!(w.bricks.len(), 99);
    assert!(w.bricks.iter().all(|b| *b != struck));
    assert_eq!(w.scoreboard.value(), 1);
    assert_eq!(w.velocity.0, Vec2::new(DIAGONAL, -DIAGONAL));
    assert_eq!(w.ball.body.center, Vec2::new(-400 * P, 30 * P - RADIUS - 1));
}

#[test]
fn only_one_collision_per_tick() {
    let mut w = standard_world();
    let second = w.bricks[1];
    // Centred under the gap between the first two bricks: it touches both.
    place_ball_arriving_at(&mut w, -352 * P, 30 * P - 100000, DIAGONAL, DIAGONAL);
    assert_eq!(w.tick(IDLE), Some(CollisionEvent));
    assert_eq!(w.bricks.len(), 99);
    assert_eq!(w.bricks[0], second);
    assert_eq!(w.scoreboard.value(), 1);
}

#[test]
fn score_plus_bricks_is_conserved() {
    let mut w = standard_world();
    let total = w.scoreboard.value() + w.bricks.len();
    let mut last_score = 0;
    for _ in 0..2000 {
        if !w.check_can_advance() {
            break;
        }
        w.tick(IDLE);
        assert_eq!(w.scoreboard.value() + w.bricks.len(), total);
        assert!(w.scoreboard.value() >= last_score);
        last_score = w.scoreboard.value();
    }
    assert!(w.scoreboard.value() > 0);
}

#[test]
fn paddle_is_clamped() {
    let mut w = standard_world();
    let lo = LEFT_WALL + 60 * P + 10 * P;
    let hi = RIGHT_WALL - 60 * P - 10 * P;
    w.tick(PaddleInput::Keys { left: false, right: true });
    assert_eq!(w.paddle.center.x, PADDLE_SPEED);
    w.tick(PaddleInput::Keys { left: true, right: true });
    assert_eq!(w.paddle.center.x, PADDLE_SPEED);
    w.move_paddle(PaddleInput::Touch { delta: i64::MAX });
    assert_eq!(w.paddle.center.x, hi);
    w.move_paddle(PaddleInput::Touch { delta: i64::MIN });
    assert_eq!(w.paddle.center.x, lo);
    w.move_paddle(PaddleInput::Touch { delta: 100 });
    assert_eq!(w.paddle.center.x, lo + 100);
    for _ in 0..200 {
        w.move_paddle(PaddleInput::Keys { left: true, right: false });
        assert!(lo <= w.paddle.center.x && w.paddle.center.x <= hi);
    }
    assert_eq!(w.paddle.center.x, lo);
}

#[test]
fn paddle_bounce() {
    let mut w = standard_world();
    // The paddle's top face is at -230 px.
    place_ball_arriving_at(&mut w, 0, -230 * P + 200000, 0, -DIAGONAL);
    assert_eq!(w.tick(IDLE), Some(CollisionEvent));
    assert_eq!(w.velocity.0, Vec2::new(0, DIAGONAL));
    assert_eq!(w.ball.body.center, Vec2::new(0, -230 * P + RADIUS + 1));
    assert_eq!(w.bricks.len(), 100);
}

#[test]
fn paddle_over_ball_centre_pushes_ball_out_nearest_edge() {
    let mut w = standard_world();
    // Ball centre inside the paddle, 100000 units below its top face.
    place_ball_arriving_at(&mut w, 1000, -230 * P - 100000, 0, 50);
    assert_eq!(w.tick(IDLE), Some(CollisionEvent));
    assert_eq!(w.ball.body.center, Vec2::new(1000, -230 * P + RADIUS + 1));
    assert_eq!(w.velocity.0, Vec2::new(0, -50));
}

#[test]
fn resize_moves_walls_and_places_paddle() {
    let mut w = standard_world();
    w.move_paddle(PaddleInput::Touch { delta: i64::MAX });
    w.update_wall_positions(600 * P, 600 * P, 10 * P);
    assert_eq!(w.bounds.left_wall, -300 * P);
    assert_eq!(w.bounds.right_wall, 300 * P);
    assert_eq!(w.walls[1].location, WallLocation::Right);
    assert_eq!(w.walls[1].collider.body.min.x, 300 * P - 5 * P);
    assert_eq!(w.paddle.center.x, (300 - 70) * P);
    assert_eq!(w.bricks.len(), 100);
    // Narrower than the paddle and its padding: the arena still follows the window, and the
    // paddle is centred.
    w.update_wall_positions(100 * P, 600 * P, 10 * P);
    assert_eq!(w.bounds, ArenaBounds::from_window(100 * P, 600 * P));
    assert_eq!(w.bounds.left_wall, -50 * P);
    assert_eq!(w.walls[0].collider.body.max.x, -50 * P + 5 * P);
    assert_eq!(w.paddle.center.x, 0);
    w.update_wall_positions(1, 1, 0);
    assert_eq!(w.bounds, ArenaBounds { left_wall: 0, right_wall: 1, bottom_wall: 0, top_wall: 1 });
    assert_eq!(w.paddle.center.x, 0);
    w.update_wall_positions(900 * P, 600 * P, 10 * P);
    assert_eq!(w.bounds, standard_bounds());
    assert_eq!(w.paddle.center.x, 0);
}

#[test]
fn scoreboard_counts() {
    let mut s = Scoreboard::new();
    assert_eq!(s.value(), 0);
    s.increment(1);
    s.increment(2);
    assert_eq!(s.value(), 3);
}
