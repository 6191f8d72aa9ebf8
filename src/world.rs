use vstd::prelude::*;

use crate::geometry::{
    clamp_spec, collide_with_side, hits, is_scaled_direction, push_out, pushed_out, reflect,
    reflect_spec, scaled_direction, side_spec, Circle, Rect, Vec2, BALL_LIMIT, COORD_LIMIT,
};
use crate::layout::{
    compute_layout, in_arena_range, layout_spec, ArenaBounds, LayoutError, ARENA_LIMIT,
};
use crate::settings::Config;
use crate::structures::{
    Ball, Brick, Collider, CollisionEvent, Paddle, Scoreboard, Velocity, WallBundle, WallLocation,
};

verus! {

/// The player's input for one tick.
#[derive(Clone, Copy, Debug, PartialEq, Eq, Structural)]
pub enum PaddleInput {
    /// The state of the left and right keys; both held cancel out.
    Keys { left: bool, right: bool },
    /// A horizontal pointer or touch movement.
    Touch { delta: i64 },
}

/// How far the paddle is asked to move this tick, before clamping.
pub open spec fn displacement(input: PaddleInput, speed: int) -> int {
    match input {
        PaddleInput::Keys { left, right } => (if right { speed } else { 0 }) - (if left {
            speed
        } else {
            0
        }),
        PaddleInput::Touch { delta } => delta as int,
    }
}

/// The rectangles the ball is tested against, in order: paddle, walls, bricks.
pub open spec fn obstacles(paddle: Paddle, walls: Seq<WallBundle>, bricks: Seq<Brick>) -> Seq<
    Rect,
> {
    seq![paddle.body_spec()] + walls.map_values(|w: WallBundle| w.collider.body)
        + bricks.map_values(|b: Brick| b.collider.body)
}

/// The index of the first rectangle at or after `i` that the circle hits; the length if none.
pub open spec fn first_hit(c: Circle, obs: Seq<Rect>, i: int) -> int
    decreases obs.len() - i,
{
    if i >= obs.len() {
        obs.len() as int
    } else if hits(c, obs[i]) {
        i
    } else {
        first_hit(c, obs, i + 1)
    }
}

/// `first_hit` from `i` is the least index at or after `i` whose rectangle the circle hits,
/// or the length where there is none.
pub proof fn lemma_first_hit(c: Circle, obs: Seq<Rect>, i: int)
    requires
        0 <= i <= obs.len(),
    ensures
        i <= first_hit(c, obs, i) <= obs.len(),
        forall|j: int| i <= j < first_hit(c, obs, i) ==> !hits(c, #[trigger] obs[j]),
        first_hit(c, obs, i) < obs.len() ==> hits(c, obs[first_hit(c, obs, i)]),
    decreases obs.len() - i,
{
    if i < obs.len() && !hits(c, obs[i]) {
        lemma_first_hit(c, obs, i + 1);
    }
}

/// What one tick may do to the bricks and the score: nothing, or remove one brick and add
/// one point.
pub open spec fn scoring_step(b0: Seq<Brick>, s0: int, b1: Seq<Brick>, s1: int) -> bool {
    ||| b1 == b0 && s1 == s0
    ||| exists|k: int| 0 <= k < b0.len() && b1 == b0.remove(k) && s1 == s0 + 1
}

/// Over any run of ticks, each brick scores once: between any two moments the score never
/// falls, it grew by the number of bricks that went, and the later bricks were all there
/// before.
pub proof fn lemma_scoring_over_ticks(bricks: Seq<Seq<Brick>>, scores: Seq<int>, i: int, j: int)
    requires
        bricks.len() == scores.len(),
        0 <= i <= j < bricks.len(),
        forall|n: int|
            0 <= n < bricks.len() - 1 ==> #[trigger] scoring_step(
                bricks[n],
                scores[n],
                bricks[n + 1],
                scores[n + 1],
            ),
    ensures
        scores[i] <= scores[j],
        scores[j] - scores[i] == bricks[i].len() - bricks[j].len(),
        forall|x: Brick| bricks[j].contains(x) ==> bricks[i].contains(x),
    decreases j - i,
{
    if i < j {
        lemma_scoring_over_ticks(bricks, scores, i, j - 1);
        let n = j - 1;
        assert(scoring_step(bricks[n], scores[n], bricks[n + 1], scores[n + 1]));
        if bricks[j] == bricks[n] && scores[j] == scores[n] {
        } else {
            let k = choose|k: int|
                0 <= k < bricks[n].len() && bricks[j] == bricks[n].remove(k) && scores[j]
                    == scores[n] + 1;
            assert forall|x: Brick| bricks[j].contains(x) implies bricks[i].contains(x) by {
                let m = choose|m: int| 0 <= m < bricks[j].len() && bricks[j][m] == x;
                if m < k {
                    assert(bricks[n][m] == x);
                } else {
                    assert(bricks[n][m + 1] == x);
                }
            }
        }
    }
}

/// The whole state of the simulation.
pub struct World {
    pub bounds: ArenaBounds,
    pub ball: Ball,
    pub velocity: Velocity,
    pub paddle: Paddle,
    pub paddle_speed: i64,
    pub paddle_padding: i64,
    pub walls: Vec<WallBundle>,
    pub bricks: Vec<Brick>,
    pub scoreboard: Scoreboard,
}

/// The x halfway between the side walls, rounded towards the left wall.
pub open spec fn arena_centre_x(b: ArenaBounds) -> int {
    b.left_wall + (b.right_wall - b.left_wall) / 2
}

/// Where a paddle asked to stand at `x` is put: clamped into its range between the walls
/// less its half-width and padding, or, where that range is empty, centred in the arena.
pub open spec fn placed_paddle_x(b: ArenaBounds, half_width: int, padding: int, x: int) -> int {
    let lo = b.left_wall + half_width + padding;
    let hi = b.right_wall - half_width - padding;
    if lo <= hi {
        clamp_spec(x, lo, hi)
    } else {
        arena_centre_x(b)
    }
}

impl World {
    /// Lowest x the paddle's centre may take.
    pub open spec fn paddle_min_x(self) -> int {
        self.bounds.left_wall + self.paddle.half_size.x + self.paddle_padding
    }

    /// Highest x the paddle's centre may take.
    pub open spec fn paddle_max_x(self) -> int {
        self.bounds.right_wall - self.paddle.half_size.x - self.paddle_padding
    }

    pub open spec fn wf(self) -> bool {
        &&& self.bounds.wf()
        &&& self.ball.body.wf()
        &&& self.velocity.0.within(COORD_LIMIT as int)
        &&& self.paddle.in_range()
        &&& 0 <= self.paddle_speed <= ARENA_LIMIT
        &&& 0 <= self.paddle_padding <= ARENA_LIMIT
        &&& self.paddle.center.x == self.place_paddle(self.paddle.center.x as int)
        &&& forall|i: int| 0 <= i < self.walls@.len() ==> (#[trigger] self.walls@[i]).collider.body.wf()
        &&& forall|i: int| 0 <= i < self.bricks@.len() ==> (#[trigger] self.bricks@[i]).collider.body.wf()
        &&& self.scoreboard.score + self.bricks@.len() <= usize::MAX
    }

    /// The ball's body after one step of its velocity.
    pub open spec fn ball_moved(self) -> Circle {
        Circle {
            center: Vec2 {
                x: (self.ball.body.center.x + self.velocity.0.x) as i64,
                y: (self.ball.body.center.y + self.velocity.0.y) as i64,
            },
            radius: self.ball.body.radius,
        }
    }

    /// One step of the velocity keeps the ball within the coordinates the world can hold.
    pub open spec fn can_advance(self) -> bool {
        &&& crate::geometry::within(self.ball.body.center.x + self.velocity.0.x, BALL_LIMIT as int)
        &&& crate::geometry::within(self.ball.body.center.y + self.velocity.0.y, BALL_LIMIT as int)
    }

    /// Where the paddle is put when asked to stand at `x` in this arena.
    pub open spec fn place_paddle(self, x: int) -> int {
        placed_paddle_x(
            self.bounds,
            self.paddle.half_size.x as int,
            self.paddle_padding as int,
            x,
        )
    }

    /// The paddle after the controller step: moved by the input, then clamped into its range.
    pub open spec fn paddle_after(self, input: PaddleInput) -> Paddle {
        Paddle {
            center: Vec2 {
                x: self.place_paddle(
                    self.paddle.center.x + displacement(input, self.paddle_speed as int),
                ) as i64,
                y: self.paddle.center.y,
            },
            half_size: self.paddle.half_size,
        }
    }

    pub open spec fn obstacles_after(self, input: PaddleInput) -> Seq<Rect> {
        obstacles(self.paddle_after(input), self.walls@, self.bricks@)
    }

    /// The index of the obstacle the moved ball strikes this tick.
    pub open spec fn hit_index(self, input: PaddleInput) -> int {
        first_hit(self.ball_moved(), self.obstacles_after(input), 0)
    }

    pub open spec fn hits_something(self, input: PaddleInput) -> bool {
        self.hit_index(input) < self.obstacles_after(input).len()
    }

    /// Whether the `can_advance` condition holds.
    pub fn check_can_advance(&self) -> (r: bool)
        requires
            self.wf(),
        ensures
            r == self.can_advance(),
    {
        let x: i64 = self.ball.body.center.x + self.velocity.0.x;
        let y: i64 = self.ball.body.center.y + self.velocity.0.y;
        -BALL_LIMIT <= x && x <= BALL_LIMIT && -BALL_LIMIT <= y && y <= BALL_LIMIT
    }

    /// The controller step: moves the paddle by the input and clamps it into its range.
    pub fn move_paddle(&mut self, input: PaddleInput)
        requires
            old(self).wf(),
        ensures
            final(self).wf(),
            final(self).paddle == old(self).paddle_after(input),
            final(self).paddle_min_x() <= final(self).paddle_max_x() ==> final(self).paddle_min_x()
                <= final(self).paddle.center.x <= final(self).paddle_max_x(),
            final(self).ball == old(self).ball,
            final(self).velocity == old(self).velocity,
            final(self).bounds == old(self).bounds,
            final(self).paddle_speed == old(self).paddle_speed,
            final(self).paddle_padding == old(self).paddle_padding,
            final(self).walls@ == old(self).walls@,
            final(self).bricks@ == old(self).bricks@,
            final(self).scoreboard == old(self).scoreboard,
    {
        let lo: i64 = self.bounds.left_wall + self.paddle.half_size.x + self.paddle_padding;
        let hi: i64 = self.bounds.right_wall - self.paddle.half_size.x - self.paddle_padding;
        let x = self.paddle.center.x;
        let d: i64 = match input {
            PaddleInput::Keys { left, right } => (if right {
                self.paddle_speed
            } else {
                0
            }) - (if left {
                self.paddle_speed
            } else {
                0
            }),
            PaddleInput::Touch { delta } => delta,
        };
        let nx: i64 = if lo > hi {
            self.bounds.left_wall + (self.bounds.right_wall - self.bounds.left_wall) / 2
        } else if d > hi - x {
            hi
        } else if d < lo - x {
            lo
        } else {
            x + d
        };
        self.paddle.center.x = nx;
    }

    /// The integrator step: advances the ball by its velocity.
    pub fn apply_velocity(&mut self)
        requires
            old(self).wf(),
            old(self).can_advance(),
        ensures
            final(self).wf(),
            final(self).ball.body == old(self).ball_moved(),
            final(self).velocity == old(self).velocity,
            final(self).paddle == old(self).paddle,
            final(self).bounds == old(self).bounds,
            final(self).paddle_speed == old(self).paddle_speed,
            final(self).paddle_padding == old(self).paddle_padding,
            final(self).walls@ == old(self).walls@,
            final(self).bricks@ == old(self).bricks@,
            final(self).scoreboard == old(self).scoreboard,
    {
        self.ball.body.center = Vec2 {
            x: self.ball.body.center.x + self.velocity.0.x,
            y: self.ball.body.center.y + self.velocity.0.y,
        };
    }

    /// The rectangles the ball is tested against, in testing order.
    pub fn obstacle_rects(&self) -> (r: Vec<Rect>)
        requires
            self.wf(),
        ensures
            r@ == obstacles(self.paddle, self.walls@, self.bricks@),
            forall|i: int| 0 <= i < r@.len() ==> (#[trigger] r@[i]).wf(),
    {
        let mut v: Vec<Rect> = Vec::new();
        v.push(self.paddle.body());
        let mut i: usize = 0;
        while i < self.walls.len()
            invariant
                self.wf(),
                i <= self.walls@.len(),
                v@ == seq![self.paddle.body_spec()] + self.walls@.subrange(0, i as int).map_values(
                    |w: WallBundle| w.collider.body,
                ),
                forall|j: int| 0 <= j < v@.len() ==> (#[trigger] v@[j]).wf(),
            decreases self.walls@.len() - i,
        {
            v.push(self.walls[i].collider.body);
            proof {
                assert(self.walls@.subrange(0, i + 1) =~= self.walls@.subrange(0, i as int).push(
                    self.walls@[i as int],
                ));
            }
            i = i + 1;
            assert(v@ =~= seq![self.paddle.body_spec()] + self.walls@.subrange(0, i as int).map_values(
                |w: WallBundle| w.collider.body,
            ));
        }
        assert(self.walls@.subrange(0, i as int) =~= self.walls@);
        let ghost prefix = v@;
        let mut k: usize = 0;
        while k < self.bricks.len()
            invariant
                self.wf(),
                k <= self.bricks@.len(),
                prefix == seq![self.paddle.body_spec()] + self.walls@.map_values(
                    |w: WallBundle| w.collider.body,
                ),
                v@ == prefix + self.bricks@.subrange(0, k as int).map_values(
                    |b: Brick| b.collider.body,
                ),
                forall|j: int| 0 <= j < v@.len() ==> (#[trigger] v@[j]).wf(),
            decreases self.bricks@.len() - k,
        {
            v.push(self.bricks[k].collider.body);
            proof {
                assert(self.bricks@.subrange(0, k + 1) =~= self.bricks@.subrange(0, k as int).push(
                    self.bricks@[k as int],
                ));
            }
            k = k + 1;
            assert(v@ =~= prefix + self.bricks@.subrange(0, k as int).map_values(
                |b: Brick| b.collider.body,
            ));
        }
        assert(self.bricks@.subrange(0, k as int) =~= self.bricks@);
        v
    }
}

/// The index of the first rectangle that the circle hits, or the length if none, with the side.
pub fn find_first_hit(c: &Circle, obs: &Vec<Rect>) -> (r: (usize, Option<crate::geometry::Collision>))
    requires
        c.wf(),
        forall|i: int| 0 <= i < obs@.len() ==> (#[trigger] obs@[i]).wf(),
    ensures
        r.0 == first_hit(*c, obs@, 0),
        r.0 <= obs@.len(),
        r.1.is_some() == (r.0 < obs@.len()),
        r.0 < obs@.len() ==> r.1 == Some(side_spec(*c, obs@[r.0 as int])),
{
    let mut i: usize = 0;
    while i < obs.len()
        invariant
            c.wf(),
            i <= obs@.len(),
            forall|j: int| 0 <= j < obs@.len() ==> (#[trigger] obs@[j]).wf(),
            first_hit(*c, obs@, 0) == first_hit(*c, obs@, i as int),
        decreases obs@.len() - i,
    {
        let side = collide_with_side(c, &obs[i]);
        if side.is_some() {
            return (i, side);
        }
        i = i + 1;
    }
    (i, None)
}

impl World {
    /// The collision step: resolves the first obstacle the ball touches, in the order paddle,
    /// walls, bricks, and no other. The ball is pushed clear through the side it struck and its
    /// velocity reflected; a struck brick is removed and scores one point.
    pub fn check_for_collisions(&mut self) -> (ev: Option<CollisionEvent>)
        requires
            old(self).wf(),
        ensures
            final(self).wf(),
            final(self).paddle == old(self).paddle,
            final(self).bounds == old(self).bounds,
            final(self).paddle_speed == old(self).paddle_speed,
            final(self).paddle_padding == old(self).paddle_padding,
            final(self).walls@ == old(self).walls@,
            ({
                let obs = obstacles(old(self).paddle, old(self).walls@, old(self).bricks@);
                let k = first_hit(old(self).ball.body, obs, 0);
                let nw = old(self).walls@.len() as int;
                if k < obs.len() {
                    let side = side_spec(old(self).ball.body, obs[k]);
                    &&& ev is Some
                    &&& final(self).ball.body == pushed_out(old(self).ball.body, obs[k], side)
                    &&& final(self).velocity.0 == reflect_spec(old(self).velocity.0, side)
                    &&& k <= nw ==> final(self).bricks@ == old(self).bricks@
                        && final(self).scoreboard == old(self).scoreboard
                    &&& k > nw ==> final(self).bricks@ == old(self).bricks@.remove(k - 1 - nw)
                        && final(self).scoreboard.score == old(self).scoreboard.score + 1
                } else {
                    &&& ev is None
                    &&& final(self).ball == old(self).ball
                    &&& final(self).velocity == old(self).velocity
                    &&& final(self).bricks@ == old(self).bricks@
                    &&& final(self).scoreboard == old(self).scoreboard
                }
            }),
            final(self).scoreboard.score + final(self).bricks@.len() == old(self).scoreboard.score
                + old(self).bricks@.len(),
            final(self).scoreboard.score <= old(self).scoreboard.score + 1,
            old(self).bricks@.len() <= final(self).bricks@.len() + 1,
            scoring_step(
                old(self).bricks@,
                old(self).scoreboard.score as int,
                final(self).bricks@,
                final(self).scoreboard.score as int,
            ),
    {
        let obs = self.obstacle_rects();
        let ghost nw = self.walls@.len() as int;
        let (k, side) = find_first_hit(&self.ball.body, &obs);
        match side {
            None => None,
            Some(side) => {
                let rect = obs[k];
                self.ball.body = push_out(&self.ball.body, &rect, side);
                self.velocity = Velocity(reflect(self.velocity.0, side));
                if k > self.walls.len() {
                    let brick_index: usize = k - 1 - self.walls.len();
                    proof {
                        assert(obs@.len() == 1 + nw + self.bricks@.len());
                    }
                    self.bricks.remove(brick_index);
                    self.scoreboard.increment(1);
                    assert(scoring_step(
                        old(self).bricks@,
                        old(self).scoreboard.score as int,
                        self.bricks@,
                        self.scoreboard.score as int,
                    )) by {
                        assert(self.bricks@ == old(self).bricks@.remove(brick_index as int));
                    }
                    proof {
                        assert forall|i: int| 0 <= i < self.bricks@.len() implies (
                        #[trigger] self.bricks@[i]).collider.body.wf() by {
                            if i < brick_index {
                                assert(self.bricks@[i] == old(self).bricks@[i]);
                            } else {
                                assert(self.bricks@[i] == old(self).bricks@[i + 1]);
                            }
                        }
                    }
                }
                Some(CollisionEvent)
            },
        }
    }

    /// One simulation tick: the controller moves the paddle, the integrator moves the ball,
    /// then at most one collision is resolved. Returns the collision signal, if any.
    pub fn tick(&mut self, input: PaddleInput) -> (ev: Option<CollisionEvent>)
        requires
            old(self).wf(),
            old(self).can_advance(),
        ensures
            final(self).wf(),
            final(self).paddle == old(self).paddle_after(input),
            final(self).bounds == old(self).bounds,
            final(self).paddle_speed == old(self).paddle_speed,
            final(self).paddle_padding == old(self).paddle_padding,
            final(self).walls@ == old(self).walls@,
            ({
                let obs = old(self).obstacles_after(input);
                let moved = old(self).ball_moved();
                let k = old(self).hit_index(input);
                let nw = old(self).walls@.len() as int;
                if k < obs.len() {
                    let side = side_spec(moved, obs[k]);
                    &&& ev is Some
                    &&& final(self).ball.body == pushed_out(moved, obs[k], side)
                    &&& final(self).velocity.0 == reflect_spec(old(self).velocity.0, side)
                    &&& k <= nw ==> final(self).bricks@ == old(self).bricks@
                        && final(self).scoreboard == old(self).scoreboard
                    &&& k > nw ==> final(self).bricks@ == old(self).bricks@.remove(k - 1 - nw)
                        && final(self).scoreboard.score == old(self).scoreboard.score + 1
                } else {
                    &&& ev is None
                    &&& final(self).ball.body == moved
                    &&& final(self).velocity == old(self).velocity
                    &&& final(self).bricks@ == old(self).bricks@
                    &&& final(self).scoreboard == old(self).scoreboard
                }
            }),
            final(self).scoreboard.score + final(self).bricks@.len() == old(self).scoreboard.score
                + old(self).bricks@.len(),
            final(self).scoreboard.score <= old(self).scoreboard.score + 1,
            old(self).bricks@.len() <= final(self).bricks@.len() + 1,
            scoring_step(
                old(self).bricks@,
                old(self).scoreboard.score as int,
                final(self).bricks@,
                final(self).scoreboard.score as int,
            ),
    {
        self.move_paddle(input);
        self.apply_velocity();
        self.check_for_collisions()
    }
}

/// Why a game cannot start.
#[derive(Clone, Copy, Debug, PartialEq, Eq, Structural)]
pub enum SetupError {
    /// The ball's initial direction is the zero vector.
    NoDirection,
    /// The bricks cannot be laid out.
    Layout(LayoutError),
}

/// The walls stand on the sides left, right, bottom, top, in that order.
pub open spec fn walls_in_order(walls: Seq<WallBundle>) -> bool {
    &&& walls.len() == 4
    &&& walls[0].location == WallLocation::Left
    &&& walls[1].location == WallLocation::Right
    &&& walls[2].location == WallLocation::Bottom
    &&& walls[3].location == WallLocation::Top
}

/// The walls of an arena, in the order left, right, bottom, top.
pub open spec fn wall_rects(b: ArenaBounds, thickness: int) -> Seq<Rect> {
    seq![
        WallLocation::Left.rect_spec(b, thickness),
        WallLocation::Right.rect_spec(b, thickness),
        WallLocation::Bottom.rect_spec(b, thickness),
        WallLocation::Top.rect_spec(b, thickness),
    ]
}

impl World {
    /// A new game in the arena `b`: the paddle centred above the floor, the ball at its start
    /// with its initial direction scaled to its speed, four walls, the bricks of the layout,
    /// and a score of zero.
    pub fn setup(b: ArenaBounds, c: Config) -> (r: Result<World, SetupError>)
        requires
            b.wf(),
            c.wf(),
            in_arena_range(b.bottom_wall + c.paddle_floor_gap),
        ensures
            (r == Err::<World, SetupError>(SetupError::NoDirection)) <==> (c.ball_direction.x == 0
                && c.ball_direction.y == 0),
            forall|e: LayoutError|
                (r == Err::<World, SetupError>(SetupError::Layout(e))) <==> (!(c.ball_direction.x
                    == 0 && c.ball_direction.y == 0) && layout_spec(
                    b,
                    b.bottom_wall + c.paddle_floor_gap,
                    c.gaps,
                    c.target_columns as int,
                    c.target_rows as int,
                ) == Err::<crate::layout::BrickLayout, LayoutError>(e)),
            r is Ok ==> ({
                let w = r->Ok_0;
                let paddle_y = b.bottom_wall + c.paddle_floor_gap;
                let l = layout_spec(b, paddle_y, c.gaps, c.target_columns as int, c.target_rows as int)->Ok_0;
                &&& w.wf()
                &&& w.bounds == b
                &&& w.paddle.center.x == arena_centre_x(b)
                &&& w.paddle.center.y == paddle_y
                &&& w.paddle.half_size == c.paddle_half_size
                &&& w.paddle_speed == c.paddle_speed
                &&& w.paddle_padding == c.paddle_padding
                &&& w.ball.body == (Circle { center: c.ball_start, radius: c.ball_radius })
                &&& is_scaled_direction(w.velocity.0, c.ball_direction, c.ball_speed as int)
                &&& walls_in_order(w.walls@)
                &&& w.walls@.map_values(|x: WallBundle| x.collider.body) == wall_rects(b, c.wall_thickness as int)
                &&& w.bricks@.map_values(|x: Brick| x.collider.body) == l.rects()
                &&& w.scoreboard.score == 0
            }),
    {
        let velocity = match scaled_direction(c.ball_direction, c.ball_speed) {
            None => return Err(SetupError::NoDirection),
            Some(v) => v,
        };
        let paddle_y: i64 = b.bottom_wall + c.paddle_floor_gap;
        let layout = match compute_layout(b, paddle_y, c.gaps, c.target_columns, c.target_rows) {
            Err(e) => return Err(SetupError::Layout(e)),
            Ok(l) => l,
        };
        let rects = layout.bricks(b);
        let mut bricks: Vec<Brick> = Vec::new();
        let mut i: usize = 0;
        while i < rects.len()
            invariant
                i <= rects@.len(),
                bricks@.len() == i,
                forall|j: int| 0 <= j < rects@.len() ==> (#[trigger] rects@[j]).wf(),
                forall|j: int| 0 <= j < i ==> (#[trigger] bricks@[j]).collider.body == rects@[j],
            decreases rects@.len() - i,
        {
            bricks.push(Brick { collider: Collider { body: rects[i] } });
            i = i + 1;
        }
        assert(bricks@.map_values(|x: Brick| x.collider.body) =~= rects@);
        let walls: Vec<WallBundle> = vec![
            WallBundle::new(WallLocation::Left, b, c.wall_thickness),
            WallBundle::new(WallLocation::Right, b, c.wall_thickness),
            WallBundle::new(WallLocation::Bottom, b, c.wall_thickness),
            WallBundle::new(WallLocation::Top, b, c.wall_thickness),
        ];
        assert(walls@.map_values(|x: WallBundle| x.collider.body) =~= wall_rects(b, c.wall_thickness as int));
        let w = World {
            bounds: b,
            ball: Ball { body: Circle { center: c.ball_start, radius: c.ball_radius } },
            velocity: Velocity(velocity),
            paddle: Paddle {
                center: Vec2 { x: b.left_wall + (b.right_wall - b.left_wall) / 2, y: paddle_y },
                half_size: c.paddle_half_size,
            },
            paddle_speed: c.paddle_speed,
            paddle_padding: c.paddle_padding,
            walls,
            bricks,
            scoreboard: Scoreboard::new(),
        };
        Ok(w)
    }
}

impl World {
    /// Takes a new window size: the arena is re-centred on the origin with the window's size and
    /// the walls are rebuilt on its edges. The paddle is clamped into its new range, or centred
    /// where the window is too narrow for it. The bricks keep their places.
    pub fn update_wall_positions(&mut self, width: i64, height: i64, thickness: i64)
        requires
            old(self).wf(),
            1 <= width <= ARENA_LIMIT,
            1 <= height <= ARENA_LIMIT,
            0 <= thickness <= ARENA_LIMIT,
        ensures
            final(self).wf(),
            final(self).bounds == ArenaBounds::from_window_spec(width as int, height as int),
            walls_in_order(final(self).walls@),
            final(self).walls@.map_values(|x: WallBundle| x.collider.body) == wall_rects(
                final(self).bounds,
                thickness as int,
            ),
            final(self).paddle.center.x == placed_paddle_x(
                final(self).bounds,
                old(self).paddle.half_size.x as int,
                old(self).paddle_padding as int,
                old(self).paddle.center.x as int,
            ),
            final(self).paddle.center.y == old(self).paddle.center.y,
            final(self).paddle.half_size == old(self).paddle.half_size,
            final(self).ball == old(self).ball,
            final(self).velocity == old(self).velocity,
            final(self).bricks@ == old(self).bricks@,
            final(self).scoreboard == old(self).scoreboard,
            final(self).paddle_speed == old(self).paddle_speed,
            final(self).paddle_padding == old(self).paddle_padding,
    {
        let b = ArenaBounds::from_window(width, height);
        let lo: i64 = b.left_wall + self.paddle.half_size.x + self.paddle_padding;
        let hi: i64 = b.right_wall - self.paddle.half_size.x - self.paddle_padding;
        let walls: Vec<WallBundle> = vec![
            WallBundle::new(WallLocation::Left, b, thickness),
            WallBundle::new(WallLocation::Right, b, thickness),
            WallBundle::new(WallLocation::Bottom, b, thickness),
            WallBundle::new(WallLocation::Top, b, thickness),
        ];
        assert(walls@.map_values(|x: WallBundle| x.collider.body) =~= wall_rects(b, thickness as int));
        let x = if lo <= hi {
            crate::geometry::clamp(self.paddle.center.x, lo, hi)
        } else {
            b.left_wall + (b.right_wall - b.left_wall) / 2
        };
        self.bounds = b;
        self.walls = walls;
        self.paddle.center.x = x;
    }
}

} // verus!
