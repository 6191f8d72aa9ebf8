use vstd::math::abs;
use vstd::prelude::*;

verus! {

/// Largest magnitude of a rectangle coordinate, a radius or a velocity component.
pub const COORD_LIMIT: i64 = 268_435_456;

/// Largest magnitude of a ball coordinate: leaves room to push the ball out of a rectangle.
pub const BALL_LIMIT: i64 = 1_073_741_824;

pub open spec fn within(v: int, limit: int) -> bool {
    -limit <= v <= limit
}

/// A point or a displacement, in world units.
#[derive(Clone, Copy, Debug, PartialEq, Eq, Structural)]
pub struct Vec2 {
    pub x: i64,
    pub y: i64,
}

impl Vec2 {
    pub fn new(x: i64, y: i64) -> (r: Vec2)
        ensures
            r.x == x,
            r.y == y,
    {
        Vec2 { x, y }
    }

    pub open spec fn within(self, limit: int) -> bool {
        within(self.x as int, limit) && within(self.y as int, limit)
    }
}

/// An axis-aligned rectangle given by its lower-left and upper-right corners.
#[derive(Clone, Copy, Debug, PartialEq, Eq, Structural)]
pub struct Rect {
    pub min: Vec2,
    pub max: Vec2,
}

impl Rect {
    pub open spec fn wf(self) -> bool {
        &&& self.min.within(COORD_LIMIT as int)
        &&& self.max.within(COORD_LIMIT as int)
        &&& self.min.x <= self.max.x
        &&& self.min.y <= self.max.y
    }

    pub fn new(min: Vec2, max: Vec2) -> (r: Rect)
        ensures
            r.min == min,
            r.max == max,
    {
        Rect { min, max }
    }

    /// The rectangle centred on `center` that reaches `half` from it on each axis.
    pub fn from_center(center: Vec2, half: Vec2) -> (r: Rect)
        requires
            center.within(COORD_LIMIT as int),
            half.within(COORD_LIMIT as int),
        ensures
            r.min.x == center.x - half.x,
            r.min.y == center.y - half.y,
            r.max.x == center.x + half.x,
            r.max.y == center.y + half.y,
    {
        Rect {
            min: Vec2 { x: center.x - half.x, y: center.y - half.y },
            max: Vec2 { x: center.x + half.x, y: center.y + half.y },
        }
    }

    /// Whether the point lies in the closed rectangle.
    pub fn contains(&self, p: Vec2) -> (r: bool)
        ensures
            r == (self.min.x <= p.x <= self.max.x && self.min.y <= p.y <= self.max.y),
    {
        self.min.x <= p.x && p.x <= self.max.x && self.min.y <= p.y && p.y <= self.max.y
    }
}

/// The side of a rectangle that the ball struck.
#[derive(Clone, Copy, Debug, PartialEq, Eq, Structural)]
pub enum Collision {
    Left,
    Right,
    Top,
    Bottom,
}

/// A circle: the ball's body.
#[derive(Clone, Copy, Debug, PartialEq, Eq, Structural)]
pub struct Circle {
    pub center: Vec2,
    pub radius: i64,
}

impl Circle {
    pub open spec fn wf(self) -> bool {
        &&& self.center.within(BALL_LIMIT as int)
        &&& 0 <= self.radius <= COORD_LIMIT
    }
}

pub open spec fn clamp_spec(v: int, lo: int, hi: int) -> int {
    if v < lo {
        lo
    } else if v > hi {
        hi
    } else {
        v
    }
}

/// The point of the rectangle nearest to `p`.
pub open spec fn closest_point_spec(r: Rect, p: Vec2) -> (int, int) {
    (clamp_spec(p.x as int, r.min.x as int, r.max.x as int), clamp_spec(
        p.y as int,
        r.min.y as int,
        r.max.y as int,
    ))
}

/// The offset from the rectangle's nearest point to `p`.
pub open spec fn offset_spec(r: Rect, p: Vec2) -> (int, int) {
    let c = closest_point_spec(r, p);
    (p.x - c.0, p.y - c.1)
}

/// The circle touches or overlaps the rectangle: the nearest point is no farther than the radius.
pub open spec fn hits(c: Circle, r: Rect) -> bool {
    let o = offset_spec(r, c.center);
    o.0 * o.0 + o.1 * o.1 <= c.radius * c.radius
}

/// The side of least penetration for a centre inside the rectangle: the edge nearest to it,
/// preferring left, right, top, bottom in that order on ties.
pub open spec fn nearest_edge(r: Rect, p: Vec2) -> Collision {
    let l = p.x - r.min.x;
    let rt = r.max.x - p.x;
    let b = p.y - r.min.y;
    let t = r.max.y - p.y;
    if l <= rt && l <= b && l <= t {
        Collision::Left
    } else if rt <= b && rt <= t {
        Collision::Right
    } else if t <= b {
        Collision::Top
    } else {
        Collision::Bottom
    }
}

/// The side struck. With the centre outside the rectangle: the axis of the larger offset, and
/// on it the direction of the offset. With the centre inside: the edge of least penetration.
pub open spec fn side_spec(c: Circle, r: Rect) -> Collision {
    let o = offset_spec(r, c.center);
    if o.0 == 0 && o.1 == 0 {
        nearest_edge(r, c.center)
    } else if abs(o.0) > abs(o.1) {
        if o.0 < 0 {
            Collision::Left
        } else {
            Collision::Right
        }
    } else if o.1 > 0 {
        Collision::Top
    } else {
        Collision::Bottom
    }
}

/// The ball moved along the struck axis until it lies one unit clear of the rectangle.
pub open spec fn pushed_out(c: Circle, r: Rect, side: Collision) -> Circle {
    let p = c.center;
    let center = match side {
        Collision::Left => Vec2 { x: (r.min.x - c.radius - 1) as i64, y: p.y },
        Collision::Right => Vec2 { x: (r.max.x + c.radius + 1) as i64, y: p.y },
        Collision::Top => Vec2 { x: p.x, y: (r.max.y + c.radius + 1) as i64 },
        Collision::Bottom => Vec2 { x: p.x, y: (r.min.y - c.radius - 1) as i64 },
    };
    Circle { center, radius: c.radius }
}

/// A vertical edge negates the x-component, a horizontal edge the y-component.
pub open spec fn reflect_spec(v: Vec2, side: Collision) -> Vec2 {
    match side {
        Collision::Left | Collision::Right => Vec2 { x: -v.x as i64, y: v.y },
        Collision::Top | Collision::Bottom => Vec2 { x: v.x, y: -v.y as i64 },
    }
}

pub fn clamp(v: i64, lo: i64, hi: i64) -> (r: i64)
    requires
        lo <= hi,
    ensures
        r == clamp_spec(v as int, lo as int, hi as int),
        lo <= r <= hi,
{
    if v < lo {
        lo
    } else if v > hi {
        hi
    } else {
        v
    }
}

pub fn closest_point(r: &Rect, p: Vec2) -> (q: Vec2)
    requires
        r.wf(),
    ensures
        (q.x as int, q.y as int) == closest_point_spec(*r, p),
        r.min.x <= q.x <= r.max.x,
        r.min.y <= q.y <= r.max.y,
{
    Vec2 { x: clamp(p.x, r.min.x, r.max.x), y: clamp(p.y, r.min.y, r.max.y) }
}

proof fn lemma_square_bound(a: int, b: int)
    requires
        -b <= a <= b,
    ensures
        0 <= a * a <= b * b,
{
    assert(0 <= a * a <= b * b) by (nonlinear_arith)
        requires
            -b <= a <= b,
    ;
}

/// The side of `r` that the circle strikes, or `None` where they do not meet.
pub fn collide_with_side(c: &Circle, r: &Rect) -> (res: Option<Collision>)
    requires
        c.wf(),
        r.wf(),
    ensures
        res.is_some() == hits(*c, *r),
        res.is_some() ==> res.unwrap() == side_spec(*c, *r),
{
    let q = closest_point(r, c.center);
    let dx: i64 = c.center.x - q.x;
    let dy: i64 = c.center.y - q.y;
    proof {
        lemma_square_bound(dx as int, (BALL_LIMIT + COORD_LIMIT) as int);
        lemma_square_bound(dy as int, (BALL_LIMIT + COORD_LIMIT) as int);
        lemma_square_bound(c.radius as int, (BALL_LIMIT + COORD_LIMIT) as int);
    }
    if dx * dx + dy * dy > c.radius * c.radius {
        return None;
    }
    let ax: i64 = if dx < 0 { -dx } else { dx };
    let ay: i64 = if dy < 0 { -dy } else { dy };
    let side = if dx == 0 && dy == 0 {
        let p = c.center;
        let l: i64 = p.x - r.min.x;
        let rt: i64 = r.max.x - p.x;
        let b: i64 = p.y - r.min.y;
        let t: i64 = r.max.y - p.y;
        if l <= rt && l <= b && l <= t {
            Collision::Left
        } else if rt <= b && rt <= t {
            Collision::Right
        } else if t <= b {
            Collision::Top
        } else {
            Collision::Bottom
        }
    } else if ax > ay {
        if dx < 0 {
            Collision::Left
        } else {
            Collision::Right
        }
    } else if dy > 0 {
        Collision::Top
    } else {
        Collision::Bottom
    };
    Some(side)
}

/// The ball moved clear of `r` through the side it struck.
pub fn push_out(c: &Circle, r: &Rect, side: Collision) -> (res: Circle)
    requires
        c.wf(),
        r.wf(),
    ensures
        res == pushed_out(*c, *r, side),
        res.wf(),
{
    let p = c.center;
    let center = match side {
        Collision::Left => Vec2 { x: r.min.x - c.radius - 1, y: p.y },
        Collision::Right => Vec2 { x: r.max.x + c.radius + 1, y: p.y },
        Collision::Top => Vec2 { x: p.x, y: r.max.y + c.radius + 1 },
        Collision::Bottom => Vec2 { x: p.x, y: r.min.y - c.radius - 1 },
    };
    Circle { center, radius: c.radius }
}

/// The velocity after a bounce off the given side.
pub fn reflect(v: Vec2, side: Collision) -> (r: Vec2)
    requires
        v.within(COORD_LIMIT as int),
    ensures
        r == reflect_spec(v, side),
        r.within(COORD_LIMIT as int),
{
    match side {
        Collision::Left | Collision::Right => Vec2 { x: -v.x, y: v.y },
        Collision::Top | Collision::Bottom => Vec2 { x: v.x, y: -v.y },
    }
}

/// A bounce negates exactly one component, chosen by the side struck, and keeps the speed.
pub proof fn lemma_reflection(v: Vec2, side: Collision)
    requires
        v.within(COORD_LIMIT as int),
    ensures
        (side == Collision::Left || side == Collision::Right) ==> reflect_spec(v, side).x == -v.x
            && reflect_spec(v, side).y == v.y,
        (side == Collision::Top || side == Collision::Bottom) ==> reflect_spec(v, side).y == -v.y
            && reflect_spec(v, side).x == v.x,
        ({
            let w = reflect_spec(v, side);
            w.x * w.x + w.y * w.y == v.x * v.x + v.y * v.y
        }),
{
    let w = reflect_spec(v, side);
    assert((-v.x) * (-v.x) == v.x * v.x) by (nonlinear_arith);
    assert((-v.y) * (-v.y) == v.y * v.y) by (nonlinear_arith);
}

/// Once pushed out through the side it struck, the ball no longer touches the rectangle.
pub proof fn lemma_pushed_out_clear(c: Circle, r: Rect)
    requires
        c.wf(),
        r.wf(),
    ensures
        !hits(pushed_out(c, r, side_spec(c, r)), r),
{
    let d = pushed_out(c, r, side_spec(c, r));
    let o = offset_spec(r, d.center);
    let k = c.radius + 1;
    assert(o.0 * o.0 >= 0) by (nonlinear_arith);
    assert(o.1 * o.1 >= 0) by (nonlinear_arith);
    assert(k * k > c.radius * c.radius) by (nonlinear_arith)
        requires
            k == c.radius + 1,
            c.radius >= 0,
    ;
    match side_spec(c, r) {
        Collision::Left | Collision::Right => {
            assert(o.0 == k || o.0 == -k);
            assert(o.0 * o.0 == k * k) by (nonlinear_arith)
                requires
                    o.0 == k || o.0 == -k,
            ;
        },
        _ => {
            assert(o.1 == k || o.1 == -k);
            assert(o.1 * o.1 == k * k) by (nonlinear_arith)
                requires
                    o.1 == k || o.1 == -k,
            ;
        },
    }
}

/// The integer square root: the largest `m` with `m * m <= n`.
pub fn isqrt(n: u128) -> (m: u128)
    requires
        n < 0x1_0000_0000_0000_0000_0000_0000_0000,
    ensures
        m * m <= n < (m + 1) * (m + 1),
{
    let mut lo: u128 = 0;
    let mut hi: u128 = 0x1_0000_0000_0000_0000;
    assert(n < hi * hi) by (nonlinear_arith)
        requires
            n < 0x1_0000_0000_0000_0000_0000_0000_0000,
            hi == 0x1_0000_0000_0000_0000,
    ;
    while lo + 1 < hi
        invariant
            lo < hi <= 0x1_0000_0000_0000_0000,
            lo * lo <= n < hi * hi,
        decreases hi - lo,
    {
        let mid: u128 = lo + (hi - lo) / 2;
        assert(mid * mid <= 0xFFFF_FFFF_FFFF_FFFF * 0xFFFF_FFFF_FFFF_FFFF) by (nonlinear_arith)
            requires
                mid <= 0xFFFF_FFFF_FFFF_FFFF,
        ;
        if mid * mid <= n {
            lo = mid;
        } else {
            hi = mid;
        }
    }
    lo
}

/// `m` is the length of the component `d` of a direction whose squared length is `n`,
/// scaled to `speed` and rounded towards zero.
pub open spec fn is_scaled_component(m: int, d: int, n: int, speed: int) -> bool {
    &&& 0 <= m
    &&& m * m * n <= d * d * speed * speed
    &&& d * d * speed * speed < (m + 1) * (m + 1) * n
}

/// `v` points along `d` with length `speed`, each component rounded towards zero.
pub open spec fn is_scaled_direction(v: Vec2, d: Vec2, speed: int) -> bool {
    let n = d.x * d.x + d.y * d.y;
    &&& is_scaled_component(abs(v.x as int) as int, d.x as int, n, speed)
    &&& is_scaled_component(abs(v.y as int) as int, d.y as int, n, speed)
    &&& (v.x < 0 ==> d.x < 0) && (v.x > 0 ==> d.x > 0)
    &&& (v.y < 0 ==> d.y < 0) && (v.y > 0 ==> d.y > 0)
}

/// The direction `d` scaled to length `speed`, each component rounded towards zero.
/// `None` for the zero vector, which has no direction.
pub fn scaled_direction(d: Vec2, speed: i64) -> (r: Option<Vec2>)
    requires
        d.within(COORD_LIMIT as int),
        0 <= speed <= COORD_LIMIT,
    ensures
        r.is_none() <==> (d.x == 0 && d.y == 0),
        r.is_some() ==> is_scaled_direction(r.unwrap(), d, speed as int),
        r.is_some() ==> r.unwrap().within(COORD_LIMIT as int),
{
    if d.x == 0 && d.y == 0 {
        return None;
    }
    let mx = scaled_component(d.x, d.y, speed);
    let my = scaled_component(d.y, d.x, speed);
    let x: i64 = if d.x < 0 { -mx } else { mx };
    let y: i64 = if d.y < 0 { -my } else { my };
    proof {
        assert(d.x * d.x + d.y * d.y == d.y * d.y + d.x * d.x);
        assert(abs(x as int) == mx);
        assert(abs(y as int) == my);
        let n = d.x * d.x + d.y * d.y;
        assert(is_scaled_component(mx as int, d.x as int, n, speed as int));
        assert(is_scaled_component(my as int, d.y as int, n, speed as int));
    }
    Some(Vec2 { x, y })
}

/// The magnitude of component `a` of the direction `(a, b)` scaled to `speed`.
fn scaled_component(a: i64, b: i64, speed: i64) -> (m: i64)
    requires
        within(a as int, COORD_LIMIT as int),
        within(b as int, COORD_LIMIT as int),
        a != 0 || b != 0,
        0 <= speed <= COORD_LIMIT,
    ensures
        is_scaled_component(m as int, a as int, a * a + b * b, speed as int),
        m <= speed,
        a == 0 ==> m == 0,
{
    let ua: u128 = if a < 0 { (-a) as u128 } else { a as u128 };
    let ub: u128 = if b < 0 { (-b) as u128 } else { b as u128 };
    let us: u128 = speed as u128;
    let lim: u128 = 268_435_456;
    assert(ua * ua <= lim * lim && ub * ub <= lim * lim && us * us <= lim * lim) by (nonlinear_arith)
        requires
            ua <= lim,
            ub <= lim,
            us <= lim,
    ;
    let a2: u128 = ua * ua;
    let b2: u128 = ub * ub;
    let s2: u128 = us * us;
    let n: u128 = a2 + b2;
    assert(a2 * s2 <= (lim * lim) * (lim * lim)) by (nonlinear_arith)
        requires
            a2 <= lim * lim,
            s2 <= lim * lim,
    ;
    let num: u128 = a2 * s2;
    assert(n > 0) by (nonlinear_arith)
        requires
            n == ua * ua + ub * ub,
            ua != 0 || ub != 0,
    ;
    let q: u128 = num / n;
    assert(a2 <= n);
    assert(q <= s2) by (nonlinear_arith)
        requires
            q == num / n,
            num == a2 * s2,
            a2 <= n,
            n > 0,
    ;
    let m: u128 = isqrt(q);
    assert(m <= us) by (nonlinear_arith)
        requires
            m * m <= q,
            q <= us * us,
    ;
    proof {
        let ai = a as int;
        let bi = b as int;
        let si = speed as int;
        assert(ua * ua == ai * ai) by (nonlinear_arith)
            requires
                ua == ai || ua == -ai,
        ;
        assert(ub * ub == bi * bi) by (nonlinear_arith)
            requires
                ub == bi || ub == -bi,
        ;
        assert(num == ai * ai * si * si) by (nonlinear_arith)
            requires
                num == a2 * s2,
                a2 == ai * ai,
                s2 == si * si,
        ;
        assert(m * m * n <= num) by (nonlinear_arith)
            requires
                m * m <= q,
                q == num / n,
                n > 0,
        ;
        assert(num < (m + 1) * (m + 1) * n) by (nonlinear_arith)
            requires
                q < (m + 1) * (m + 1),
                q == num / n,
                n > 0,
        ;
        if a == 0 {
            assert(num == 0);
            assert(m == 0) by (nonlinear_arith)
                requires
                    m * m * n <= 0,
                    n > 0,
            ;
        }
    }
    m as i64
}

} // verus!
