use vstd::arithmetic::div_mod::lemma_fundamental_div_mod_converse;
use vstd::prelude::*;

use crate::geometry::{Rect, Vec2};

verus! {

/// Largest magnitude of an arena edge, a gap or the paddle's height.
pub const ARENA_LIMIT: i64 = 67_108_864;

pub open spec fn in_arena_range(v: int) -> bool {
    -ARENA_LIMIT <= v <= ARENA_LIMIT
}

/// The four edges of the play area.
#[derive(Clone, Copy, Debug, PartialEq, Eq, Structural)]
pub struct ArenaBounds {
    pub left_wall: i64,
    pub right_wall: i64,
    pub bottom_wall: i64,
    pub top_wall: i64,
}

impl ArenaBounds {
    pub open spec fn wf(self) -> bool {
        &&& in_arena_range(self.left_wall as int)
        &&& in_arena_range(self.right_wall as int)
        &&& in_arena_range(self.bottom_wall as int)
        &&& in_arena_range(self.top_wall as int)
        &&& self.left_wall < self.right_wall
        &&& self.bottom_wall < self.top_wall
    }

    pub open spec fn from_window_spec(width: int, height: int) -> ArenaBounds {
        ArenaBounds {
            left_wall: (-(width / 2)) as i64,
            right_wall: (width - width / 2) as i64,
            bottom_wall: (-(height / 2)) as i64,
            top_wall: (height - height / 2) as i64,
        }
    }

    /// The arena of a window of the given size, centred on the origin.
    /// An odd size leaves the extra unit on the right or at the top.
    pub fn from_window(width: i64, height: i64) -> (r: ArenaBounds)
        requires
            1 <= width <= ARENA_LIMIT,
            1 <= height <= ARENA_LIMIT,
        ensures
            r == Self::from_window_spec(width as int, height as int),
            r.wf(),
            r.right_wall - r.left_wall == width,
            r.top_wall - r.bottom_wall == height,
    {
        ArenaBounds {
            left_wall: -(width / 2),
            right_wall: width - width / 2,
            bottom_wall: -(height / 2),
            top_wall: height - height / 2,
        }
    }
}

/// The fixed spacing around and between the bricks.
#[derive(Clone, Copy, Debug, PartialEq, Eq, Structural)]
pub struct Gaps {
    pub ceiling: i64,
    pub sides: i64,
    pub paddle_to_bricks: i64,
    pub between_bricks: i64,
}

impl Gaps {
    pub open spec fn wf(self) -> bool {
        &&& 0 <= self.ceiling <= ARENA_LIMIT
        &&& 0 <= self.sides <= ARENA_LIMIT
        &&& 0 <= self.paddle_to_bricks <= ARENA_LIMIT
        &&& 0 <= self.between_bricks <= ARENA_LIMIT
    }
}

/// Why no bricks can be laid out.
#[derive(Clone, Copy, Debug, PartialEq, Eq, Structural)]
pub enum LayoutError {
    /// The arena is not wider than the two side gaps.
    NoWidth,
    /// No height is left between the paddle's gap and the ceiling's gap.
    NoHeight,
    /// The target grid has no columns.
    NoColumns,
    /// The target grid has no rows.
    NoRows,
    /// The space per brick is used up by the gap between bricks.
    NoBrickSize,
}

/// A grid of equal bricks: the lower-left corner of the first one, their size and their count.
#[derive(Clone, Copy, Debug, PartialEq, Eq, Structural)]
pub struct BrickLayout {
    pub origin: Vec2,
    pub brick_size: Vec2,
    pub gap: i64,
    pub n_columns: u64,
    pub n_rows: u64,
}

pub open spec fn total_width(b: ArenaBounds, g: Gaps) -> int {
    (b.right_wall - b.left_wall) - 2 * g.sides
}

pub open spec fn bottom_edge_of_bricks(paddle_y: int, g: Gaps) -> int {
    paddle_y + g.paddle_to_bricks
}

pub open spec fn total_height(b: ArenaBounds, paddle_y: int, g: Gaps) -> int {
    b.top_wall - bottom_edge_of_bricks(paddle_y, g) - g.ceiling
}

/// Width of `n` bricks of width `w` with a gap `gap` between neighbours.
pub open spec fn block_span(n: int, w: int, gap: int) -> int {
    n * w + (n - 1) * gap
}

/// The layout: a brick size that fits the target grid, then as many bricks of that size as
/// the space holds, the block centred horizontally and resting on the paddle's gap.
pub open spec fn layout_spec(
    b: ArenaBounds,
    paddle_y: int,
    g: Gaps,
    target_columns: int,
    target_rows: int,
) -> Result<BrickLayout, LayoutError> {
    let tw = total_width(b, g);
    let th = total_height(b, paddle_y, g);
    if tw <= 0 {
        Err(LayoutError::NoWidth)
    } else if th <= 0 {
        Err(LayoutError::NoHeight)
    } else if target_columns == 0 {
        Err(LayoutError::NoColumns)
    } else if target_rows == 0 {
        Err(LayoutError::NoRows)
    } else {
        let bw = tw / target_columns - g.between_bricks;
        let bh = th / target_rows - g.between_bricks;
        if bw <= 0 || bh <= 0 {
            Err(LayoutError::NoBrickSize)
        } else {
            let n_columns = tw / (bw + g.between_bricks);
            let n_rows = th / (bh + g.between_bricks);
            let width = b.right_wall - b.left_wall;
            let left = b.left_wall + (width - block_span(n_columns, bw, g.between_bricks as int))
                / 2;
            Ok(
                BrickLayout {
                    origin: Vec2 {
                        x: left as i64,
                        y: bottom_edge_of_bricks(paddle_y, g) as i64,
                    },
                    brick_size: Vec2 { x: bw as i64, y: bh as i64 },
                    gap: g.between_bricks,
                    n_columns: n_columns as u64,
                    n_rows: n_rows as u64,
                },
            )
        }
    }
}

impl BrickLayout {
    /// The brick in the given row (counted upwards) and column (counted rightwards).
    pub open spec fn brick_at(self, row: int, column: int) -> Rect {
        let x = self.origin.x + column * (self.brick_size.x + self.gap);
        let y = self.origin.y + row * (self.brick_size.y + self.gap);
        Rect {
            min: Vec2 { x: x as i64, y: y as i64 },
            max: Vec2 { x: (x + self.brick_size.x) as i64, y: (y + self.brick_size.y) as i64 },
        }
    }

    /// Every brick of the grid lies in `b`, and the counts are positive.
    pub open spec fn fits(self, b: ArenaBounds) -> bool {
        &&& b.wf()
        &&& self.brick_size.x > 0
        &&& self.brick_size.y > 0
        &&& 0 <= self.gap <= ARENA_LIMIT
        &&& self.n_columns >= 1
        &&& self.n_rows >= 1
        &&& b.left_wall <= self.origin.x
        &&& self.origin.x + block_span(
            self.n_columns as int,
            self.brick_size.x as int,
            self.gap as int,
        ) <= b.right_wall
        &&& -ARENA_LIMIT <= self.origin.y
        &&& self.origin.y + block_span(self.n_rows as int, self.brick_size.y as int, self.gap as int)
            <= b.top_wall
    }

    /// The bricks in row-major order, bottom row first.
    pub open spec fn rects(self) -> Seq<Rect> {
        Seq::new(
            (self.n_rows * self.n_columns) as nat,
            |i: int| self.brick_at(i / self.n_columns as int, i % self.n_columns as int),
        )
    }
}

/// Lays the bricks out in the arena `b` for a paddle at height `paddle_y`.
pub fn compute_layout(
    b: ArenaBounds,
    paddle_y: i64,
    g: Gaps,
    target_columns: u64,
    target_rows: u64,
) -> (r: Result<BrickLayout, LayoutError>)
    requires
        b.wf(),
        g.wf(),
        in_arena_range(paddle_y as int),
    ensures
        r == layout_spec(b, paddle_y as int, g, target_columns as int, target_rows as int),
        r is Ok ==> r->Ok_0.fits(b),
{
    let tw: i64 = (b.right_wall - b.left_wall) - 2 * g.sides;
    let bottom: i64 = paddle_y + g.paddle_to_bricks;
    let th: i64 = b.top_wall - bottom - g.ceiling;
    if tw <= 0 {
        return Err(LayoutError::NoWidth);
    }
    if th <= 0 {
        return Err(LayoutError::NoHeight);
    }
    if target_columns == 0 {
        return Err(LayoutError::NoColumns);
    }
    if target_rows == 0 {
        return Err(LayoutError::NoRows);
    }
    let per_column: i64 = ((tw as u64) / target_columns) as i64;
    let per_row: i64 = ((th as u64) / target_rows) as i64;
    let bw: i64 = per_column - g.between_bricks;
    let bh: i64 = per_row - g.between_bricks;
    if bw <= 0 || bh <= 0 {
        return Err(LayoutError::NoBrickSize);
    }
    let n_columns: i64 = tw / per_column;
    let n_rows: i64 = th / per_row;
    proof {
        lemma_fits_span(tw as int, per_column as int, n_columns as int, g.between_bricks as int);
        lemma_fits_span(th as int, per_row as int, n_rows as int, g.between_bricks as int);
    }
    let block: i64 = n_columns * bw + (n_columns - 1) * g.between_bricks;
    let width: i64 = b.right_wall - b.left_wall;
    let left: i64 = b.left_wall + (width - block) / 2;
    assert(0 <= (width - block) / 2 <= width - block);
    Ok(
        BrickLayout {
            origin: Vec2 { x: left, y: bottom },
            brick_size: Vec2 { x: bw, y: bh },
            gap: g.between_bricks,
            n_columns: n_columns as u64,
            n_rows: n_rows as u64,
        },
    )
}

/// With `per` the share of each brick and its gap, `total / per` of them fill at most `total`.
proof fn lemma_fits_span(total: int, per: int, n: int, gap: int)
    requires
        0 < per,
        0 <= gap < per,
        0 < total,
        n == total / per,
        per <= total,
    ensures
        1 <= n <= total,
        n * per <= total,
        block_span(n, per - gap, gap) == n * per - gap,
        0 <= n * (per - gap) <= total,
        0 <= (n - 1) * gap <= total,
{
    assert(n * per <= total && n >= 1 && n <= total) by (nonlinear_arith)
        requires
            n == total / per,
            0 < per <= total,
    ;
    assert(block_span(n, per - gap, gap) == n * per - gap) by (nonlinear_arith);
    assert(0 <= n * (per - gap) <= n * per) by (nonlinear_arith)
        requires
            n >= 1,
            0 <= gap < per,
    ;
    assert(0 <= (n - 1) * gap <= n * per) by (nonlinear_arith)
        requires
            n >= 1,
            0 <= gap < per,
    ;
}

impl BrickLayout {
    /// The rectangle of the brick in the given row and column.
    pub fn brick_rect(&self, b: ArenaBounds, row: u64, column: u64) -> (r: Rect)
        requires
            self.fits(b),
            row < self.n_rows,
            column < self.n_columns,
        ensures
            r == self.brick_at(row as int, column as int),
            r.wf(),
    {
        proof {
            lemma_cell_in_block(column as int, self.n_columns as int, self.brick_size.x as int, self.gap as int);
            lemma_cell_in_block(row as int, self.n_rows as int, self.brick_size.y as int, self.gap as int);
        }
        let sx: i64 = self.brick_size.x + self.gap;
        let sy: i64 = self.brick_size.y + self.gap;
        let x: i64 = self.origin.x + (column as i64) * sx;
        let y: i64 = self.origin.y + (row as i64) * sy;
        Rect {
            min: Vec2 { x, y },
            max: Vec2 { x: x + self.brick_size.x, y: y + self.brick_size.y },
        }
    }

    /// All bricks of the grid, in row-major order from the bottom row.
    pub fn bricks(&self, b: ArenaBounds) -> (r: Vec<Rect>)
        requires
            self.fits(b),
        ensures
            r@ == self.rects(),
            forall|i: int| 0 <= i < r@.len() ==> (#[trigger] r@[i]).wf(),
    {
        let mut v: Vec<Rect> = Vec::new();
        let cols = self.n_columns;
        let mut row: u64 = 0;
        while row < self.n_rows
            invariant
                self.fits(b),
                cols == self.n_columns,
                row <= self.n_rows,
                v@.len() == row * cols,
                forall|i: int|
                    0 <= i < v@.len() ==> #[trigger] v@[i] == self.brick_at(i / cols as int, i % cols as int),
                forall|i: int| 0 <= i < v@.len() ==> (#[trigger] v@[i]).wf(),
            decreases self.n_rows - row,
        {
            let mut column: u64 = 0;
            while column < cols
                invariant
                    self.fits(b),
                    cols == self.n_columns,
                    row < self.n_rows,
                    column <= cols,
                    v@.len() == row * cols + column,
                    forall|i: int|
                        0 <= i < v@.len() ==> #[trigger] v@[i] == self.brick_at(i / cols as int, i % cols as int),
                    forall|i: int| 0 <= i < v@.len() ==> (#[trigger] v@[i]).wf(),
                decreases cols - column,
            {
                let rect = self.brick_rect(b, row, column);
                proof {
                    lemma_fundamental_div_mod_converse(
                        (row * cols + column) as int,
                        cols as int,
                        row as int,
                        column as int,
                    );
                }
                v.push(rect);
                column = column + 1;
            }
            assert((row + 1) * cols == row * cols + cols) by (nonlinear_arith);
            row = row + 1;
        }
        assert(v@ =~= self.rects());
        v
    }
}

/// Cell `k` of `n` cells of width `w` with gaps `gap` starts at `k * (w + gap)` and ends
/// within the span of the block.
proof fn lemma_cell_in_block(k: int, n: int, w: int, gap: int)
    requires
        0 <= k < n,
        0 < w,
        0 <= gap,
    ensures
        0 <= k * (w + gap),
        k * (w + gap) + w <= block_span(n, w, gap),
        n <= block_span(n, w, gap),
        w <= block_span(n, w, gap),
{
    assert(n <= block_span(n, w, gap) && w <= block_span(n, w, gap)) by (nonlinear_arith)
        requires
            0 <= k < n,
            0 < w,
            0 <= gap,
    ;
    assert(0 <= k * (w + gap)) by (nonlinear_arith)
        requires
            0 <= k,
            0 < w,
            0 <= gap,
    ;
    assert(k * (w + gap) + w <= block_span(n, w, gap)) by (nonlinear_arith)
        requires
            0 <= k < n,
            0 < w,
            0 <= gap,
    ;
}

/// Two rectangles share no interior point.
pub open spec fn disjoint(a: Rect, b: Rect) -> bool {
    a.max.x <= b.min.x || b.max.x <= a.min.x || a.max.y <= b.min.y || b.max.y <= a.min.y
}

/// A successful layout has bricks of positive size, and its block is centred between the
/// walls: the right margin equals the left one or exceeds it by a single unit.
pub proof fn lemma_layout_centred(
    b: ArenaBounds,
    paddle_y: int,
    g: Gaps,
    target_columns: int,
    target_rows: int,
)
    requires
        b.wf(),
        g.wf(),
        in_arena_range(paddle_y),
        0 <= target_columns,
        0 <= target_rows,
        layout_spec(b, paddle_y, g, target_columns, target_rows) is Ok,
    ensures
        ({
            let l = layout_spec(b, paddle_y, g, target_columns, target_rows)->Ok_0;
            let left_margin = l.origin.x - b.left_wall;
            let right_margin = b.right_wall - (l.origin.x + block_span(
                l.n_columns as int,
                l.brick_size.x as int,
                l.gap as int,
            ));
            &&& l.brick_size.x > 0
            &&& l.brick_size.y > 0
            &&& left_margin >= g.sides
            &&& left_margin <= right_margin <= left_margin + 1
        }),
{
    let tw = total_width(b, g);
    let th = total_height(b, paddle_y, g);
    let l = layout_spec(b, paddle_y, g, target_columns, target_rows)->Ok_0;
    let per = tw / target_columns;
    assert(per <= tw) by (nonlinear_arith)
        requires
            per == tw / target_columns,
            target_columns >= 1,
            tw > 0,
    ;
    assert(th / target_rows <= th) by (nonlinear_arith)
        requires
            target_rows >= 1,
            th > 0,
    ;
    lemma_fits_span(tw, per, l.n_columns as int, g.between_bricks as int);
    lemma_fits_span(th, th / target_rows, l.n_rows as int, g.between_bricks as int);
    let width = b.right_wall - b.left_wall;
    let block = block_span(l.n_columns as int, l.brick_size.x as int, l.gap as int);
    assert(width - block >= 2 * g.sides);
    assert(l.origin.x == b.left_wall + (width - block) / 2);
}

/// Distinct bricks of a layout never overlap.
pub proof fn lemma_bricks_disjoint(l: BrickLayout, b: ArenaBounds, i: int, j: int)
    requires
        l.fits(b),
        0 <= i < l.rects().len(),
        0 <= j < l.rects().len(),
        i != j,
    ensures
        disjoint(l.rects()[i], l.rects()[j]),
{
    let n = l.n_columns as int;
    assert(0 < n);
    let (ri, ci) = (i / n, i % n);
    let (rj, cj) = (j / n, j % n);
    assert(ri < l.n_rows) by (nonlinear_arith)
        requires
            ri == i / n,
            0 <= i < l.n_rows * n,
            n > 0,
    ;
    assert(rj < l.n_rows) by (nonlinear_arith)
        requires
            rj == j / n,
            0 <= j < l.n_rows * n,
            n > 0,
    ;
    assert(i == n * ri + ci) by (nonlinear_arith)
        requires
            ri == i / n,
            ci == i % n,
            n > 0,
    ;
    assert(j == n * rj + cj) by (nonlinear_arith)
        requires
            rj == j / n,
            cj == j % n,
            n > 0,
    ;
    lemma_cell_in_block(ci, n, l.brick_size.x as int, l.gap as int);
    lemma_cell_in_block(cj, n, l.brick_size.x as int, l.gap as int);
    lemma_cell_in_block(ri, l.n_rows as int, l.brick_size.y as int, l.gap as int);
    lemma_cell_in_block(rj, l.n_rows as int, l.brick_size.y as int, l.gap as int);
    let sx = l.brick_size.x + l.gap;
    let sy = l.brick_size.y + l.gap;
    if ci != cj {
        if ci < cj {
            assert(ci * sx + sx <= cj * sx) by (nonlinear_arith)
                requires
                    ci < cj,
                    sx > 0,
            ;
        } else {
            assert(cj * sx + sx <= ci * sx) by (nonlinear_arith)
                requires
                    cj < ci,
                    sx > 0,
            ;
        }
    } else {
        assert(ri != rj);
        if ri < rj {
            assert(ri * sy + sy <= rj * sy) by (nonlinear_arith)
                requires
                    ri < rj,
                    sy > 0,
            ;
        } else {
            assert(rj * sy + sy <= ri * sy) by (nonlinear_arith)
                requires
                    rj < ri,
                    sy > 0,
            ;
        }
    }
}

/// A successful layout fits its arena; any two of its bricks are disjoint, and neighbours in a
/// row or a column stand one brick size plus one gap apart.
pub proof fn lemma_layout_bricks_disjoint(
    b: ArenaBounds,
    paddle_y: int,
    g: Gaps,
    target_columns: int,
    target_rows: int,
    i: int,
    j: int,
)
    requires
        b.wf(),
        g.wf(),
        in_arena_range(paddle_y),
        0 <= target_columns,
        0 <= target_rows,
        layout_spec(b, paddle_y, g, target_columns, target_rows) is Ok,
        0 <= i < layout_spec(b, paddle_y, g, target_columns, target_rows)->Ok_0.rects().len(),
        0 <= j < layout_spec(b, paddle_y, g, target_columns, target_rows)->Ok_0.rects().len(),
        i != j,
    ensures
        ({
            let l = layout_spec(b, paddle_y, g, target_columns, target_rows)->Ok_0;
            &&& l.fits(b)
            &&& disjoint(l.rects()[i], l.rects()[j])
            &&& l.gap == g.between_bricks
            &&& forall|row: int, col: int|
                0 <= row < l.n_rows && 0 <= col && col + 1 < l.n_columns ==> #[trigger] l.brick_at(
                    row,
                    col + 1,
                ).min.x - l.brick_at(row, col).min.x == l.brick_size.x + l.gap
            &&& forall|row: int, col: int|
                0 <= row && row + 1 < l.n_rows && 0 <= col < l.n_columns ==> #[trigger] l.brick_at(
                    row + 1,
                    col,
                ).min.y - l.brick_at(row, col).min.y == l.brick_size.y + l.gap
        }),
{
    let l = layout_spec(b, paddle_y, g, target_columns, target_rows)->Ok_0;
    lemma_layout_centred(b, paddle_y, g, target_columns, target_rows);
    let th = total_height(b, paddle_y, g);
    assert(th / target_rows <= th) by (nonlinear_arith)
        requires
            target_rows >= 1,
            th > 0,
    ;
    lemma_fits_span(th, th / target_rows, l.n_rows as int, g.between_bricks as int);
    assert(l.fits(b));
    lemma_bricks_disjoint(l, b, i, j);
    assert forall|row: int, col: int|
        0 <= row < l.n_rows && 0 <= col && col + 1 < l.n_columns implies #[trigger] l.brick_at(
            row,
            col + 1,
        ).min.x - l.brick_at(row, col).min.x == l.brick_size.x + l.gap by {
        lemma_cell_in_block(col, l.n_columns as int, l.brick_size.x as int, l.gap as int);
        lemma_cell_in_block(col + 1, l.n_columns as int, l.brick_size.x as int, l.gap as int);
        lemma_cell_in_block(row, l.n_rows as int, l.brick_size.y as int, l.gap as int);
        assert((col + 1) * (l.brick_size.x + l.gap) == col * (l.brick_size.x + l.gap)
            + l.brick_size.x + l.gap) by (nonlinear_arith);
    }
    assert forall|row: int, col: int|
        0 <= row && row + 1 < l.n_rows && 0 <= col < l.n_columns implies #[trigger] l.brick_at(
            row + 1,
            col,
        ).min.y - l.brick_at(row, col).min.y == l.brick_size.y + l.gap by {
        lemma_cell_in_block(row, l.n_rows as int, l.brick_size.y as int, l.gap as int);
        lemma_cell_in_block(row + 1, l.n_rows as int, l.brick_size.y as int, l.gap as int);
        lemma_cell_in_block(col, l.n_columns as int, l.brick_size.x as int, l.gap as int);
        assert((row + 1) * (l.brick_size.y + l.gap) == row * (l.brick_size.y + l.gap)
            + l.brick_size.y + l.gap) by (nonlinear_arith);
    }
}

/// The brick size of the layout for the arena `b` and a paddle at height `paddle_y`, or `None`
/// where no layout exists. It only computes the size: no brick is changed by it, and the
/// bricks of a running game keep their size when the arena is resized.
pub fn update_brick_size_based_on_window_size(
    b: ArenaBounds,
    paddle_y: i64,
    g: Gaps,
    target_columns: u64,
    target_rows: u64,
) -> (r: Option<Vec2>)
    requires
        b.wf(),
        g.wf(),
        in_arena_range(paddle_y as int),
    ensures
        r == match layout_spec(b, paddle_y as int, g, target_columns as int, target_rows as int) {
            Ok(l) => Some(l.brick_size),
            Err(_) => None::<Vec2>,
        },
{
    match compute_layout(b, paddle_y, g, target_columns, target_rows) {
        Ok(l) => Some(l.brick_size),
        Err(_) => None,
    }
}

} // verus!
