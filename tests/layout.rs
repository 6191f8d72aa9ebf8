use breakout::geometry::Vec2;
use breakout::layout::{
    compute_layout, update_brick_size_based_on_window_size, ArenaBounds, Gaps, LayoutError,
};

fn pixel_bounds() -> ArenaBounds {
    ArenaBounds { left_wall: -450, right_wall: 450, bottom_wall: -300, top_wall: 300 }
}

fn pixel_gaps() -> Gaps {
    Gaps { ceiling: 20, sides: 10, paddle_to_bricks: 270, between_bricks: 5 }
}

#[test]
fn standard_layout_is_centred_and_disjoint() {
    let b = pixel_bounds();
    let l = compute_layout(b, -240, pixel_gaps(), 10, 10).unwrap();
    assert_eq!(l.brick_size, Vec2::new(83, 20));
    assert_eq!(l.n_columns, 10);
    assert_eq!(l.n_rows, 10);
    assert_eq!(l.origin, Vec2::new(-438, 30));
    let bricks = l.bricks(b);
    assert_eq!(bricks.len(), 100);
    let first = bricks[0];
    let last_in_row = bricks[9];
    let left_margin = first.min.x - b.left_wall;
    let right_margin = b.right_wall - last_in_row.max.x;
    assert_eq!(left_margin, 12);
    assert_eq!(right_margin, 13);
    assert!((right_margin - left_margin).abs() <= 5);
    for i in 0..bricks.len() {
        let a = bricks[i];
        assert!(a.max.x > a.min.x && a.max.y > a.min.y);
        for j in 0..bricks.len() {
            if i != j {
                let c = bricks[j];
                assert!(
                    a.max.x <= c.min.x || c.max.x <= a.min.x || a.max.y <= c.min.y || c.max.y <= a.min.y
                );
            }
        }
    }
    assert_eq!(bricks[1].min.x - bricks[0].max.x, 5);
    assert_eq!(bricks[10].min.y - bricks[0].max.y, 5);
    assert!(bricks[99].max.y <= 300 - 20);
}

#[test]
fn layout_floor_recomputes_columns() {
    // 10 units over a target of 4: a share of 2 per brick, bricks of 1, and 10 / 2 = 5 columns.
    let b = ArenaBounds { left_wall: 0, right_wall: 10, bottom_wall: 0, top_wall: 100 };
    let g = Gaps { ceiling: 0, sides: 0, paddle_to_bricks: 0, between_bricks: 1 };
    let l = compute_layout(b, 0, g, 4, 2).unwrap();
    assert_eq!(l.brick_size, Vec2::new(1, 49));
    assert_eq!(l.n_columns, 5);
    assert_eq!(l.n_rows, 2);
    // Block is 5 * 1 + 4 * 1 = 9 wide: margins 0 and 1.
    assert_eq!(l.origin, Vec2::new(0, 0));
    assert_eq!(l.bricks(b).len(), 10);
}

#[test]
fn layout_errors() {
    let b = pixel_bounds();
    let g = pixel_gaps();
    let wide = Gaps { sides: 450, ..g };
    assert_eq!(compute_layout(b, -240, wide, 10, 10), Err(LayoutError::NoWidth));
    assert_eq!(compute_layout(b, 20, g, 10, 10), Err(LayoutError::NoHeight));
    assert_eq!(compute_layout(b, -240, g, 0, 10), Err(LayoutError::NoColumns));
    assert_eq!(compute_layout(b, -240, g, 10, 0), Err(LayoutError::NoRows));
    assert_eq!(compute_layout(b, -240, g, 200, 10), Err(LayoutError::NoBrickSize));
    assert_eq!(compute_layout(b, -240, g, 10, 100), Err(LayoutError::NoBrickSize));
}

#[test]
fn bounds_from_window() {
    let b = ArenaBounds::from_window(900, 600);
    assert_eq!(b, pixel_bounds());
    let odd = ArenaBounds::from_window(901, 3);
    assert_eq!(odd, ArenaBounds { left_wall: -450, right_wall: 451, bottom_wall: -1, top_wall: 2 });
}

#[test]
fn resized_brick_size() {
    let b = pixel_bounds();
    let g = pixel_gaps();
    let size = update_brick_size_based_on_window_size(b, -240, g, 10, 10);
    assert_eq!(size, Some(Vec2::new(83, 20)));
    assert_eq!(size, Some(compute_layout(b, -240, g, 10, 10).unwrap().brick_size));
    let wider = ArenaBounds::from_window(1000, 800);
    assert_eq!(update_brick_size_based_on_window_size(wider, -340, g, 10, 10), Some(Vec2::new(93, 40)));
    assert_eq!(update_brick_size_based_on_window_size(b, -240, g, 0, 10), None);
    assert_eq!(update_brick_size_based_on_window_size(b, -240, g, 200, 10), None);
    assert_eq!(update_brick_size_based_on_window_size(b, 20, g, 10, 10), None);
}
