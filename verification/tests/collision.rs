use raycaster::collision::collide_circle_with_segment;
use raycaster::collision::collide_with_segments;
use raycaster::collision::closest_point_on_segment;
use raycaster::collision::slide_move;
use raycaster::collision::Segment;
use raycaster::fixed::Vec2;
use raycaster::fixed::SCALE;

fn v(x: i64, y: i64) -> Vec2 {
    Vec2 { x, y }
}

fn seg(ax: i64, ay: i64, bx: i64, by: i64) -> Segment {
    Segment {
        a: v(ax, ay),
        b: v(bx, by),
    }
}

#[test]
fn closest_point_before_start_returns_first_endpoint() {
    let r = closest_point_on_segment(v(-100, 500), v(0, 0), v(4096, 0));
    assert_eq!(r, v(0, 0));
}

#[test]
fn closest_point_past_end_returns_second_endpoint() {
    let r = closest_point_on_segment(v(5000, 9), v(0, 0), v(4096, 0));
    assert_eq!(r, v(4096, 0));
}

#[test]
fn closest_point_interior_is_the_foot_of_the_perpendicular() {
    let r = closest_point_on_segment(v(1000, 777), v(0, 0), v(4096, 0));
    assert_eq!(r, v(1000, 0));
}

#[test]
fn closest_point_interior_diagonal_is_perpendicular() {
    let p = v(1000, 0);
    let r = closest_point_on_segment(p, v(0, 0), v(1000, 1000));
    assert_eq!(r, v(500, 500));
    // The offset from the point to its projection is perpendicular to the
    // tangent: dot product exactly zero here.
    let dot = (p.x - r.x) * 1000 + (p.y - r.y) * 1000;
    assert_eq!(dot, 0);
}

#[test]
fn circle_exactly_radius_away_reports_no_collision() {
    let r = collide_circle_with_segment(v(2048, 256), 256, v(0, 0), v(4096, 0));
    assert!(r.is_none());
}

#[test]
fn circle_epsilon_closer_reports_depth_epsilon_and_unit_normal() {
    let r = collide_circle_with_segment(v(2048, 255), 256, v(0, 0), v(4096, 0)).unwrap();
    assert_eq!(r.depth, 1);
    assert_eq!(r.normal, v(0, SCALE));
}

#[test]
fn circle_center_on_segment_is_guarded_as_no_collision() {
    let r = collide_circle_with_segment(v(2048, 0), 256, v(0, 0), v(4096, 0));
    assert!(r.is_none());
}

#[test]
fn circle_far_away_reports_no_collision() {
    let r = collide_circle_with_segment(v(2048, 5000), 256, v(0, 0), v(4096, 0));
    assert!(r.is_none());
}

#[test]
fn deepest_penetration_wins_over_shallow_touch() {
    // The circle at (2048, 200) penetrates the wall y = 0 deeply (depth 56)
    // and barely touches the wall y = 455 (depth 1): the deep one is kept.
    let segments = vec![seg(0, 455, 4096, 455), seg(0, 0, 4096, 0)];
    let r = collide_with_segments(v(2048, 200), 256, &segments).unwrap();
    assert_eq!(r.depth, 56);
    assert_eq!(r.normal, v(0, SCALE));
}

#[test]
fn no_segments_means_no_collision() {
    let segments: Vec<Segment> = Vec::new();
    assert!(collide_with_segments(v(0, 0), 256, &segments).is_none());
}

#[test]
fn slide_into_flat_wall_rests_at_exactly_the_radius() {
    // Moving straight down into the wall y = 0 from above: the resolved
    // position keeps x and sits exactly one radius above the wall.
    let segments = vec![seg(0, 0, 4096, 0)];
    let p = slide_move(v(2048, 1000), 256, v(0, -900), &segments);
    assert_eq!(p, v(2048, 256));
}

#[test]
fn slide_without_contact_just_applies_the_velocity() {
    let segments: Vec<Segment> = Vec::new();
    let p = slide_move(v(9000, 9000), 256, v(10, 10), &segments);
    assert_eq!(p, v(9010, 9010));
}
