use chaos_game::fractal::{Fractal, DEFAULT_JUMP, START_X, START_Y};
use chaos_game::geometry::Point;
use chaos_game::ONE;

const PIXEL: i64 = 1_000_000;

fn triangle() -> Fractal {
    let mut f = Fractal::blank();
    f.add_vertex(Point(0, 0));
    f.add_vertex(Point(1_000 * PIXEL, 0));
    f.add_vertex(Point(500 * PIXEL, 1_000 * PIXEL));
    f
}

fn with_vertices(n: usize) -> Fractal {
    let mut f = Fractal::blank();
    for i in 0..n {
        f.add_vertex(Point(i as i64 * PIXEL, 0));
    }
    f
}

#[test]
fn blank_is_empty_with_defaults() {
    let f = Fractal::blank();
    assert!(f.vertices.is_empty());
    assert!(f.path.is_empty());
    assert_eq!(f.jump_size, 500_000);
    assert_eq!(f.jump_size, DEFAULT_JUMP);
    assert!(f.render_vertices);
    assert!(f.render_points);
}

#[test]
fn tracer_sets_out_at_500_500() {
    assert_eq!(START_X, 500 * PIXEL);
    assert_eq!(START_Y, 500 * PIXEL);
}

#[test]
fn add_vertex_appends_in_order() {
    let mut f = Fractal::blank();
    f.add_vertex(Point(1, 2));
    f.add_vertex(Point(3, 4));
    f.add_vertex(Point(1, 2));
    assert_eq!(f.vertices, vec![Point(1, 2), Point(3, 4), Point(1, 2)]);
    assert!(f.path.is_empty());
    assert_eq!(f.jump_size, DEFAULT_JUMP);
}

#[test]
fn set_optimal_jump_three_vertices() {
    let mut f = with_vertices(3);
    f.jump_size = 0;
    f.set_optimal_jump();
    assert_eq!(f.jump_size, 500_000);
}

#[test]
fn set_optimal_jump_five_vertices() {
    let mut f = with_vertices(5);
    f.set_optimal_jump();
    assert_eq!(f.jump_size, 625_000);
}

#[test]
fn set_optimal_jump_other_counts() {
    let mut none = Fractal::blank();
    none.set_optimal_jump();
    assert_eq!(none.jump_size, 0);
    let mut one = with_vertices(1);
    one.set_optimal_jump();
    assert_eq!(one.jump_size, 250_000);
    let mut four = with_vertices(4);
    four.set_optimal_jump();
    // 4 / 7 = 0.571428571...
    assert_eq!(four.jump_size, 571_429);
    let mut six = with_vertices(6);
    six.set_optimal_jump();
    // 6 / 9 = 0.666666...
    assert_eq!(six.jump_size, 666_667);
}

#[test]
fn set_optimal_jump_leaves_the_rest() {
    let mut f = triangle();
    f.gen_points_from(&[0, 1]);
    let path = f.path.clone();
    f.set_optimal_jump();
    assert_eq!(f.vertices.len(), 3);
    assert_eq!(f.path, path);
    assert!(f.render_vertices && f.render_points);
}

#[test]
fn add_jump_adds_a_hundredth() {
    let mut f = Fractal::blank();
    f.add_jump(10_000);
    assert_eq!(f.jump_size, 510_000);
    f.add_jump(-10_000);
    f.add_jump(-10_000);
    assert_eq!(f.jump_size, 490_000);
}

#[test]
fn add_jump_from_099_lands_on_one() {
    let mut f = Fractal::blank();
    f.jump_size = 990_000;
    f.add_jump(10_000);
    assert_eq!(f.jump_size, 1_000_000);
    f.add_jump(10_000);
    assert_eq!(f.jump_size, 1_000_000);
}

#[test]
fn add_jump_a_hundred_times_from_zero() {
    let mut f = Fractal::blank();
    f.jump_size = 0;
    for k in 1..=100 {
        f.add_jump(10_000);
        assert_eq!(f.jump_size, k * 10_000);
    }
    assert_eq!(f.jump_size, ONE);
}

#[test]
fn add_jump_stops_at_zero() {
    let mut f = Fractal::blank();
    f.jump_size = 10_000;
    f.add_jump(-10_000);
    assert_eq!(f.jump_size, 0);
    f.add_jump(-10_000);
    assert_eq!(f.jump_size, 0);
}

#[test]
fn add_jump_rounds_to_two_places() {
    let mut f = Fractal::blank();
    f.add_jump(4_999);
    assert_eq!(f.jump_size, 500_000);
    f.add_jump(5_000);
    assert_eq!(f.jump_size, 510_000);
    let mut g = Fractal::blank();
    g.jump_size = 625_000;
    g.add_jump(0);
    assert_eq!(g.jump_size, 630_000);
    g.jump_size = 571_429;
    g.add_jump(10_000);
    assert_eq!(g.jump_size, 580_000);
}

#[test]
fn add_jump_with_huge_changes() {
    let mut f = Fractal::blank();
    f.add_jump(i64::MAX);
    assert_eq!(f.jump_size, ONE);
    f.add_jump(i64::MIN);
    assert_eq!(f.jump_size, 0);
    f.jump_size = i64::MAX;
    f.add_jump(i64::MAX);
    assert_eq!(f.jump_size, ONE);
    f.jump_size = i64::MIN;
    f.add_jump(i64::MIN);
    assert_eq!(f.jump_size, 0);
}

#[test]
fn set_jump_rounds_and_constrains() {
    let mut f = Fractal::blank();
    f.set_jump(123_456);
    assert_eq!(f.jump_size, 120_000);
    f.set_jump(995_000);
    assert_eq!(f.jump_size, 1_000_000);
    f.set_jump(1_700_000);
    assert_eq!(f.jump_size, 1_000_000);
    f.set_jump(-3);
    assert_eq!(f.jump_size, 0);
    f.set_jump(-300_000);
    assert_eq!(f.jump_size, 0);
}

#[test]
fn constrain_jump_clamps() {
    let mut f = Fractal::blank();
    f.jump_size = 2_000_000;
    f.constrain_jump();
    assert_eq!(f.jump_size, 1_000_000);
    f.jump_size = -1;
    f.constrain_jump();
    assert_eq!(f.jump_size, 0);
    f.jump_size = 333_333;
    f.constrain_jump();
    assert_eq!(f.jump_size, 333_333);
    f.jump_size = 0;
    f.constrain_jump();
    assert_eq!(f.jump_size, 0);
    f.jump_size = ONE;
    f.constrain_jump();
    assert_eq!(f.jump_size, ONE);
}

#[test]
fn constrain_jump_twice_is_once() {
    for start in [i64::MIN, -1, 0, 1, 499_999, ONE, ONE + 1, i64::MAX] {
        let mut f = Fractal::blank();
        f.jump_size = start;
        f.constrain_jump();
        let once = f.jump_size;
        f.constrain_jump();
        assert_eq!(f.jump_size, once);
    }
}

#[test]
fn constrain_jump_after_add_jump_changes_nothing() {
    for change in [-2_000_000, -10_000, -1, 0, 1, 4_999, 5_000, 10_000, 777_777, 2_000_000] {
        let mut f = Fractal::blank();
        f.add_jump(change);
        let after = f.jump_size;
        assert!(0 <= after && after <= ONE);
        f.constrain_jump();
        assert_eq!(f.jump_size, after);
    }
}

#[test]
fn gen_points_from_follows_the_choices() {
    let mut f = triangle();
    f.gen_points_from(&[0, 1, 2, 2]);
    let a = Point(0, 0);
    let b = Point(1_000 * PIXEL, 0);
    let c = Point(500 * PIXEL, 1_000 * PIXEL);
    assert_eq!(
        f.path,
        vec![
            (Point(250 * PIXEL, 250 * PIXEL), a),
            (Point(625 * PIXEL, 125 * PIXEL), b),
            (Point(562_500_000, 562_500_000), c),
            (Point(531_250_000, 781_250_000), c),
        ]
    );
}

#[test]
fn gen_points_from_uses_the_jump_ratio() {
    let mut f = triangle();
    f.jump_size = ONE;
    f.gen_points_from(&[2, 0, 1]);
    let targets: Vec<Point> = f.path.iter().map(|s| s.1).collect();
    let places: Vec<Point> = f.path.iter().map(|s| s.0).collect();
    assert_eq!(targets, places);
    f.jump_size = 0;
    f.gen_points_from(&[2, 0, 1]);
    for step in &f.path {
        assert_eq!(step.0, Point(START_X, START_Y));
    }
    f.jump_size = 250_000;
    f.gen_points_from(&[1]);
    assert_eq!(f.path, vec![(Point(625 * PIXEL, 375 * PIXEL), Point(1_000 * PIXEL, 0))]);
}

#[test]
fn gen_points_from_no_choices_clears_the_path() {
    let mut f = triangle();
    f.gen_points_from(&[0, 0]);
    assert_eq!(f.path.len(), 2);
    f.gen_points_from(&[]);
    assert!(f.path.is_empty());
    assert_eq!(f.vertices.len(), 3);
}

#[test]
fn gen_points_has_the_asked_length() {
    let mut f = triangle();
    f.gen_points(1_000);
    assert_eq!(f.path.len(), 1_000);
    f.gen_points(7);
    assert_eq!(f.path.len(), 7);
    f.gen_points(0);
    assert!(f.path.is_empty());
}

#[test]
fn gen_points_targets_are_vertices() {
    let mut f = triangle();
    f.gen_points(2_000);
    for step in &f.path {
        assert!(f.vertices.contains(&step.1));
    }
}

#[test]
fn gen_points_every_step_is_a_jump_from_the_last() {
    let mut f = triangle();
    f.jump_size = 400_000;
    f.gen_points(500);
    let mut tracer = Point(START_X, START_Y);
    for step in &f.path {
        tracer.jump(step.1, f.jump_size);
        assert_eq!(step.0, tracer);
    }
}

#[test]
fn gen_points_draws_every_vertex() {
    let mut f = triangle();
    f.gen_points(3_000);
    for v in &f.vertices {
        assert!(f.path.iter().any(|step| step.1 == *v));
    }
}

#[test]
fn gen_points_with_one_vertex_runs_towards_it() {
    let mut f = Fractal::blank();
    f.add_vertex(Point(0, 0));
    f.gen_points(3);
    assert_eq!(
        f.path,
        vec![
            (Point(250 * PIXEL, 250 * PIXEL), Point(0, 0)),
            (Point(125 * PIXEL, 125 * PIXEL), Point(0, 0)),
            (Point(62_500_000, 62_500_000), Point(0, 0)),
        ]
    );
}

#[test]
fn gen_points_leaves_vertices_and_ratio() {
    let mut f = triangle();
    f.jump_size = 330_000;
    f.swap_render_points();
    let vertices = f.vertices.clone();
    f.gen_points(10);
    assert_eq!(f.vertices, vertices);
    assert_eq!(f.jump_size, 330_000);
    assert!(f.render_vertices);
    assert!(!f.render_points);
}

#[test]
fn gen_points_of_no_steps_needs_no_vertex() {
    let mut f = Fractal::blank();
    f.gen_points(0);
    assert!(f.path.is_empty());
}

#[test]
fn swap_render_vertices_inverts() {
    let mut f = Fractal::blank();
    f.swap_render_vertices();
    assert!(!f.render_vertices);
    assert!(f.render_points);
    f.swap_render_vertices();
    assert!(f.render_vertices);
}

#[test]
fn swap_render_points_inverts() {
    let mut f = Fractal::blank();
    f.swap_render_points();
    assert!(!f.render_points);
    assert!(f.render_vertices);
    f.swap_render_points();
    assert!(f.render_points);
}

#[test]
fn filter_dist_removes_what_is_near() {
    let mut f = Fractal::blank();
    let far_left = Point(-100 * PIXEL, 0);
    let near = Point(3 * PIXEL, 4 * PIXEL);
    let far_up = Point(0, 26 * PIXEL);
    let here = Point(0, 0);
    let far_right = Point(30 * PIXEL, 40 * PIXEL);
    for v in [far_left, near, far_up, here, far_right] {
        f.add_vertex(v);
    }
    f.filter_dist(Point(0, 0), 25 * PIXEL);
    assert_eq!(f.vertices, vec![far_left, far_up, far_right]);
    for v in &f.vertices {
        assert!(Point(0, 0).dist(*v) > 25 * PIXEL);
    }
}

#[test]
fn filter_dist_removes_at_exactly_the_distance() {
    let mut f = Fractal::blank();
    f.add_vertex(Point(25 * PIXEL, 0));
    f.add_vertex(Point(25 * PIXEL + 1, 0));
    f.add_vertex(Point(15 * PIXEL, 20 * PIXEL));
    f.add_vertex(Point(15 * PIXEL, 20 * PIXEL + 1));
    f.filter_dist(Point(0, 0), 25 * PIXEL);
    assert_eq!(f.vertices, vec![Point(25 * PIXEL + 1, 0), Point(15 * PIXEL, 20 * PIXEL + 1)]);
}

#[test]
fn filter_dist_keeps_duplicates_and_order() {
    let mut f = Fractal::blank();
    let a = Point(90 * PIXEL, 0);
    let b = Point(0, 90 * PIXEL);
    for v in [b, a, Point(1, 1), a, b, b] {
        f.add_vertex(v);
    }
    f.filter_dist(Point(0, 0), PIXEL);
    assert_eq!(f.vertices, vec![b, a, a, b, b]);
}

#[test]
fn filter_dist_with_a_negative_distance_keeps_all() {
    let mut f = triangle();
    f.add_vertex(Point(5, 5));
    f.filter_dist(Point(5, 5), -1);
    assert_eq!(f.vertices.len(), 4);
    f.filter_dist(Point(5, 5), 0);
    assert_eq!(f.vertices.len(), 3);
}

#[test]
fn filter_dist_with_the_largest_distance_removes_all() {
    let mut f = triangle();
    f.add_vertex(Point(i64::MIN, i64::MIN));
    f.filter_dist(Point(i64::MAX, i64::MAX), i64::MAX);
    assert!(f.vertices.is_empty());
}

#[test]
fn filter_dist_leaves_path_and_ratio() {
    let mut f = triangle();
    f.gen_points_from(&[0, 1, 2]);
    let path = f.path.clone();
    f.filter_dist(Point(0, 0), 2_000 * PIXEL);
    assert!(f.vertices.is_empty());
    assert_eq!(f.path, path);
    assert_eq!(f.jump_size, DEFAULT_JUMP);
}

#[test]
fn clone_copies_the_fractal() {
    let mut f = triangle();
    f.gen_points_from(&[1]);
    let g = f.clone();
    f.add_vertex(Point(9, 9));
    assert_eq!(g.vertices.len(), 3);
    assert_eq!(g.path, vec![(Point(750 * PIXEL, 250 * PIXEL), Point(1_000 * PIXEL, 0))]);
}

#[test]
fn gen_points_from_the_same_choices_gives_the_same_path() {
    let choices = [2, 2, 0, 1, 0, 0, 1, 2, 1, 1];
    let mut f = triangle();
    f.jump_size = 617_000;
    f.gen_points_from(&choices);
    let mut g = triangle();
    g.jump_size = 617_000;
    g.gen_points(3);
    g.gen_points_from(&choices);
    assert_eq!(f.path, g.path);
    assert_eq!(f.path.len(), 10);
}

#[test]
fn walk_stays_between_the_start_and_the_vertices() {
    let mut f = triangle();
    for ratio in [0, 1, 333_333, 500_000, 999_999, ONE] {
        f.jump_size = ratio;
        f.gen_points(400);
        for step in &f.path {
            assert!(0 <= step.0 .0 && step.0 .0 <= 1_000 * PIXEL);
            assert!(0 <= step.0 .1 && step.0 .1 <= 1_000 * PIXEL);
        }
    }
}

#[test]
fn walk_with_a_ratio_beyond_one_overshoots() {
    let mut f = Fractal::blank();
    f.add_vertex(Point(0, 0));
    f.jump_size = 3 * ONE;
    f.gen_points_from(&[0, 0]);
    assert_eq!(
        f.path,
        vec![
            (Point(-1_000 * PIXEL, -1_000 * PIXEL), Point(0, 0)),
            (Point(2_000 * PIXEL, 2_000 * PIXEL), Point(0, 0)),
        ]
    );
}
