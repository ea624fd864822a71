use lsystem::engine::LSystem;
use lsystem::geom2d::Bearing2D;
use lsystem::geom2d::PlantDrawer2D;
use lsystem::geom2d::Position2D;
use lsystem::geom2d::Turtle2D;
use lsystem::geom3d::Bearing3D;
use lsystem::geom3d::PlantDrawer3D;
use lsystem::geom3d::Position3D;
use lsystem::geom3d::Turtle3D;
use lsystem::rng::RandomSource;
use lsystem::rules::MapRules;
use lsystem::rules::str_chars;
use lsystem::trig::cos_scaled;
use lsystem::trig::sin_scaled;

#[test]
fn fixed_point_sine_and_cosine_hit_exact_values() {
    assert_eq!(sin_scaled(0), 0);
    assert_eq!(sin_scaled(30), 5_000);
    assert_eq!(sin_scaled(90), 10_000);
    assert_eq!(sin_scaled(150), 5_000);
    assert_eq!(sin_scaled(180), 0);
    assert_eq!(sin_scaled(210), -5_000);
    assert_eq!(sin_scaled(270), -10_000);
    assert_eq!(cos_scaled(0), 10_000);
    assert_eq!(cos_scaled(90), 0);
    assert_eq!(cos_scaled(180), -10_000);
    assert_eq!(cos_scaled(300), 5_000);
}

#[test]
fn bearing_flip_negates_the_rotation() {
    assert_eq!(Bearing2D { rotation: 90 }.flip(), Bearing2D { rotation: 270 });
    assert_eq!(Bearing2D { rotation: 0 }.flip(), Bearing2D { rotation: 0 });
    let flipped = Bearing3D { azimuth: 30, declination: 0 }.flip();
    assert_eq!(flipped, Bearing3D { azimuth: 330, declination: 0 });
}

#[test]
fn bracketed_branch_restores_the_pose() {
    let mut turtle = Turtle2D::new_from(0, 0, 0);
    let drawer = PlantDrawer2D { move_distance: 5, move_bearing: Bearing2D { rotation: 90 } };
    let (lines, markers) = drawer.map(&str_chars("F[F]F"), &mut turtle);
    assert_eq!(lines.len(), 3);
    assert!(markers.is_empty());
    assert_eq!(lines[0].start, Position2D { x: 0, y: 0 });
    assert_eq!(lines[0].end, Position2D { x: 5, y: 0 });
    assert_eq!(lines[1].start, Position2D { x: 5, y: 0 });
    assert_eq!(lines[1].end, Position2D { x: 10, y: 0 });
    // after the matching `]` the pose recorded before `[` is restored
    assert_eq!(lines[2].start, lines[0].end);
    assert_eq!(lines[2].end, Position2D { x: 10, y: 0 });
}

#[test]
fn marker_emits_one_marker_and_moves_nothing() {
    let mut turtle = Turtle2D::new_from(3, 4, 30);
    let drawer = PlantDrawer2D { move_distance: 10, move_bearing: Bearing2D { rotation: 45 } };
    let before_position = turtle.position();
    let before_bearing = turtle.bearing();
    let (lines, markers) = drawer.map(&str_chars("M"), &mut turtle);
    assert!(lines.is_empty());
    assert_eq!(markers.len(), 1);
    assert_eq!(markers[0], before_position);
    assert_eq!(turtle.position(), before_position);
    assert_eq!(turtle.bearing(), before_bearing);
}

#[test]
fn marker_between_moves_sits_on_the_path() {
    let mut turtle = Turtle2D::new_from(0, 0, 0);
    let drawer = PlantDrawer2D { move_distance: 5, move_bearing: Bearing2D { rotation: 90 } };
    let (lines, markers) = drawer.map(&str_chars("FMF"), &mut turtle);
    assert_eq!(lines.len(), 2);
    assert_eq!(markers.len(), 1);
    assert_eq!(markers[0], lines[0].end);
    assert_eq!(lines[1].start, lines[0].end);
}

#[test]
fn extra_closing_brackets_are_absorbed() {
    let mut lenient = Turtle2D::new_from(3, 4, 30);
    let drawer = PlantDrawer2D { move_distance: 10, move_bearing: Bearing2D { rotation: 60 } };
    let (lines_a, markers_a) = drawer.map(&str_chars("F]]F"), &mut lenient);
    let mut plain = Turtle2D::new_from(3, 4, 30);
    let (lines_b, markers_b) = drawer.map(&str_chars("FF"), &mut plain);
    assert_eq!(lines_a, lines_b);
    assert_eq!(markers_a, markers_b);
    assert_eq!(lenient.position(), plain.position());
    assert_eq!(lenient.bearing(), plain.bearing());
}

#[test]
fn turns_accumulate_and_wrap() {
    let mut turtle = Turtle2D::new_from(0, 0, 300);
    let drawer = PlantDrawer2D { move_distance: 1, move_bearing: Bearing2D { rotation: 90 } };
    drawer.map(&str_chars("+"), &mut turtle);
    assert_eq!(turtle.bearing(), Bearing2D { rotation: 30 });
    drawer.map(&str_chars("-"), &mut turtle);
    assert_eq!(turtle.bearing(), Bearing2D { rotation: 300 });
}

#[test]
fn unknown_symbols_are_ignored() {
    let mut turtle = Turtle2D::new_from(0, 0, 0);
    let drawer = PlantDrawer2D { move_distance: 5, move_bearing: Bearing2D { rotation: 90 } };
    let (lines, markers) = drawer.map(&str_chars("XqZ"), &mut turtle);
    assert!(lines.is_empty());
    assert!(markers.is_empty());
    assert_eq!(turtle.position(), Position2D { x: 0, y: 0 });
}

#[test]
fn pop_on_empty_stack_is_a_silent_no_op() {
    let mut turtle = Turtle2D::new_from(7, 8, 90);
    turtle.pop();
    assert_eq!(turtle.position(), Position2D { x: 7, y: 8 });
    assert_eq!(turtle.bearing(), Bearing2D { rotation: 90 });
    let mut spatial = Turtle3D::new_from(1, 2, 3, 10, 20);
    spatial.pop();
    assert_eq!(spatial.position(), Position3D { x: 1, y: 2, z: 3 });
}

#[test]
fn spatial_move_follows_the_spherical_decomposition() {
    // azimuth 0, declination 90: straight along x
    let mut turtle = Turtle3D::new_from(0, 0, 0, 0, 90);
    let drawer = PlantDrawer3D {
        move_distance: 7,
        move_bearing: Bearing3D { azimuth: 0, declination: 0 },
        jitter: 1,
    };
    let mut source = RandomSource::from_seed(1);
    let (lines, _) = drawer.map(&str_chars("F"), &mut turtle, &mut source);
    assert_eq!(lines.len(), 1);
    assert_eq!(lines[0].end, Position3D { x: 7, y: 0, z: 0 });
    // declination 0: straight up in z
    let mut upward = Turtle3D::new_from(0, 0, 0, 0, 0);
    let (lines_up, _) = drawer.map(&str_chars("F"), &mut upward, &mut source);
    assert_eq!(lines_up[0].end, Position3D { x: 0, y: 0, z: 7 });
}

#[test]
fn spatial_map_with_distances_is_deterministic() {
    let drawer = PlantDrawer3D {
        move_distance: 5,
        move_bearing: Bearing3D { azimuth: 30, declination: 0 },
        jitter: 3,
    };
    let input = str_chars("F+F[F]M");
    let distances = vec![5, 6, 7, 5, 6, 7, 5];
    let mut first = Turtle3D::new_from(0, 0, 0, 0, 90);
    let out_a = drawer.map_with_distances(&input, &distances, &mut first);
    let mut second = Turtle3D::new_from(0, 0, 0, 0, 90);
    let out_b = drawer.map_with_distances(&input, &distances, &mut second);
    assert_eq!(out_a.0, out_b.0);
    assert_eq!(out_a.1, out_b.1);
    assert_eq!(first.position(), second.position());
}

#[test]
fn seeded_pipeline_runs_are_bit_identical() {
    let mut runs: Vec<(Vec<lsystem::geom3d::Line3D>, Vec<Position3D>)> = Vec::new();
    for _ in 0..2 {
        let mut rules = MapRules::new();
        rules.set_str_prob('X', "F[+X]F[-X]X", 800_000);
        rules.set_str('F', "FF");
        let mut system = LSystem::new(rules, str_chars("X"));
        let mut source = RandomSource::from_seed(99);
        for _ in 0..4 {
            system.next(&mut source);
        }
        let drawer = PlantDrawer3D {
            move_distance: 5,
            move_bearing: Bearing3D { azimuth: 30, declination: 15 },
            jitter: 4,
        };
        let mut turtle = Turtle3D::new_from(0, 0, 0, 0, 90);
        runs.push(drawer.map(&system.state, &mut turtle, &mut source));
    }
    assert_eq!(runs[0].0, runs[1].0);
    assert_eq!(runs[0].1, runs[1].1);
}

#[test]
fn jittered_distances_stay_in_the_policy_range() {
    let drawer = PlantDrawer3D {
        move_distance: 5,
        move_bearing: Bearing3D { azimuth: 0, declination: 0 },
        jitter: 3,
    };
    let mut source = RandomSource::from_seed(7);
    for _ in 0..50 {
        let d = drawer.get_move_distance(&mut source);
        assert!((5..8).contains(&d));
    }
}

#[test]
fn getters_expose_the_policy() {
    let drawer = PlantDrawer2D { move_distance: 9, move_bearing: Bearing2D { rotation: 45 } };
    assert_eq!(drawer.get_move_distance(), 9);
    assert_eq!(drawer.get_move_bearing(), Bearing2D { rotation: 45 });
    let spatial = PlantDrawer3D {
        move_distance: 2,
        move_bearing: Bearing3D { azimuth: 5, declination: 6 },
        jitter: 1,
    };
    assert_eq!(spatial.get_move_bearing(), Bearing3D { azimuth: 5, declination: 6 });
}
