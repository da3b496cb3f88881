use raytracer::tracer::{
    connect, ConnectError, Connection, MonteCarloPathTracer, MonteCarloPathTracerConfig, PathAction,
    PathEvent, PathWalk, TracerConfig,
};

fn tracer(min_depth: usize, max_depth: usize) -> MonteCarloPathTracer {
    MonteCarloPathTracerConfig { min_depth, max_depth }.to_tracer()
}

#[test]
fn to_tracer_copies_depths() {
    let t = MonteCarloPathTracerConfig { min_depth: 2, max_depth: 6 }.to_tracer();
    assert_eq!(t.min_depth, 2);
    assert_eq!(t.max_depth, 6);
    let config = TracerConfig::MonteCarloPathTracer(MonteCarloPathTracerConfig {
        min_depth: 1,
        max_depth: 9,
    });
    let t = config.to_tracer();
    assert_eq!((t.min_depth, t.max_depth), (1, 9));
}

#[test]
fn walk_without_depth_finishes_at_once() {
    let walk = PathWalk::new(&tracer(0, 0));
    assert!(walk.action() == PathAction::Finish);
    assert_eq!(walk.vertex_count(), 1);
}

#[test]
fn walk_stops_on_miss() {
    let mut walk = PathWalk::new(&tracer(2, 6));
    assert!(walk.action() == PathAction::Intersect);
    assert!(walk.step(PathEvent::Missed) == PathAction::Finish);
    assert_eq!(walk.vertex_count(), 1);
}

#[test]
fn walk_stops_on_light() {
    let mut walk = PathWalk::new(&tracer(2, 6));
    assert!(walk.step(PathEvent::Hit { emissive: true }) == PathAction::Finish);
    assert_eq!(walk.vertex_count(), 2);
}

#[test]
fn walk_roulette_weighted_from_min_depth() {
    let mut walk = PathWalk::new(&tracer(2, 10));
    let mut weights = Vec::new();
    for _ in 0..4 {
        match walk.step(PathEvent::Hit { emissive: false }) {
            PathAction::DrawRoulette { weighted } => weights.push(weighted),
            _ => panic!("expected a roulette draw"),
        }
        assert!(walk.step(PathEvent::Survived) == PathAction::Scatter);
        assert!(walk.step(PathEvent::Scattered) == PathAction::Intersect);
    }
    assert_eq!(weights, vec![false, false, true, true]);
    assert_eq!(walk.depth(), 4);
    assert_eq!(walk.vertex_count(), 5);
}

#[test]
fn walk_never_exceeds_max_depth() {
    let mut walk = PathWalk::new(&tracer(0, 3));
    let mut actions = 0;
    loop {
        let event = match walk.action() {
            PathAction::Intersect => PathEvent::Hit { emissive: false },
            PathAction::DrawRoulette { .. } => PathEvent::Survived,
            PathAction::Scatter => PathEvent::Scattered,
            PathAction::Finish => break,
        };
        walk.step(event);
        actions += 1;
        assert!(actions < 100);
    }
    assert_eq!(walk.depth(), 3);
    assert_eq!(walk.vertex_count(), 4);
}

#[test]
fn walk_ends_on_roulette_or_absorption() {
    let mut walk = PathWalk::new(&tracer(0, 5));
    walk.step(PathEvent::Hit { emissive: false });
    assert!(walk.step(PathEvent::Terminated) == PathAction::Finish);
    assert_eq!(walk.vertex_count(), 2);

    let mut walk = PathWalk::new(&tracer(0, 5));
    walk.step(PathEvent::Hit { emissive: false });
    walk.step(PathEvent::Survived);
    assert!(walk.step(PathEvent::Absorbed) == PathAction::Finish);
    assert_eq!(walk.depth(), 0);
}

#[test]
fn walk_ignores_events_out_of_turn() {
    let mut walk = PathWalk::new(&tracer(0, 5));
    assert!(walk.step(PathEvent::Scattered) == PathAction::Intersect);
    assert_eq!(walk.vertex_count(), 1);
    assert_eq!(walk.depth(), 0);
}

#[test]
fn connect_without_light_vertices() {
    let emissive = vec![false, false, true];
    assert!(connect(&emissive, 0, 3) == Ok(Connection::Emission(2)));
    assert!(connect(&emissive, 0, 2) == Ok(Connection::Nothing));
    assert!(connect(&emissive, 0, 1) == Ok(Connection::Nothing));
}

#[test]
fn connect_with_light_vertices() {
    let emissive = vec![false, false, true];
    assert!(connect(&emissive, 1, 3) == Ok(Connection::Nothing));
    assert!(connect(&emissive, 1, 2) == Err(ConnectError::NotImplemented));
    assert!(connect(&emissive, 2, 1) == Err(ConnectError::NotImplemented));
}

#[test]
fn trace_collects_emissive_vertices() {
    let t = tracer(2, 6);
    assert_eq!(t.trace(&vec![false, false, true]), vec![2]);
    assert_eq!(t.trace(&vec![false, true]), vec![1]);
    assert_eq!(t.trace(&vec![false]), Vec::<usize>::new());
}

#[test]
fn trace_skips_vertices_beyond_max_depth() {
    let t = tracer(0, 1);
    assert_eq!(t.trace(&vec![false, true, true, true]), vec![1, 2]);
}

#[test]
fn trace_of_dark_path_is_black() {
    let t = tracer(2, 6);
    assert!(t.trace(&vec![false, false, false, false]).is_empty());
}
