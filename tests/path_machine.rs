use ray_tracing_weekend::path::{Outcome, PathState, Radiance, Step};

#[test]
fn zero_budget_is_black_before_any_intersection() {
    let s = PathState::new(0);
    assert!(s.is_finished());
    assert_eq!(s.next(), Step::Finish(Radiance::Black));
    assert_eq!(s.bounces, 0);
}

#[test]
fn negative_budget_is_black() {
    let s = PathState::new(-4);
    assert_eq!(s.next(), Step::Finish(Radiance::Black));
}

#[test]
fn empty_scene_gives_background_without_bounce() {
    let mut s = PathState::new(50);
    assert_eq!(s.next(), Step::Intersect);
    s.advance(Outcome::Miss);
    assert_eq!(s.next(), Step::Finish(Radiance::Background));
    assert_eq!(s.bounces, 0);
    assert_eq!(s.depth, 50);
}

#[test]
fn absorption_ends_with_emission() {
    let mut s = PathState::new(3);
    s.advance(Outcome::Scattered);
    assert_eq!(s.next(), Step::Intersect);
    s.advance(Outcome::Absorbed);
    assert_eq!(s.next(), Step::Finish(Radiance::Emitted));
    assert_eq!(s.bounces, 1);
}

#[test]
fn scattering_forever_runs_out_of_budget() {
    let mut s = PathState::new(3);
    let mut steps = 0;
    while !s.is_finished() {
        s.advance(Outcome::Scattered);
        steps += 1;
    }
    assert_eq!(steps, 3);
    assert_eq!(s.bounces, 3);
    assert_eq!(s.depth, 0);
    assert_eq!(s.next(), Step::Finish(Radiance::Black));
}

#[test]
fn single_bounce_budget() {
    let mut s = PathState::new(1);
    s.advance(Outcome::Scattered);
    assert_eq!(s.next(), Step::Finish(Radiance::Black));
    assert_eq!(s.bounces, 1);
}
