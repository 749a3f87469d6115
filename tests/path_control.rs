use raytracer::path::{Bounce, Path, PathEnd};

#[test]
fn no_depth_is_black_without_a_query() {
    let path = Path::start(0);
    assert!(!path.is_running());
    assert_eq!(path.end(), Some(PathEnd::Exhausted));
    assert!(path.end().unwrap().is_black());
    assert_eq!(path.bounces(), 0);
}

#[test]
fn miss_reaches_the_sky() {
    let mut path = Path::start(50);
    assert!(path.is_running());
    path.record(Bounce::Miss);
    assert!(!path.is_running());
    assert_eq!(path.end(), Some(PathEnd::Sky));
    assert!(!PathEnd::Sky.is_black());
    assert_eq!(path.bounces(), 0);
}

#[test]
fn absorption_is_black() {
    let mut path = Path::start(50);
    path.record(Bounce::Scattered);
    path.record(Bounce::Scattered);
    path.record(Bounce::Absorbed);
    assert_eq!(path.end(), Some(PathEnd::Absorbed));
    assert!(PathEnd::Absorbed.is_black());
    assert_eq!(path.bounces(), 2);
}

#[test]
fn sky_after_scatterings() {
    let mut path = Path::start(5);
    for _ in 0..3 {
        path.record(Bounce::Scattered);
        assert!(path.is_running());
    }
    path.record(Bounce::Miss);
    assert_eq!(path.end(), Some(PathEnd::Sky));
    assert_eq!(path.bounces(), 3);
}

#[test]
fn depth_runs_out() {
    let mut path = Path::start(3);
    let mut queries = 0;
    while path.is_running() {
        path.record(Bounce::Scattered);
        queries += 1;
    }
    assert_eq!(queries, 3);
    assert_eq!(path.end(), Some(PathEnd::Exhausted));
    assert_eq!(path.bounces(), 3);
}
