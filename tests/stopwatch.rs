use trivia::stopwatch::Stopwatch;

#[test]
fn pause_is_idempotent() {
    let mut watch = Stopwatch::start();
    let first = watch.pause();
    let second = watch.pause();
    assert_eq!(first, second);
    assert_eq!(watch.elapsed(), first);
}

#[test]
fn pause_after_folds_the_run() {
    let mut watch = Stopwatch::default();
    assert_eq!(watch.elapsed(), 0);
    watch.resume();
    assert_eq!(watch.pause_after(1_500), 1_500);
    assert_eq!(watch.pause_after(7), 1_500);
    watch.resume();
    assert_eq!(watch.elapsed_after(500), 2_000);
    assert_eq!(watch.pause_after(u128::MAX), u128::MAX);
}

#[test]
fn running_watch_counts_up() {
    let watch = Stopwatch::start();
    let a = watch.elapsed();
    let b = watch.elapsed();
    assert!(b >= a);
}
