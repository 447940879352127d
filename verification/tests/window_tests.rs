use gneiss_rtk::window::SlidingWindow;

#[test]
fn test_trajectory_empty() {
    let w: SlidingWindow<(f64, f64, f64)> = SlidingWindow::new(60);
    assert!(w.is_empty());
    assert_eq!(w.len(), 0);
}

#[test]
fn test_trajectory_single_delta() {
    let mut w = SlidingWindow::new(60);
    assert_eq!(w.push((1.0, 0.5, -0.2)), None);
    assert_eq!(w.len(), 1);
    assert_eq!(*w.get(0), (1.0, 0.5, -0.2));
}

#[test]
fn test_trajectory_window_rolls() {
    let mut w = SlidingWindow::new(3);
    w.push(1.0);
    w.push(2.0);
    w.push(3.0);
    assert_eq!(w.len(), 3);
    assert_eq!(w.push(4.0), Some(1.0));
    assert_eq!(w.len(), 3);
    let sum: f64 = (0..w.len()).map(|i| *w.get(i)).sum();
    assert!((sum - 9.0).abs() < 1e-10);
}

#[test]
fn test_trajectory_window_size_one() {
    let mut w = SlidingWindow::new(1);
    w.push((1.0, 2.0, 3.0));
    assert_eq!(w.len(), 1);
    assert_eq!(w.push((4.0, 5.0, 6.0)), Some((1.0, 2.0, 3.0)));
    assert_eq!(w.len(), 1);
    assert_eq!(w.get(0).0, 4.0);
}

#[test]
fn test_window_size_zero_holds_one() {
    let mut w = SlidingWindow::new(0);
    assert_eq!(w.window_size(), 1);
    w.push(7u32);
    w.push(8u32);
    assert_eq!(w.len(), 1);
    assert_eq!(*w.get(0), 8);
}
