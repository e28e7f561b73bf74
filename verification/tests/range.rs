use cv_disparity::disparity::Disparity;
use cv_disparity::mcmanamon::Params;
use cv_disparity::range::RangeController;

fn params(min: usize, max: usize, threshold: usize) -> Params {
    Params {
        min_disparity: min,
        max_disparity: max,
        dyn_disparity_threshold: threshold,
        correlation_window_size: (11, 11),
    }
}

fn at(whole: usize, frac: u16) -> Disparity {
    Disparity { whole, frac }
}

#[test]
fn range_starts_at_the_configured_interval() {
    let range = RangeController::new(params(3, 100, 10));
    assert_eq!(range.min_dyn_disp(), 3);
    assert_eq!(range.max_dyn_disp(), 100);
}

#[test]
fn range_narrows_around_the_row() {
    let mut range = RangeController::new(params(0, 100, 10));
    range.update(at(40, 0), at(50, 0));
    assert_eq!(range.min_dyn_disp(), 30);
    assert_eq!(range.max_dyn_disp(), 60);
}

#[test]
fn range_rounds_the_minimum_down_and_the_maximum_up() {
    let mut range = RangeController::new(params(0, 100, 2));
    range.update(at(40, 65535), at(50, 1));
    assert_eq!(range.min_dyn_disp(), 38);
    assert_eq!(range.max_dyn_disp(), 53);
}

#[test]
fn range_is_cut_to_the_configured_limits() {
    let mut range = RangeController::new(params(5, 20, 10));
    range.update(at(8, 0), at(15, 0));
    assert_eq!(range.min_dyn_disp(), 5);
    assert_eq!(range.max_dyn_disp(), 20);
}

#[test]
fn range_lower_end_stops_at_zero() {
    let mut range = RangeController::new(params(0, 64, 10));
    range.update(at(3, 0), at(4, 0));
    assert_eq!(range.min_dyn_disp(), 0);
    assert_eq!(range.max_dyn_disp(), 14);
}

#[test]
fn range_widens_again_after_narrowing() {
    let mut range = RangeController::new(params(0, 100, 5));
    range.update(at(10, 0), at(12, 0));
    assert_eq!((range.min_dyn_disp(), range.max_dyn_disp()), (5, 17));
    range.update(at(6, 0), at(16, 32768));
    assert_eq!((range.min_dyn_disp(), range.max_dyn_disp()), (1, 22));
}

#[test]
fn range_without_margin_can_close_on_one_disparity() {
    let mut range = RangeController::new(params(0, 100, 0));
    range.update(at(7, 0), at(7, 0));
    assert_eq!((range.min_dyn_disp(), range.max_dyn_disp()), (7, 7));
}

#[test]
fn range_survives_the_largest_numbers() {
    let mut range = RangeController::new(params(0, usize::MAX, usize::MAX));
    range.update(at(usize::MAX, 1), at(usize::MAX, 65535));
    assert_eq!(range.min_dyn_disp(), 0);
    assert_eq!(range.max_dyn_disp(), usize::MAX);
}

#[test]
fn range_stays_inside_the_configured_interval() {
    let p = params(4, 40, 3);
    let mut range = RangeController::new(p);
    let mut state: u64 = 99;
    for _ in 0..500 {
        state = state.wrapping_mul(6364136223846793005).wrapping_add(1442695040888963407);
        let a = 4 + (state >> 33) as usize % 36;
        let b = 4 + (state >> 13) as usize % 36;
        let (low, high) = if a <= b { (a, b) } else { (b, a) };
        range.update(at(low, (state >> 3) as u16), at(high, (state >> 5) as u16 | 1));
        assert!(p.min_disparity <= range.min_dyn_disp());
        assert!(range.min_dyn_disp() <= range.max_dyn_disp());
        assert!(range.max_dyn_disp() <= p.max_disparity);
    }
}
