use cv_disparity::disparity::{Disparity, SUBPIXEL_SCALE};
use cv_disparity::error::Error;
use cv_disparity::frame::StereoFrame;
use cv_disparity::grid::Grid;
use cv_disparity::mcmanamon::{McManamon, Params};
use cv_disparity::prelude::{DisparityAlgorithm, DisparityMap};

const SCALE: i128 = SUBPIXEL_SCALE as i128;

fn texture(width: usize, height: usize, seed: u64, levels: u64) -> Vec<u16> {
    let mut state: u64 = seed.wrapping_mul(0x9E37_79B9_7F4A_7C15).wrapping_add(1);
    let mut cells = Vec::with_capacity(width * height);
    for _ in 0..width * height {
        state = state.wrapping_mul(6364136223846793005).wrapping_add(1442695040888963407);
        cells.push(((state >> 40) % levels) as u16);
    }
    cells
}

/// A pair in which the right image is the left one moved `shift` columns
/// to the left, so that every point has disparity `shift`.
fn shifted_pair(width: usize, height: usize, shift: usize, seed: u64) -> StereoFrame {
    let wide = texture(width + shift, height, seed, 65536);
    let mut left = Vec::with_capacity(width * height);
    let mut right = Vec::with_capacity(width * height);
    for y in 0..height {
        for x in 0..width {
            left.push(wide[y * (width + shift) + x]);
            right.push(wide[y * (width + shift) + x + shift]);
        }
    }
    StereoFrame {
        left: Grid::from_vec(width, height, left).unwrap(),
        left_timestamp: 0,
        right: Grid::from_vec(width, height, right).unwrap(),
        right_timestamp: 0,
    }
}

fn random_pair(width: usize, height: usize, seed: u64, levels: u64) -> StereoFrame {
    StereoFrame {
        left: Grid::from_vec(width, height, texture(width, height, seed, levels)).unwrap(),
        left_timestamp: 0,
        right: Grid::from_vec(width, height, texture(width, height, seed + 77, levels)).unwrap(),
        right_timestamp: 0,
    }
}

fn scaled(d: Disparity) -> i128 {
    d.whole as i128 * SCALE + d.frac as i128
}

fn pixels(d: Disparity) -> f64 {
    d.whole as f64 + d.frac as f64 / SUBPIXEL_SCALE as f64
}

fn window_cost(frame: &StereoFrame, x: usize, y: usize, d: usize, hw: usize, hh: usize) -> i128 {
    let mut sum: i128 = 0;
    for row in y - hh..=y + hh {
        for col in x - hw..=x + hw {
            let l = frame.left.get(col, row) as i128;
            let r = frame.right.get(col - d, row) as i128;
            sum += (l - r).abs();
        }
    }
    sum
}

fn pick(costs: &[i128], lo: usize) -> i128 {
    let mut index = 0;
    for (i, c) in costs.iter().enumerate() {
        if *c < costs[index] {
            index = i;
        }
    }
    let base = (lo + index) as i128 * SCALE;
    if index == 0 || index + 1 == costs.len() || costs.len() < 3 {
        return base;
    }
    let (l, c, r) = (costs[index - 1], costs[index], costs[index + 1]);
    if l > r {
        base + ((l - r) * SCALE) / (2 * (l - c))
    } else {
        base - ((r - l) * SCALE) / (2 * (r - c))
    }
}

struct Expected {
    cells: Vec<i128>,
    written: Vec<bool>,
    min: i128,
    max: i128,
    ranges: Vec<(usize, usize)>,
}

/// The map worked out pixel by pixel with whole-window sums only.
fn brute_force(frame: &StereoFrame, p: Params) -> Expected {
    let (width, height) = (frame.width(), frame.height());
    let (ww, wh) = p.correlation_window_size;
    let (hw, hh) = ((ww - 1) / 2, (wh - 1) / 2);
    let mut out = Expected {
        cells: vec![0; width * height],
        written: vec![false; width * height],
        min: p.max_disparity as i128 * SCALE,
        max: p.min_disparity as i128 * SCALE,
        ranges: Vec::new(),
    };
    if !(2 * wh < height && 2 * ww + p.max_disparity < width) {
        return out;
    }
    let (mut lo, mut hi) = (p.min_disparity, p.max_disparity);
    for y in (wh..height - wh).rev() {
        out.ranges.push((lo, hi));
        let mut row_min = p.max_disparity as i128 * SCALE;
        let mut row_max = p.min_disparity as i128 * SCALE;
        for x in ww + hi..width - ww {
            let costs: Vec<i128> =
                (lo..hi).map(|d| window_cost(frame, x, y, d, hw, hh)).collect();
            let value = pick(&costs, lo);
            out.cells[y * width + x] = value;
            out.written[y * width + x] = true;
            row_min = row_min.min(value);
            row_max = row_max.max(value);
        }
        out.min = out.min.min(row_min);
        out.max = out.max.max(row_max);
        let threshold = p.dyn_disparity_threshold as i128;
        let high = (row_max + SCALE - 1) / SCALE + threshold;
        let low = row_min / SCALE - threshold;
        hi = high.min(p.max_disparity as i128) as usize;
        lo = low.max(p.min_disparity as i128) as usize;
    }
    out
}

fn check_against_brute_force(frame: &StereoFrame, p: Params) -> (DisparityMap, Expected) {
    let mut alg = McManamon::new(p);
    let map = alg.compute(frame).unwrap();
    let expected = brute_force(frame, p);
    assert_eq!(map.width(), frame.width());
    assert_eq!(map.height(), frame.height());
    for y in 0..frame.height() {
        for x in 0..frame.width() {
            assert_eq!(
                scaled(map.get(x, y)),
                expected.cells[y * frame.width() + x],
                "at ({}, {})",
                x,
                y
            );
        }
    }
    assert_eq!(scaled(map.min_disp.unwrap()), expected.min);
    assert_eq!(scaled(map.max_disp.unwrap()), expected.max);
    (map, expected)
}

fn params(min: usize, max: usize, threshold: usize, window: (usize, usize)) -> Params {
    Params {
        min_disparity: min,
        max_disparity: max,
        dyn_disparity_threshold: threshold,
        correlation_window_size: window,
    }
}

#[test]
fn shifted_image_gives_the_shift_everywhere() {
    let shift = 6;
    let frame = shifted_pair(64, 40, shift, 1);
    let p = params(0, 16, 3, (5, 5));
    let mut alg = McManamon::new(p);
    let map = alg.compute(&frame).unwrap();
    let mut seen = 0;
    for y in 5..40 - 5 {
        for x in 5 + 16..64 - 5 {
            let d = pixels(map.get(x, y));
            assert!((d - shift as f64).abs() <= 0.5, "{} at ({}, {})", d, x, y);
            seen += 1;
        }
    }
    assert_eq!(seen, 30 * 38);
    assert!((pixels(map.min_disp.unwrap()) - shift as f64).abs() <= 0.5);
    assert!((pixels(map.max_disp.unwrap()) - shift as f64).abs() <= 0.5);
}

#[test]
fn shifted_image_narrows_the_search_to_the_shift() {
    let frame = shifted_pair(48, 30, 4, 2);
    let p = params(0, 12, 2, (3, 3));
    let (map, expected) = check_against_brute_force(&frame, p);
    assert_eq!(expected.ranges[0], (0, 12));
    for range in &expected.ranges[1..] {
        assert!(range.0 <= 4 && 4 < range.1);
        assert!(range.1 - range.0 <= 6);
    }
    // Once the search is narrowed, columns nearer the left edge are worked on.
    let narrowed_first = 3 + expected.ranges[1].1;
    assert!(narrowed_first < 3 + 12);
    let d = pixels(map.get(narrowed_first, 30 - 3 - 2));
    assert!((d - 4.0).abs() <= 0.5);
}

#[test]
fn identical_images_give_zero_everywhere() {
    let cells = texture(40, 30, 5, 65536);
    let frame = StereoFrame {
        left: Grid::from_vec(40, 30, cells.clone()).unwrap(),
        left_timestamp: 0,
        right: Grid::from_vec(40, 30, cells).unwrap(),
        right_timestamp: 0,
    };
    for threshold in [0, 1, 4] {
        let mut alg = McManamon::new(params(0, 10, threshold, (3, 5)));
        let map = alg.compute(&frame).unwrap();
        for y in 0..30 {
            for x in 0..40 {
                assert_eq!(map.get(x, y), Disparity { whole: 0, frac: 0 });
            }
        }
        assert_eq!(map.max_disp, Some(Disparity { whole: 0, frac: 0 }));
        assert_eq!(map.min_disp, Some(Disparity { whole: 0, frac: 0 }));
    }
}

#[test]
fn flat_images_give_the_lowest_candidate() {
    let frame = StereoFrame {
        left: Grid::new(40, 24, 1000u16),
        left_timestamp: 0,
        right: Grid::new(40, 24, 900u16),
        right_timestamp: 0,
    };
    for threshold in [0, 1, 3] {
        let p = params(2, 9, threshold, (3, 3));
        let (map, expected) = check_against_brute_force(&frame, p);
        for y in 3..24 - 3 {
            for x in 3 + 9..40 - 3 {
                assert_eq!(map.get(x, y), Disparity { whole: 2, frac: 0 });
            }
        }
        // Without a margin the range closes on the one disparity seen, and
        // that disparity is written without any candidate being costed.
        if threshold == 0 {
            assert_eq!(expected.ranges[1], (2, 2));
            assert_eq!(map.get(3 + 2, 3), Disparity { whole: 2, frac: 0 });
        }
    }
}

#[test]
fn map_matches_whole_window_sums_on_random_images() {
    let cases = [
        (params(0, 8, 2, (3, 3)), 40, 24, 65536),
        (params(0, 8, 0, (3, 3)), 40, 24, 4),
        (params(2, 11, 1, (5, 3)), 44, 20, 16),
        (params(1, 6, 3, (1, 1)), 20, 12, 256),
        (params(0, 5, 1, (4, 6)), 30, 30, 8),
        (params(3, 4, 0, (3, 7)), 24, 30, 3),
        (params(0, 12, 1, (7, 5)), 50, 26, 65536),
        (params(0, 9, 2, (1, 5)), 30, 26, 2),
        (params(0, 9, 2, (5, 1)), 30, 8, 2),
    ];
    for (i, (p, width, height, levels)) in cases.iter().enumerate() {
        for seed in 0..4u64 {
            let frame = random_pair(*width, *height, 100 * i as u64 + seed, *levels);
            check_against_brute_force(&frame, *p);
        }
    }
}

#[test]
fn map_matches_whole_window_sums_when_the_range_moves() {
    // Bands of rows whose shift goes up and down by one make the search
    // range, and with it the first column worked on, move both ways.
    let (width, height) = (60, 48);
    let wide = texture(width + 16, height, 31, 65536);
    let mut left = Vec::new();
    let mut right = Vec::new();
    for y in 0..height {
        let shift = [2usize, 3, 4, 5, 6, 7, 6, 5, 4, 3][(y / 4) % 10];
        for x in 0..width {
            left.push(wide[y * (width + 16) + x]);
            right.push(wide[y * (width + 16) + x + shift]);
        }
    }
    let frame = StereoFrame {
        left: Grid::from_vec(width, height, left).unwrap(),
        left_timestamp: 0,
        right: Grid::from_vec(width, height, right).unwrap(),
        right_timestamp: 0,
    };
    for threshold in [0, 1, 2, 5] {
        let (_, expected) = check_against_brute_force(&frame, params(0, 16, threshold, (3, 3)));
        // The largest disparity of a row is below the end of its range, so
        // the end can only rise where the margin is two or more.
        if threshold >= 2 {
            let ends: Vec<usize> = expected.ranges[1..].iter().map(|r| r.1).collect();
            assert!(ends.windows(2).any(|w| w[0] < w[1]));
            assert!(ends.windows(2).any(|w| w[0] > w[1]));
        }
    }
}

#[test]
fn disparities_stay_in_the_configured_interval() {
    for seed in 0..5u64 {
        let frame = random_pair(36, 22, 500 + seed, 6);
        let p = params(2, 9, (seed % 3) as usize, (3, 3));
        let (map, expected) = check_against_brute_force(&frame, p);
        for y in 0..22 {
            for x in 0..36 {
                if expected.written[y * 36 + x] {
                    let d = pixels(map.get(x, y));
                    assert!(d >= 2.0 && d < 9.0);
                }
            }
        }
        for (lo, hi) in expected.ranges {
            assert!(2 <= lo && lo <= hi && hi <= 9);
        }
    }
}

#[test]
fn borders_keep_zero() {
    let frame = shifted_pair(40, 30, 5, 8);
    let p = params(3, 10, 2, (5, 7));
    let (map, expected) = check_against_brute_force(&frame, p);
    let zero = Disparity { whole: 0, frac: 0 };
    let mut inside = 0;
    for y in 0..30 {
        for x in 0..40 {
            if y < 7 || y >= 30 - 7 || x < 5 + 3 || x >= 40 - 5 {
                assert_eq!(map.get(x, y), zero);
                assert!(!expected.written[y * 40 + x]);
            } else if expected.written[y * 40 + x] {
                assert!(pixels(map.get(x, y)) >= 3.0);
                inside += 1;
            } else {
                assert_eq!(map.get(x, y), zero);
            }
        }
    }
    assert!(inside > 0);
    // On the first row worked on the whole interval is searched, and the
    // border on the left is the window and the largest disparity wide.
    for x in 0..5 + 10 {
        assert_eq!(map.get(x, 30 - 7 - 1), zero);
    }
    assert!(expected.written[(30 - 7 - 1) * 40 + 5 + 10]);
}

#[test]
fn image_too_narrow_for_the_interval_gives_an_empty_map() {
    let frame = random_pair(30, 20, 3, 256);
    let p = params(0, 24, 2, (3, 3));
    let mut alg = McManamon::new(p);
    let map = alg.compute(&frame).unwrap();
    for y in 0..20 {
        for x in 0..30 {
            assert_eq!(map.get(x, y), Disparity { whole: 0, frac: 0 });
        }
    }
    assert_eq!(map.min_disp, Some(Disparity { whole: 24, frac: 0 }));
    assert_eq!(map.max_disp, Some(Disparity { whole: 0, frac: 0 }));
}

#[test]
fn image_with_one_interior_pixel() {
    // width = 2 * 3 + 4 + 1 and height = 2 * 3 + 1 leave exactly one pixel.
    let frame = random_pair(11, 7, 12, 256);
    let p = params(1, 4, 1, (3, 3));
    let (map, expected) = check_against_brute_force(&frame, p);
    assert_eq!(expected.written.iter().filter(|w| **w).count(), 1);
    assert!(expected.written[3 * 11 + 7]);
    assert_eq!(map.min_disp, map.max_disp);
    assert_eq!(map.min_disp, Some(map.get(7, 3)));
}

#[test]
fn image_no_taller_than_two_windows_gives_an_empty_map() {
    let frame = random_pair(40, 10, 3, 256);
    let mut alg = McManamon::new(params(0, 4, 2, (3, 5)));
    let map = alg.compute(&frame).unwrap();
    assert_eq!(map.min_disp, Some(Disparity { whole: 4, frac: 0 }));
    assert_eq!(map.max_disp, Some(Disparity { whole: 0, frac: 0 }));
    assert_eq!(map.get(20, 5), Disparity { whole: 0, frac: 0 });
}

#[test]
fn compute_twice_gives_the_same_map() {
    let frame = random_pair(36, 24, 21, 32);
    let mut alg = McManamon::new(params(0, 8, 1, (3, 3)));
    let first = alg.compute(&frame).unwrap();
    let second = alg.compute(&frame).unwrap();
    for y in 0..24 {
        for x in 0..36 {
            assert_eq!(first.get(x, y), second.get(x, y));
        }
    }
    assert_eq!(first.min_disp, second.min_disp);
    assert_eq!(first.max_disp, second.max_disp);
}

#[test]
fn empty_disparity_interval_is_rejected() {
    let frame = random_pair(20, 20, 1, 256);
    for (min, max) in [(5, 5), (6, 5), (0, 0)] {
        let mut alg = McManamon::new(params(min, max, 1, (3, 3)));
        assert_eq!(alg.compute(&frame).err(), Some(Error::EmptyDisparityRange));
        assert_eq!(params(min, max, 1, (3, 3)).validate(), Err(Error::EmptyDisparityRange));
    }
}

#[test]
fn window_without_cells_is_rejected() {
    let frame = random_pair(20, 20, 1, 256);
    for window in [(0, 3), (3, 0), (0, 0)] {
        let mut alg = McManamon::new(params(0, 4, 1, window));
        assert_eq!(alg.compute(&frame).err(), Some(Error::EmptyWindow));
        assert_eq!(params(0, 4, 1, window).validate(), Err(Error::EmptyWindow));
    }
}

#[test]
fn images_of_different_sizes_are_rejected() {
    let frame = StereoFrame {
        left: Grid::new(20, 20, 0u16),
        left_timestamp: 0,
        right: Grid::new(20, 19, 0u16),
        right_timestamp: 0,
    };
    let p = params(0, 4, 1, (3, 3));
    let mut alg = McManamon::new(p);
    assert_eq!(alg.compute(&frame).err(), Some(Error::FrameSizeMismatch));
    assert_eq!(p.check_frame(&frame), Err(Error::FrameSizeMismatch));
    assert_eq!(p.validate(), Ok(()));
}

#[test]
fn window_larger_than_the_image_is_rejected() {
    let frame = random_pair(20, 10, 1, 256);
    for window in [(21, 3), (3, 11), (25, 25)] {
        let mut alg = McManamon::new(params(0, 4, 1, window));
        assert_eq!(alg.compute(&frame).err(), Some(Error::WindowExceedsImage));
    }
    let mut alg = McManamon::new(params(0, 4, 1, (20, 10)));
    assert!(alg.compute(&frame).is_ok());
}

#[test]
fn errors_are_reported_in_order() {
    let uneven = StereoFrame {
        left: Grid::new(4, 4, 0u16),
        left_timestamp: 0,
        right: Grid::new(5, 4, 0u16),
        right_timestamp: 0,
    };
    let mut alg = McManamon::new(params(4, 4, 1, (0, 9)));
    assert_eq!(alg.compute(&uneven).err(), Some(Error::EmptyDisparityRange));
    let mut alg = McManamon::new(params(0, 4, 1, (0, 9)));
    assert_eq!(alg.compute(&uneven).err(), Some(Error::EmptyWindow));
    let mut alg = McManamon::new(params(0, 4, 1, (9, 9)));
    assert_eq!(alg.compute(&uneven).err(), Some(Error::FrameSizeMismatch));
}

#[test]
fn empty_frame_is_rejected_as_smaller_than_the_window() {
    let frame = StereoFrame {
        left: Grid::new(0, 0, 0u16),
        left_timestamp: 0,
        right: Grid::new(0, 0, 0u16),
        right_timestamp: 0,
    };
    let mut alg = McManamon::new(params(0, 4, 1, (3, 3)));
    assert_eq!(alg.compute(&frame).err(), Some(Error::WindowExceedsImage));
}
