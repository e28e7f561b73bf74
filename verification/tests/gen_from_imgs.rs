//! Computes the disparity map of a rendered pair and lays it out beside the
//! left image.

use cv_disparity::disparity::{Disparity, SUBPIXEL_SCALE};
use cv_disparity::frame::StereoFrame;
use cv_disparity::grid::Grid;
use cv_disparity::mcmanamon::{McManamon, Params};
use cv_disparity::prelude::DisparityAlgorithm;

const WIDTH: usize = 640 * 2;
const HEIGHT: usize = 480;

/// Disparity of the ground seen on row `y`: it grows towards the bottom.
fn ground_disparity(y: usize) -> usize {
    10 + y / 12
}

/// A textured ground plane seen by both cameras.
fn render_pair() -> StereoFrame {
    let (width, height) = (WIDTH / 2, HEIGHT);
    let mut state: u64 = 16600;
    let mut left = Vec::with_capacity(width * height);
    let mut right = Vec::with_capacity(width * height);
    for y in 0..height {
        let mut row = Vec::with_capacity(width + 100);
        for _ in 0..width + 100 {
            state = state.wrapping_mul(6364136223846793005).wrapping_add(1442695040888963407);
            row.push((state >> 56) as u16);
        }
        let d = ground_disparity(y);
        for x in 0..width {
            left.push(row[x]);
            right.push(row[x + d]);
        }
    }
    StereoFrame {
        left: Grid::from_vec(width, height, left).unwrap(),
        left_timestamp: 0,
        right: Grid::from_vec(width, height, right).unwrap(),
        right_timestamp: 0,
    }
}

fn pixels(d: Disparity) -> f64 {
    d.whole as f64 + d.frac as f64 / SUBPIXEL_SCALE as f64
}

#[test]
fn gen_from_imgs() {
    let frame = render_pair();

    let mut buffer: Vec<u32> = vec![0; WIDTH * HEIGHT];

    let mut disp = McManamon::new(Params {
        min_disparity: 0,
        max_disparity: 100,
        dyn_disparity_threshold: 10,
        correlation_window_size: (11, 11),
    });

    let map = disp.compute(&frame).unwrap();
    let right = map.to_luma_normalised();

    for y in 0..(HEIGHT) {
        for x in 0..(WIDTH) {
            if x > (WIDTH / 2) - 1 {
                buffer[x + y * WIDTH] =
                    luma_to_u32(right.get_pixel((x - (WIDTH / 2)) as u32, y as u32));
            } else {
                buffer[x + y * WIDTH] = luma_to_u32(frame.left.get(x, y) as u8);
            }
        }
    }

    // Rows whose window sees one disparity only give that disparity.
    // The bottom row worked on sees the two largest disparities of the scene.
    let most = map.max_disp.unwrap();
    assert!(pixels(most) > 48.0 && pixels(most) <= 49.0);
    let mut checked = 0;
    for y in 11..HEIGHT - 11 {
        if ground_disparity(y - 5) != ground_disparity(y + 5) {
            continue;
        }
        for x in 11 + 100..WIDTH / 2 - 11 {
            let d = map.get(x, y);
            assert!((pixels(d) - ground_disparity(y) as f64).abs() <= 0.5);
            let grey = (pixels(d) * 255.0 / pixels(most)) as u32;
            let shown = buffer[WIDTH / 2 + x + y * WIDTH] & 0xff;
            assert!(shown == grey || shown + 1 == grey || shown == grey + 1);
            assert_eq!(buffer[WIDTH / 2 + x + y * WIDTH], shown * 0x0101_0101);
            checked += 1;
        }
    }
    assert!(checked > 30_000);
    assert_eq!(buffer[0], luma_to_u32(frame.left.get(0, 0) as u8));
    assert_eq!(buffer[WIDTH / 2], 0);
}

fn luma_to_u32(luma: u8) -> u32 {
    (luma as u32) << 24 | (luma as u32) << 16 | (luma as u32) << 8 | luma as u32
}
