//! Disparity generation on a stream of frames, switched on and off while
//! the stream runs.

use cv_disparity::disparity::{Disparity, SUBPIXEL_SCALE};
use cv_disparity::frame::StereoFrame;
use cv_disparity::grid::Grid;
use cv_disparity::mcmanamon::{McManamon, Params};
use cv_disparity::prelude::DisparityAlgorithm;

const WIDTH: usize = 640 * 2;
const HEIGHT: usize = 480;

/// One frame of the stream: a wall that comes nearer from frame to frame.
fn capture(index: usize) -> StereoFrame {
    let (width, height) = (640, 480);
    let shift = 30 + index;
    let mut state: u64 = 30 + index as u64;
    let mut left = Vec::with_capacity(width * height);
    let mut right = Vec::with_capacity(width * height);
    for _ in 0..height {
        let mut row = Vec::with_capacity(width + shift);
        for _ in 0..width + shift {
            state = state.wrapping_mul(6364136223846793005).wrapping_add(1442695040888963407);
            row.push((state >> 56) as u16);
        }
        for x in 0..width {
            left.push(row[x]);
            right.push(row[x + shift]);
        }
    }
    StereoFrame {
        left: Grid::from_vec(width, height, left).unwrap(),
        left_timestamp: 0,
        right: Grid::from_vec(width, height, right).unwrap(),
        right_timestamp: 0,
    }
}

fn pixels(d: Disparity) -> f64 {
    d.whole as f64 + d.frac as f64 / SUBPIXEL_SCALE as f64
}

#[test]
fn stereo_bench() {
    let mut buffer: Vec<u32> = vec![0; WIDTH * HEIGHT];

    // Disparity method
    let mut disp = McManamon::new(Params {
        min_disparity: 0,
        max_disparity: 100,
        dyn_disparity_threshold: 2,
        correlation_window_size: (11, 11),
    });

    // Flag indicating whether or not to compute disparity
    let mut comp_disp = false;

    for index in 0..3 {
        // The switch is thrown before the second frame.
        if index == 1 {
            comp_disp = !comp_disp;
        }

        let frame = capture(index);

        let mut right: Vec<u8> = Vec::with_capacity(640 * 480);
        for y in 0..480 {
            for x in 0..640 {
                right.push(frame.right.get(x, y) as u8);
            }
        }

        if comp_disp {
            // Compute disparity
            let disp_map = disp.compute(&frame).unwrap();

            let shift = (30 + index) as f64;
            for y in 11..480 - 11 {
                for x in 11 + 100..640 - 11 {
                    assert!((pixels(disp_map.get(x, y)) - shift).abs() <= 0.5);
                }
            }

            // Convert disparity map to greyscale image
            let grey = disp_map.to_luma_normalised();
            for y in 0..480 {
                for x in 0..640 {
                    right[x + y * 640] = grey.get_pixel(x as u32, y as u32);
                }
            }
        }

        for y in 0..(HEIGHT) {
            for x in 0..(WIDTH) {
                if x > (WIDTH / 2) - 1 {
                    buffer[x + y * WIDTH] = luma_to_u32(right[(x - (WIDTH / 2)) + y * 640]);
                } else {
                    buffer[x + y * WIDTH] = luma_to_u32(frame.left.get(x, y) as u8);
                }
            }
        }

        if comp_disp {
            // Every disparity found is the largest of the map or within a
            // pixel of it, so the right half is all but white.
            assert!(buffer[WIDTH / 2 + 320 + 240 * WIDTH] & 0xff >= 250);
            assert_eq!(buffer[WIDTH / 2], 0);
        } else {
            assert_eq!(buffer[WIDTH / 2], luma_to_u32(frame.right.get(0, 0) as u8));
        }
    }
}

fn luma_to_u32(luma: u8) -> u32 {
    (luma as u32) << 24 | (luma as u32) << 16 | (luma as u32) << 8 | luma as u32
}
