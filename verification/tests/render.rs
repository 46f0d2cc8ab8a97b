use cs2_killtimer::render::{bitmap_size, compose_bgra, overlay_origin, PAD};
use cs2_killtimer::settings::{OVERLAY_OUTLINE_RADIUS_PX, OVERLAY_OUTLINE_RGB};

#[test]
fn origin_and_size() {
    assert_eq!(overlay_origin(100, 50, 1920, 1080, 40, 30), (100 + 960 - 20, 50 + 540 + 100 - 15));
    assert_eq!(bitmap_size(20, 30, 2), (32, 42));
}

#[test]
fn compose_fill_outline_and_fade() {
    // 5 x 3 map, one covered pixel in the middle
    let (w, h) = (5u32, 3u32);
    let mut cov = vec![0u8; 15];
    cov[7] = 200;
    let fill = vec![(100u8, 150u8, 250u8); 3];
    let alpha: Vec<u8> = (0..256u32).map(|b| b as u8).collect();
    let out = compose_bgra(&cov, w, h, 1, &fill, (12, 12, 18), &alpha);
    assert_eq!(out.len(), 60);
    let px = |q: usize| (out[4 * q], out[4 * q + 1], out[4 * q + 2], out[4 * q + 3]);
    // center: fill color premultiplied by 200
    assert_eq!(px(7), ((250u32 * 200 / 255) as u8, (150u32 * 200 / 255) as u8, (100u32 * 200 / 255) as u8, 200));
    // direct neighbours: outline with the center's coverage
    for q in [2usize, 6, 8, 12] {
        assert_eq!(px(q), ((18u32 * 200 / 255) as u8, (12u32 * 200 / 255) as u8, (12u32 * 200 / 255) as u8, 200));
    }
    // diagonal neighbours lie outside radius 1: transparent
    for q in [1usize, 3, 11, 13, 0, 4, 10, 14, 5, 9] {
        assert_eq!(px(q), (0, 0, 0, 0), "pixel {q}");
    }
    // fully faded out: nothing drawn
    let none = vec![0u8; 256];
    assert!(compose_bgra(&cov, w, h, 1, &fill, (12, 12, 18), &none).iter().all(|b| *b == 0));
}

#[test]
fn composed_pixels_are_premultiplied() {
    let (w, h) = (6u32, 4u32);
    let cov: Vec<u8> = (0..24u32).map(|i| ((i * 37) % 256) as u8).collect();
    let fill: Vec<(u8, u8, u8)> = (0..4u8).map(|r| (255 - r, 200, 10 * r)).collect();
    let alpha: Vec<u8> = (0..256u32).map(|b| (b * 3 / 4) as u8).collect();
    let out = compose_bgra(&cov, w, h, 2, &fill, (12, 12, 18), &alpha);
    for q in 0..24 {
        let a = out[4 * q + 3];
        assert!(out[4 * q] <= a && out[4 * q + 1] <= a && out[4 * q + 2] <= a);
        if a == 0 {
            assert_eq!(&out[4 * q..4 * q + 4], &[0, 0, 0, 0]);
        }
    }
}

#[test]
fn sizes_and_origins_at_the_edges() {
    assert_eq!(bitmap_size(0, 0, 0), (2 * PAD, 2 * PAD));
    assert_eq!(bitmap_size(100, 40, OVERLAY_OUTLINE_RADIUS_PX), (100 + 2 * (PAD + 2), 40 + 2 * (PAD + 2)));
    // a window partly off screen to the left and top: Rust's division towards zero
    assert_eq!(overlay_origin(-300, -200, 801, 601, 41, 31), (-300 + 400 - 20, -200 + 300 + 100 - 15));
    assert_eq!(overlay_origin(0, 0, 1, 1, 0, 0), (0, 100));
}

#[test]
fn channels_are_blue_green_red_alpha() {
    // 1 x 2 map, both pixels fully covered, a different fill per row
    let cov = vec![255u8, 255];
    let fill = vec![(255u8, 0u8, 0u8), (0u8, 0u8, 255u8)];
    let alpha: Vec<u8> = (0..256u32).map(|b| b as u8).collect();
    let out = compose_bgra(&cov, 1, 2, OVERLAY_OUTLINE_RADIUS_PX, &fill, OVERLAY_OUTLINE_RGB, &alpha);
    assert_eq!(out, vec![0, 0, 255, 255, 255, 0, 0, 255]);
}

#[test]
fn wider_radius_reaches_diagonals() {
    // 5 x 5 map, one covered pixel in the middle, radius 2
    let mut cov = vec![0u8; 25];
    cov[12] = 100;
    let fill = vec![(9u8, 9u8, 9u8); 5];
    let alpha: Vec<u8> = (0..256u32).map(|b| b as u8).collect();
    let out = compose_bgra(&cov, 5, 5, 2, &fill, (0, 0, 0), &alpha);
    let a = |x: usize, y: usize| out[4 * (5 * y + x) + 3];
    assert_eq!(a(1, 1), 100); // distance^2 = 2
    assert_eq!(a(0, 2), 100); // distance^2 = 4
    assert_eq!(a(0, 1), 0); // distance^2 = 5
    assert_eq!(a(0, 0), 0); // distance^2 = 8
}
