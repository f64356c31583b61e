//! Tests for the filters: outcomes, exact pixel math, argument validation,
//! and the invariant that no filter changes the canvas size.

use tarnish::argerror_test;
use tarnish::colorize;
use tarnish::copy;
use tarnish::error_test;
use tarnish::hue_rotate;
use tarnish::mosaic;
use tarnish::pallettize;
use tarnish::pallettize_with;
use tarnish::rgb_replace;
use tarnish::Image;
use tarnish::ModResult;
use tarnish::Pixel;

fn px(r: u8, g: u8, b: u8, a: u8) -> Pixel {
    Pixel { r, g, b, a }
}

fn image(width: u32, height: u32, pixels: Vec<Pixel>) -> Image {
    assert_eq!(pixels.len() as u64, width as u64 * height as u64);
    Image { width, height, pixels }
}

fn solid(width: u32, height: u32, p: Pixel) -> Image {
    image(width, height, vec![p; (width * height) as usize])
}

fn sample() -> Image {
    image(
        2,
        2,
        vec![px(10, 20, 30, 40), px(200, 150, 100, 255), px(0, 0, 0, 0), px(255, 255, 255, 128)],
    )
}

fn args(list: &[&str]) -> Vec<String> {
    list.iter().map(|s| s.to_string()).collect()
}

fn expect_success(r: ModResult) -> Image {
    match r {
        ModResult::Success(img) => img,
        ModResult::Error(m) => panic!("unexpected operational error: {}", m),
        ModResult::ArgError(m) => panic!("unexpected argument error: {}", m),
    }
}

fn expect_arg_error(r: ModResult) -> String {
    match r {
        ModResult::ArgError(m) => m,
        _ => panic!("expected an argument error"),
    }
}

fn expect_op_error(r: ModResult) -> String {
    match r {
        ModResult::Error(m) => m,
        _ => panic!("expected an operational error"),
    }
}

#[test]
fn copy_returns_the_image_unchanged() {
    let img = sample();
    let out = expect_success(copy(sample(), args(&["ignored", "extra"])));
    assert_eq!(out.width, img.width);
    assert_eq!(out.height, img.height);
    assert_eq!(out.pixels, img.pixels);
}

#[test]
fn error_test_always_fails_with_its_message() {
    let m = expect_op_error(error_test(sample(), args(&[])));
    assert_eq!(m, "This error is intentional, and meant for testing.");
    let m = expect_op_error(error_test(solid(1, 1, px(9, 9, 9, 9)), args(&["x", "y"])));
    assert_eq!(m, "This error is intentional, and meant for testing.");
}

#[test]
fn argerror_test_always_fails_with_its_message() {
    let m = expect_arg_error(argerror_test(sample(), args(&[])));
    assert_eq!(m, "This argument error is intentional, and meant for testing.");
    let m = expect_arg_error(argerror_test(solid(1, 1, px(9, 9, 9, 9)), args(&["x"])));
    assert_eq!(m, "This argument error is intentional, and meant for testing.");
}

#[test]
fn hue_rotate_rejects_missing_or_bad_argument() {
    let msg = "Requires a number of degrees.";
    assert_eq!(expect_arg_error(hue_rotate(sample(), args(&[]))), msg);
    assert_eq!(expect_arg_error(hue_rotate(sample(), args(&["abc"]))), msg);
    assert_eq!(expect_arg_error(hue_rotate(sample(), args(&["12.5"]))), msg);
    assert_eq!(expect_arg_error(hue_rotate(sample(), args(&["2147483648"]))), msg);
}

#[test]
fn hue_rotate_full_turn_equals_no_turn() {
    let a = expect_success(hue_rotate(sample(), args(&["0"])));
    let b = expect_success(hue_rotate(sample(), args(&["360"])));
    let c = expect_success(hue_rotate(sample(), args(&["-360"])));
    assert_eq!(a.pixels, b.pixels);
    assert_eq!(a.pixels, c.pixels);
    assert_eq!(a.width, 2);
    assert_eq!(a.height, 2);
}

#[test]
fn hue_rotate_half_turn_changes_a_saturated_color() {
    let img = solid(1, 1, px(255, 0, 0, 77));
    let out = expect_success(hue_rotate(img, args(&["180"])));
    let q = out.pixels[0];
    assert_ne!((q.r, q.g, q.b), (255, 0, 0));
    assert_eq!(q.a, 77);
}

#[test]
fn hue_rotate_round_trip_is_close_for_muted_colors() {
    let img = solid(1, 1, px(140, 128, 120, 200));
    let once = expect_success(hue_rotate(img, args(&["180"])));
    let twice = expect_success(hue_rotate(once, args(&["180"])));
    let q = twice.pixels[0];
    assert!((q.r as i32 - 140).abs() <= 3);
    assert!((q.g as i32 - 128).abs() <= 3);
    assert!((q.b as i32 - 120).abs() <= 3);
    assert_eq!(q.a, 200);
}

#[test]
fn rgb_replace_identity_basis_reproduces_the_image() {
    let img = sample();
    let out = expect_success(rgb_replace(sample(), args(&["FF0000", "00FF00", "0000FF"])));
    assert_eq!(out.width, img.width);
    assert_eq!(out.height, img.height);
    assert_eq!(out.pixels, img.pixels);
}

#[test]
fn rgb_replace_can_permute_channels() {
    let img = solid(1, 1, px(10, 20, 30, 99));
    let out = expect_success(rgb_replace(img, args(&["00FF00", "0000FF", "FF0000"])));
    assert_eq!(out.pixels[0], px(30, 10, 20, 99));
}

#[test]
fn rgb_replace_clamps_blends_over_255() {
    let img = solid(1, 1, px(255, 255, 255, 5));
    let out = expect_success(rgb_replace(img, args(&["FFFFFF", "FFFFFF", "FFFFFF"])));
    assert_eq!(out.pixels[0], px(255, 255, 255, 5));
    let img = solid(1, 1, px(10, 20, 30, 5));
    let out = expect_success(rgb_replace(img, args(&["FFFFFF", "FFFFFF", "FFFFFF"])));
    assert_eq!(out.pixels[0], px(60, 60, 60, 5));
}

#[test]
fn rgb_replace_rejects_wrong_argument_count() {
    let msg = "Requires three hex-format colors, one for each R, G, and B.";
    assert_eq!(expect_arg_error(rgb_replace(sample(), args(&[]))), msg);
    assert_eq!(expect_arg_error(rgb_replace(sample(), args(&["FF0000", "00FF00"]))), msg);
    assert_eq!(
        expect_arg_error(rgb_replace(sample(), args(&["FF0000", "00FF00", "0000FF", "FF"]))),
        msg
    );
}

#[test]
fn rgb_replace_names_the_failing_color() {
    assert_eq!(
        expect_arg_error(rgb_replace(sample(), args(&["GG0000", "00FF00", "0000FF"]))),
        "Red hex color improperly formatted: Not a Hexadecimal Number."
    );
    assert_eq!(
        expect_arg_error(rgb_replace(sample(), args(&["FF0000", "00FF", "0000FF"]))),
        "Green hex color improperly formatted: Missing Digits."
    );
    assert_eq!(
        expect_arg_error(rgb_replace(sample(), args(&["FF0000", "00FF00", "0000FZ"]))),
        "Blue hex color improperly formatted: Not a Hexadecimal Number."
    );
}

#[test]
fn mosaic_rejects_bad_counts() {
    let msg = "Requires a number of pieces to make the mosaic out of.";
    assert_eq!(expect_arg_error(mosaic(sample(), args(&[]))), msg);
    assert_eq!(expect_arg_error(mosaic(sample(), args(&["3", "4"]))), msg);
    assert_eq!(expect_arg_error(mosaic(sample(), args(&["abc"]))), msg);
    assert_eq!(expect_arg_error(mosaic(sample(), args(&["-1"]))), msg);
    assert_eq!(expect_arg_error(mosaic(sample(), args(&["0"]))), msg);
    assert_eq!(expect_arg_error(mosaic(sample(), args(&["4294967296"]))), msg);
}

#[test]
fn mosaic_with_one_seed_floods_the_seed_color() {
    let img = image(
        3,
        2,
        vec![
            px(1, 0, 0, 10),
            px(2, 0, 0, 20),
            px(3, 0, 0, 30),
            px(4, 0, 0, 40),
            px(5, 0, 0, 50),
            px(6, 0, 0, 60),
        ],
    );
    let inputs = img.pixels.clone();
    let out = expect_success(mosaic(img, args(&["1"])));
    assert_eq!(out.width, 3);
    assert_eq!(out.height, 2);
    let first = out.pixels[0];
    assert!(out.pixels.iter().all(|q| *q == first));
    assert!(inputs.contains(&first));
}

#[test]
fn mosaic_of_uniform_image_is_uniform() {
    let img = solid(4, 4, px(12, 34, 56, 78));
    let out = expect_success(mosaic(img, args(&["5"])));
    assert_eq!(out.width, 4);
    assert_eq!(out.height, 4);
    assert!(out.pixels.iter().all(|q| *q == px(12, 34, 56, 78)));
}

#[test]
fn colorize_rejects_bad_arguments() {
    assert_eq!(
        expect_arg_error(colorize(sample(), args(&[]))),
        "Requires one hex-format color to recolor the image to."
    );
    assert_eq!(
        expect_arg_error(colorize(sample(), args(&["808080", "808080"]))),
        "Requires one hex-format color to recolor the image to."
    );
    assert_eq!(
        expect_arg_error(colorize(sample(), args(&["80808"]))),
        "Hex color improperly formatted: Missing Digits."
    );
    assert_eq!(
        expect_arg_error(colorize(sample(), args(&["80808z"]))),
        "Hex color improperly formatted: Not a Hexadecimal Number."
    );
}

#[test]
fn colorize_mid_gray_target_maps_extremes_and_matches() {
    let img = image(
        2,
        2,
        vec![px(0, 0, 0, 11), px(255, 255, 255, 22), px(128, 128, 128, 33), px(255, 0, 0, 44)],
    );
    let out = expect_success(colorize(img, args(&["808080"])));
    assert_eq!(out.width, 2);
    assert_eq!(out.height, 2);
    // pure black scales to black, keeping its alpha
    assert_eq!(out.pixels[0], px(0, 0, 0, 11));
    // pure white blends the whole way to white
    assert_eq!(out.pixels[1], px(255, 255, 255, 22));
    // a pixel at exactly the target luminance takes the target color
    assert_eq!(out.pixels[2], px(128, 128, 128, 33));
    // a darker pixel scales the target by its luminance share:
    // 128 * 542130 / 1280000 = 54
    assert_eq!(out.pixels[3], px(54, 54, 54, 44));
}

#[test]
fn colorize_brighter_pixel_blends_toward_white() {
    // luminance of (255,255,0) is 2365890; the target's is 1280000;
    // 128 + 127 * 1085890 / 1270000 = 236
    let img = solid(1, 1, px(255, 255, 0, 90));
    let out = expect_success(colorize(img, args(&["808080"])));
    assert_eq!(out.pixels[0], px(236, 236, 236, 90));
}

#[test]
fn pallettize_rejects_wrong_argument_count() {
    let msg = "Requires one file to use as a pallette.";
    assert_eq!(expect_arg_error(pallettize(sample(), args(&[]))), msg);
    assert_eq!(expect_arg_error(pallettize(sample(), args(&["a.png", "b.png"]))), msg);
}

#[test]
fn pallettize_reports_a_missing_reference_file() {
    let m = expect_op_error(pallettize(sample(), args(&["no_such_pallette_file.xyz"])));
    assert_eq!(m, "Error with pallette file: Failed to open file.");
}

#[test]
fn pallettize_with_single_color_reference_floods_it() {
    let reference = solid(2, 2, px(7, 8, 9, 250));
    let img = sample();
    let out = pallettize_with(&img, &reference);
    assert_eq!(out.width, img.width);
    assert_eq!(out.height, img.height);
    for (q, p) in out.pixels.iter().zip(img.pixels.iter()) {
        assert_eq!((q.r, q.g, q.b), (7, 8, 9));
        assert_eq!(q.a, p.a);
    }
}

#[test]
fn pallettize_with_picks_the_nearest_color() {
    let reference = image(2, 1, vec![px(0, 0, 0, 255), px(200, 200, 200, 255)]);
    let img = image(2, 1, vec![px(10, 10, 10, 1), px(190, 190, 190, 2)]);
    let out = pallettize_with(&img, &reference);
    assert_eq!(out.pixels[0], px(0, 0, 0, 1));
    assert_eq!(out.pixels[1], px(200, 200, 200, 2));
}

#[test]
fn pallettize_with_breaks_ties_toward_the_earlier_color() {
    let reference = image(2, 1, vec![px(10, 0, 0, 255), px(30, 0, 0, 255)]);
    let img = solid(1, 1, px(20, 0, 0, 9));
    let out = pallettize_with(&img, &reference);
    assert_eq!(out.pixels[0], px(10, 0, 0, 9));
}

#[test]
fn pallettize_with_empty_reference_blacks_out_colors() {
    let reference = image(0, 0, vec![]);
    let img = solid(1, 2, px(50, 60, 70, 80));
    let out = pallettize_with(&img, &reference);
    assert_eq!(out.pixels, vec![px(0, 0, 0, 80), px(0, 0, 0, 80)]);
}

#[test]
fn filters_preserve_dimensions() {
    let make = || solid(5, 3, px(100, 150, 200, 255));
    let cases: Vec<Image> = vec![
        expect_success(copy(make(), args(&[]))),
        expect_success(hue_rotate(make(), args(&["45"]))),
        expect_success(rgb_replace(make(), args(&["112233", "445566", "778899"]))),
        expect_success(mosaic(make(), args(&["3"]))),
        expect_success(colorize(make(), args(&["4080C0"]))),
        pallettize_with(&make(), &solid(1, 1, px(1, 2, 3, 4))),
    ];
    for out in cases {
        assert_eq!(out.width, 5);
        assert_eq!(out.height, 3);
        assert_eq!(out.pixels.len(), 15);
    }
}
