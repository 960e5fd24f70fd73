use rt::ppm::{as_rgb_string, ppm_header, push_decimal, write_image, Pixel8};

fn text(bytes: Vec<u8>) -> String {
    String::from_utf8(bytes).unwrap()
}

#[test]
fn decimal_digits_of_numbers() {
    for n in [0usize, 1, 9, 10, 11, 99, 100, 255, 256, 800, 1000, 65535, 1234567890, usize::MAX] {
        let mut out = vec![b'x'];
        push_decimal(&mut out, n);
        assert_eq!(text(out), format!("x{}", n));
    }
}

#[test]
fn header_names_format_size_and_depth() {
    assert_eq!(text(ppm_header(800, 600)), "P3\n800 600 # width, height\n255 # max color value\n");
    assert_eq!(text(ppm_header(0, 0)), "P3\n0 0 # width, height\n255 # max color value\n");
    assert_eq!(text(ppm_header(1, 12345)), "P3\n1 12345 # width, height\n255 # max color value\n");
}

#[test]
fn colour_text_is_three_numbers() {
    assert_eq!(text(as_rgb_string((0, 0, 0))), "0 0 0");
    assert_eq!(text(as_rgb_string((255, 255, 255))), "255 255 255");
    assert_eq!(text(as_rgb_string((12, 0, 255))), "12 0 255");
    assert_eq!(text(as_rgb_string((7, 100, 9))), "7 100 9");
}

#[test]
fn file_has_one_row_per_line() {
    let pixels: Vec<Pixel8> = vec![
        (0, 0, (255, 0, 0)),
        (1, 0, (0, 255, 0)),
        (2, 0, (0, 0, 255)),
        (0, 1, (1, 2, 3)),
        (1, 1, (40, 50, 60)),
        (2, 1, (7, 8, 9)),
    ];
    assert_eq!(
        text(write_image(3, 2, &pixels)),
        "P3\n3 2 # width, height\n255 # max color value\n\
         255 0 0 0 255 0 0 0 255\n\
         1 2 3 40 50 60 7 8 9\n"
    );
}

#[test]
fn file_of_a_single_column_breaks_after_every_pixel() {
    let pixels: Vec<Pixel8> = vec![(0, 0, (1, 1, 1)), (0, 1, (2, 2, 2))];
    assert_eq!(
        text(write_image(1, 2, &pixels)),
        "P3\n1 2 # width, height\n255 # max color value\n1 1 1\n2 2 2\n"
    );
}

#[test]
fn file_without_pixels_is_the_header() {
    assert_eq!(write_image(4, 4, &vec![]), ppm_header(4, 4));
    assert_eq!(write_image(0, 0, &vec![]), ppm_header(0, 0));
}

#[test]
fn file_follows_the_order_given_not_the_coordinates() {
    // The line break goes by the column that a pixel carries.
    let pixels: Vec<Pixel8> = vec![(1, 0, (1, 1, 1)), (0, 0, (2, 2, 2)), (1, 5, (3, 3, 3))];
    assert_eq!(
        text(write_image(2, 1, &pixels)),
        "P3\n2 1 # width, height\n255 # max color value\n1 1 1\n2 2 2 3 3 3\n"
    );
}

#[test]
fn file_of_width_zero_has_no_line_breaks_in_its_body() {
    let pixels: Vec<Pixel8> = vec![(0, 0, (1, 1, 1)), (usize::MAX, 0, (2, 2, 2))];
    assert_eq!(
        text(write_image(0, 1, &pixels)),
        "P3\n0 1 # width, height\n255 # max color value\n1 1 1 2 2 2 "
    );
}

use rt::ppm::{gamma_byte, gamma_table};

/// The gamma encoding of a byte in floating point.
fn float_gamma(b: u8) -> u8 {
    let linear = b as f64 / 255.0;
    let encoded = linear.powf(1.0 / 2.2);
    (encoded * 255.0).round() as u8
}

#[test]
fn gamma_of_every_byte_is_the_rounded_power() {
    for b in 0..=255u8 {
        assert_eq!(gamma_byte(b), float_gamma(b), "byte {}", b);
    }
}

#[test]
fn gamma_of_some_bytes() {
    assert_eq!(gamma_byte(0), 0);
    assert_eq!(gamma_byte(1), 21);
    assert_eq!(gamma_byte(2), 28);
    assert_eq!(gamma_byte(9), 56);
    assert_eq!(gamma_byte(128), 186);
    assert_eq!(gamma_byte(254), 255);
    assert_eq!(gamma_byte(255), 255);
}

#[test]
fn gamma_never_darkens_and_keeps_order() {
    let table = gamma_table();
    assert_eq!(table.len(), 256);
    for b in 0..256usize {
        assert_eq!(table[b], gamma_byte(b as u8));
        assert!(table[b] as usize >= b);
        if b > 0 {
            assert!(table[b - 1] <= table[b]);
        }
    }
}
