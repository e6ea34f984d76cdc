use raytracer::image::Rgb8;
use raytracer::ppm::to_ppm_bytes;

fn px(r: u8, g: u8, b: u8) -> Rgb8 {
    Rgb8 { r, g, b }
}

fn text(bytes: Vec<u8>) -> String {
    String::from_utf8(bytes).unwrap()
}

#[test]
fn ppm_header_of_empty_image() {
    let rows: Vec<Vec<Rgb8>> = vec![];
    assert_eq!(text(to_ppm_bytes(&rows, 0)), "P3\n0\n0\n255\n");
}

#[test]
fn ppm_single_pixel() {
    let rows = vec![vec![px(255, 0, 7)]];
    assert_eq!(text(to_ppm_bytes(&rows, 1)), "P3\n1\n1\n255\n255 0 7\n");
}

#[test]
fn ppm_lines_run_top_row_first() {
    // Row 0 is the bottom of the image, so its pixels come last.
    let rows = vec![
        vec![px(1, 2, 3), px(4, 5, 6)],
        vec![px(10, 20, 30), px(100, 200, 250)],
    ];
    assert_eq!(
        text(to_ppm_bytes(&rows, 2)),
        "P3\n2\n2\n255\n10 20 30\n100 200 250\n1 2 3\n4 5 6\n"
    );
}

#[test]
fn ppm_header_with_large_sizes() {
    let rows = vec![vec![px(0, 0, 0); 1200]; 3];
    let out = text(to_ppm_bytes(&rows, 1200));
    assert!(out.starts_with("P3\n1200\n3\n255\n0 0 0\n"));
    assert_eq!(out.lines().count(), 4 + 1200 * 3);
}
