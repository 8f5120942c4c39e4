use rt::ppm::{write_ppm_p3, Rgb8};

fn ppm_text(width: u32, height: u32, pixels: &[Rgb8]) -> String {
    let mut buf = Vec::new();
    write_ppm_p3(&mut buf, width, height, pixels);
    String::from_utf8(buf).unwrap()
}

// The renderer turns the colors (1.0, 0.0, 0.5) into the bytes (255, 0, 128).
#[test]
fn header_and_one_pixel() {
    let pixels: [Rgb8; 1] = [(255, 0, 128)];
    let s = ppm_text(1, 1, &pixels);
    assert_eq!(s, "P3\n1 1\n255\n255 0 128\n");
}

// The renderer turns pure red and pure green into (255, 0, 0) and (0, 255, 0).
#[test]
fn row_major_two_by_one() {
    let pixels: [Rgb8; 2] = [(255, 0, 0), (0, 255, 0)];
    let s = ppm_text(2, 1, &pixels);
    let lines: Vec<_> = s.lines().collect();
    assert_eq!(lines[0], "P3");
    assert_eq!(lines[1], "2 1");
    assert_eq!(lines[2], "255");
    assert_eq!(lines[3], "255 0 0");
    assert_eq!(lines[4], "0 255 0");
}

#[test]
fn appends_after_existing_bytes() {
    let mut buf = b"prefix".to_vec();
    write_ppm_p3(&mut buf, 1, 2, &[(1, 2, 3), (40, 50, 60)]);
    assert_eq!(String::from_utf8(buf).unwrap(), "prefixP3\n1 2\n255\n1 2 3\n40 50 60\n");
}

#[test]
fn large_dimensions_are_written_in_full() {
    let mut buf = Vec::new();
    write_ppm_p3(&mut buf, 1000000, 0, &[]);
    assert_eq!(String::from_utf8(buf).unwrap(), "P3\n1000000 0\n255\n");
    let mut buf = Vec::new();
    write_ppm_p3(&mut buf, 0, 4294967295, &[]);
    assert_eq!(String::from_utf8(buf).unwrap(), "P3\n0 4294967295\n255\n");
}

#[test]
fn pixel_lines_follow_buffer_order() {
    let pixels: Vec<Rgb8> = (0..6u8).map(|i| (i, 10 * i, 255 - i)).collect();
    let s = ppm_text(3, 2, &pixels);
    let lines: Vec<_> = s.lines().collect();
    assert_eq!(lines.len(), 3 + 6);
    assert_eq!(lines[3], "0 0 255");
    assert_eq!(lines[8], "5 50 250");
}
