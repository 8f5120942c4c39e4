use rt::ppm::{write_ppm_p3, Rgb8};
use rt::texture::{next_usize, parse_ppm_p3, tokenize, PpmError, PpmField, PpmImage};

fn intensity(img: &PpmImage, i: usize) -> f64 {
    img.samples[i] as f64 / img.maxval as f64
}

fn color(img: &PpmImage, pixel: usize) -> (f64, f64, f64) {
    (intensity(img, 3 * pixel), intensity(img, 3 * pixel + 1), intensity(img, 3 * pixel + 2))
}

fn chars(s: &str) -> Vec<char> {
    s.chars().collect()
}

#[test]
fn parses_minimal_p3() {
    let tex = parse_ppm_p3("P3\n2 1\n255\n255 0 0 0 255 0\n").unwrap();
    assert_eq!(tex.width, 2);
    assert_eq!(tex.height, 1);
    assert_eq!(color(&tex, 0), (1.0, 0.0, 0.0));
    assert_eq!(color(&tex, 1), (0.0, 1.0, 0.0));
}

#[test]
fn ignores_comments_and_extra_whitespace() {
    let tex = parse_ppm_p3(
        "P3\n# a comment\n2 2 # trailing comment\n255\n\
         255 255 255   0 0 0\n0 0 0   255 255 255\n",
    )
    .unwrap();
    assert_eq!(tex.width, 2);
    assert_eq!(tex.height, 2);
    assert_eq!(color(&tex, 0), (1.0, 1.0, 1.0));
    assert_eq!(color(&tex, 3), (1.0, 1.0, 1.0));
}

#[test]
fn rejects_non_p3_magic() {
    assert!(parse_ppm_p3("P6\n1 1\n255\n255 0 0\n").is_err());
}

#[test]
fn error_for_each_header_problem() {
    assert_eq!(parse_ppm_p3(""), Err(PpmError::Empty));
    assert_eq!(parse_ppm_p3("  # only a comment\n"), Err(PpmError::Empty));
    assert_eq!(parse_ppm_p3("P6 1 1 255 0 0 0"), Err(PpmError::UnsupportedFormat(chars("P6"))));
    assert_eq!(parse_ppm_p3("p3 1 1 255 0 0 0"), Err(PpmError::UnsupportedFormat(chars("p3"))));
    assert_eq!(parse_ppm_p3("P3"), Err(PpmError::Missing(PpmField::Width)));
    assert_eq!(parse_ppm_p3("P3 2"), Err(PpmError::Missing(PpmField::Height)));
    assert_eq!(parse_ppm_p3("P3 2 2"), Err(PpmError::Missing(PpmField::Maxval)));
    assert_eq!(parse_ppm_p3("P3 x 2 255"), Err(PpmError::Invalid(PpmField::Width, chars("x"))));
    assert_eq!(parse_ppm_p3("P3 2 -2 255"), Err(PpmError::Invalid(PpmField::Height, chars("-2"))));
    assert_eq!(parse_ppm_p3("P3 2 2 2.5"), Err(PpmError::Invalid(PpmField::Maxval, chars("2.5"))));
    assert_eq!(parse_ppm_p3("P3 0 2 255"), Err(PpmError::ZeroDimension));
    assert_eq!(parse_ppm_p3("P3 2 0 255"), Err(PpmError::ZeroDimension));
    assert_eq!(parse_ppm_p3("P3 1 1 0 0 0 0"), Err(PpmError::ZeroMaxval));
}

#[test]
fn error_for_each_sample_problem() {
    assert_eq!(parse_ppm_p3("P3 1 1 255 1 2"), Err(PpmError::Missing(PpmField::PixelComponent)));
    assert_eq!(
        parse_ppm_p3("P3 1 1 255 1 y 3"),
        Err(PpmError::Invalid(PpmField::PixelComponent, chars("y")))
    );
    // The first bad sample decides.
    assert_eq!(
        parse_ppm_p3("P3 2 1 255 1 a 3 b"),
        Err(PpmError::Invalid(PpmField::PixelComponent, chars("a")))
    );
    // Dimensions far beyond the samples present: the samples run out.
    assert_eq!(
        parse_ppm_p3("P3 18446744073709551615 18446744073709551615 255 1 2 3"),
        Err(PpmError::Missing(PpmField::PixelComponent))
    );
    assert_eq!(
        parse_ppm_p3("P3 99999999999 1 255 1 2 z"),
        Err(PpmError::Invalid(PpmField::PixelComponent, chars("z")))
    );
}

#[test]
fn samples_above_maxval_are_clamped() {
    let img = parse_ppm_p3("P3 1 1 15 16 +15 7").unwrap();
    assert_eq!(img.maxval, 15);
    assert_eq!(img.samples, vec![15, 15, 7]);
    assert_eq!(color(&img, 0).0, 1.0);
}

#[test]
fn extra_tokens_after_the_samples_are_ignored() {
    let img = parse_ppm_p3("P3 1 1 255 1 2 3 4 5 junk").unwrap();
    assert_eq!(img.samples, vec![1, 2, 3]);
}

#[test]
fn comments_split_tokens_and_end_at_newline() {
    let img = parse_ppm_p3("P3#x\n1#y 2\n1\n255 9#\n8 7").unwrap();
    assert_eq!((img.width, img.height, img.maxval), (1, 1, 255));
    assert_eq!(img.samples, vec![9, 8, 7]);
    // A comment runs to the end of its line only.
    assert_eq!(parse_ppm_p3("P3 1 1 255 # 1 2 3"), Err(PpmError::Missing(PpmField::PixelComponent)));
}

#[test]
fn unicode_whitespace_separates_tokens() {
    let img = parse_ppm_p3("P3\u{3000}1\u{a0}1\t255\r\n1\u{2009}2\u{85}3").unwrap();
    assert_eq!(img.samples, vec![1, 2, 3]);
}

#[test]
fn tokenizer_and_field_reader() {
    let toks = tokenize(&chars("P3 # c\n 12  ab"));
    assert_eq!(toks, vec![chars("P3"), chars("12"), chars("ab")]);
    assert_eq!(next_usize(&toks, 1, PpmField::Width), Ok(12));
    assert_eq!(next_usize(&toks, 2, PpmField::Height), Err(PpmError::Invalid(PpmField::Height, chars("ab"))));
    assert_eq!(next_usize(&toks, 3, PpmField::Maxval), Err(PpmError::Missing(PpmField::Maxval)));
}

#[test]
fn texel_reads_row_major_and_clamps_coordinates() {
    let img = parse_ppm_p3("P3 2 2 255  1 2 3  4 5 6  7 8 9  10 11 12").unwrap();
    assert_eq!(img.texel(0, 0), (1, 2, 3));
    assert_eq!(img.texel(1, 0), (4, 5, 6));
    assert_eq!(img.texel(0, 1), (7, 8, 9));
    assert_eq!(img.texel(1, 1), (10, 11, 12));
    assert_eq!(img.texel(5, 0), (4, 5, 6));
    assert_eq!(img.texel(0, 9), (7, 8, 9));
    assert_eq!(img.texel(usize::MAX, usize::MAX), (10, 11, 12));
}

#[test]
fn written_image_reads_back() {
    let pixels: Vec<Rgb8> = vec![(255, 0, 128), (0, 7, 99), (1, 2, 3), (200, 100, 50), (9, 90, 255), (0, 0, 0)];
    let mut buf = Vec::new();
    write_ppm_p3(&mut buf, 3, 2, &pixels);
    let text = String::from_utf8(buf).unwrap();
    let img = parse_ppm_p3(&text).unwrap();
    assert_eq!((img.width, img.height, img.maxval), (3, 2, 255));
    let expected: Vec<usize> = pixels.iter().flat_map(|&(r, g, b)| [r as usize, g as usize, b as usize]).collect();
    assert_eq!(img.samples, expected);
}

fn message(err: &PpmError) -> String {
    rt::texture::error_message("tex.ppm", err).into_iter().collect()
}

#[test]
fn error_messages_name_the_file_and_the_problem() {
    assert_eq!(message(&PpmError::Empty), "tex.ppm: empty file");
    assert_eq!(
        message(&PpmError::UnsupportedFormat(chars("P6"))),
        "tex.ppm: unsupported format 'P6' (only P3 ASCII PPM is supported)"
    );
    assert_eq!(message(&PpmError::Missing(PpmField::Width)), "tex.ppm: missing width");
    assert_eq!(message(&PpmError::Missing(PpmField::PixelComponent)), "tex.ppm: missing pixel component");
    assert_eq!(message(&PpmError::Invalid(PpmField::Maxval, chars("2.5"))), "tex.ppm: invalid maxval '2.5'");
    assert_eq!(message(&PpmError::Invalid(PpmField::Height, chars("-2"))), "tex.ppm: invalid height '-2'");
    assert_eq!(message(&PpmError::ZeroDimension), "tex.ppm: width/height must be > 0");
    assert_eq!(message(&PpmError::ZeroMaxval), "tex.ppm: maxval must be > 0");
}
