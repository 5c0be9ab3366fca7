use wallcraft::engine::generate;
use wallcraft::error::AppError;
use wallcraft::rng::RandomStream;

fn strings(xs: &[&str]) -> Vec<String> {
    xs.iter().map(|s| s.to_string()).collect()
}

fn png_dims(bytes: &[u8]) -> (u32, u32) {
    let img = image::load_from_memory(bytes).expect("produced bytes must decode as an image");
    (img.width(), img.height())
}

#[test]
fn scenario_default_request_full_hd() {
    let mut rng = RandomStream::from_seed(7);
    let bytes = generate(&strings(&[]), &strings(&[]), None, 1920, 1080, &mut rng).unwrap();
    assert_eq!(png_dims(&bytes), (1920, 1080));
}

#[test]
fn scenario_dots_neon() {
    let mut rng = RandomStream::from_seed(11);
    let bytes = generate(&strings(&["dots"]), &strings(&["neon"]), None, 800, 600, &mut rng)
        .unwrap();
    assert_eq!(png_dims(&bytes), (800, 600));
}

#[test]
fn scenario_sunburst_square() {
    let mut rng = RandomStream::from_seed(13);
    let bytes = generate(&strings(&["sunburst"]), &strings(&[]), None, 500, 500, &mut rng)
        .unwrap();
    assert_eq!(png_dims(&bytes), (500, 500));
}

#[test]
fn output_matches_target_for_odd_aspect_ratios() {
    let mut rng = RandomStream::from_seed(3);
    let bytes = generate(&strings(&["waves"]), &strings(&[]), None, 321, 123, &mut rng).unwrap();
    assert_eq!(png_dims(&bytes), (321, 123));
}

#[test]
fn unknown_style_tag_still_succeeds() {
    let mut rng = RandomStream::from_seed(5);
    let bytes = generate(&strings(&["foobar"]), &strings(&[]), None, 200, 150, &mut rng).unwrap();
    assert_eq!(png_dims(&bytes), (200, 150));
}

#[test]
fn every_style_renders_at_target_size() {
    let styles = [
        "geometric", "gradient", "minimal", "lineart", "isometric", "abstract", "waves", "dots",
        "silkflow", "sunburst",
    ];
    for (i, st) in styles.iter().enumerate() {
        let mut rng = RandomStream::from_seed(100 + i as u64);
        let bytes = generate(&strings(&[st]), &strings(&[]), None, 160, 120, &mut rng).unwrap();
        assert_eq!(png_dims(&bytes), (160, 120));
    }
}

#[test]
fn zero_width_is_invalid_dimension() {
    let mut rng = RandomStream::from_seed(1);
    match generate(&strings(&[]), &strings(&[]), None, 0, 1080, &mut rng) {
        Err(AppError::InvalidDimension) => {},
        _ => panic!("a zero axis must be rejected as InvalidDimension"),
    }
}

#[test]
fn zero_height_is_invalid_dimension() {
    let mut rng = RandomStream::from_seed(1);
    match generate(&strings(&[]), &strings(&[]), None, 1920, 0, &mut rng) {
        Err(AppError::InvalidDimension) => {},
        _ => panic!("a zero axis must be rejected as InvalidDimension"),
    }
}

#[test]
fn absurd_size_is_a_rasterization_failure() {
    let mut rng = RandomStream::from_seed(1);
    match generate(&strings(&[]), &strings(&[]), None, 2_000_000, 10, &mut rng) {
        Err(AppError::RasterizationFailure(_)) => {},
        _ => panic!("an absurd target size must fail as RasterizationFailure"),
    }
}

#[test]
fn custom_prompt_plays_no_part_in_vector_mode() {
    let mut r1 = RandomStream::from_seed(21);
    let mut r2 = RandomStream::from_seed(21);
    let prompt = "a quiet mountain".to_string();
    let a = generate(&strings(&["minimal"]), &strings(&[]), None, 64, 64, &mut r1).unwrap();
    let b = generate(&strings(&["minimal"]), &strings(&[]), Some(prompt.as_str()), 64, 64, &mut r2)
        .unwrap();
    assert_eq!(a, b);
}

#[test]
fn same_seed_same_request_same_bytes() {
    let mut r1 = RandomStream::from_seed(42);
    let mut r2 = RandomStream::from_seed(42);
    let a = generate(&strings(&["geometric"]), &strings(&["retro"]), None, 96, 96, &mut r1)
        .unwrap();
    let b = generate(&strings(&["geometric"]), &strings(&["retro"]), None, 96, 96, &mut r2)
        .unwrap();
    assert_eq!(a, b);
}

#[test]
fn error_messages_name_the_failure() {
    let m = AppError::InvalidDimension.message();
    assert_eq!(m, "Image generation failed: width and height must be positive");
    let m = AppError::Wallpaper("no desktop".to_string()).message();
    assert_eq!(m, "Wallpaper operation failed: no desktop");
}
