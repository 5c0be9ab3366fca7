use wallcraft::doc::{Document, Gradient, PathCmd, Primitive, Pt, Stop};
use wallcraft::b64::encode_base64;
use wallcraft::models::{build_prompt, cap_provider_axis, nearest_dalle_size, trim_str, upscaled_file_name, AppSettings};
use wallcraft::monitor::{layout_size, MonitorGeom};
use wallcraft::palette::str_eq;
use wallcraft::svg::svg_text;
use wallcraft::wallctl::{clean_wallpaper_uri, parse_wall_mode, WallMode};

#[test]
fn empty_document_markup() {
    let doc = Document { width: 4, height: 3, background: 0x0f172a, layers: vec![] };
    let s = svg_text(&doc);
    assert_eq!(
        s,
        "<svg xmlns=\"http://www.w3.org/2000/svg\" viewBox=\"0 0 4 3\" width=\"4\" height=\"3\">\n  <rect width=\"4\" height=\"3\" fill=\"#0f172a\"/>\n</svg>\n"
    );
}

#[test]
fn circle_markup_prints_fixed_point_values() {
    let doc = Document {
        width: 10,
        height: 10,
        background: 0x000000,
        layers: vec![
            Primitive::Circle { cx: 15, cy: -7, r: 120, fill: 0xff0055, opacity: 35 },
        ],
    };
    let s = svg_text(&doc);
    assert!(
        s.contains("  <circle cx=\"1.5\" cy=\"-0.7\" r=\"12.0\" fill=\"#ff0055\" opacity=\"0.35\"/>\n"),
        "markup was:\n{}",
        s
    );
}

#[test]
fn path_and_line_markup() {
    let doc = Document {
        width: 2,
        height: 2,
        background: 0xffffff,
        layers: vec![
            Primitive::Line { x1: 0, y1: 5, x2: 20, y2: 5, stroke: 0x123abc, width: 20, opacity: 80 },
            Primitive::StrokePath {
                cmds: vec![
                    PathCmd::MoveTo { x: 0, y: 0 },
                    PathCmd::CubicTo { x1: 1, y1: 2, x2: 3, y2: 4, x: 5, y: 6 },
                ],
                stroke: 0x00ff00,
                width: 15,
                opacity: 40,
                round_cap: true,
            },
        ],
    };
    let s = svg_text(&doc);
    assert!(s.contains(
        "  <line x1=\"0.0\" y1=\"0.5\" x2=\"2.0\" y2=\"0.5\" stroke=\"#123abc\" stroke-width=\"2.0\" opacity=\"0.80\"/>\n"
    ));
    assert!(s.contains(
        "  <path d=\"M 0.0 0.0 C 0.1 0.2, 0.3 0.4, 0.5 0.6\" fill=\"none\" stroke=\"#00ff00\" stroke-width=\"1.5\" opacity=\"0.40\" stroke-linecap=\"round\"/>\n"
    ));
}

#[test]
fn gradient_markup_numbers_definitions_by_layer_index() {
    let grad = Gradient::Linear {
        x1: 0,
        y1: 0,
        x2: 100,
        y2: 100,
        stops: vec![
            Stop { offset: 0, color: 0xff0000, opacity: 100 },
            Stop { offset: 100, color: 0x0000ff, opacity: 50 },
        ],
    };
    let doc = Document {
        width: 5,
        height: 5,
        background: 0x101010,
        layers: vec![
            Primitive::Rect { x: 0, y: 0, w: 10, h: 10, fill: 0x222222, opacity: 100 },
            Primitive::GradRect { w: 50, h: 50, grad, opacity: 70 },
        ],
    };
    let s = svg_text(&doc);
    assert!(s.contains("<linearGradient id=\"grad1\""));
    assert!(s.contains("fill=\"url(#grad1)\" opacity=\"0.70\""));
    assert!(s.contains(
        "      <stop offset=\"100%\" stop-color=\"#0000ff\" stop-opacity=\"0.50\"/>\n"
    ));
}

#[test]
fn polygon_markup_spaces_points() {
    let doc = Document {
        width: 3,
        height: 3,
        background: 0x000000,
        layers: vec![
            Primitive::Polygon {
                points: vec![Pt { x: 0, y: 0 }, Pt { x: 10, y: 0 }, Pt { x: 5, y: 9 }],
                fill: 0xabcdef,
                opacity: 15,
            },
        ],
    };
    let s = svg_text(&doc);
    assert!(s.contains(
        "  <polygon points=\"0.0,0.0 1.0,0.0 0.5,0.9\" fill=\"#abcdef\" opacity=\"0.15\"/>\n"
    ));
}

#[test]
fn str_eq_compares_by_content() {
    assert!(str_eq("retro", "retro"));
    assert!(!str_eq("retro", "retr"));
    assert!(!str_eq("retro", "neon"));
    assert!(str_eq("", ""));
}

#[test]
fn nearest_dalle_size_matches_aspect_bands() {
    assert_eq!(nearest_dalle_size(1920, 1080), "1792x1024");
    assert_eq!(nearest_dalle_size(1080, 1920), "1024x1792");
    assert_eq!(nearest_dalle_size(1024, 1024), "1024x1024");
    assert_eq!(nearest_dalle_size(7, 5), "1024x1024");
    assert_eq!(nearest_dalle_size(141, 100), "1792x1024");
    assert_eq!(nearest_dalle_size(69, 100), "1024x1792");
}

#[test]
fn trim_str_strips_ascii_whitespace() {
    assert_eq!(trim_str("\t hello world \n"), "hello world");
    assert_eq!(trim_str("   "), "");
    assert_eq!(trim_str(""), "");
    assert_eq!(trim_str("x"), "x");
    assert_eq!(trim_str("a b"), "a b");
}

#[test]
fn trim_str_strips_all_unicode_whitespace() {
    assert_eq!(trim_str("\u{b}x"), "x");
    assert_eq!(trim_str("\u{c}\u{85}y\u{a0}\u{2028}"), "y");
    assert_eq!(trim_str("\u{1680}\u{2003} z \u{3000}\u{205f}"), "z");
    assert_eq!(trim_str("\u{b}\u{a0}\u{3000}"), "");
    assert_eq!(trim_str(" he\u{a0}re "), "he\u{a0}re");
}

#[test]
fn build_prompt_trims_and_appends_the_quality_clause() {
    let suffix = "masterpiece, best quality, ultra-detailed, sharp focus, desktop wallpaper, no text, no watermark, no logo, no signature";
    assert_eq!(
        build_prompt(Some("  a misty forest  ")),
        format!("a misty forest, {}", suffix)
    );
    assert_eq!(
        build_prompt(Some("   ")),
        format!("A beautiful abstract desktop wallpaper, {}", suffix)
    );
    assert_eq!(
        build_prompt(None),
        format!("A beautiful abstract desktop wallpaper, {}", suffix)
    );
}

#[test]
fn build_prompt_treats_unicode_blank_as_empty() {
    let suffix = "masterpiece, best quality, ultra-detailed, sharp focus, desktop wallpaper, no text, no watermark, no logo, no signature";
    assert_eq!(
        build_prompt(Some("\u{b}\u{a0}\u{3000}")),
        format!("A beautiful abstract desktop wallpaper, {}", suffix)
    );
    assert_eq!(
        build_prompt(Some("\u{b}a forest\u{3000}")),
        format!("a forest, {}", suffix)
    );
}

#[test]
fn provider_fragments_match_the_originals() {
    assert_eq!(cap_provider_axis(1920), 1920);
    assert_eq!(cap_provider_axis(2048), 2048);
    assert_eq!(cap_provider_axis(2049), 2048);
    assert_eq!(cap_provider_axis(3840), 2048);
    assert_eq!(upscaled_file_name("shot"), "shot_upscaled.png");
    assert_eq!(upscaled_file_name(""), "_upscaled.png");
}

#[test]
fn base64_encoding_known_vectors() {
    assert_eq!(encode_base64(&vec![]), "");
    assert_eq!(encode_base64(&vec![1, 2, 3]), "AQID");
    assert_eq!(encode_base64(&b"hello".to_vec()), "aGVsbG8=");
    assert_eq!(encode_base64(&vec![0xff]), "/w==");
}

#[test]
fn wallpaper_uri_cleaning() {
    assert_eq!(clean_wallpaper_uri("'file:///a b.png'"), "/a b.png");
    assert_eq!(clean_wallpaper_uri(" \"file://x\" "), "x");
    assert_eq!(clean_wallpaper_uri("plain/path.png"), "plain/path.png");
    assert_eq!(clean_wallpaper_uri("''"), "");
    assert_eq!(clean_wallpaper_uri("file:"), "file:");
    // Single quotes are trimmed before double quotes, as the desktop
    // glue always did, so inner quotes survive.
    assert_eq!(clean_wallpaper_uri("\"'quoted'\""), "'quoted'");
}

#[test]
fn default_settings() {
    let s = AppSettings::default();
    assert_eq!(s.ai_provider, "pollinations");
    assert!(s.openai_api_key.is_none());
    assert!(s.save_directory.is_none());
    assert!(s.upscale_enabled);
    assert_eq!(s.upscale_factor, 4);
}

#[test]
fn wall_mode_parsing() {
    assert_eq!(parse_wall_mode("span"), WallMode::Span);
    assert_eq!(parse_wall_mode("fit"), WallMode::Fit);
    assert_eq!(parse_wall_mode("center"), WallMode::Center);
    assert_eq!(parse_wall_mode("anything else"), WallMode::Crop);
}

#[test]
fn monitor_layout_bounding_box() {
    let ms = vec![
        MonitorGeom { width: 1920, height: 1080, x: 0, y: 0 },
        MonitorGeom { width: 1280, height: 1024, x: 1920, y: 56 },
    ];
    assert_eq!(layout_size(&ms), (3200, 1080));
    let ms = vec![MonitorGeom { width: 800, height: 600, x: -800, y: -600 }];
    assert_eq!(layout_size(&ms), (800, 600));
    assert_eq!(layout_size(&vec![]), (0, 0));
}
