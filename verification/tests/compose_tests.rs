use wallcraft::compose::compose;
use wallcraft::doc::Primitive;
use wallcraft::palette::{pool_palette, resolve_palette, PoolId};
use wallcraft::rng::RandomStream;
use wallcraft::styles::{parse_style, parse_styles, Style};

fn strings(xs: &[&str]) -> Vec<String> {
    xs.iter().map(|s| s.to_string()).collect()
}

fn is_geometric_shape(p: &Primitive) -> bool {
    matches!(
        p,
        Primitive::Polygon { .. } | Primitive::RotRect { .. } | Primitive::Circle { .. }
    )
}

#[test]
fn unknown_tag_parses_as_geometric() {
    assert_eq!(parse_style("foobar"), Style::Geometric);
    assert_eq!(parse_style("foobar"), parse_style("geometric"));
    assert_eq!(parse_style("dots"), Style::Dots);
    assert_eq!(parse_style("sunburst"), Style::Sunburst);
}

#[test]
fn empty_style_list_defaults_to_geometric_then_gradient() {
    let sts = parse_styles(&strings(&[]));
    assert_eq!(sts, vec![Style::Geometric, Style::Gradient]);
}

#[test]
fn scenario_default_composition_layers() {
    let mut rng = RandomStream::from_seed(17);
    let pal = resolve_palette(&strings(&[]), &mut rng);
    let doc = compose(&strings(&[]), &pal, 1920, 1080, &mut rng);
    assert_eq!(doc.width, 1920);
    assert_eq!(doc.height, 1080);
    assert_eq!(doc.background, pal.bg);
    // The geometric layer comes first; the gradient layer opens with its
    // full-canvas gradient rectangle.
    let split = doc
        .layers
        .iter()
        .position(|p| matches!(p, Primitive::GradRect { .. }))
        .expect("the gradient layer must start with a gradient rectangle");
    assert!(15 <= split && split <= 29, "geometric layer held {} shapes", split);
    assert!(doc.layers[..split].iter().all(is_geometric_shape));
}

#[test]
fn unknown_tag_layer_has_geometric_shape_counts() {
    let mut rng = RandomStream::from_seed(23);
    let pal = resolve_palette(&strings(&[]), &mut rng);
    let doc = compose(&strings(&["foobar"]), &pal, 640, 480, &mut rng);
    assert!(15 <= doc.layers.len() && doc.layers.len() <= 29);
    assert!(doc.layers.iter().all(is_geometric_shape));
}

#[test]
fn scenario_dots_grid_spacing() {
    let mut rng = RandomStream::from_seed(29);
    let pal = resolve_palette(&strings(&["neon"]), &mut rng);
    let doc = compose(&strings(&["dots"]), &pal, 800, 600, &mut rng);
    assert!(doc.layers.len() > 1);
    let (cx0, cx1) = match (&doc.layers[0], &doc.layers[1]) {
        (Primitive::Circle { cx: a, .. }, Primitive::Circle { cx: b, .. }) => (*a, *b),
        _ => panic!("the dots layer must hold circles"),
    };
    let spacing = cx1 - cx0;
    // Grid spacing between 0.04 and 0.08 of the 800 px width, that is
    // between 32 and 64 pixels (deci-pixel units here).
    assert!(320 <= spacing && spacing < 640, "spacing was {} deci-pixels", spacing);
    // All dots lie on the same grid, sized within 0.3 to 1.8 of the base
    // radius.
    let base = spacing / 5;
    for p in doc.layers.iter() {
        match p {
            Primitive::Circle { cx, cy, r, .. } => {
                assert_eq!((cx - cx0).rem_euclid(spacing), 0);
                assert_eq!((cy - cx0).rem_euclid(spacing), 0);
                assert!(base * 300 / 1000 <= *r && *r <= base * 1800 / 1000);
            },
            _ => panic!("the dots layer must hold circles only"),
        }
    }
}

#[test]
fn scenario_sunburst_is_one_substyle() {
    for seed in 0..12u64 {
        let mut rng = RandomStream::from_seed(seed);
        let pal = resolve_palette(&strings(&[]), &mut rng);
        let doc = compose(&strings(&["sunburst"]), &pal, 500, 500, &mut rng);
        // Rings first, rays after, nothing else; never a mix with any
        // other generator's primitives.
        assert!(
            doc.layers.len() >= 10,
            "a sunburst layer is never empty nor tiny; it held {}",
            doc.layers.len()
        );
        let mut seen_ray = false;
        let mut rays = 0usize;
        let mut apex: Option<(i64, i64)> = None;
        let mut band: Option<i64> = None;
        for p in doc.layers.iter() {
            match p {
                Primitive::Ring { r, width, opacity, .. } => {
                    assert!(!seen_ray, "a ring may not follow a ray");
                    assert_eq!(*opacity, 85);
                    // One band width shared by all rings; radii are
                    // whole multiples of it.
                    match band {
                        None => band = Some(*width),
                        Some(bw) => assert_eq!(*width, bw),
                    }
                    assert_eq!(r % width, 0);
                },
                Primitive::Polygon { points, opacity, .. } => {
                    seen_ray = true;
                    rays += 1;
                    assert_eq!(points.len(), 3);
                    assert_eq!(*opacity, 85);
                    // Every wedge shares one apex.
                    let p0 = (points[0].x, points[0].y);
                    match apex {
                        None => apex = Some(p0),
                        Some(a) => assert_eq!(p0, a),
                    }
                },
                _ => panic!("sunburst emits rings and ray wedges only"),
            }
        }
        if rays > 0 {
            assert!(12 <= rays && rays <= 21, "ray count was {}", rays);
        }
    }
}

#[test]
fn silkflow_layer_shape() {
    let mut rng = RandomStream::from_seed(31);
    let pal = resolve_palette(&strings(&["synthwave"]), &mut rng);
    let doc = compose(&strings(&["silkflow"]), &pal, 400, 300, &mut rng);
    let n = doc.layers.len();
    assert!(7 <= n && n <= 10);
    for p in doc.layers[..n - 1].iter() {
        match p {
            Primitive::GradPath { cmds, opacity, .. } => {
                assert_eq!(cmds.len(), 6);
                assert!(25 <= *opacity && *opacity <= 54);
            },
            _ => panic!("silkflow ribbons must be gradient paths"),
        }
    }
    assert!(matches!(doc.layers[n - 1], Primitive::GradEllipse { .. }));
}

#[test]
fn waves_layer_shape() {
    let mut rng = RandomStream::from_seed(37);
    let pal = resolve_palette(&strings(&[]), &mut rng);
    let doc = compose(&strings(&["waves"]), &pal, 640, 400, &mut rng);
    let bands = doc
        .layers
        .iter()
        .take_while(|p| matches!(p, Primitive::FillPath { .. }))
        .count();
    assert!(8 <= bands && bands <= 15, "band count was {}", bands);
    // Every band outline holds the 81 upper and 81 lower wave samples
    // plus the closing command.
    for p in doc.layers[..bands].iter() {
        match p {
            Primitive::FillPath { cmds, .. } => assert_eq!(cmds.len(), 163),
            _ => unreachable!(),
        }
    }
    let accents = doc.layers.len() - bands;
    assert!(3 <= accents && accents <= 5, "accent count was {}", accents);
    for p in doc.layers[bands..].iter() {
        assert!(matches!(p, Primitive::StrokePath { width: 15, opacity: 40, .. }));
    }
}

#[test]
fn minimal_and_lineart_counts() {
    let mut rng = RandomStream::from_seed(41);
    let pal = resolve_palette(&strings(&[]), &mut rng);
    let doc = compose(&strings(&["minimal"]), &pal, 320, 200, &mut rng);
    assert!(3 <= doc.layers.len() && doc.layers.len() <= 5);
    let doc = compose(&strings(&["lineart"]), &pal, 320, 200, &mut rng);
    assert!(5 <= doc.layers.len() && doc.layers.len() <= 11);
    for p in doc.layers.iter() {
        assert!(matches!(p, Primitive::StrokePath { round_cap: true, .. }));
    }
}

#[test]
fn gradient_layer_stops_follow_palette_order() {
    let mut rng = RandomStream::from_seed(43);
    let pal = pool_palette(PoolId::Default, 0);
    let doc = compose(&strings(&["gradient"]), &pal, 300, 300, &mut rng);
    assert!(5 <= doc.layers.len() && doc.layers.len() <= 8);
    match &doc.layers[0] {
        Primitive::GradRect { grad: wallcraft::doc::Gradient::Linear { stops, .. }, opacity, .. } => {
            assert_eq!(*opacity, 70);
            assert_eq!(stops.len(), 5);
            for (j, s) in stops.iter().enumerate() {
                assert_eq!(s.color, pal.accents[j]);
                assert_eq!(s.offset as usize, j * 100 / 4);
            }
        },
        _ => panic!("the gradient layer must start with the main gradient rectangle"),
    }
}

#[test]
fn isometric_faces_come_in_pairs() {
    let mut rng = RandomStream::from_seed(47);
    let pal = resolve_palette(&strings(&[]), &mut rng);
    let doc = compose(&strings(&["isometric"]), &pal, 400, 300, &mut rng);
    assert_eq!(doc.layers.len() % 2, 0);
    for p in doc.layers.iter() {
        match p {
            Primitive::Polygon { points, .. } => assert_eq!(points.len(), 4),
            _ => panic!("isometric blocks are polygons"),
        }
    }
    // Each pair shares its fill, and the left face is at 0.7 of the
    // top face's opacity.
    for pair in doc.layers.chunks(2) {
        match (&pair[0], &pair[1]) {
            (
                Primitive::Polygon { fill: f1, opacity: o1, .. },
                Primitive::Polygon { fill: f2, opacity: o2, .. },
            ) => {
                assert_eq!(f1, f2);
                assert_eq!(*o2, *o1 * 7 / 10);
            },
            _ => panic!("isometric blocks are polygons"),
        }
    }
}

#[test]
fn abstract_blobs_are_closed_loops() {
    let mut rng = RandomStream::from_seed(53);
    let pal = resolve_palette(&strings(&[]), &mut rng);
    let doc = compose(&strings(&["abstract"]), &pal, 400, 300, &mut rng);
    assert!(6 <= doc.layers.len() && doc.layers.len() <= 13);
    for p in doc.layers.iter() {
        match p {
            Primitive::FillPath { cmds, .. } => {
                assert!(matches!(cmds.first(), Some(wallcraft::doc::PathCmd::MoveTo { .. })));
                assert!(matches!(cmds.last(), Some(wallcraft::doc::PathCmd::Close)));
            },
            _ => panic!("abstract blobs are filled paths"),
        }
    }
}
