use wallcraft::palette::{pool_len, pool_palette, resolve_palette, resolve_with_draws, PoolId};
use wallcraft::rng::RandomStream;

fn strings(xs: &[&str]) -> Vec<String> {
    xs.iter().map(|s| s.to_string()).collect()
}

#[test]
fn pool_sizes_never_drift() {
    assert_eq!(pool_len(PoolId::Default), 8);
    assert_eq!(pool_len(PoolId::Retro), 9);
    assert_eq!(pool_len(PoolId::Neon), 4);
    assert_eq!(pool_len(PoolId::Cyberpunk), 4);
    assert_eq!(pool_len(PoolId::Synthwave), 4);
}

#[test]
fn pool_entry_accent_counts() {
    for i in 0..8 {
        assert_eq!(pool_palette(PoolId::Default, i).accents.len(), 5);
    }
    for i in 0..9 {
        assert_eq!(pool_palette(PoolId::Retro, i).accents.len(), 6);
    }
    for i in 0..4 {
        assert_eq!(pool_palette(PoolId::Neon, i).accents.len(), 5);
        assert_eq!(pool_palette(PoolId::Cyberpunk, i).accents.len(), 5);
        assert_eq!(pool_palette(PoolId::Synthwave, i).accents.len(), 5);
    }
}

#[test]
fn empty_schemes_resolve_to_a_default_entry_verbatim() {
    for i in 0..8usize {
        let p = resolve_with_draws(&strings(&[]), &vec![i], 0).unwrap();
        let e = pool_palette(PoolId::Default, i);
        assert_eq!(p.bg, e.bg);
        assert_eq!(p.accents, e.accents);
    }
}

#[test]
fn unrecognized_schemes_resolve_to_a_default_entry_verbatim() {
    let p = resolve_with_draws(&strings(&["vapor", "noir"]), &vec![3], 0).unwrap();
    let e = pool_palette(PoolId::Default, 3);
    assert_eq!(p.bg, e.bg);
    assert_eq!(p.accents, e.accents);
}

#[test]
fn first_default_entry_colors() {
    let p = resolve_with_draws(&strings(&[]), &vec![0], 0).unwrap();
    assert_eq!(p.bg, 0x0f172a);
    assert_eq!(p.accents, vec![0x3b82f6, 0x8b5cf6, 0x06b6d4, 0x6366f1, 0x2dd4bf]);
}

#[test]
fn retro_resolves_to_six_accents_and_a_retro_background() {
    let retro_bgs: Vec<u32> = (0..9).map(|i| pool_palette(PoolId::Retro, i).bg).collect();
    for i in 0..9usize {
        let p = resolve_with_draws(&strings(&["retro"]), &vec![i], 0).unwrap();
        assert_eq!(p.accents.len(), 6);
        assert!(retro_bgs.contains(&p.bg));
        assert_eq!(p.accents, pool_palette(PoolId::Retro, i).accents);
    }
}

#[test]
fn retro_cyberpunk_blend_concatenates_accents() {
    for bg_draw in 0..2usize {
        let p = resolve_with_draws(&strings(&["retro", "cyberpunk"]), &vec![2, 1], bg_draw)
            .unwrap();
        let r = pool_palette(PoolId::Retro, 2);
        let c = pool_palette(PoolId::Cyberpunk, 1);
        assert_eq!(p.accents.len(), 6 + 5);
        let mut expected = r.accents.clone();
        expected.extend_from_slice(&c.accents);
        assert_eq!(p.accents, expected);
        assert!(p.bg == r.bg || p.bg == c.bg);
        if bg_draw == 0 {
            assert_eq!(p.bg, r.bg);
        } else {
            assert_eq!(p.bg, c.bg);
        }
    }
}

#[test]
fn out_of_range_draws_are_refused() {
    assert!(resolve_with_draws(&strings(&["retro"]), &vec![9], 0).is_none());
    assert!(resolve_with_draws(&strings(&["retro"]), &vec![], 0).is_none());
    assert!(resolve_with_draws(&strings(&["retro", "neon"]), &vec![0, 0], 2).is_none());
}

#[test]
fn resolver_is_deterministic_for_equal_draws() {
    let schemes = strings(&["retro", "synthwave"]);
    let a = resolve_with_draws(&schemes, &vec![4, 2], 1).unwrap();
    let b = resolve_with_draws(&schemes, &vec![4, 2], 1).unwrap();
    assert_eq!(a.bg, b.bg);
    assert_eq!(a.accents, b.accents);
}

#[test]
fn random_stream_is_deterministic_per_seed() {
    let mut r1 = RandomStream::from_seed(99);
    let mut r2 = RandomStream::from_seed(99);
    for _ in 0..32 {
        assert_eq!(r1.below_u64(1_000_000), r2.below_u64(1_000_000));
    }
}

#[test]
fn resolver_from_stream_always_yields_a_default_entry_for_no_schemes() {
    let bgs: Vec<u32> = (0..8).map(|i| pool_palette(PoolId::Default, i).bg).collect();
    for seed in 0..24 {
        let mut rng = RandomStream::from_seed(seed);
        let p = resolve_palette(&strings(&[]), &mut rng);
        assert!(bgs.contains(&p.bg));
        assert_eq!(p.accents.len(), 5);
    }
}

#[test]
fn neon_pool_drives_scheme_b_palettes() {
    let neon_bgs: Vec<u32> = (0..4).map(|i| pool_palette(PoolId::Neon, i).bg).collect();
    for seed in 0..16 {
        let mut rng = RandomStream::from_seed(seed);
        let p = resolve_palette(&strings(&["neon"]), &mut rng);
        assert!(neon_bgs.contains(&p.bg));
        assert_eq!(p.accents.len(), 5);
    }
}
