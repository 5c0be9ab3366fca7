use vstd::prelude::*;

verus! {

/// A resolved color palette: one background color and an ordered,
/// non-empty list of accent colors.  Colors are packed `0xRRGGBB`.
pub struct Palette {
    pub bg: u32,
    pub accents: Vec<u32>,
}

/// The five fixed palette pools shipped as static configuration data.
#[derive(Clone, Copy, PartialEq, Eq, Structural, Debug)]
pub enum PoolId {
    Default,
    Retro,
    Neon,
    Cyberpunk,
    Synthwave,
}

/// Number of palettes in each pool.
pub open spec fn pool_size(p: PoolId) -> int {
    match p {
        PoolId::Default => 8,
        PoolId::Retro => 9,
        PoolId::Neon => 4,
        PoolId::Cyberpunk => 4,
        PoolId::Synthwave => 4,
    }
}

/// Entry `i` of pool `p`: the background color and the accent list.
pub open spec fn pool_entry(p: PoolId, i: int) -> (u32, Seq<u32>) {
    match p {
        PoolId::Default => {
            if i == 0 { (0x0f172a, seq![0x3b82f6u32, 0x8b5cf6, 0x06b6d4, 0x6366f1, 0x2dd4bf]) }
            else if i == 1 { (0x1a1a2e, seq![0xe94560u32, 0x533483, 0x0f3460, 0x16213e, 0xe94560]) }
            else if i == 2 { (0x0d1117, seq![0x58a6ffu32, 0xbc8cff, 0x7ee787, 0xffa657, 0xff7b72]) }
            else if i == 3 { (0x1e1b4b, seq![0x818cf8u32, 0xc084fc, 0xf472b6, 0xfb923c, 0xa78bfa]) }
            else if i == 4 { (0x022c22, seq![0x34d399u32, 0x6ee7b7, 0xa7f3d0, 0x059669, 0x10b981]) }
            else if i == 5 { (0x2d1b69, seq![0xf97316u32, 0xeab308, 0xef4444, 0xec4899, 0x8b5cf6]) }
            else if i == 6 { (0x18181b, seq![0xf4f4f5u32, 0xa1a1aa, 0x71717a, 0x52525b, 0xd4d4d8]) }
            else { (0x1c1917, seq![0xf59e0bu32, 0xd97706, 0xb45309, 0xfbbf24, 0xfde68a]) }
        },
        PoolId::Retro => {
            if i == 0 { (0x2b1a0e, seq![0xD94F30u32, 0xE8832A, 0xF2B824, 0xF5E6C8, 0x2A9D8F, 0x1D6B8A]) }
            else if i == 1 { (0x1a1208, seq![0xC1440Eu32, 0xE77728, 0xF4A742, 0xF7DC6F, 0x8E6C4A, 0x5B3A29]) }
            else if i == 2 { (0x0f2421, seq![0x2A9D8Fu32, 0x264653, 0xE9C46A, 0x8AB17D, 0x287271, 0x5B8E7D]) }
            else if i == 3 { (0x0e1b2e, seq![0x457B9Du32, 0x1D3557, 0xA8DADC, 0x9DB4C0, 0x6B8F71, 0xE0AFA0]) }
            else if i == 4 { (0x1f1a1e, seq![0x6D6875u32, 0xB5838D, 0xE5989B, 0xFFB4A2, 0xFFCDB2, 0x9E8576]) }
            else if i == 5 { (0x1e1a14, seq![0xCB997Eu32, 0xDDBEA9, 0xB7B7A4, 0xA5A58D, 0x6B705C, 0xFFE8D6]) }
            else if i == 6 { (0x1a1f0e, seq![0x606C38u32, 0x283618, 0xFEFAE0, 0xDDA15E, 0xBC6C25, 0x9B8E7E]) }
            else if i == 7 { (0x0e0d26, seq![0x48BFE3u32, 0x5390D9, 0x6930C3, 0x7400B8, 0x64DFDF, 0x80FFDB]) }
            else { (0x1e152a, seq![0xFFD6FFu32, 0xE7C6FF, 0xC8B6FF, 0xB8C0FF, 0xBBD0FF, 0xFFFFFC]) }
        },
        PoolId::Neon => {
            if i == 0 { (0x0a0a0a, seq![0xff0055u32, 0x00ff87, 0x00d4ff, 0xff00ff, 0xffff00]) }
            else if i == 1 { (0x050510, seq![0xff3366u32, 0x33ffcc, 0x3366ff, 0xff66ff, 0x66ff33]) }
            else if i == 2 { (0x0d0d0d, seq![0xff2d00u32, 0x00ffc8, 0x7b2dff, 0xff6ec7, 0x00ff00]) }
            else { (0x080012, seq![0xfe019au32, 0x04d9ff, 0x39ff14, 0xff6700, 0xbc13fe]) }
        },
        PoolId::Cyberpunk => {
            if i == 0 { (0x0a0014, seq![0xff2a6du32, 0x05d9e8, 0xd1f7ff, 0xff6c11, 0x01012b]) }
            else if i == 1 { (0x0d0221, seq![0xff2975u32, 0x00fff1, 0xff00a0, 0xffd319, 0x0abdc6]) }
            else if i == 2 { (0x120024, seq![0xf72585u32, 0x4cc9f0, 0x7209b7, 0xfca311, 0xe5e5e5]) }
            else { (0x0b0c10, seq![0xc5c6c7u32, 0x45a29e, 0x66fcf1, 0xff003c, 0x1f2833]) }
        },
        PoolId::Synthwave => {
            if i == 0 { (0x0d0028, seq![0xff71ceu32, 0x01cdfe, 0xb967ff, 0xfffb96, 0x05ffa1]) }
            else if i == 1 { (0x1a0033, seq![0xf72585u32, 0xb5179e, 0x7209b7, 0x560bad, 0x480ca8]) }
            else if i == 2 { (0x0f0326, seq![0xff6ad5u32, 0xc774e8, 0xad8cff, 0x8795e8, 0x94d0ff]) }
            else { (0x170040, seq![0xff2281u32, 0xff6e27, 0xfff338, 0x88e8f2, 0x7b68ee]) }
        },
    }
}

/// Every pool entry has between 4 and 6 accents.
pub proof fn lemma_pool_entry_accents(p: PoolId, i: int)
    ensures
        4 <= pool_entry(p, i).1.len() <= 6,
{
}

/// The fixed pool sizes: Default has 8 entries, Retro 9, Neon 4,
/// Cyberpunk 4 and Synthwave 4.
pub proof fn lemma_pool_sizes()
    ensures
        pool_size(PoolId::Default) == 8,
        pool_size(PoolId::Retro) == 9,
        pool_size(PoolId::Neon) == 4,
        pool_size(PoolId::Cyberpunk) == 4,
        pool_size(PoolId::Synthwave) == 4,
{
}

/// Every Retro entry has exactly 6 accents; every Neon, Cyberpunk and
/// Synthwave entry exactly 5.
pub proof fn lemma_scheme_accent_counts(i: int)
    ensures
        pool_size(PoolId::Retro) == 9,
        pool_entry(PoolId::Retro, i).1.len() == 6,
        pool_entry(PoolId::Neon, i).1.len() == 5,
        pool_entry(PoolId::Cyberpunk, i).1.len() == 5,
        pool_entry(PoolId::Synthwave, i).1.len() == 5,
{
}

fn palette5(bg: u32, c0: u32, c1: u32, c2: u32, c3: u32, c4: u32) -> (p: Palette)
    ensures
        p.bg == bg,
        p.accents@ == seq![c0, c1, c2, c3, c4],
{
    let mut v: Vec<u32> = Vec::new();
    v.push(c0);
    v.push(c1);
    v.push(c2);
    v.push(c3);
    v.push(c4);
    proof {
        assert(v@ =~= seq![c0, c1, c2, c3, c4]);
    }
    Palette { bg, accents: v }
}

fn palette6(bg: u32, c0: u32, c1: u32, c2: u32, c3: u32, c4: u32, c5: u32) -> (p: Palette)
    ensures
        p.bg == bg,
        p.accents@ == seq![c0, c1, c2, c3, c4, c5],
{
    let mut v: Vec<u32> = Vec::new();
    v.push(c0);
    v.push(c1);
    v.push(c2);
    v.push(c3);
    v.push(c4);
    v.push(c5);
    proof {
        assert(v@ =~= seq![c0, c1, c2, c3, c4, c5]);
    }
    Palette { bg, accents: v }
}

/// Number of palettes in pool `p`.
pub fn pool_len(p: PoolId) -> (n: usize)
    ensures
        n == pool_size(p),
{
    match p {
        PoolId::Default => 8,
        PoolId::Retro => 9,
        PoolId::Neon => 4,
        PoolId::Cyberpunk => 4,
        PoolId::Synthwave => 4,
    }
}

/// Entry `i` of pool `p`, as an owned palette.
pub fn pool_palette(p: PoolId, i: usize) -> (r: Palette)
    requires
        i < pool_size(p),
    ensures
        r.bg == pool_entry(p, i as int).0,
        r.accents@ == pool_entry(p, i as int).1,
{
    match p {
        PoolId::Default => {
            if i == 0 { palette5(0x0f172a, 0x3b82f6, 0x8b5cf6, 0x06b6d4, 0x6366f1, 0x2dd4bf) }
            else if i == 1 { palette5(0x1a1a2e, 0xe94560, 0x533483, 0x0f3460, 0x16213e, 0xe94560) }
            else if i == 2 { palette5(0x0d1117, 0x58a6ff, 0xbc8cff, 0x7ee787, 0xffa657, 0xff7b72) }
            else if i == 3 { palette5(0x1e1b4b, 0x818cf8, 0xc084fc, 0xf472b6, 0xfb923c, 0xa78bfa) }
            else if i == 4 { palette5(0x022c22, 0x34d399, 0x6ee7b7, 0xa7f3d0, 0x059669, 0x10b981) }
            else if i == 5 { palette5(0x2d1b69, 0xf97316, 0xeab308, 0xef4444, 0xec4899, 0x8b5cf6) }
            else if i == 6 { palette5(0x18181b, 0xf4f4f5, 0xa1a1aa, 0x71717a, 0x52525b, 0xd4d4d8) }
            else { palette5(0x1c1917, 0xf59e0b, 0xd97706, 0xb45309, 0xfbbf24, 0xfde68a) }
        },
        PoolId::Retro => {
            if i == 0 { palette6(0x2b1a0e, 0xD94F30, 0xE8832A, 0xF2B824, 0xF5E6C8, 0x2A9D8F, 0x1D6B8A) }
            else if i == 1 { palette6(0x1a1208, 0xC1440E, 0xE77728, 0xF4A742, 0xF7DC6F, 0x8E6C4A, 0x5B3A29) }
            else if i == 2 { palette6(0x0f2421, 0x2A9D8F, 0x264653, 0xE9C46A, 0x8AB17D, 0x287271, 0x5B8E7D) }
            else if i == 3 { palette6(0x0e1b2e, 0x457B9D, 0x1D3557, 0xA8DADC, 0x9DB4C0, 0x6B8F71, 0xE0AFA0) }
            else if i == 4 { palette6(0x1f1a1e, 0x6D6875, 0xB5838D, 0xE5989B, 0xFFB4A2, 0xFFCDB2, 0x9E8576) }
            else if i == 5 { palette6(0x1e1a14, 0xCB997E, 0xDDBEA9, 0xB7B7A4, 0xA5A58D, 0x6B705C, 0xFFE8D6) }
            else if i == 6 { palette6(0x1a1f0e, 0x606C38, 0x283618, 0xFEFAE0, 0xDDA15E, 0xBC6C25, 0x9B8E7E) }
            else if i == 7 { palette6(0x0e0d26, 0x48BFE3, 0x5390D9, 0x6930C3, 0x7400B8, 0x64DFDF, 0x80FFDB) }
            else { palette6(0x1e152a, 0xFFD6FF, 0xE7C6FF, 0xC8B6FF, 0xB8C0FF, 0xBBD0FF, 0xFFFFFC) }
        },
        PoolId::Neon => {
            if i == 0 { palette5(0x0a0a0a, 0xff0055, 0x00ff87, 0x00d4ff, 0xff00ff, 0xffff00) }
            else if i == 1 { palette5(0x050510, 0xff3366, 0x33ffcc, 0x3366ff, 0xff66ff, 0x66ff33) }
            else if i == 2 { palette5(0x0d0d0d, 0xff2d00, 0x00ffc8, 0x7b2dff, 0xff6ec7, 0x00ff00) }
            else { palette5(0x080012, 0xfe019a, 0x04d9ff, 0x39ff14, 0xff6700, 0xbc13fe) }
        },
        PoolId::Cyberpunk => {
            if i == 0 { palette5(0x0a0014, 0xff2a6d, 0x05d9e8, 0xd1f7ff, 0xff6c11, 0x01012b) }
            else if i == 1 { palette5(0x0d0221, 0xff2975, 0x00fff1, 0xff00a0, 0xffd319, 0x0abdc6) }
            else if i == 2 { palette5(0x120024, 0xf72585, 0x4cc9f0, 0x7209b7, 0xfca311, 0xe5e5e5) }
            else { palette5(0x0b0c10, 0xc5c6c7, 0x45a29e, 0x66fcf1, 0xff003c, 0x1f2833) }
        },
        PoolId::Synthwave => {
            if i == 0 { palette5(0x0d0028, 0xff71ce, 0x01cdfe, 0xb967ff, 0xfffb96, 0x05ffa1) }
            else if i == 1 { palette5(0x1a0033, 0xf72585, 0xb5179e, 0x7209b7, 0x560bad, 0x480ca8) }
            else if i == 2 { palette5(0x0f0326, 0xff6ad5, 0xc774e8, 0xad8cff, 0x8795e8, 0x94d0ff) }
            else { palette5(0x170040, 0xff2281, 0xff6e27, 0xfff338, 0x88e8f2, 0x7b68ee) }
        },
    }
}

/// One accent color of the palette, drawn uniformly at random.
pub fn pick(rng: &mut crate::rng::RandomStream, pal: &Palette) -> (c: u32)
    requires
        pal.accents@.len() >= 1,
    ensures
        pal.accents@.contains(c),
{
    let i = rng.below_usize(pal.accents.len());
    pal.accents[i]
}

/// Character-wise string equality, decided in executable code.
pub fn str_eq(a: &str, b: &str) -> (r: bool)
    ensures
        r == (a@ == b@),
{
    let la = a.unicode_len();
    let lb = b.unicode_len();
    if la != lb {
        proof {
            assert(a@ != b@);
        }
        return false;
    }
    let mut i: usize = 0;
    while i < la
        invariant
            i <= la,
            la == a@.len(),
            la == b@.len(),
            forall|j: int| 0 <= j < i ==> a@[j] == b@[j],
        decreases la - i,
    {
        if a.get_char(i) != b.get_char(i) {
            proof {
                assert(a@[i as int] != b@[i as int]);
            }
            return false;
        }
        i = i + 1;
    }
    proof {
        assert(a@ =~= b@);
    }
    true
}

/// The pool named by one scheme tag; unrecognized tags name none.
pub open spec fn spec_pool_of_tag(tag: Seq<char>) -> Option<PoolId> {
    if tag == "retro"@ {
        Some(PoolId::Retro)
    } else if tag == "neon"@ {
        Some(PoolId::Neon)
    } else if tag == "cyberpunk"@ {
        Some(PoolId::Cyberpunk)
    } else if tag == "synthwave"@ {
        Some(PoolId::Synthwave)
    } else {
        None
    }
}

/// Maps a scheme tag to its pool; unrecognized tags map to `None` and are
/// silently ignored by the resolver.
pub fn pool_of_tag(tag: &str) -> (r: Option<PoolId>)
    ensures
        r == spec_pool_of_tag(tag@),
{
    if str_eq(tag, "retro") {
        Some(PoolId::Retro)
    } else if str_eq(tag, "neon") {
        Some(PoolId::Neon)
    } else if str_eq(tag, "cyberpunk") {
        Some(PoolId::Cyberpunk)
    } else if str_eq(tag, "synthwave") {
        Some(PoolId::Synthwave)
    } else {
        None
    }
}

/// The pools matched by a scheme-tag list, in list order, with
/// unrecognized tags discarded.
pub open spec fn spec_pools_of(tags: Seq<Seq<char>>) -> Seq<PoolId>
    decreases tags.len(),
{
    if tags.len() == 0 {
        Seq::empty()
    } else {
        spec_pools_of(tags.drop_last()) + match spec_pool_of_tag(tags.last()) {
            Some(p) => seq![p],
            None => Seq::empty(),
        }
    }
}

/// The pools the resolver draws from: the matched pools, or the Default
/// pool alone when no tag matched.
pub open spec fn effective_pools(tags: Seq<Seq<char>>) -> Seq<PoolId> {
    if spec_pools_of(tags).len() == 0 {
        seq![PoolId::Default]
    } else {
        spec_pools_of(tags)
    }
}

/// The draw indices as mathematical integers.
pub open spec fn draws_int(draws: Seq<usize>) -> Seq<int> {
    draws.map_values(|d: usize| d as int)
}

/// Well-formed draw indices for a pool list: one entry index per pool,
/// each within its pool, plus a background choice among the pools.
pub open spec fn wf_draws(pools: Seq<PoolId>, draws: Seq<int>, bg_draw: int) -> bool {
    &&& draws.len() == pools.len()
    &&& forall|k: int| 0 <= k < pools.len() ==> 0 <= #[trigger] draws[k] < pool_size(pools[k])
    &&& 0 <= bg_draw < pools.len()
}

/// The accents of the chosen entries of the first `n` pools, concatenated
/// in pool order.
pub open spec fn accents_cat(pools: Seq<PoolId>, draws: Seq<int>, n: int) -> Seq<u32>
    decreases n,
{
    if n <= 0 {
        Seq::empty()
    } else {
        accents_cat(pools, draws, n - 1) + pool_entry(pools[n - 1], draws[n - 1]).1
    }
}

/// The palette the resolver yields for given pools and draws: with one
/// pool, the chosen entry verbatim; with several, the concatenation of the
/// chosen entries' accents and the background of the entry picked by
/// `bg_draw`.
pub open spec fn spec_resolve(pools: Seq<PoolId>, draws: Seq<int>, bg_draw: int) -> (u32, Seq<u32>) {
    if pools.len() == 1 {
        pool_entry(pools[0], draws[0])
    } else {
        (
            pool_entry(pools[bg_draw], draws[bg_draw]).0,
            accents_cat(pools, draws, pools.len() as int),
        )
    }
}

/// Maps the scheme tags to their pools; the Default pool stands in when
/// nothing matched.
pub fn match_pools(schemes: &Vec<String>) -> (pools: Vec<PoolId>)
    ensures
        pools@ == effective_pools(schemes.deep_view()),
        pools@.len() >= 1,
{
    let ghost tags = schemes.deep_view();
    let mut pools: Vec<PoolId> = Vec::new();
    let mut i: usize = 0;
    while i < schemes.len()
        invariant
            i <= schemes.len(),
            tags == schemes.deep_view(),
            tags.len() == schemes.len(),
            forall|j: int| 0 <= j < schemes.len() ==> tags[j] == #[trigger] schemes[j]@,
            pools@ == spec_pools_of(tags.take(i as int)),
        decreases schemes.len() - i,
    {
        proof {
            assert(tags.take(i + 1).drop_last() =~= tags.take(i as int));
            assert(tags.take(i + 1).last() == tags[i as int]);
        }
        match pool_of_tag(schemes[i].as_str()) {
            Some(p) => {
                pools.push(p);
                proof {
                    assert(pools@ =~= spec_pools_of(tags.take(i + 1)));
                }
            },
            None => {
                proof {
                    assert(pools@ =~= spec_pools_of(tags.take(i + 1)));
                }
            },
        }
        i = i + 1;
    }
    proof {
        assert(tags.take(schemes.len() as int) =~= tags);
    }
    if pools.len() == 0 {
        pools.push(PoolId::Default);
        proof {
            assert(pools@ =~= seq![PoolId::Default]);
        }
    }
    pools
}

/// Resolves a palette from the scheme tags and explicitly supplied draw
/// indices.  Yields `Some` exactly when the draws are well formed for the
/// matched pools, and then the palette that `spec_resolve` describes.
pub fn resolve_with_draws(schemes: &Vec<String>, draws: &Vec<usize>, bg_draw: usize) -> (r: Option<
    Palette,
>)
    ensures
        ({
            let pools = effective_pools(schemes.deep_view());
            let ds = draws_int(draws@);
            &&& (r is Some <==> wf_draws(pools, ds, bg_draw as int))
            &&& (r matches Some(p) ==> p.bg == spec_resolve(pools, ds, bg_draw as int).0
                && p.accents@ == spec_resolve(pools, ds, bg_draw as int).1
                && p.accents@.len() >= 4)
        }),
{
    let ghost pools_s = effective_pools(schemes.deep_view());
    let ghost ds = draws_int(draws@);
    let pools = match_pools(schemes);
    proof {
        assert(ds.len() == draws@.len());
    }
    if draws.len() != pools.len() || bg_draw >= pools.len() {
        proof {
            assert(!wf_draws(pools_s, ds, bg_draw as int));
        }
        return None;
    }
    let mut k: usize = 0;
    while k < pools.len()
        invariant
            k <= pools.len(),
            pools_s == effective_pools(schemes.deep_view()),
            pools@ == pools_s,
            draws@.len() == pools@.len(),
            ds == draws_int(draws@),
            bg_draw < pools.len(),
            forall|j: int| 0 <= j < k ==> 0 <= #[trigger] ds[j] < pool_size(pools_s[j]),
        decreases pools.len() - k,
    {
        if draws[k] >= pool_len(pools[k]) {
            proof {
                assert(ds[k as int] == draws@[k as int]);
                assert(!wf_draws(pools_s, ds, bg_draw as int));
            }
            return None;
        }
        proof {
            assert(ds[k as int] == draws@[k as int]);
        }
        k = k + 1;
    }
    proof {
        assert(wf_draws(pools_s, ds, bg_draw as int));
    }
    if pools.len() == 1 {
        proof {
            assert(ds[0] == draws@[0]);
        }
        let p = pool_palette(pools[0], draws[0]);
        proof {
            lemma_pool_entry_accents(pools_s[0], ds[0]);
        }
        Some(p)
    } else {
        proof {
            assert(ds[bg_draw as int] == draws@[bg_draw as int]);
        }
        let bg_pal = pool_palette(pools[bg_draw], draws[bg_draw]);
        let mut accents: Vec<u32> = Vec::new();
        let mut k: usize = 0;
        while k < pools.len()
            invariant
                k <= pools.len(),
                pools@ == pools_s,
                draws@.len() == pools@.len(),
                ds == draws_int(draws@),
                wf_draws(pools_s, ds, bg_draw as int),
                accents@ == accents_cat(pools_s, ds, k as int),
            decreases pools.len() - k,
        {
            proof {
                assert(ds[k as int] == draws@[k as int]);
            }
            let mut e = pool_palette(pools[k], draws[k]);
            accents.append(&mut e.accents);
            k = k + 1;
        }
        proof {
            assert(accents@.len() >= 4) by {
                let n = pools_s.len() as int;
                assert(accents_cat(pools_s, ds, n) == accents_cat(pools_s, ds, n - 1)
                    + pool_entry(pools_s[n - 1], ds[n - 1]).1);
                lemma_pool_entry_accents(pools_s[n - 1], ds[n - 1]);
            }
        }
        Some(Palette { bg: bg_pal.bg, accents })
    }
}

/// Resolves a palette from the scheme tags, drawing from `rng`: one entry
/// index per matched pool (Default when none matched), then a background
/// choice when several pools matched.  This operation cannot fail, and the
/// result always has at least 4 accents.
pub fn resolve_palette(schemes: &Vec<String>, rng: &mut crate::rng::RandomStream) -> (p: Palette)
    ensures
        ({
            let pools = effective_pools(schemes.deep_view());
            exists|ds: Seq<int>, bg: int|
                wf_draws(pools, ds, bg) && p.bg == spec_resolve(pools, ds, bg).0 && p.accents@
                    == spec_resolve(pools, ds, bg).1
        }),
        p.accents@.len() >= 4,
{
    let ghost pools_s = effective_pools(schemes.deep_view());
    let pools = match_pools(schemes);
    let mut draws: Vec<usize> = Vec::new();
    let mut k: usize = 0;
    while k < pools.len()
        invariant
            k <= pools.len(),
            pools@ == pools_s,
            draws@.len() == k,
            forall|j: int| 0 <= j < k ==> 0 <= #[trigger] draws@[j] < pool_size(pools_s[j]),
        decreases pools.len() - k,
    {
        let d = rng.below_usize(pool_len(pools[k]));
        draws.push(d);
        k = k + 1;
    }
    let bg_draw: usize = if pools.len() >= 2 {
        rng.below_usize(pools.len())
    } else {
        0
    };
    let ghost ds = draws_int(draws@);
    proof {
        assert(forall|j: int|
            0 <= j < pools_s.len() ==> 0 <= #[trigger] ds[j] < pool_size(pools_s[j])) by {
            assert(forall|j: int|
                0 <= j < pools_s.len() ==> #[trigger] ds[j] == draws@[j] as int);
        }
        assert(wf_draws(pools_s, ds, bg_draw as int));
    }
    let r = resolve_with_draws(schemes, &draws, bg_draw);
    match r {
        Some(p) => p,
        None => {
            // Unreachable: the draws were built well formed.
            proof {
                assert(false);
            }
            palette5(0, 0, 0, 0, 0, 0)
        },
    }
}

/// Determinism of the resolver: the same scheme list and the same drawn
/// indices always yield the same palette.
pub proof fn lemma_resolver_deterministic(
    tags: Seq<Seq<char>>,
    ds: Seq<int>,
    bg: int,
    p1: (u32, Seq<u32>),
    p2: (u32, Seq<u32>),
)
    requires
        p1 == spec_resolve(effective_pools(tags), ds, bg),
        p2 == spec_resolve(effective_pools(tags), ds, bg),
    ensures
        p1 == p2,
{
}

/// With no recognized scheme, the resolved palette is one Default-pool
/// entry verbatim.
pub proof fn lemma_resolve_default(tags: Seq<Seq<char>>, ds: Seq<int>, bg: int)
    requires
        spec_pools_of(tags).len() == 0,
        wf_draws(effective_pools(tags), ds, bg),
    ensures
        0 <= ds[0] < 8,
        spec_resolve(effective_pools(tags), ds, bg) == pool_entry(PoolId::Default, ds[0]),
{
    assert(effective_pools(tags) == seq![PoolId::Default]);
    assert(effective_pools(tags)[0] == PoolId::Default);
}

/// With exactly one matched pool, the resolved palette is one entry of
/// that pool verbatim.
pub proof fn lemma_resolve_single(tags: Seq<Seq<char>>, pool: PoolId, ds: Seq<int>, bg: int)
    requires
        spec_pools_of(tags) == seq![pool],
        wf_draws(effective_pools(tags), ds, bg),
    ensures
        0 <= ds[0] < pool_size(pool),
        spec_resolve(effective_pools(tags), ds, bg) == pool_entry(pool, ds[0]),
{
    assert(effective_pools(tags) == seq![pool]);
    assert(effective_pools(tags)[0] == pool);
}

/// With exactly two matched pools, the resolved accents are the first
/// chosen entry's accents followed by the second's, and the background is
/// one of the two chosen entries' backgrounds.
pub proof fn lemma_resolve_pair(tags: Seq<Seq<char>>, p0: PoolId, p1: PoolId, ds: Seq<int>, bg: int)
    requires
        spec_pools_of(tags) == seq![p0, p1],
        wf_draws(effective_pools(tags), ds, bg),
    ensures
        spec_resolve(effective_pools(tags), ds, bg).1 == pool_entry(p0, ds[0]).1 + pool_entry(
            p1,
            ds[1],
        ).1,
        spec_resolve(effective_pools(tags), ds, bg).0 == pool_entry(p0, ds[0]).0
            || spec_resolve(effective_pools(tags), ds, bg).0 == pool_entry(p1, ds[1]).0,
{
    let pools = effective_pools(tags);
    assert(pools == seq![p0, p1]);
    assert(pools[0] == p0 && pools[1] == p1);
    assert(accents_cat(pools, ds, 2) == accents_cat(pools, ds, 1) + pool_entry(p1, ds[1]).1);
    assert(accents_cat(pools, ds, 1) == accents_cat(pools, ds, 0) + pool_entry(p0, ds[0]).1);
    assert(accents_cat(pools, ds, 0) == Seq::<u32>::empty());
    assert(accents_cat(pools, ds, 2) =~= pool_entry(p0, ds[0]).1 + pool_entry(p1, ds[1]).1);
    assert(bg == 0 || bg == 1);
}

} // verus!
