//! The glyph table of an embedded font: which Unicode value and advance width
//! each glyph index carries, and the font's overall extent.

use vstd::prelude::*;
use std::collections::BTreeMap;
use vstd::std_specs::iter::IteratorSpec;
use vstd::std_specs::cmp::OrdSpec;

verus! {

broadcast use {vstd::std_specs::btree::group_btree_axioms, vstd::laws_cmp::group_laws_cmp};

/// What the font program reports for one code point that has a glyph.
#[derive(Debug, Clone, Copy, PartialEq, Eq, Structural)]
pub struct GlyphEntry {
    pub unicode: u32,
    pub glyph_id: u32,
    pub width: i64,
    pub height: i64,
}

/// Glyph index to (Unicode value, advance width): glyph 0 starts out as
/// (0, 1000), and each later entry with a non-zero glyph index overwrites
/// the value of its index.
pub open spec fn glyph_map(s: Seq<GlyphEntry>) -> Map<u32, (u32, i64)>
    decreases s.len(),
{
    if s.len() == 0 {
        map![0u32 => (0u32, 1000i64)]
    } else {
        let e = s.last();
        let m = glyph_map(s.drop_last());
        if e.glyph_id == 0 {
            m
        } else {
            m.insert(e.glyph_id, (e.unicode, e.width))
        }
    }
}

/// The largest height among the entries with a non-zero glyph index, and at least 0.
pub open spec fn max_height(s: Seq<GlyphEntry>) -> int
    decreases s.len(),
{
    if s.len() == 0 {
        0
    } else {
        let e = s.last();
        let m = max_height(s.drop_last());
        if e.glyph_id != 0 && e.height > m {
            e.height as int
        } else {
            m
        }
    }
}

/// The sum of the widths of the entries with a non-zero glyph index.
pub open spec fn total_width(s: Seq<GlyphEntry>) -> int
    decreases s.len(),
{
    if s.len() == 0 {
        0
    } else {
        let e = s.last();
        total_width(s.drop_last()) + if e.glyph_id != 0 { e.width as int } else { 0 }
    }
}

/// `g` lists the map `m` as (glyph index, Unicode value, width) triples, by
/// increasing glyph index, each index once.
pub open spec fn lists_map(g: Seq<(u32, u32, i64)>, m: Map<u32, (u32, i64)>) -> bool {
    &&& forall|i: int, j: int| 0 <= i < j < g.len() ==> g[i].0 < g[j].0
    &&& forall|i: int|
        0 <= i < g.len() ==> m.contains_key(#[trigger] g[i].0) && m[g[i].0] == (g[i].1, g[i].2)
    &&& forall|k: u32| #[trigger] m.contains_key(k) ==> exists|i: int| 0 <= i < g.len() && g[i].0 == k
}

/// Glyph index 0 maps to Unicode 0 with width 1000, whatever the font reports.
pub proof fn lemma_notdef_glyph(s: Seq<GlyphEntry>)
    ensures
        glyph_map(s).contains_key(0u32),
        glyph_map(s)[0u32] == (0u32, 1000i64),
    decreases s.len(),
{
    if s.len() > 0 {
        lemma_notdef_glyph(s.drop_last());
    }
}

proof fn lemma_lists_map_agree(g1: Seq<(u32, u32, i64)>, g2: Seq<(u32, u32, i64)>, m: Map<u32, (u32, i64)>, i: int)
    requires
        lists_map(g1, m),
        lists_map(g2, m),
        0 <= i <= g1.len(),
        i <= g2.len(),
    ensures
        forall|j: int| 0 <= j < i ==> g1[j] == g2[j],
    decreases i,
{
    if i > 0 {
        let a = i - 1;
        lemma_lists_map_agree(g1, g2, m, a);
        let k1 = g1[a].0;
        let k2 = g2[a].0;
        if k1 < k2 {
            assert(m.contains_key(k1));
            let j = choose|j: int| 0 <= j < g2.len() && g2[j].0 == k1;
            if j < a {
                assert(g1[j] == g2[j]);
                assert(g1[j].0 < g1[a].0);
            } else if j > a {
                assert(g2[a].0 < g2[j].0);
            }
        } else if k2 < k1 {
            assert(m.contains_key(k2));
            let j = choose|j: int| 0 <= j < g1.len() && g1[j].0 == k2;
            if j < a {
                assert(g1[j] == g2[j]);
                assert(g2[j].0 < g2[a].0);
            } else if j > a {
                assert(g1[a].0 < g1[j].0);
            }
        }
        assert(k1 == k2);
        assert(m[k1] == (g1[a].1, g1[a].2));
        assert(m[k2] == (g2[a].1, g2[a].2));
    }
}

/// A map has one listing by increasing key.
pub proof fn lemma_lists_map_unique(g1: Seq<(u32, u32, i64)>, g2: Seq<(u32, u32, i64)>, m: Map<u32, (u32, i64)>)
    requires
        lists_map(g1, m),
        lists_map(g2, m),
    ensures
        g1 == g2,
{
    if g1.len() > g2.len() {
        lemma_lists_map_agree(g1, g2, m, g2.len() as int);
        let n = g2.len() as int;
        assert(m.contains_key(g1[n].0));
        let j = choose|j: int| 0 <= j < g2.len() && g2[j].0 == g1[n].0;
        assert(g1[j] == g2[j]);
        assert(g1[j].0 < g1[n].0);
    } else if g2.len() > g1.len() {
        lemma_lists_map_agree(g1, g2, m, g1.len() as int);
        let n = g1.len() as int;
        assert(m.contains_key(g2[n].0));
        let j = choose|j: int| 0 <= j < g1.len() && g1[j].0 == g2[n].0;
        assert(g1[j] == g2[j]);
        assert(g2[j].0 < g2[n].0);
    }
    lemma_lists_map_agree(g1, g2, m, g1.len() as int);
    assert(g1 =~= g2);
}

/// The glyph table of a font, ready to be written out.
pub struct GlyphTable {
    /// (glyph index, Unicode value, advance width), by increasing glyph index.
    pub glyphs: Vec<(u32, u32, i64)>,
    pub max_height: i64,
    pub total_width: i128,
}

proof fn lemma_total_width_bound(s: Seq<GlyphEntry>)
    ensures
        -(s.len() as int) * 0x8000_0000_0000_0000 <= total_width(s) <= (s.len() as int) * 0x8000_0000_0000_0000,
    decreases s.len(),
{
    if s.len() > 0 {
        lemma_total_width_bound(s.drop_last());
    }
}

/// Builds the glyph table from the entries that the font program reported,
/// in the order in which they were reported.
pub fn build_glyph_table(entries: &Vec<GlyphEntry>) -> (r: GlyphTable)
    ensures
        lists_map(r.glyphs@, glyph_map(entries@)),
        r.glyphs@.len() > 0 && r.glyphs@[0] == (0u32, 0u32, 1000i64),
        r.max_height == max_height(entries@),
        r.total_width == total_width(entries@),
{
    let mut m: BTreeMap<u32, (u32, i64)> = BTreeMap::new();
    m.insert(0, (0, 1000));
    let mut mh: i64 = 0;
    let mut tw: i128 = 0;
    proof {
        assert(m@ =~= glyph_map(entries@.take(0)));
    }
    for i in 0..entries.len()
        invariant
            m@ == glyph_map(entries@.take(i as int)),
            mh == max_height(entries@.take(i as int)),
            tw == total_width(entries@.take(i as int)),
    {
        let e = entries[i];
        proof {
            assert(entries@.take(i + 1).drop_last() =~= entries@.take(i as int));
            lemma_total_width_bound(entries@.take(i as int));
        }
        if e.glyph_id != 0 {
            if e.height > mh {
                mh = e.height;
            }
            tw = tw + e.width as i128;
            m.insert(e.glyph_id, (e.unicode, e.width));
        }
    }
    proof {
        assert(entries@.take(entries@.len() as int) =~= entries@);
    }
    let mut glyphs: Vec<(u32, u32, i64)> = Vec::new();
    proof {
        assert(vstd::std_specs::btree::key_obeys_cmp_spec::<u32>());
    }
    let iter = m.iter();
    let ghost kvs = iter.remaining();
    for kv in it: iter
        invariant
            it.seq() == kvs,
            glyphs@.len() == it.index(),
            forall|j: int| 0 <= j < it.index() ==> #[trigger] glyphs@[j] == (*kvs[j].0, kvs[j].1.0, kvs[j].1.1),
    {
        let (k, v) = kv;
        glyphs.push((*k, v.0, v.1));
    }
    proof {
        let keys = kvs.map_values(|kv: (&u32, &(u32, i64))| *kv.0);
        assert(vstd::std_specs::btree::increasing_seq(keys));
        assert forall|i: int, j: int| 0 <= i < j < glyphs@.len() implies glyphs@[i].0 < glyphs@[j].0 by {
            assert(keys[i] == glyphs@[i].0);
            assert(keys[j] == glyphs@[j].0);
            assert(vstd::laws_cmp::obeys_cmp::<u32>());
            assert(keys[i].cmp_spec(&keys[j]) is Less);
        }
        assert forall|k: u32| #[trigger] m@.contains_key(k) implies exists|i: int| 0 <= i < glyphs@.len() && glyphs@[i].0 == k by {
            assert(kvs.contains((&k, &m@[k])));
            let i = choose|i: int| 0 <= i < kvs.len() && kvs[i] == (&k, &m@[k]);
            assert(glyphs@[i].0 == k);
        }
        lemma_notdef_glyph(entries@);
        let i0 = choose|i: int| 0 <= i < glyphs@.len() && glyphs@[i].0 == 0u32;
        if i0 > 0 {
            assert(glyphs@[0].0 < glyphs@[i0].0);
        }
    }
    GlyphTable { glyphs, max_height: mh, total_width: tw }
}

} // verus!
