//! The ToUnicode CMap of an embedded font: glyph index to Unicode value,
//! written as `beginbfchar` ... `endbfchar` blocks.
//!
//! A block holds glyph indices that share their high byte, and a new block
//! also starts once a glyph index lies more than 100 above the index that
//! opened the current block.

use vstd::prelude::*;
use vstd::string::StrSliceExecFns;
use crate::object::key;
use crate::text::{dec_bytes, hex_bytes, push_dec_bytes, push_hex_bytes};

verus! {

pub const CMAP_HEADER: &'static str = "/CIDInit /ProcSet findresource begin\n12 dict begin\nbegincmap\n/CIDSystemInfo\n<< /Registry (Adobe)\n/Ordering (UCS)\n/Supplement 0\n>> def\n/CMapName /Adobe-Identity-UCS def\n/CMapType 2 def\n1 begincodespacerange\n<0000> <ffff>\nendcodespacerange\n";

pub const CMAP_FOOTER: &'static str = "endcmap\nCMapName currentdict /CMap defineresource pop\nend\nend\n";

pub const BLOCK_BEGIN: &'static str = " beginbfchar\r\n";

pub const BLOCK_END: &'static str = "endbfchar\r\n";

/// (high byte, first glyph index) of the block open after the first `n`
/// glyphs of `g`; before any glyph both are 0.
pub open spec fn block_state(g: Seq<(u32, u32, i64)>, n: nat) -> (int, int)
    decreases n,
{
    if n == 0 || n > g.len() {
        (0, 0)
    } else {
        let p = block_state(g, (n - 1) as nat);
        let gid = g[n - 1].0 as int;
        if gid / 256 != p.0 || gid > p.1 + 100 {
            (gid / 256, gid)
        } else {
            p
        }
    }
}

/// Glyph `i` of `g` opens a new block: its high byte differs from the open
/// block's, or it lies more than 100 above the glyph that opened that block.
pub open spec fn starts_block(g: Seq<(u32, u32, i64)>, i: int) -> bool {
    let p = block_state(g, i as nat);
    g[i].0 as int / 256 != p.0 || g[i].0 as int > p.1 + 100
}

pub open spec fn pair(t: (u32, u32, i64)) -> (u32, u32) {
    (t.0, t.1)
}

/// The blocks of (glyph index, Unicode value) pairs after the first `n`
/// glyphs: one block open from the start, and a new one at each glyph that
/// starts a block.
pub open spec fn cmap_blocks(g: Seq<(u32, u32, i64)>, n: nat) -> Seq<Seq<(u32, u32)>>
    decreases n,
{
    if n == 0 || n > g.len() {
        seq![Seq::empty()]
    } else {
        let b = cmap_blocks(g, (n - 1) as nat);
        let i = n - 1;
        if starts_block(g, i) {
            b.push(seq![pair(g[i])])
        } else {
            b.update(b.len() - 1, b.last().push(pair(g[i])))
        }
    }
}

/// How many of the first `n` glyphs start a block.
pub open spec fn boundary_count(g: Seq<(u32, u32, i64)>, n: nat) -> nat
    decreases n,
{
    if n == 0 || n > g.len() {
        0
    } else {
        boundary_count(g, (n - 1) as nat) + if starts_block(g, n - 1) { 1nat } else { 0nat }
    }
}

/// `<gggg> <uuuu>` and a line feed.
pub open spec fn cmap_line(p: (u32, u32)) -> Seq<u8> {
    seq![60u8] + hex_bytes(p.0 as nat, 4) + seq![62u8, 32u8, 60u8] + hex_bytes(p.1 as nat, 4) + seq![62u8, 10u8]
}

pub open spec fn cmap_lines(b: Seq<(u32, u32)>) -> Seq<u8>
    decreases b.len(),
{
    if b.len() == 0 {
        Seq::empty()
    } else {
        cmap_lines(b.drop_last()) + cmap_line(b.last())
    }
}

/// `<count> beginbfchar`, the block's lines, `endbfchar`.
pub open spec fn cmap_block(b: Seq<(u32, u32)>) -> Seq<u8> {
    dec_bytes(b.len()) + key(BLOCK_BEGIN) + cmap_lines(b) + key(BLOCK_END)
}

pub open spec fn cmap_block_list(bs: Seq<Seq<(u32, u32)>>) -> Seq<u8>
    decreases bs.len(),
{
    if bs.len() == 0 {
        Seq::empty()
    } else {
        cmap_block_list(bs.drop_last()) + cmap_block(bs.last())
    }
}

/// The whole CMap program for the glyph list `g`.
pub open spec fn cmap_text(g: Seq<(u32, u32, i64)>) -> Seq<u8> {
    key(CMAP_HEADER) + cmap_block_list(cmap_blocks(g, g.len())) + key(CMAP_FOOTER)
}

/// The blocks, one after the other.
pub open spec fn concat_blocks(bs: Seq<Seq<(u32, u32)>>) -> Seq<(u32, u32)>
    decreases bs.len(),
{
    if bs.len() == 0 {
        Seq::empty()
    } else {
        concat_blocks(bs.drop_last()) + bs.last()
    }
}

/// The CMap has one block more than there are glyphs that start a block:
/// the block open from the start, and one for each boundary crossed.
pub proof fn lemma_block_count(g: Seq<(u32, u32, i64)>, n: nat)
    requires
        n <= g.len(),
    ensures
        cmap_blocks(g, n).len() == 1 + boundary_count(g, n),
    decreases n,
{
    if n > 0 {
        lemma_block_count(g, (n - 1) as nat);
    }
}

/// Every (glyph, Unicode) pair stands in exactly one block: the blocks, one
/// after the other, are the pairs in glyph order.
pub proof fn lemma_blocks_partition(g: Seq<(u32, u32, i64)>, n: nat)
    requires
        n <= g.len(),
    ensures
        concat_blocks(cmap_blocks(g, n)) == g.take(n as int).map_values(|t: (u32, u32, i64)| pair(t)),
    decreases n,
{
    if n == 0 {
        let b = cmap_blocks(g, 0);
        assert(b.drop_last() =~= Seq::<Seq<(u32, u32)>>::empty());
        assert(b.last() =~= Seq::<(u32, u32)>::empty());
        assert(concat_blocks(b) == concat_blocks(b.drop_last()) + b.last());
        assert(concat_blocks(b) =~= g.take(0).map_values(|t: (u32, u32, i64)| pair(t)));
    } else {
        lemma_blocks_partition(g, (n - 1) as nat);
        lemma_blocks_nonempty(g, (n - 1) as nat);
        let b = cmap_blocks(g, (n - 1) as nat);
        let b2 = cmap_blocks(g, n);
        let i = n - 1;
        assert(g.take(n as int).map_values(|t: (u32, u32, i64)| pair(t))
            =~= g.take(i as int).map_values(|t: (u32, u32, i64)| pair(t)).push(pair(g[i as int])));
        if starts_block(g, i as int) {
            assert(b2.drop_last() =~= b);
            assert(b2.last() =~= seq![pair(g[i as int])]);
            assert(concat_blocks(b2) =~= concat_blocks(b) + seq![pair(g[i as int])]);
        } else {
            assert(b2.drop_last() =~= b.drop_last());
            assert(b2.last() =~= b.last().push(pair(g[i as int])));
            assert(concat_blocks(b) == concat_blocks(b.drop_last()) + b.last());
            assert(concat_blocks(b2) =~= concat_blocks(b) + seq![pair(g[i as int])]);
        }
    }
}

proof fn lemma_blocks_nonempty(g: Seq<(u32, u32, i64)>, n: nat)
    ensures
        cmap_blocks(g, n).len() >= 1,
    decreases n,
{
    if n > 0 && n <= g.len() {
        lemma_blocks_nonempty(g, (n - 1) as nat);
    }
}

fn push_text(out: &mut Vec<u8>, s: &str)
    ensures
        final(out)@ == old(out)@ + key(s),
{
    let mut b = s.as_bytes_vec();
    out.append(&mut b);
}

fn push_line(out: &mut Vec<u8>, gid: u32, unicode: u32)
    ensures
        final(out)@ == old(out)@ + cmap_line((gid, unicode)),
{
    out.push(60u8);
    push_hex_bytes(out, gid, 4);
    out.push(62u8);
    out.push(32u8);
    out.push(60u8);
    push_hex_bytes(out, unicode, 4);
    out.push(62u8);
    out.push(10u8);
    proof {
        assert(final(out)@ =~= old(out)@ + cmap_line((gid, unicode)));
    }
}

fn push_block(out: &mut Vec<u8>, count: usize, lines: &mut Vec<u8>)
    ensures
        final(out)@ == old(out)@ + dec_bytes(count as nat) + key(BLOCK_BEGIN) + old(lines)@ + key(BLOCK_END),
        final(lines)@.len() == 0,
{
    push_dec_bytes(out, count as u64);
    push_text(out, BLOCK_BEGIN);
    out.append(lines);
    push_text(out, BLOCK_END);
    proof {
        assert(final(out)@ =~= old(out)@ + dec_bytes(count as nat) + key(BLOCK_BEGIN) + old(lines)@ + key(BLOCK_END));
    }
}

/// Writes the ToUnicode CMap for a glyph list sorted by glyph index.
pub fn to_unicode_cmap(glyphs: &Vec<(u32, u32, i64)>) -> (r: Vec<u8>)
    ensures
        r@ == cmap_text(glyphs@),
{
    let ghost g = glyphs@;
    let mut out: Vec<u8> = Vec::new();
    push_text(&mut out, CMAP_HEADER);
    let mut cur_high: u32 = 0;
    let mut block_start: u32 = 0;
    let mut cur_lines: Vec<u8> = Vec::new();
    let mut cur_count: usize = 0;
    for i in 0..glyphs.len()
        invariant
            g == glyphs@,
            (cur_high as int, block_start as int) == block_state(g, i as nat),
            cmap_blocks(g, i as nat).len() >= 1,
            out@ == key(CMAP_HEADER) + cmap_block_list(cmap_blocks(g, i as nat).drop_last()),
            cur_lines@ == cmap_lines(cmap_blocks(g, i as nat).last()),
            cur_count == cmap_blocks(g, i as nat).last().len(),
            cur_count <= i,
    {
        let (gid, unicode, _) = glyphs[i];
        let ghost b = cmap_blocks(g, i as nat);
        proof {
            lemma_blocks_nonempty(g, (i + 1) as nat);
        }
        if gid / 256 != cur_high || gid as u64 > block_start as u64 + 100 {
            push_block(&mut out, cur_count, &mut cur_lines);
            proof {
                let b2 = cmap_blocks(g, (i + 1) as nat);
                assert(b2 == b.push(seq![pair(g[i as int])]));
                assert(b2.drop_last() =~= b);
                assert(b =~= b.drop_last().push(b.last()));
                assert(cmap_block_list(b) == cmap_block_list(b.drop_last()) + cmap_block(b.last()));
                assert(out@ =~= key(CMAP_HEADER) + cmap_block_list(b2.drop_last()));
                assert(b2.last() =~= seq![pair(g[i as int])]);
                assert(seq![pair(g[i as int])].drop_last() =~= Seq::<(u32, u32)>::empty());
            }
            cur_high = gid / 256;
            block_start = gid;
            cur_count = 0;
        } else {
            proof {
                let b2 = cmap_blocks(g, (i + 1) as nat);
                assert(b2.drop_last() =~= b.drop_last());
                assert(b2.last() =~= b.last().push(pair(g[i as int])));
                assert(b.last().push(pair(g[i as int])).drop_last() =~= b.last());
            }
        }
        push_line(&mut cur_lines, gid, unicode);
        proof {
            let l = cmap_blocks(g, (i + 1) as nat).last();
            assert(l.len() > 0);
            assert(cmap_lines(l) == cmap_lines(l.drop_last()) + cmap_line(l.last()));
            assert(cur_lines@ =~= cmap_lines(l));
        }
        cur_count = cur_count + 1;
    }
    proof {
        let b = cmap_blocks(g, g.len());
        assert(b =~= b.drop_last().push(b.last()));
    }
    push_block(&mut out, cur_count, &mut cur_lines);
    push_text(&mut out, CMAP_FOOTER);
    out
}

} // verus!
