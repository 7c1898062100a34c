//! Pages and their layers, addressed by index.

use vstd::prelude::*;
use crate::object::{Obj, entry, entries, items, entry_key, key, is_int, is_name, name};

verus! {

/// Position of a page in its document.
#[derive(Debug, Clone, Copy, PartialEq, Eq, Structural)]
pub struct PdfPageIndex(pub usize);

/// Position of a layer in its page.
#[derive(Debug, Clone, Copy, PartialEq, Eq, Structural)]
pub struct PdfLayerIndex(pub usize);

/// A layer: a named content stream of its own, merged into its page's
/// content when the document is saved.
#[derive(Debug)]
pub struct PdfLayer {
    pub name: String,
    pub content: Vec<u8>,
}

/// A page: its size in thousandths of a PDF point, and its layers in the
/// order in which they were created.
#[derive(Debug)]
pub struct PdfPage {
    pub index: usize,
    pub width_pt: i64,
    pub height_pt: i64,
    pub layers: Vec<PdfLayer>,
}

impl PdfPage {
    /// A page with one empty layer named `layer_name`.
    pub fn new(width_pt: i64, height_pt: i64, layer_name: String, index: usize) -> (r: (PdfPage, PdfLayerIndex))
        ensures
            r.0.index == index,
            r.0.width_pt == width_pt,
            r.0.height_pt == height_pt,
            r.0.layers@.len() == 1,
            r.0.layers@[0].name@ == layer_name@,
            r.0.layers@[0].content@.len() == 0,
            r.1 == PdfLayerIndex(0),
    {
        let mut layers: Vec<PdfLayer> = Vec::new();
        layers.push(PdfLayer { name: layer_name, content: Vec::new() });
        (PdfPage { index, width_pt, height_pt, layers }, PdfLayerIndex(0))
    }

    /// Adds an empty layer at the end and returns its index.
    pub fn add_layer(&mut self, layer_name: String) -> (r: PdfLayerIndex)
        ensures
            r.0 == old(self).layers@.len(),
            final(self).layers@.len() == old(self).layers@.len() + 1,
            final(self).layers@.take(old(self).layers@.len() as int) == old(self).layers@,
            final(self).layers@.last().name@ == layer_name@,
            final(self).layers@.last().content@.len() == 0,
            final(self).index == old(self).index,
            final(self).width_pt == old(self).width_pt,
            final(self).height_pt == old(self).height_pt,
    {
        let r = PdfLayerIndex(self.layers.len());
        self.layers.push(PdfLayer { name: layer_name, content: Vec::new() });
        proof {
            assert(self.layers@.take(old(self).layers@.len() as int) =~= old(self).layers@);
        }
        r
    }
}

/// The content of the layers, one after the other, in creation order.
pub open spec fn merged_content(layers: Seq<PdfLayer>) -> Seq<u8>
    decreases layers.len(),
{
    if layers.len() == 0 {
        Seq::empty()
    } else {
        merged_content(layers.drop_last()) + layers.last().content@
    }
}

/// Concatenates the content of all layers of a page, in creation order.
pub fn merge_layer_streams(layers: &Vec<PdfLayer>) -> (r: Vec<u8>)
    ensures
        r@ == merged_content(layers@),
{
    let mut out: Vec<u8> = Vec::new();
    for i in 0..layers.len()
        invariant
            out@ == merged_content(layers@.take(i as int)),
    {
        let c = &layers[i].content;
        for j in 0..c.len()
            invariant
                out@ == merged_content(layers@.take(i as int)) + c@.take(j as int),
        {
            out.push(c[j]);
            proof {
                assert(c@.take(j + 1) =~= c@.take(j as int).push(c@[j as int]));
            }
        }
        proof {
            assert(layers@.take(i + 1).drop_last() =~= layers@.take(i as int));
            assert(c@.take(c@.len() as int) =~= c@);
        }
    }
    proof {
        assert(layers@.take(layers@.len() as int) =~= layers@);
    }
    out
}

/// `[0 0 w h]`, with `w` and `h` in thousandths of a point.
pub open spec fn is_page_box(o: Obj, w: i64, h: i64) -> bool {
    let a = items(o);
    &&& o is Array
    &&& a.len() == 4
    &&& is_int(a[0], 0)
    &&& is_int(a[1], 0)
    &&& a[2] == Obj::Real(w)
    &&& a[3] == Obj::Real(h)
}

fn page_box(w: i64, h: i64) -> (r: Obj)
    ensures
        is_page_box(r, w, h),
{
    let mut a: Vec<Obj> = Vec::new();
    a.push(Obj::Integer(0));
    a.push(Obj::Integer(0));
    a.push(Obj::Real(w));
    a.push(Obj::Real(h));
    Obj::Array(a)
}

/// A page dictionary: not rotated, MediaBox, TrimBox and CropBox all
/// `[0 0 width height]`, its parent, and its content stream.
pub open spec fn is_page_dict(o: Obj, width: i64, height: i64, parent: u32, contents: u32) -> bool {
    let d = entries(o);
    &&& o is Dict
    &&& d.len() == 7
    &&& entry_key(d, 0, key("Type")) && is_name(d[0].1, key("Page"))
    &&& entry_key(d, 1, key("Rotate")) && is_int(d[1].1, 0)
    &&& entry_key(d, 2, key("MediaBox")) && is_page_box(d[2].1, width, height)
    &&& entry_key(d, 3, key("TrimBox")) && is_page_box(d[3].1, width, height)
    &&& entry_key(d, 4, key("CropBox")) && is_page_box(d[4].1, width, height)
    &&& entry_key(d, 5, key("Parent")) && d[5].1 == Obj::Reference(parent)
    &&& entry_key(d, 6, key("Contents")) && d[6].1 == Obj::Reference(contents)
}

/// The dictionary of a page whose merged content is object `contents`.
pub fn page_dict(width: i64, height: i64, parent: u32, contents: u32) -> (r: Obj)
    ensures
        is_page_dict(r, width, height, parent, contents),
{
    let mut d: Vec<(Vec<u8>, Obj)> = Vec::new();
    d.push(entry("Type", name("Page")));
    d.push(entry("Rotate", Obj::Integer(0)));
    d.push(entry("MediaBox", page_box(width, height)));
    d.push(entry("TrimBox", page_box(width, height)));
    d.push(entry("CropBox", page_box(width, height)));
    d.push(entry("Parent", Obj::Reference(parent)));
    d.push(entry("Contents", Obj::Reference(contents)));
    Obj::Dict(d)
}

} // verus!
