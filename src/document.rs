//! A PDF document: its pages, fonts and metadata, and their assembly into
//! one object graph.

use vstd::prelude::*;
use vstd::string::StrSliceExecFns;
use vstd::utf8::encode_utf8;
use crate::error::Error;
use crate::object::{Obj, ObjectStore, entry, entries, entry_key, items, key, is_int, is_name, is_str, name, lit, content};
use crate::font::{Font, FontList, FontView, IndirectFontRef, DirectFontRef, font_label, lemma_font_label_injective,
    ft_postscript_name_of, font_embeddable, font_stored, font_objects_at, glyph_scan, ft_size_metrics_of};
use crate::glyphs::{glyph_map, lists_map, max_height, total_width, lemma_lists_map_unique};
use crate::page::{PdfPage, PdfLayerIndex, PdfPageIndex, merge_layer_streams, merged_content, page_dict, is_page_dict};
use crate::metadata::{PdfConformance, PdfMetadata};
use crate::document_info::{DocumentInfo, UtcDateTime, is_info_dict, xmp_metadata_obj};
use crate::ids::{new_identifier, utc_now};

verus! {

/// Some registered font carries the PostScript name `face_name`.
pub open spec fn name_registered(fonts: Seq<FontView>, face_name: Seq<char>) -> bool {
    exists|i: int| 0 <= i < fonts.len() && fonts[i].2 == face_name
}

/// The fonts after registering the font program `font_bytes` named
/// `face_name`, whose font dictionary would get object number `id`:
/// unchanged when a font of that name is registered already (the new
/// program is dropped), else one more font labelled by its position.
pub open spec fn registered(fonts: Seq<FontView>, face_name: Seq<char>, id: u32, font_bytes: Seq<u8>) -> Seq<FontView> {
    if name_registered(fonts, face_name) {
        fonts
    } else {
        fonts.push((font_label(fonts.len()), id, face_name, font_bytes))
    }
}

/// Stored at positions `k` and `k + 1` of `o`: the merged content of
/// `page` under number `id`, and the page dictionary under number `id + 1`.
pub open spec fn page_stored(o: Seq<(u32, Obj)>, k: int, id: int, page: PdfPage, parent: u32) -> bool {
    &&& 0 <= k && k + 1 < o.len()
    &&& o[k].0 == id
    &&& o[k].1 is Stream
    &&& entries(o[k].1).len() == 0
    &&& content(o[k].1) == merged_content(page.layers@)
    &&& o[k + 1].0 == id + 1
    &&& is_page_dict(o[k + 1].1, page.width_pt, page.height_pt, parent, id as u32)
}

/// The Font resource dictionary: one entry per font, its label mapped to
/// its font dictionary.
pub open spec fn is_font_resources(d: Seq<(Vec<u8>, Obj)>, fonts: Seq<FontView>) -> bool {
    &&& d.len() == fonts.len()
    &&& forall|i: int| 0 <= i < fonts.len() ==> (#[trigger] d[i]).0@ == encode_utf8(fonts[i].0)
        && d[i].1 == Obj::Reference(fonts[i].1)
}

/// The page tree: `n` kids, the page dictionaries numbered `first_page`,
/// `first_page + 2`, ...; a Resources entry with the fonts only where
/// there are fonts.
pub open spec fn is_page_tree(o: Obj, n: int, first_page: int, fonts: Seq<FontView>) -> bool {
    let d = entries(o);
    let kids = items(d[2].1);
    &&& o is Dict
    &&& entry_key(d, 0, key("Type")) && is_name(d[0].1, key("Pages"))
    &&& entry_key(d, 1, key("Count")) && is_int(d[1].1, n)
    &&& entry_key(d, 2, key("Kids")) && d[2].1 is Array
    &&& kids.len() == n
    &&& forall|i: int| 0 <= i < n ==> #[trigger] kids[i] == Obj::Reference((first_page + 2 * i) as u32)
    &&& fonts.len() == 0 ==> d.len() == 3
    &&& fonts.len() > 0 ==> d.len() == 4 && entry_key(d, 3, key("Resources")) && d[3].1 is Dict
        && entries(d[3].1).len() == 1 && entry_key(entries(d[3].1), 0, key("Font"))
        && entries(d[3].1)[0].1 is Dict && is_font_resources(entries(entries(d[3].1)[0].1), fonts)
}

/// The output intent: fixed PDF/X fields, and a destination profile exactly
/// where an ICC profile was given.
pub open spec fn is_output_intent(o: Obj, icc_id: Option<u32>) -> bool {
    let d = entries(o);
    &&& o is Dict
    &&& entry_key(d, 0, key("S")) && is_name(d[0].1, key("GTS_PDFX"))
    &&& entry_key(d, 1, key("OutputCondition")) && is_str(d[1].1, key(ICC_PROFILE_DESCRIPTION))
    &&& entry_key(d, 2, key("Type")) && is_name(d[2].1, key("OutputIntent"))
    &&& entry_key(d, 3, key("OutputConditionIdentifier")) && is_str(d[3].1, key(ICC_PROFILE_SHORT))
    &&& entry_key(d, 4, key("RegistryName")) && is_str(d[4].1, key("http://www.color.org"))
    &&& entry_key(d, 5, key("Info")) && is_str(d[5].1, key(ICC_PROFILE_INFO))
    &&& match icc_id {
        Some(id) => d.len() == 7 && entry_key(d, 6, key("DestinationOutputProfile")) && d[6].1 == Obj::Reference(id),
        None => d.len() == 6,
    }
}

/// The catalog.
pub open spec fn is_catalog(o: Obj, pages_id: int, xmp_id: int, icc_id: Option<u32>) -> bool {
    let d = entries(o);
    &&& o is Dict
    &&& d.len() == 6
    &&& entry_key(d, 0, key("Type")) && is_name(d[0].1, key("Catalog"))
    &&& entry_key(d, 1, key("PageLayout")) && is_name(d[1].1, key("OneColumn"))
    &&& entry_key(d, 2, key("PageMode")) && is_name(d[2].1, key("Use0"))
    &&& entry_key(d, 3, key("Pages")) && d[3].1 == Obj::Reference(pages_id as u32)
    &&& entry_key(d, 4, key("Metadata")) && d[4].1 == Obj::Reference(xmp_id as u32)
    &&& entry_key(d, 5, key("OutputIntents")) && d[5].1 is Array && items(d[5].1).len() == 1
        && is_output_intent(items(d[5].1)[0], icc_id)
}

/// The trailer: Root, Info, and ID = [document ID, instance ID].
pub open spec fn is_trailer(t: Seq<(Vec<u8>, Obj)>, root: int, info: int, document_id: Seq<char>, instance_id: Seq<char>) -> bool {
    &&& t.len() == 3
    &&& entry_key(t, 0, key("Root")) && t[0].1 == Obj::Reference(root as u32)
    &&& entry_key(t, 1, key("Info")) && t[1].1 == Obj::Reference(info as u32)
    &&& entry_key(t, 2, key("ID")) && t[2].1 is Array && items(t[2].1).len() == 2
        && is_str(items(t[2].1)[0], encode_utf8(document_id)) && is_str(items(t[2].1)[1], encode_utf8(instance_id))
}

/// How many new object numbers saving `d` takes.
pub open spec fn objects_needed(d: &PdfDocument) -> int {
    4 + (if d.icc_profile is Some { 1int } else { 0int }) + 2 * d.pages@.len() + 3 * d.fonts@.len()
}

/// `s` is what saving `d` with the instance ID `instance_id` produces. In
/// order: the XMP stream, the Info dictionary, the ICC profile if any, each
/// page's merged content and dictionary, four objects per font, the page
/// tree under the number reserved first, and the catalog.
pub open spec fn saved(d: &PdfDocument, instance_id: Seq<char>, s: ObjectStore) -> bool {
    let m0 = d.inner_doc.max_id as int;
    let icc: int = if d.icc_profile is Some { 1 } else { 0 };
    let n = d.pages@.len() as int;
    let f = d.fonts@.len() as int;
    let o = s.objects@;
    let tree_at = 2 + icc + 2 * n + 4 * f;
    let catalog_id = m0 + objects_needed(d);
    &&& s.wf()
    &&& s.max_id == catalog_id
    &&& o.len() == tree_at + 2
    &&& o[0].0 == m0 + 2
    &&& is_xmp_stream(o[0].1, &d.metadata)
    &&& o[1].0 == m0 + 3
    &&& is_info_dict(o[1].1, &d.metadata)
    &&& (d.icc_profile matches Some(p) ==> o[2].0 == m0 + 4 && is_icc_stream(o[2].1, p@))
    &&& forall|i: int| 0 <= i < n ==> page_stored(o, 2 + icc + 2 * i, m0 + 4 + icc + 2 * i, #[trigger] d.pages@[i], (m0 + 1) as u32)
    &&& forall|i: int| 0 <= i < f ==> font_stored(o, 2 + icc + 2 * n + 4 * i, m0 + 3 + icc + 2 * n + 3 * i, #[trigger] d.fonts@[i])
    &&& o[tree_at].0 == m0 + 1
    &&& is_page_tree(o[tree_at].1, n, m0 + 5 + icc, d.fonts@)
    &&& o[tree_at + 1].0 == catalog_id
    &&& is_catalog(o[tree_at + 1].1, m0 + 1, m0 + 2, if icc == 1 { Some((m0 + 4) as u32) } else { None })
    &&& is_trailer(s.trailer@, catalog_id, m0 + 3, d.document_id@, instance_id)
}

pub const ICC_PROFILE_DESCRIPTION: &'static str = "Commercial and special offset print acccording to ISO 12647-2:2004 / Amd 1, paper type 1 or 2 (matte or gloss-coated offset paper, 115 g/m2), screen ruling 60/cm";

pub const ICC_PROFILE_INFO: &'static str = "Coated FOGRA39 (ISO 12647-2:2004)";

pub const ICC_PROFILE_SHORT: &'static str = "FOGRA39";

fn output_intent(icc_id: Option<u32>) -> (r: Obj)
    ensures
        is_output_intent(r, icc_id),
{
    let mut d: Vec<(Vec<u8>, Obj)> = Vec::new();
    d.push(entry("S", name("GTS_PDFX")));
    d.push(entry("OutputCondition", lit(ICC_PROFILE_DESCRIPTION)));
    d.push(entry("Type", name("OutputIntent")));
    d.push(entry("OutputConditionIdentifier", lit(ICC_PROFILE_SHORT)));
    d.push(entry("RegistryName", lit("http://www.color.org")));
    d.push(entry("Info", lit(ICC_PROFILE_INFO)));
    match icc_id {
        Some(id) => d.push(entry("DestinationOutputProfile", Obj::Reference(id))),
        None => {},
    }
    Obj::Dict(d)
}

fn catalog(pages_id: u32, xmp_id: u32, icc_id: Option<u32>) -> (r: Obj)
    ensures
        is_catalog(r, pages_id as int, xmp_id as int, icc_id),
{
    let mut intents: Vec<Obj> = Vec::new();
    intents.push(output_intent(icc_id));
    let mut d: Vec<(Vec<u8>, Obj)> = Vec::new();
    d.push(entry("Type", name("Catalog")));
    d.push(entry("PageLayout", name("OneColumn")));
    d.push(entry("PageMode", name("Use0")));
    d.push(entry("Pages", Obj::Reference(pages_id)));
    d.push(entry("Metadata", Obj::Reference(xmp_id)));
    d.push(entry("OutputIntents", Obj::Array(intents)));
    Obj::Dict(d)
}

fn trailer(root: u32, info: u32, document_id: &String, instance_id: &String) -> (r: Vec<(Vec<u8>, Obj)>)
    ensures
        is_trailer(r@, root as int, info as int, document_id@, instance_id@),
{
    let mut id: Vec<Obj> = Vec::new();
    id.push(Obj::Str(document_id.as_str().as_bytes_vec()));
    id.push(Obj::Str(instance_id.as_str().as_bytes_vec()));
    let mut t: Vec<(Vec<u8>, Obj)> = Vec::new();
    t.push(entry("Root", Obj::Reference(root)));
    t.push(entry("Info", Obj::Reference(info)));
    t.push(entry("ID", Obj::Array(id)));
    t
}

fn page_tree(kids: Vec<Obj>, fonts: Vec<(Vec<u8>, Obj)>, ghost_fonts: Ghost<Seq<FontView>>, first_page: Ghost<int>) -> (r: Obj)
    requires
        kids@.len() <= i64::MAX,
        forall|i: int| 0 <= i < kids@.len() ==> #[trigger] kids@[i] == Obj::Reference((first_page@ + 2 * i) as u32),
        is_font_resources(fonts@, ghost_fonts@),
    ensures
        is_page_tree(r, kids@.len() as int, first_page@, ghost_fonts@),
{
    let n = kids.len();
    let has_fonts = fonts.len() > 0;
    let mut d: Vec<(Vec<u8>, Obj)> = Vec::new();
    d.push(entry("Type", name("Pages")));
    d.push(entry("Count", Obj::Integer(n as i64)));
    d.push(entry("Kids", Obj::Array(kids)));
    if has_fonts {
        let mut res: Vec<(Vec<u8>, Obj)> = Vec::new();
        res.push(entry("Font", Obj::Dict(fonts)));
        d.push(entry("Resources", Obj::Dict(res)));
    }
    Obj::Dict(d)
}

/// Stores each page's merged content and its dictionary, and returns
/// references to the page dictionaries.
fn add_pages(store: &mut ObjectStore, pages: &Vec<PdfPage>, parent: u32) -> (r: Vec<Obj>)
    requires
        old(store).wf(),
        old(store).max_id + 2 * pages@.len() <= u32::MAX,
    ensures
        final(store).wf(),
        final(store).trailer == old(store).trailer,
        final(store).max_id == old(store).max_id + 2 * pages@.len(),
        final(store).objects@.len() == old(store).objects@.len() + 2 * pages@.len(),
        final(store).objects@.take(old(store).objects@.len() as int) == old(store).objects@,
        r@.len() == pages@.len(),
        forall|i: int| 0 <= i < pages@.len() ==> #[trigger] r@[i] == Obj::Reference((old(store).max_id + 2 + 2 * i) as u32),
        forall|i: int| 0 <= i < pages@.len() ==> page_stored(final(store).objects@, old(store).objects@.len() + 2 * i,
            old(store).max_id + 1 + 2 * i, #[trigger] pages@[i], parent),
{
    let ghost o0 = store.objects@;
    let ghost m0 = store.max_id as int;
    let mut kids: Vec<Obj> = Vec::new();
    for i in 0..pages.len()
        invariant
            o0 == old(store).objects@,
            m0 == old(store).max_id,
            store.wf(),
            store.trailer == old(store).trailer,
            m0 + 2 * pages@.len() <= u32::MAX,
            store.max_id == m0 + 2 * i,
            store.objects@.len() == o0.len() + 2 * i,
            store.objects@.take(o0.len() as int) == o0,
            kids@.len() == i,
            forall|j: int| 0 <= j < i ==> #[trigger] kids@[j] == Obj::Reference((m0 + 2 + 2 * j) as u32),
            forall|j: int| 0 <= j < i ==> page_stored(store.objects@, o0.len() + 2 * j, m0 + 1 + 2 * j, #[trigger] pages@[j], parent),
    {
        let page = &pages[i];
        let ghost before = store.objects@;
        let merged = merge_layer_streams(&page.layers);
        let content_id = store.add_object(Obj::Stream(Vec::new(), merged, true)).unwrap();
        let page_id = store.add_object(page_dict(page.width_pt, page.height_pt, parent, content_id)).unwrap();
        kids.push(Obj::Reference(page_id));
        proof {
            assert(store.objects@ =~= before.push(store.objects@[before.len() as int]).push(store.objects@[before.len() as int + 1]));
            assert(store.objects@.take(o0.len() as int) =~= o0);
            assert forall|j: int| 0 <= j < i + 1 implies page_stored(store.objects@, o0.len() + 2 * j, m0 + 1 + 2 * j, #[trigger] pages@[j], parent) by {
                if j < i {
                    assert(page_stored(before, o0.len() + 2 * j, m0 + 1 + 2 * j, pages@[j], parent));
                    assert(store.objects@[o0.len() + 2 * j] == before[o0.len() + 2 * j]);
                    assert(store.objects@[o0.len() + 2 * j + 1] == before[o0.len() + 2 * j + 1]);
                }
            }
        }
    }
    kids
}

proof fn lemma_assembled(
    d: &PdfDocument,
    instance_id: Seq<char>,
    s: ObjectStore,
    o1: Seq<(u32, Obj)>,
    o2: Seq<(u32, Obj)>,
    o3: Seq<(u32, Obj)>,
    tree: Obj,
    cat: Obj,
)
    requires
        ({
            let m0 = d.inner_doc.max_id as int;
            let icc: int = if d.icc_profile is Some { 1 } else { 0 };
            let n = d.pages@.len() as int;
            let f = d.fonts@.len() as int;
            let catalog_id = m0 + objects_needed(d);
            &&& s.wf()
            &&& s.max_id == catalog_id
            &&& o1.len() == 2 + icc
            &&& o1[0].0 == m0 + 2
            &&& is_xmp_stream(o1[0].1, &d.metadata)
            &&& o1[1].0 == m0 + 3
            &&& is_info_dict(o1[1].1, &d.metadata)
            &&& (d.icc_profile matches Some(p) ==> o1[2].0 == m0 + 4 && is_icc_stream(o1[2].1, p@))
            &&& o2.len() == o1.len() + 2 * n
            &&& o2.take(o1.len() as int) == o1
            &&& forall|i: int| 0 <= i < n ==> page_stored(o2, o1.len() + 2 * i, m0 + 4 + icc + 2 * i, #[trigger] d.pages@[i], (m0 + 1) as u32)
            &&& o3.len() == o2.len() + 4 * f
            &&& o3.take(o2.len() as int) == o2
            &&& forall|i: int| 0 <= i < f ==> font_stored(o3, o2.len() + 4 * i, m0 + 3 + icc + 2 * n + 3 * i, #[trigger] d.fonts@[i])
            &&& s.objects@ == o3.push(((m0 + 1) as u32, tree)).push((catalog_id as u32, cat))
            &&& is_page_tree(tree, n, m0 + 5 + icc, d.fonts@)
            &&& is_catalog(cat, m0 + 1, m0 + 2, if icc == 1 { Some((m0 + 4) as u32) } else { None })
            &&& is_trailer(s.trailer@, catalog_id, m0 + 3, d.document_id@, instance_id)
        }),
    ensures
        saved(d, instance_id, s),
{
    let m0 = d.inner_doc.max_id as int;
    let icc: int = if d.icc_profile is Some { 1 } else { 0 };
    let o = s.objects@;
    assert(o[0] == o2[0] && o2[0] == o1[0]);
    assert(o[1] == o2[1] && o2[1] == o1[1]);
    if icc == 1 {
        assert(o[2] == o2[2] && o2[2] == o1[2]);
    }
    assert forall|i: int| 0 <= i < d.pages@.len() implies page_stored(o, 2 + icc + 2 * i, m0 + 4 + icc + 2 * i, #[trigger] d.pages@[i], (m0 + 1) as u32) by {
        assert(page_stored(o2, o1.len() + 2 * i, m0 + 4 + icc + 2 * i, d.pages@[i], (m0 + 1) as u32));
        assert(o[2 + icc + 2 * i] == o3[2 + icc + 2 * i]);
        assert(o3[2 + icc + 2 * i] == o2[2 + icc + 2 * i]);
        assert(o[3 + icc + 2 * i] == o3[3 + icc + 2 * i]);
        assert(o3[3 + icc + 2 * i] == o2[3 + icc + 2 * i]);
    }
    assert(o.take(o3.len() as int) =~= o3);
    assert forall|i: int| 0 <= i < d.fonts@.len() implies font_stored(o, 2 + icc + 2 * d.pages@.len() + 4 * i,
        m0 + 3 + icc + 2 * d.pages@.len() + 3 * i, #[trigger] d.fonts@[i]) by {
        crate::font::lemma_font_stored_extends(o3, o, o2.len() + 4 * i, m0 + 3 + icc + 2 * d.pages@.len() + 3 * i, d.fonts@[i]);
    }
}

/// The XMP metadata stream of `m`.
pub open spec fn is_xmp_stream(o: Obj, m: &PdfMetadata) -> bool {
    let d = entries(o);
    &&& o is Stream
    &&& content(o) == encode_utf8(crate::document_info::xmp_text(m))
    &&& d.len() == 2
    &&& entry_key(d, 0, key("Type")) && is_name(d[0].1, key("Metadata"))
    &&& entry_key(d, 1, key("Subtype")) && is_name(d[1].1, key("XML"))
}

/// The ICC profile stream: four components, the profile as given.
pub open spec fn is_icc_stream(o: Obj, profile: Seq<u8>) -> bool {
    let d = entries(o);
    &&& o is Stream
    &&& content(o) == profile
    &&& d.len() == 1
    &&& entry_key(d, 0, key("N")) && is_int(d[0].1, 4)
}

/// Registering a font whose PostScript name is registered already changes
/// nothing (the program that came first stays), and after registering a
/// name exactly one font carries it.
pub proof fn lemma_register_once(fonts: Seq<FontView>, face_name: Seq<char>, a: u32, bytes_a: Seq<u8>, b: u32, bytes_b: Seq<u8>)
    requires
        forall|i: int, j: int| 0 <= i < j < fonts.len() ==> fonts[i].2 != fonts[j].2,
    ensures
        registered(registered(fonts, face_name, a, bytes_a), face_name, b, bytes_b) == registered(fonts, face_name, a, bytes_a),
        exists|i: int| 0 <= i < registered(fonts, face_name, a, bytes_a).len() && registered(fonts, face_name, a, bytes_a)[i].2 == face_name,
        forall|i: int, j: int| 0 <= i < registered(fonts, face_name, a, bytes_a).len() && 0 <= j < registered(fonts, face_name, a, bytes_a).len()
            && registered(fonts, face_name, a, bytes_a)[i].2 == face_name && registered(fonts, face_name, a, bytes_a)[j].2 == face_name ==> i == j,
        !name_registered(fonts, face_name) ==> registered(fonts, face_name, a, bytes_a).last() == (font_label(fonts.len()), a, face_name, bytes_a),
{
    let w = registered(fonts, face_name, a, bytes_a);
    if !name_registered(fonts, face_name) {
        assert(w[fonts.len() as int].2 == face_name);
    }
}

/// In a saved document the Font resources hold one entry per registered
/// font, and so per distinct PostScript name: the fonts' names differ, and
/// each entry refers to a font dictionary of its own.
pub proof fn lemma_font_resources(d: &PdfDocument, instance_id: Seq<char>, s: ObjectStore)
    requires
        d.wf(),
        saved(d, instance_id, s),
        d.fonts@.len() > 0,
    ensures
        ({
            let icc: int = if d.icc_profile is Some { 1 } else { 0 };
            let tree = s.objects@[2 + icc + 2 * d.pages@.len() + 4 * d.fonts@.len()].1;
            let fd = entries(entries(entries(tree)[3].1)[0].1);
            &&& fd.len() == d.fonts@.len()
            &&& forall|i: int| 0 <= i < fd.len() ==> (#[trigger] fd[i]).0@ == encode_utf8(font_label(i as nat))
            &&& forall|i: int, j: int| 0 <= i < j < fd.len() ==> d.fonts@[i].2 != d.fonts@[j].2 && fd[i].1 != fd[j].1
        }),
{
    let icc: int = if d.icc_profile is Some { 1 } else { 0 };
    let tree = s.objects@[2 + icc + 2 * d.pages@.len() + 4 * d.fonts@.len()].1;
    let fd = entries(entries(entries(tree)[3].1)[0].1);
    assert forall|i: int, j: int| 0 <= i < j < fd.len() implies d.fonts@[i].2 != d.fonts@[j].2 && fd[i].1 != fd[j].1 by {
        assert(d.fonts@[i].1 < d.fonts@[j].1);
    }
    assert forall|i: int| 0 <= i < fd.len() implies (#[trigger] fd[i]).0@ == encode_utf8(font_label(i as nat)) by {
        assert(d.fonts@[i].0 == font_label(i as nat));
    }
}

/// Where the content stream of page `i` stands among the saved objects.
pub open spec fn page_position(d: &PdfDocument, i: int) -> int {
    2 + (if d.icc_profile is Some { 1int } else { 0int }) + 2 * i
}

/// The objects at positions `k` and `k + 1` carry the same numbers, and the
/// streams at `k` the same content.
pub open spec fn same_page_objects(o1: Seq<(u32, Obj)>, o2: Seq<(u32, Obj)>, k: int) -> bool {
    &&& o1[k].0 == o2[k].0
    &&& content(o1[k].1) == content(o2[k].1)
    &&& o1[k + 1].0 == o2[k + 1].0
}

/// Where the objects of font `i` stand among the saved objects.
pub open spec fn font_position(d: &PdfDocument, i: int) -> int {
    2 + (if d.icc_profile is Some { 1int } else { 0int }) + 2 * d.pages@.len() + 4 * i
}

/// The four objects of a font at position `k` carry the same numbers, and
/// its CMap and font program streams the same content.
pub open spec fn same_font_objects(o1: Seq<(u32, Obj)>, o2: Seq<(u32, Obj)>, k: int) -> bool {
    &&& o1[k].0 == o2[k].0
    &&& o1[k + 1].0 == o2[k + 1].0
    &&& o1[k + 2].0 == o2[k + 2].0
    &&& o1[k + 3].0 == o2[k + 3].0
    &&& content(o1[k].1) == content(o2[k].1)
    &&& content(o1[k + 1].1) == content(o2[k + 1].1)
}

proof fn lemma_same_font(o1: Seq<(u32, Obj)>, o2: Seq<(u32, Obj)>, k: int, m: int, f: FontView)
    requires
        font_stored(o1, k, m, f),
        font_stored(o2, k, m, f),
    ensures
        same_font_objects(o1, o2, k),
{
    reveal(font_stored);
    let s = glyph_scan(f.3);
    let mt = ft_size_metrics_of(f.3)->Some_0;
    let g1 = choose|g: Seq<(u32, u32, i64)>| #![trigger lists_map(g, glyph_map(s))]
        lists_map(g, glyph_map(s)) && g.len() > 0 && g[0] == (0u32, 0u32, 1000i64)
        && font_objects_at(o1, k, m, o1[k + 3].1, encode_utf8(f.2), f.3, mt.0 as int, mt.1 as int,
            g, max_height(s), total_width(s));
    let g2 = choose|g: Seq<(u32, u32, i64)>| #![trigger lists_map(g, glyph_map(s))]
        lists_map(g, glyph_map(s)) && g.len() > 0 && g[0] == (0u32, 0u32, 1000i64)
        && font_objects_at(o2, k, m, o2[k + 3].1, encode_utf8(f.2), f.3, mt.0 as int, mt.1 as int,
            g, max_height(s), total_width(s));
    lemma_lists_map_unique(g1, g2, glyph_map(s));
}

/// Two saves of one document differ in the instance ID of the trailer and
/// agree on the rest of the trailer, on the number of every object, and on
/// the content of every stream: metadata, page content, ToUnicode CMaps and
/// font programs.
pub proof fn lemma_two_saves(d: &PdfDocument, id1: Seq<char>, id2: Seq<char>, s1: ObjectStore, s2: ObjectStore)
    requires
        saved(d, id1, s1),
        saved(d, id2, s2),
    ensures
        s1.max_id == s2.max_id,
        s1.objects@.len() == s2.objects@.len(),
        forall|k: int| 0 <= k < s1.objects@.len() ==> (#[trigger] s1.objects@[k]).0 == s2.objects@[k].0,
        s1.trailer@[0].1 == s2.trailer@[0].1,
        s1.trailer@[1].1 == s2.trailer@[1].1,
        items(s1.trailer@[2].1)[0] matches Obj::Str(a) && items(s2.trailer@[2].1)[0] matches Obj::Str(b) && a@ == b@,
        items(s1.trailer@[2].1)[1] matches Obj::Str(a) && a@ == encode_utf8(id1),
        items(s2.trailer@[2].1)[1] matches Obj::Str(b) && b@ == encode_utf8(id2),
        content(s1.objects@[0].1) == content(s2.objects@[0].1),
        d.icc_profile is Some ==> content(s1.objects@[2].1) == content(s2.objects@[2].1),
        forall|i: int| 0 <= i < d.pages@.len() ==> same_page_objects(s1.objects@, s2.objects@, #[trigger] page_position(d, i)),
        forall|i: int| 0 <= i < d.fonts@.len() ==> same_font_objects(s1.objects@, s2.objects@, #[trigger] font_position(d, i)),
{
    let icc: int = if d.icc_profile is Some { 1 } else { 0 };
    let m0 = d.inner_doc.max_id as int;
    let n = d.pages@.len() as int;
    let f = d.fonts@.len() as int;
    let o1 = s1.objects@;
    let o2 = s2.objects@;
    assert forall|i: int| 0 <= i < n implies same_page_objects(o1, o2, #[trigger] page_position(d, i)) by {
        assert(page_stored(o1, 2 + icc + 2 * i, m0 + 4 + icc + 2 * i, d.pages@[i], (m0 + 1) as u32));
        assert(page_stored(o2, 2 + icc + 2 * i, m0 + 4 + icc + 2 * i, d.pages@[i], (m0 + 1) as u32));
    }
    assert forall|i: int| 0 <= i < f implies same_font_objects(o1, o2, #[trigger] font_position(d, i)) by {
        assert(font_stored(o1, 2 + icc + 2 * n + 4 * i, m0 + 3 + icc + 2 * n + 3 * i, d.fonts@[i]));
        assert(font_stored(o2, 2 + icc + 2 * n + 4 * i, m0 + 3 + icc + 2 * n + 3 * i, d.fonts@[i]));
        lemma_same_font(o1, o2, 2 + icc + 2 * n + 4 * i, m0 + 3 + icc + 2 * n + 3 * i, d.fonts@[i]);
    }
    assert forall|k: int| 0 <= k < o1.len() implies (#[trigger] o1[k]).0 == o2[k].0 by {
        let pb = 2 + icc;
        let fb = 2 + icc + 2 * n;
        if k < pb {
        } else if k < fb {
            let i = (k - pb) / 2;
            assert(0 <= i < n);
            assert(same_page_objects(o1, o2, page_position(d, i)));
            assert(k == pb + 2 * i || k == pb + 2 * i + 1);
        } else if k < fb + 4 * f {
            let i = (k - fb) / 4;
            assert(0 <= i < f);
            assert(same_font_objects(o1, o2, font_position(d, i)));
            assert(k == fb + 4 * i || k == fb + 4 * i + 1 || k == fb + 4 * i + 2 || k == fb + 4 * i + 3);
        }
    }
}

/// A PDF document.
#[derive(Debug)]
pub struct PdfDocument {
    pub pages: Vec<PdfPage>,
    pub fonts: FontList,
    /// The ICC output profile, if the document has one.
    pub icc_profile: Option<Vec<u8>>,
    /// The object store; before saving it holds no objects, only the object
    /// numbers reserved for the fonts.
    pub inner_doc: ObjectStore,
    /// Identifies the document across revisions. Must be replaced when a
    /// document read from a file is saved again.
    pub document_id: String,
    pub metadata: PdfMetadata,
}

/// The handle through which a document is built and finally saved.
#[derive(Debug)]
pub struct PdfDocumentReference {
    pub document: PdfDocument,
}

impl PdfDocument {
    pub open spec fn wf(&self) -> bool {
        let f = self.fonts@;
        &&& self.inner_doc.wf()
        &&& self.inner_doc.objects@.len() == 0
        &&& self.inner_doc.trailer@.len() == 0
        &&& self.fonts.wf()
        &&& self.metadata.wf()
        &&& forall|i: int| 0 <= i < f.len() ==> (#[trigger] f[i]).0 == font_label(i as nat)
        &&& forall|i: int| 0 <= i < f.len() ==> 1 <= (#[trigger] f[i]).1 <= self.inner_doc.max_id
        &&& forall|i: int, j: int| 0 <= i < j < f.len() ==> (#[trigger] f[i]).2 != (#[trigger] f[j]).2
        &&& forall|i: int, j: int| 0 <= i < j < f.len() ==> (#[trigger] f[i]).1 < (#[trigger] f[j]).1
    }

    /// A document with one page of the given size (thousandths of a point)
    /// holding one layer, a fresh document ID, and metadata dated now.
    pub fn new(document_title: String, initial_page_width_pt: i64, initial_page_height_pt: i64, initial_layer_name: String)
        -> (r: (PdfDocumentReference, PdfPageIndex, PdfLayerIndex))
        ensures
            r.0.document.wf(),
            r.0.document.pages@.len() == 1,
            r.0.document.pages@[0].width_pt == initial_page_width_pt,
            r.0.document.pages@[0].height_pt == initial_page_height_pt,
            r.0.document.pages@[0].layers@.len() == 1,
            r.0.document.pages@[0].layers@[0].name@ == initial_layer_name@,
            r.0.document.fonts@.len() == 0,
            r.0.document.icc_profile is None,
            r.0.document.document_id@.len() == 32,
            forall|i: int| 0 <= i < 32 ==> crate::ids::is_alphanumeric(#[trigger] r.0.document.document_id@[i]),
            r.0.document.metadata.creation_date.wf(),
            r.0.document.metadata.creation_date == r.0.document.metadata.modification_date,
            r.0.document.metadata.document_title@ == document_title@,
            r.0.document.metadata.document_version == 1,
            !r.0.document.metadata.trapping,
            r.0.document.metadata.conformance == PdfConformance::X3_2002_PDF_1_3,
            r.1 == PdfPageIndex(0),
            r.2 == PdfLayerIndex(0),
    {
        let now = utc_now();
        let (page, layer) = PdfPage::new(initial_page_width_pt, initial_page_height_pt, initial_layer_name, 0);
        let mut pages: Vec<PdfPage> = Vec::new();
        pages.push(page);
        let doc = PdfDocument {
            pages,
            fonts: FontList::new(),
            icc_profile: None,
            inner_doc: ObjectStore::new(),
            document_id: new_identifier(),
            metadata: PdfMetadata::new(document_title, 1, false, PdfConformance::X3_2002_PDF_1_3, now),
        };
        (PdfDocumentReference { document: doc }, PdfPageIndex(0), layer)
    }
}

impl PdfDocumentReference {
    pub open spec fn wf(&self) -> bool {
        self.document.wf()
    }

    /// Sets the title of the Info dictionary and of the XMP record.
    pub fn with_title(self, new_title: String) -> (r: Self)
        requires
            self.wf(),
        ensures
            r.wf(),
            r.document == (PdfDocument { metadata: PdfMetadata { document_title: new_title, ..self.document.metadata }, ..self.document }),
    {
        let mut s = self;
        s.document.metadata.document_title = new_title;
        s
    }

    pub fn with_trapping(self, trapping: bool) -> (r: Self)
        requires
            self.wf(),
        ensures
            r.wf(),
            r.document == (PdfDocument { metadata: PdfMetadata { trapping, ..self.document.metadata }, ..self.document }),
    {
        let mut s = self;
        s.document.metadata.trapping = trapping;
        s
    }

    /// Sets the document ID of the XMP record.
    pub fn with_document_id(self, id: String) -> (r: Self)
        requires
            self.wf(),
        ensures
            r.wf(),
            r.document == (PdfDocument { metadata: PdfMetadata { xmp_document_id: id, ..self.document.metadata }, ..self.document }),
    {
        let mut s = self;
        s.document.metadata.xmp_document_id = id;
        s
    }

    pub fn with_document_version(self, version: u32) -> (r: Self)
        requires
            self.wf(),
        ensures
            r.wf(),
            r.document == (PdfDocument { metadata: PdfMetadata { document_version: version, ..self.document.metadata }, ..self.document }),
    {
        let mut s = self;
        s.document.metadata.document_version = version;
        s
    }

    pub fn with_conformance(self, conformance: PdfConformance) -> (r: Self)
        requires
            self.wf(),
        ensures
            r.wf(),
            r.document == (PdfDocument { metadata: PdfMetadata { conformance, ..self.document.metadata }, ..self.document }),
    {
        let mut s = self;
        s.document.metadata.conformance = conformance;
        s
    }

    /// Sets the modification date, for documents that already carry one.
    pub fn with_mod_date(self, mod_date: UtcDateTime) -> (r: Self)
        requires
            self.wf(),
            mod_date.wf(),
        ensures
            r.wf(),
            r.document == (PdfDocument { metadata: PdfMetadata { modification_date: mod_date, ..self.document.metadata }, ..self.document }),
    {
        let mut s = self;
        s.document.metadata.modification_date = mod_date;
        s
    }

    /// Embeds this ICC profile as the output intent's destination profile.
    pub fn with_icc_profile(self, profile: Vec<u8>) -> (r: Self)
        requires
            self.wf(),
        ensures
            r.wf(),
            r.document == (PdfDocument { icc_profile: Some(profile), ..self.document }),
    {
        let mut s = self;
        s.document.icc_profile = Some(profile);
        s
    }

    /// Adds a page of the given size (thousandths of a point) with one layer,
    /// and returns the indices of both.
    pub fn add_page(&mut self, width_pt: i64, height_pt: i64, initial_layer_name: String) -> (r: (PdfPageIndex, PdfLayerIndex))
        requires
            old(self).wf(),
        ensures
            final(self).wf(),
            r.0 == PdfPageIndex(old(self).document.pages@.len() as usize),
            r.1 == PdfLayerIndex(0),
            final(self).document.pages@.len() == old(self).document.pages@.len() + 1,
            final(self).document.pages@.last().width_pt == width_pt,
            final(self).document.pages@.last().height_pt == height_pt,
            final(self).document.pages@.last().layers@.len() == 1,
            final(self).document.pages@.last().layers@[0].name@ == initial_layer_name@,
            final(self).document.pages@.last().layers@[0].content@.len() == 0,
            final(self).document.pages@.take(old(self).document.pages@.len() as int) == old(self).document.pages@,
            final(self).document == (PdfDocument { pages: final(self).document.pages, ..old(self).document }),
    {
        let n = self.document.pages.len();
        let (page, layer) = PdfPage::new(width_pt, height_pt, initial_layer_name, n);
        self.document.pages.push(page);
        proof {
            assert(self.document.pages@.take(n as int) =~= old(self).document.pages@);
        }
        (PdfPageIndex(n), layer)
    }

    /// Adds an empty layer on top of a page; `None` for an unknown page.
    pub fn add_layer(&mut self, page: PdfPageIndex, layer_name: String) -> (r: Option<PdfLayerIndex>)
        requires
            old(self).wf(),
        ensures
            final(self).wf(),
            final(self).document.pages@.len() == old(self).document.pages@.len(),
            final(self).document.fonts@ == old(self).document.fonts@,
            page.0 >= old(self).document.pages@.len() <==> r is None,
            final(self).document == (PdfDocument { pages: final(self).document.pages, ..old(self).document }),
            forall|j: int| 0 <= j < old(self).document.pages@.len() && j != page.0 ==>
                #[trigger] final(self).document.pages@[j] == old(self).document.pages@[j],
            r is None ==> final(self).document.pages@ == old(self).document.pages@,
            r matches Some(l) ==> {
                let p0 = old(self).document.pages@[page.0 as int];
                let p1 = final(self).document.pages@[page.0 as int];
                &&& l.0 == p0.layers@.len()
                &&& p1.layers@.len() == l.0 + 1
                &&& p1.layers@.take(l.0 as int) == p0.layers@
                &&& p1.layers@.last().name@ == layer_name@
                &&& p1.layers@.last().content@.len() == 0
                &&& p1.index == p0.index && p1.width_pt == p0.width_pt && p1.height_pt == p0.height_pt
            },
    {
        if page.0 >= self.document.pages.len() {
            return None;
        }
        let mut p = self.document.pages.remove(page.0);
        let l = p.add_layer(layer_name);
        self.document.pages.insert(page.0, p);
        proof {
            assert forall|j: int| 0 <= j < old(self).document.pages@.len() && j != page.0 implies
                #[trigger] self.document.pages@[j] == old(self).document.pages@[j] by {
                if j < page.0 {
                } else {
                }
            }
        }
        Some(l)
    }

    /// Appends content-stream operators to a layer; `false` for an unknown
    /// page or layer, which changes nothing.
    pub fn add_operators(&mut self, page: PdfPageIndex, layer: PdfLayerIndex, operators: &Vec<u8>) -> (r: bool)
        requires
            old(self).wf(),
        ensures
            final(self).wf(),
            final(self).document.pages@.len() == old(self).document.pages@.len(),
            final(self).document.fonts@ == old(self).document.fonts@,
            r <==> page.0 < old(self).document.pages@.len()
                && layer.0 < old(self).document.pages@[page.0 as int].layers@.len(),
            final(self).document == (PdfDocument { pages: final(self).document.pages, ..old(self).document }),
            forall|j: int| 0 <= j < old(self).document.pages@.len() && j != page.0 ==>
                #[trigger] final(self).document.pages@[j] == old(self).document.pages@[j],
            !r ==> final(self).document.pages@ == old(self).document.pages@,
            r ==> {
                let p0 = old(self).document.pages@[page.0 as int];
                let p1 = final(self).document.pages@[page.0 as int];
                &&& p1.index == p0.index && p1.width_pt == p0.width_pt && p1.height_pt == p0.height_pt
                &&& p1.layers@.len() == p0.layers@.len()
                &&& forall|k: int| 0 <= k < p0.layers@.len() && k != layer.0 ==> #[trigger] p1.layers@[k] == p0.layers@[k]
                &&& p1.layers@[layer.0 as int].name == p0.layers@[layer.0 as int].name
                &&& p1.layers@[layer.0 as int].content@ == p0.layers@[layer.0 as int].content@ + operators@
            },
    {
        if page.0 >= self.document.pages.len() || layer.0 >= self.document.pages[page.0].layers.len() {
            return false;
        }
        let mut p = self.document.pages.remove(page.0);
        let mut l = p.layers.remove(layer.0);
        let mut ops = operators.clone();
        proof {
            assert(ops@ =~= operators@);
        }
        l.content.append(&mut ops);
        p.layers.insert(layer.0, l);
        self.document.pages.insert(page.0, p);
        true
    }

    /// Registers a parsed font. A font whose PostScript name is registered
    /// already is not added again: its existing handle comes back. Otherwise
    /// an object number is reserved for its font dictionary and the font
    /// gets the next label.
    pub fn register_font(&mut self, font: Font) -> (r: Result<IndirectFontRef, Error>)
        requires
            old(self).wf(),
        ensures
            final(self).wf(),
            r is Err <==> (old(self).document.inner_doc.max_id == u32::MAX
                && !name_registered(old(self).document.fonts@, font.face_name@)),
            r matches Err(e) ==> e == Error::Allocation,
            r is Err || name_registered(old(self).document.fonts@, font.face_name@)
                ==> final(self).document == old(self).document,
            r is Ok ==> final(self).document.fonts@ == registered(old(self).document.fonts@, font.face_name@,
                (old(self).document.inner_doc.max_id + 1) as u32, font.font_bytes@),
            r is Ok && !name_registered(old(self).document.fonts@, font.face_name@) ==>
                final(self).document.inner_doc.max_id == old(self).document.inner_doc.max_id + 1
                && final(self).document.inner_doc.objects == old(self).document.inner_doc.objects
                && final(self).document.inner_doc.trailer == old(self).document.inner_doc.trailer
                && final(self).document.pages == old(self).document.pages
                && final(self).document.icc_profile == old(self).document.icc_profile
                && final(self).document.document_id == old(self).document.document_id
                && final(self).document.metadata == old(self).document.metadata,
            r matches Ok(h) ==> exists|i: int| 0 <= i < final(self).document.fonts@.len()
                && final(self).document.fonts@[i].0 == h.name@ && final(self).document.fonts@[i].2 == font.face_name@,
    {
        let ghost f0 = self.document.fonts@;
        match self.document.fonts.find_by_face_name(&font.face_name) {
            Some(h) => {
                return Ok(h);
            },
            None => {},
        }
        let id = match self.document.inner_doc.new_object_id() {
            Ok(id) => id,
            Err(e) => return Err(e),
        };
        let n = self.document.fonts.len();
        let label = IndirectFontRef::new(n);
        proof {
            assert forall|i: int| 0 <= i < f0.len() implies f0[i].0 != label.name@ by {
                lemma_font_label_injective(i as nat, n as nat);
            }
        }
        let ghost e = (label.name@, id, font.face_name@, font.font_bytes@);
        let h = self.document.fonts.add_font(label, DirectFontRef { inner_obj: id, data: font });
        proof {
            assert(self.document.fonts@ == f0.push(e));
            assert(self.document.fonts@[n as int] == e);
        }
        Ok(h)
    }

    /// Parses a font program and registers it (see `register_font`). On an
    /// error the document is unchanged.
    pub fn add_font(&mut self, font_bytes: Vec<u8>) -> (r: Result<IndirectFontRef, Error>)
        requires
            old(self).wf(),
        ensures
            final(self).wf(),
            r is Err ==> final(self).document == old(self).document,
            ft_postscript_name_of(font_bytes@) is None ==> r == Err::<IndirectFontRef, Error>(Error::FontDecode),
            ft_postscript_name_of(font_bytes@) matches Some(n) ==> {
                &&& r is Err <==> (old(self).document.inner_doc.max_id == u32::MAX
                    && !name_registered(old(self).document.fonts@, n))
                &&& r matches Err(e) ==> e == Error::Allocation
                &&& name_registered(old(self).document.fonts@, n) ==> final(self).document == old(self).document
                &&& r is Ok ==> final(self).document.fonts@ == registered(old(self).document.fonts@, n,
                    (old(self).document.inner_doc.max_id + 1) as u32, font_bytes@)
                &&& r matches Ok(h) ==> exists|i: int| 0 <= i < final(self).document.fonts@.len()
                    && final(self).document.fonts@[i].0 == h.name@ && final(self).document.fonts@[i].2 == n
            },
    {
        let font = match Font::new(font_bytes) {
            Ok(f) => f,
            Err(e) => return Err(e),
        };
        self.register_font(font)
    }

    /// Assembles the document into its object graph, with `instance_id` as
    /// the second part of the trailer's ID. Fails with `Allocation` where the
    /// object numbers run out, and with `FontDecode` where a registered
    /// font program cannot be parsed again while it is embedded.
    #[verifier::rlimit(100)]
    pub fn save_with_instance_id(self, instance_id: String) -> (r: Result<ObjectStore, Error>)
        requires
            self.wf(),
        ensures
            self.document.inner_doc.max_id + objects_needed(&self.document) > u32::MAX
                ==> r == Err::<ObjectStore, Error>(Error::Allocation),
            r matches Err(e) ==> e == Error::FontDecode
                || (e == Error::Allocation && self.document.inner_doc.max_id + objects_needed(&self.document) > u32::MAX),
            (forall|i: int| 0 <= i < self.document.fonts@.len() ==> font_embeddable(#[trigger] self.document.fonts@[i].3))
                && self.document.inner_doc.max_id + objects_needed(&self.document) <= u32::MAX ==> r is Ok,
            r matches Ok(s) ==> saved(&self.document, instance_id@, s),
    {
        let doc = self.document;
        let ghost d = doc;
        let icc: u128 = if doc.icc_profile.is_some() { 1 } else { 0 };
        let needed: u128 = 4 + icc + 2 * (doc.pages.len() as u128) + 3 * (doc.fonts.len() as u128);
        if doc.inner_doc.max_id as u128 + needed > u32::MAX as u128 {
            return Err(Error::Allocation);
        }
        let PdfDocument { pages, fonts, icc_profile, inner_doc, document_id, metadata } = doc;
        let mut store = inner_doc;
        let ghost m0 = store.max_id as int;
        let pages_id = store.new_object_id().unwrap();
        let xmp_id = store.add_object(xmp_metadata_obj(&metadata)).unwrap();
        let info_id = store.add_object(DocumentInfo::new().into_obj(&metadata)).unwrap();
        let icc_id: Option<u32> = match icc_profile {
            Some(p) => {
                let mut d: Vec<(Vec<u8>, Obj)> = Vec::new();
                d.push(entry("N", Obj::Integer(4)));
                Some(store.add_object(Obj::Stream(d, p, true)).unwrap())
            },
            None => None,
        };
        let ghost o1 = store.objects@;
        let kids = add_pages(&mut store, &pages, pages_id);
        let ghost o2 = store.objects@;
        let ghost fv = fonts@;
        let font_dict = match fonts.into_with_document(&mut store) {
            Ok(f) => f,
            Err(e) => return Err(e),
        };
        let ghost o3 = store.objects@;
        let tree = page_tree(kids, font_dict, Ghost(fv), Ghost(m0 + 5 + icc as int));
        let ghost tree_v = tree;
        store.insert_object(pages_id, tree);
        let cat = catalog(pages_id, xmp_id, icc_id);
        let ghost cat_v = cat;
        let catalog_id = store.add_object(cat).unwrap();
        store.trailer = trailer(catalog_id, info_id, &document_id, &instance_id);
        proof {
            lemma_assembled(&d, instance_id@, store, o1, o2, o3, tree_v, cat_v);
        }
        Ok(store)
    }

    /// Assembles the document with a fresh instance ID (see
    /// `save_with_instance_id`).
    pub fn save(self) -> (r: Result<ObjectStore, Error>)
        requires
            self.wf(),
        ensures
            self.document.inner_doc.max_id + objects_needed(&self.document) > u32::MAX
                ==> r == Err::<ObjectStore, Error>(Error::Allocation),
            r matches Err(e) ==> e == Error::FontDecode
                || (e == Error::Allocation && self.document.inner_doc.max_id + objects_needed(&self.document) > u32::MAX),
            (forall|i: int| 0 <= i < self.document.fonts@.len() ==> font_embeddable(#[trigger] self.document.fonts@[i].3))
                && self.document.inner_doc.max_id + objects_needed(&self.document) <= u32::MAX ==> r is Ok,
            r matches Ok(s) ==> exists|id: Seq<char>| id.len() == 32 && saved(&self.document, id, s),
    {
        let instance_id = new_identifier();
        self.save_with_instance_id(instance_id)
    }

    /// The page at an index, or `None` for an unknown index.
    pub fn get_page(&self, page: PdfPageIndex) -> (r: Option<&PdfPage>)
        ensures
            page.0 < self.document.pages@.len() ==> (r matches Some(p) && *p == self.document.pages@[page.0 as int]),
            page.0 >= self.document.pages@.len() ==> r is None,
    {
        if page.0 < self.document.pages.len() {
            Some(&self.document.pages[page.0])
        } else {
            None
        }
    }

    /// The embedded font behind a handle, or `None` for an unknown handle.
    pub fn get_font(&self, font: &IndirectFontRef) -> (r: Option<DirectFontRef>)
        requires
            self.wf(),
        ensures
            match self.document.fonts.position(font.name@) {
                Some(i) => r matches Some(d) && d.inner_obj == self.document.fonts@[i].1
                    && d.data.face_name@ == self.document.fonts@[i].2,
                None => r is None,
            },
    {
        self.document.fonts.get_font(font)
    }

    /// The document's object store as it stands, without assembling the
    /// document.
    pub fn get_inner(self) -> (r: ObjectStore)
        ensures
            r == self.document.inner_doc,
    {
        self.document.inner_doc
    }

    /// Checking a document against its conformance level is not supported
    /// yet: no error is ever found.
    pub fn check_for_errors(&self) -> (r: Result<(), Error>)
        ensures
            r is Ok,
    {
        Ok(())
    }

    /// Repairing a document towards a conformance level is not supported yet:
    /// nothing is changed and no error is reported.
    pub fn repair_errors(&self, conformance: PdfConformance) -> (r: Result<(), Error>)
        ensures
            r is Ok,
    {
        Ok(())
    }
}

} // verus!
