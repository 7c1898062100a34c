//! Fonts: reading a font program's PostScript name, embedding it as a
//! composite (Type0 / CIDFontType0) font, and the list of fonts of a document.

use vstd::prelude::*;
use vstd::string::{StrSliceExecFns, StringSliceAdditionalSpecFns, StringExecFns};
use std::rc::Rc;
use crate::error::Error;
use crate::object::{Obj, ObjectStore, key, is_int, is_name, is_str, entry, entry_key, entries, items, content, name, lit};
use crate::glyphs::{GlyphEntry, GlyphTable, build_glyph_table, glyph_map, lists_map, max_height, total_width};
use crate::cmap::{cmap_text, to_unicode_cmap};
use crate::text::{dec_chars, push_dec_chars};

verus! {

/// freetype's `Library`, carried through opaquely.
#[verifier::external_type_specification]
#[verifier::external_body]
pub struct ExLibrary(freetype::Library);

/// freetype's `Face`, carried through opaquely.
#[verifier::external_type_specification]
#[verifier::external_body]
#[verifier::reject_recursive_types(BYTES)]
pub struct ExFace<BYTES>(freetype::Face<BYTES>);

/// What FreeType's `postscript_name` gives for face 0 of the font program
/// `font`; `None` where the face cannot be opened or has no name.
pub uninterp spec fn ft_postscript_name_of(font: Seq<u8>) -> Option<Seq<char>>;

/// Whether FreeType's `new_memory_face` opens face 0 of the font program `font`.
pub uninterp spec fn ft_face_opens(font: Seq<u8>) -> bool;

/// What FreeType's `size_metrics` gives for the face: (ascender, descender).
pub uninterp spec fn ft_size_metrics_of(font: Seq<u8>) -> Option<(i64, i64)>;

/// What FreeType's `get_char_index` gives for a character code of the face.
pub uninterp spec fn ft_char_index_of(font: Seq<u8>, code: u32) -> Option<u32>;

/// What FreeType gives for the unscaled (width, height) of a glyph of the
/// face; `None` where the glyph cannot be loaded.
pub uninterp spec fn ft_glyph_size_of(font: Seq<u8>, glyph_id: u32) -> Option<(i64, i64)>;

/// Relies on freetype's `Library::init`, which fails only when memory runs
/// out; then this panics.
#[verifier::external_body]
fn ft_library() -> (r: freetype::Library) {
    freetype::Library::init().expect("FreeType could not start")
}

/// Relies on freetype's `Library::new_memory_face` and `Face::postscript_name`:
/// the PostScript name of face 0 of the font program in `bytes`.
#[verifier::external_body]
fn ft_postscript_name(lib: &freetype::Library, bytes: &Vec<u8>) -> (r: Option<String>)
    ensures
        r is Some <==> ft_postscript_name_of(bytes@) is Some,
        r matches Some(n) ==> ft_postscript_name_of(bytes@) == Some(n@),
{
    match lib.new_memory_face(bytes.clone(), 0) {
        Ok(face) => face.postscript_name(),
        Err(_) => None,
    }
}

/// A FreeType face together with the font program it was opened from.
struct FtFace {
    face: freetype::Face<Rc<Vec<u8>>>,
    bytes: Vec<u8>,
}

/// Relies on freetype's `Library::new_memory_face`: face 0 of the font
/// program in `bytes`, or `None` where FreeType cannot open it.
#[verifier::external_body]
fn ft_open_face(lib: &freetype::Library, bytes: &Vec<u8>) -> (r: Option<FtFace>)
    ensures
        r is Some <==> ft_face_opens(bytes@),
        r matches Some(f) ==> f.bytes@ == bytes@,
{
    match lib.new_memory_face(bytes.clone(), 0) {
        Ok(face) => Some(FtFace { face, bytes: bytes.clone() }),
        Err(_) => None,
    }
}

/// Relies on freetype's `Face::size_metrics`: the ascender and descender of
/// the face, or `None` where the face has no size object.
#[verifier::external_body]
fn ft_size_metrics(f: &FtFace) -> (r: Option<(i64, i64)>)
    ensures
        r == ft_size_metrics_of(f.bytes@),
{
    f.face.size_metrics().map(|m| (m.ascender as i64, m.descender as i64))
}

/// Relies on freetype's `Face::get_char_index`: the glyph index of a
/// character code, `None` where the face has no glyph for it (FreeType's
/// index 0).
#[verifier::external_body]
fn ft_char_index(f: &FtFace, code: u32) -> (r: Option<u32>)
    ensures
        r == ft_char_index_of(f.bytes@, code),
        r matches Some(g) ==> g != 0,
{
    f.face.get_char_index(code as usize)
}

/// Relies on freetype's `Face::load_glyph`, unscaled (font units), and
/// `GlyphSlot::metrics` of the glyph just loaded: its width and height, or
/// `None` where it cannot be loaded.
#[verifier::external_body]
fn ft_glyph_size(f: &FtFace, glyph_id: u32) -> (r: Option<(i64, i64)>)
    ensures
        r == ft_glyph_size_of(f.bytes@, glyph_id),
{
    match f.face.load_glyph(glyph_id, freetype::face::LoadFlag::NO_SCALE) {
        Ok(()) => {
            let m = f.face.glyph().metrics();
            Some((m.width as i64, m.height as i64))
        },
        Err(_) => None,
    }
}

/// What the scan reports for one code point: its glyph, where it has one
/// whose metrics load.
pub open spec fn scan_entry(font: Seq<u8>, code: u32) -> Seq<GlyphEntry> {
    match ft_char_index_of(font, code) {
        Some(g) => match ft_glyph_size_of(font, g) {
            Some(m) => seq![GlyphEntry { unicode: code, glyph_id: g, width: m.0, height: m.1 }],
            None => Seq::empty(),
        },
        None => Seq::empty(),
    }
}

/// The scan of the code points below `n`, in increasing order.
pub open spec fn scan_of(font: Seq<u8>, n: nat) -> Seq<GlyphEntry>
    decreases n,
{
    if n == 0 {
        Seq::empty()
    } else {
        scan_of(font, (n - 1) as nat) + scan_entry(font, (n - 1) as u32)
    }
}

/// The scan of every code point in `0x0000..=0xFFFF`.
pub open spec fn glyph_scan(font: Seq<u8>) -> Seq<GlyphEntry> {
    scan_of(font, 0x10000)
}

/// A font program that can be embedded: FreeType opens it and gives its
/// size metrics, and its length and total width fit PDF integers.
pub open spec fn font_embeddable(font: Seq<u8>) -> bool {
    &&& ft_face_opens(font)
    &&& ft_size_metrics_of(font) is Some
    &&& font.len() <= i64::MAX
    &&& i64::MIN <= total_width(glyph_scan(font)) <= i64::MAX
}

/// A font program and its PostScript name. Two fonts are the same font when
/// their names are equal; the programs are not compared.
#[derive(Debug)]
pub struct Font {
    pub font_bytes: Vec<u8>,
    pub face_name: String,
}

impl Font {
    /// Parses a font program to learn its PostScript name.
    pub fn new(font_bytes: Vec<u8>) -> (r: Result<Font, Error>)
        ensures
            r is Ok <==> ft_postscript_name_of(font_bytes@) is Some,
            r matches Ok(f) ==> f.font_bytes@ == font_bytes@ && ft_postscript_name_of(font_bytes@) == Some(f.face_name@),
            r matches Err(e) ==> e == Error::FontDecode,
    {
        let lib = ft_library();
        match ft_postscript_name(&lib, &font_bytes) {
            Some(face_name) => Ok(Font { font_bytes, face_name }),
            None => Err(Error::FontDecode),
        }
    }

    pub fn clone(&self) -> (r: Font)
        ensures
            r.font_bytes@ == self.font_bytes@,
            r.face_name@ == self.face_name@,
    {
        let mut b: Vec<u8> = Vec::new();
        for i in 0..self.font_bytes.len()
            invariant
                b@ == self.font_bytes@.take(i as int),
        {
            b.push(self.font_bytes[i]);
            proof {
                assert(b@ =~= self.font_bytes@.take(i + 1));
            }
        }
        proof {
            assert(b@ =~= self.font_bytes@);
        }
        Font { font_bytes: b, face_name: self.face_name.clone() }
    }

}

/// Two fonts are equal when their PostScript names are; the programs are
/// not compared.
impl PartialEq for Font {
    fn eq(&self, other: &Font) -> (r: bool) {
        self.face_name == other.face_name
    }
}

impl vstd::std_specs::cmp::PartialEqSpecImpl for Font {
    open spec fn obeys_eq_spec() -> bool {
        true
    }

    open spec fn eq_spec(&self, other: &Font) -> bool {
        self.face_name@ == other.face_name@
    }
}

impl Font {
    /// Embeds the font into the store as a composite font and returns its
    /// Type0 font dictionary. Fails with `FontDecode` where the font cannot
    /// be embedded, and with `Allocation` where fewer than three object
    /// numbers are left.
    pub fn into_obj_with_document(self, store: &mut ObjectStore) -> (r: Result<Obj, Error>)
        requires
            old(store).wf(),
        ensures
            final(store).wf(),
            r is Err <==> !(font_embeddable(self.font_bytes@) && old(store).max_id <= u32::MAX - 3),
            r is Err ==> *final(store) == *old(store),
            r matches Err(e) ==> (if font_embeddable(self.font_bytes@) { e == Error::Allocation } else { e == Error::FontDecode }),
            r is Ok ==> final(store).max_id == old(store).max_id + 3
                && final(store).trailer == old(store).trailer
                && final(store).objects@.len() == old(store).objects@.len() + 3
                && final(store).objects@.take(old(store).objects@.len() as int) == old(store).objects@,
            r matches Ok(f) ==> font_embedded(*old(store), *final(store), f, self.face_name@, self.font_bytes@),
    {
        let lib = ft_library();
        let face = match ft_open_face(&lib, &self.font_bytes) {
            Some(f) => f,
            None => return Err(Error::FontDecode),
        };
        let (ascent, descent) = match ft_size_metrics(&face) {
            Some(m) => m,
            None => return Err(Error::FontDecode),
        };
        let entries = scan_glyphs(&face);
        let table = build_glyph_table(&entries);
        let ghost g = table.glyphs@;
        let ghost old_store = *store;
        let ghost name = self.face_name@;
        let ghost bytes = self.font_bytes@;
        let r = embed_font(&self.face_name, self.font_bytes, ascent, descent, &table, store);
        proof {
            reveal(font_embedded);
            if r is Ok {
                assert(lists_map(g, glyph_map(glyph_scan(bytes))));
                assert(font_embedded(old_store, *store, r->Ok_0, name, bytes));
            }
        }
        r
    }
}

/// The store `new` is `old` with font `face_name` / `font_bytes` embedded,
/// and `r` its Type0 font dictionary: everything as FreeType reports it for
/// those bytes.
#[verifier::opaque]
pub open spec fn font_embedded(old: ObjectStore, new: ObjectStore, r: Obj, face_name: Seq<char>, font_bytes: Seq<u8>) -> bool {
    let s = glyph_scan(font_bytes);
    let m = ft_size_metrics_of(font_bytes)->Some_0;
    exists|g: Seq<(u32, u32, i64)>| #![trigger lists_map(g, glyph_map(s))]
        lists_map(g, glyph_map(s)) && g.len() > 0 && g[0] == (0u32, 0u32, 1000i64)
        && embedded_font(old, new, r, vstd::utf8::encode_utf8(face_name), font_bytes, m.0 as int, m.1 as int,
            g, max_height(s), total_width(s))
}

/// Asks the font program for a glyph of every code point in
/// `0x0000..=0xFFFF`, and keeps those that have one with loadable metrics.
fn scan_glyphs(face: &FtFace) -> (r: Vec<GlyphEntry>)
    ensures
        r@ == glyph_scan(face.bytes@),
{
    let mut out: Vec<GlyphEntry> = Vec::new();
    let mut code: u32 = 0;
    while code <= 0xffff
        invariant
            code <= 0x10000,
            out@ == scan_of(face.bytes@, code as nat),
        decreases 0x10000 - code,
    {
        let ghost before = out@;
        if let Some(glyph_id) = ft_char_index(face, code) {
            if let Some((width, height)) = ft_glyph_size(face, glyph_id) {
                out.push(GlyphEntry { unicode: code, glyph_id, width, height });
            }
        }
        proof {
            assert(out@ =~= before + scan_entry(face.bytes@, code));
        }
        code = code + 1;
    }
    out
}

/// `W` of a CID font: `[0 [w0 w1 ...]]`, the widths by increasing glyph index.
pub open spec fn is_width_array(o: Obj, g: Seq<(u32, u32, i64)>) -> bool {
    let a = items(o);
    &&& o is Array
    &&& a.len() == 2
    &&& is_int(a[0], 0)
    &&& a[1] is Array
    &&& items(a[1]).len() == g.len()
    &&& forall|i: int| 0 <= i < g.len() ==> is_int(#[trigger] items(a[1])[i], g[i].2 as int)
}

/// `FontBBox`: `[0 h w h]`.
pub open spec fn is_font_bbox(o: Obj, h: int, w: int) -> bool {
    let a = items(o);
    &&& o is Array
    &&& a.len() == 4
    &&& is_int(a[0], 0)
    &&& is_int(a[1], h)
    &&& is_int(a[2], w)
    &&& is_int(a[3], h)
}

fn widths_array(glyphs: &Vec<(u32, u32, i64)>) -> (r: Obj)
    ensures
        is_width_array(r, glyphs@),
{
    let mut ws: Vec<Obj> = Vec::new();
    for i in 0..glyphs.len()
        invariant
            ws@.len() == i,
            forall|j: int| 0 <= j < i ==> is_int(#[trigger] ws@[j], glyphs@[j].2 as int),
    {
        ws.push(Obj::Integer(glyphs[i].2));
    }
    let mut a: Vec<Obj> = Vec::new();
    a.push(Obj::Integer(0));
    a.push(Obj::Array(ws));
    Obj::Array(a)
}

/// A CID-keyed descendant font: Type, Subtype CIDFontType0, BaseFont,
/// CIDSystemInfo (Adobe, Identity, 0), the widths, and its descriptor.
pub open spec fn is_cid_font(o: Obj, face_name: Seq<u8>, g: Seq<(u32, u32, i64)>, desc_id: u32) -> bool {
    let d = entries(o);
    let si = entries(d[3].1);
    &&& o is Dict
    &&& d.len() == 6
    &&& entry_key(d, 0, key("Type")) && is_name(d[0].1, key("Font"))
    &&& entry_key(d, 1, key("Subtype")) && is_name(d[1].1, key("CIDFontType0"))
    &&& entry_key(d, 2, key("BaseFont")) && is_name(d[2].1, face_name)
    &&& entry_key(d, 3, key("CIDSystemInfo")) && d[3].1 is Dict && si.len() == 3
    &&& entry_key(si, 0, key("Registry")) && is_str(si[0].1, key("Adobe"))
    &&& entry_key(si, 1, key("Ordering")) && is_str(si[1].1, key("Identity"))
    &&& entry_key(si, 2, key("Supplement")) && is_int(si[2].1, 0)
    &&& entry_key(d, 4, key("W")) && is_width_array(d[4].1, g)
    &&& entry_key(d, 5, key("FontDescriptor")) && d[5].1 == Obj::Reference(desc_id)
}

/// The font descriptor.
pub open spec fn is_font_descriptor(o: Obj, face_name: Seq<u8>, ascent: int, descent: int, h: int, w: int, file_id: u32) -> bool {
    let d = entries(o);
    &&& o is Dict
    &&& d.len() == 10
    &&& entry_key(d, 0, key("Type")) && is_name(d[0].1, key("FontDescriptor"))
    &&& entry_key(d, 1, key("FontName")) && is_name(d[1].1, face_name)
    &&& entry_key(d, 2, key("Ascent")) && is_int(d[2].1, ascent)
    &&& entry_key(d, 3, key("Descent")) && is_int(d[3].1, descent)
    &&& entry_key(d, 4, key("CapHeight")) && is_int(d[4].1, ascent)
    &&& entry_key(d, 5, key("ItalicAngle")) && is_int(d[5].1, 0)
    &&& entry_key(d, 6, key("Flags")) && is_int(d[6].1, 32)
    &&& entry_key(d, 7, key("StemV")) && is_int(d[7].1, 80)
    &&& entry_key(d, 8, key("FontBBox")) && is_font_bbox(d[8].1, h, w)
    &&& entry_key(d, 9, key("FontFile3")) && d[9].1 == Obj::Reference(file_id)
}

/// The embedded font program: Length1 and Subtype CIDFontType0C, the bytes
/// as they are, never compressed.
pub open spec fn is_font_file(o: Obj, font_bytes: Seq<u8>) -> bool {
    let d = entries(o);
    &&& o matches Obj::Stream(_, _, z) && !z
    &&& content(o) == font_bytes
    &&& d.len() == 2
    &&& entry_key(d, 0, key("Length1")) && is_int(d[0].1, font_bytes.len() as int)
    &&& entry_key(d, 1, key("Subtype")) && is_name(d[1].1, key("CIDFontType0C"))
}

/// A Type0 font dictionary with one CID-keyed descendant font, Identity-H
/// encoding, and its ToUnicode CMap in object `to_unicode`.
pub open spec fn is_type0_font(r: Obj, face_name: Seq<u8>, to_unicode: u32, g: Seq<(u32, u32, i64)>, desc_id: u32) -> bool {
    let f = entries(r);
    let ds = items(f[4].1);
    &&& r is Dict
    &&& f.len() == 6
    &&& entry_key(f, 0, key("Type")) && is_name(f[0].1, key("Font"))
    &&& entry_key(f, 1, key("Subtype")) && is_name(f[1].1, key("Type0"))
    &&& entry_key(f, 2, key("BaseFont")) && is_name(f[2].1, face_name)
    &&& entry_key(f, 3, key("Encoding")) && is_name(f[3].1, key("Identity-H"))
    &&& entry_key(f, 4, key("DescendantFonts")) && f[4].1 is Array
    &&& entry_key(f, 5, key("ToUnicode")) && f[5].1 == Obj::Reference(to_unicode)
    &&& ds.len() == 1
    &&& is_cid_font(ds[0], face_name, g, desc_id)
}

/// At positions `n`, `n + 1`, `n + 2` of `o`, numbered `id + 1` to `id + 3`:
/// the ToUnicode CMap stream, the font program and the font descriptor of
/// the font whose Type0 dictionary is `r`.
pub open spec fn font_objects_at(
    o: Seq<(u32, Obj)>,
    n: int,
    id: int,
    r: Obj,
    face_name: Seq<u8>,
    font_bytes: Seq<u8>,
    ascent: int,
    descent: int,
    g: Seq<(u32, u32, i64)>,
    h: int,
    w: int,
) -> bool {
    &&& 0 <= n && n + 2 < o.len()
    &&& o[n].0 == id + 1
    &&& o[n].1 is Stream
    &&& entries(o[n].1).len() == 0
    &&& content(o[n].1) == cmap_text(g)
    &&& o[n + 1].0 == id + 2
    &&& is_font_file(o[n + 1].1, font_bytes)
    &&& o[n + 2].0 == id + 3
    &&& is_font_descriptor(o[n + 2].1, face_name, ascent, descent, h, w, (id + 2) as u32)
    &&& is_type0_font(r, face_name, (id + 1) as u32, g, (id + 3) as u32)
}

/// The objects that embedding a font adds to the store, and the Type0 font
/// dictionary that refers to them.
pub open spec fn embedded_font(
    old_store: ObjectStore,
    new_store: ObjectStore,
    r: Obj,
    face_name: Seq<u8>,
    font_bytes: Seq<u8>,
    ascent: int,
    descent: int,
    g: Seq<(u32, u32, i64)>,
    h: int,
    w: int,
) -> bool {
    let n = old_store.objects@.len() as int;
    let id = old_store.max_id as int;
    &&& new_store.max_id == id + 3
    &&& new_store.trailer == old_store.trailer
    &&& new_store.objects@.len() == n + 3
    &&& new_store.objects@.take(n) == old_store.objects@
    &&& font_objects_at(new_store.objects@, n, id, r, face_name, font_bytes, ascent, descent, g, h, w)
}

/// Adds the objects of a composite font to the store and returns its Type0
/// font dictionary. Fails with `FontDecode` when the total width or the
/// program's length does not fit a PDF integer, else with `Allocation` when
/// the store has fewer than three object numbers left.
pub fn embed_font(
    face_name: &String,
    font_bytes: Vec<u8>,
    ascent: i64,
    descent: i64,
    table: &GlyphTable,
    store: &mut ObjectStore,
) -> (r: Result<Obj, Error>)
    requires
        old(store).wf(),
    ensures
        final(store).wf(),
        r is Err <==> (table.total_width < i64::MIN || table.total_width > i64::MAX
            || font_bytes@.len() > i64::MAX || old(store).max_id > u32::MAX - 3),
        r matches Err(e) ==> *final(store) == *old(store) && (if i64::MIN <= table.total_width <= i64::MAX
            && font_bytes@.len() <= i64::MAX { e == Error::Allocation } else { e == Error::FontDecode }),
        r matches Ok(f) ==> embedded_font(*old(store), *final(store), f, vstd::utf8::encode_utf8(face_name@),
            font_bytes@, ascent as int, descent as int, table.glyphs@, table.max_height as int, table.total_width as int),
{
    if table.total_width < i64::MIN as i128 || table.total_width > i64::MAX as i128
        || font_bytes.len() as u128 > i64::MAX as u128 {
        return Err(Error::FontDecode);
    }
    if store.max_id > u32::MAX - 3 {
        return Err(Error::Allocation);
    }
    let total_width = table.total_width as i64;
    let fname = face_name.as_str().as_bytes_vec();
    let ghost old_store = *store;

    let cmap = to_unicode_cmap(&table.glyphs);
    let cmap_id = store.add_object(Obj::Stream(Vec::new(), cmap, true)).unwrap();

    let len = font_bytes.len() as i64;
    let mut file_dict: Vec<(Vec<u8>, Obj)> = Vec::new();
    file_dict.push(entry("Length1", Obj::Integer(len)));
    file_dict.push(entry("Subtype", name("CIDFontType0C")));
    let file_id = store.add_object(Obj::Stream(file_dict, font_bytes, false)).unwrap();

    let desc_id = store.add_object(descriptor_dict(&fname, ascent, descent, table.max_height, total_width, file_id)).unwrap();
    let font = type0_dict(&fname, cid_font_dict(&fname, &table.glyphs, desc_id), cmap_id, Ghost(table.glyphs@));
    proof {
        assert(store.objects@.take(old_store.objects@.len() as int) =~= old_store.objects@);
    }
    Ok(font)
}

fn descriptor_dict(fname: &Vec<u8>, ascent: i64, descent: i64, h: i64, w: i64, file_id: u32) -> (r: Obj)
    ensures
        is_font_descriptor(r, fname@, ascent as int, descent as int, h as int, w as int, file_id),
{
    let mut bbox: Vec<Obj> = Vec::new();
    bbox.push(Obj::Integer(0));
    bbox.push(Obj::Integer(h));
    bbox.push(Obj::Integer(w));
    bbox.push(Obj::Integer(h));
    let mut desc: Vec<(Vec<u8>, Obj)> = Vec::new();
    desc.push(entry("Type", name("FontDescriptor")));
    desc.push(entry("FontName", Obj::Name(fname.clone())));
    desc.push(entry("Ascent", Obj::Integer(ascent)));
    desc.push(entry("Descent", Obj::Integer(descent)));
    desc.push(entry("CapHeight", Obj::Integer(ascent)));
    desc.push(entry("ItalicAngle", Obj::Integer(0)));
    desc.push(entry("Flags", Obj::Integer(32)));
    desc.push(entry("StemV", Obj::Integer(80)));
    desc.push(entry("FontBBox", Obj::Array(bbox)));
    desc.push(entry("FontFile3", Obj::Reference(file_id)));
    Obj::Dict(desc)
}

fn cid_font_dict(fname: &Vec<u8>, glyphs: &Vec<(u32, u32, i64)>, desc_id: u32) -> (r: Obj)
    ensures
        is_cid_font(r, fname@, glyphs@, desc_id),
{
    let mut sysinfo: Vec<(Vec<u8>, Obj)> = Vec::new();
    sysinfo.push(entry("Registry", lit("Adobe")));
    sysinfo.push(entry("Ordering", lit("Identity")));
    sysinfo.push(entry("Supplement", Obj::Integer(0)));
    let mut cid_font: Vec<(Vec<u8>, Obj)> = Vec::new();
    cid_font.push(entry("Type", name("Font")));
    cid_font.push(entry("Subtype", name("CIDFontType0")));
    cid_font.push(entry("BaseFont", Obj::Name(fname.clone())));
    cid_font.push(entry("CIDSystemInfo", Obj::Dict(sysinfo)));
    cid_font.push(entry("W", widths_array(glyphs)));
    cid_font.push(entry("FontDescriptor", Obj::Reference(desc_id)));
    Obj::Dict(cid_font)
}

fn type0_dict(fname: &Vec<u8>, cid_font: Obj, cmap_id: u32, g: Ghost<Seq<(u32, u32, i64)>>) -> (r: Obj)
    requires
        exists|desc_id: u32| is_cid_font(cid_font, fname@, g@, desc_id),
    ensures
        forall|desc_id: u32| is_cid_font(cid_font, fname@, g@, desc_id) ==> is_type0_font(r, fname@, cmap_id, g@, desc_id),
{
    let mut descendants: Vec<Obj> = Vec::new();
    descendants.push(cid_font);
    let mut font: Vec<(Vec<u8>, Obj)> = Vec::new();
    font.push(entry("Type", name("Font")));
    font.push(entry("Subtype", name("Type0")));
    font.push(entry("BaseFont", Obj::Name(fname.clone())));
    font.push(entry("Encoding", name("Identity-H")));
    font.push(entry("DescendantFonts", Obj::Array(descendants)));
    font.push(entry("ToUnicode", Obj::Reference(cmap_id)));
    Obj::Dict(font)
}

/// `F` and the decimal digits of `index`.
pub open spec fn font_label(index: nat) -> Seq<char> {
    seq!['F'] + dec_chars(index)
}

/// Distinct indices give distinct labels.
pub proof fn lemma_font_label_injective(a: nat, b: nat)
    requires
        a != b,
    ensures
        font_label(a) != font_label(b),
{
    crate::text::lemma_dec_value(a);
    crate::text::lemma_dec_value(b);
    assert(font_label(a).drop_first() =~= dec_chars(a));
    assert(font_label(b).drop_first() =~= dec_chars(b));
}

/// A handle to a font registered with a document: the label under which the
/// font stands in the document's Font resources.
#[derive(Debug, PartialEq, Eq, Hash)]
pub struct IndirectFontRef {
    pub name: String,
}

impl IndirectFontRef {
    /// The handle labelled `F<index>`.
    pub fn new(index: usize) -> (r: IndirectFontRef)
        ensures
            r.name@ == font_label(index as nat),
    {
        let mut name = String::from_str("F");
        proof {
            reveal_strlit("F");
        }
        push_dec_chars(&mut name, index as u64);
        proof {
            assert(name@ =~= font_label(index as nat));
        }
        IndirectFontRef { name }
    }

    pub fn clone(&self) -> (r: IndirectFontRef)
        ensures
            r.name@ == self.name@,
    {
        IndirectFontRef { name: self.name.clone() }
    }
}

/// An embedded font: the object number reserved for its font dictionary,
/// and the font itself.
#[derive(Debug)]
pub struct DirectFontRef {
    pub inner_obj: u32,
    pub data: Font,
}

impl DirectFontRef {
    pub fn clone(&self) -> (r: DirectFontRef)
        ensures
            r.inner_obj == self.inner_obj,
            r.data.font_bytes@ == self.data.font_bytes@,
            r.data.face_name@ == self.data.face_name@,
    {
        DirectFontRef { inner_obj: self.inner_obj, data: self.data.clone() }
    }
}

/// The fonts of one document, by handle.
#[derive(Debug)]
pub struct FontList {
    fonts: Vec<(IndirectFontRef, DirectFontRef)>,
}

/// What a `FontList` holds of each font: (label, object number, PostScript
/// name, font program).
pub type FontView = (Seq<char>, u32, Seq<char>, Seq<u8>);

impl FontList {
    /// The fonts in the order in which they were added.
    pub closed spec fn view(&self) -> Seq<FontView> {
        self.fonts@.map_values(|e: (IndirectFontRef, DirectFontRef)| (e.0.name@, e.1.inner_obj, e.1.data.face_name@, e.1.data.font_bytes@))
    }

    /// No two fonts share a label.
    pub open spec fn wf(&self) -> bool {
        forall|i: int, j: int| 0 <= i < j < self@.len() ==> (#[trigger] self@[i]).0 != (#[trigger] self@[j]).0
    }

    pub fn new() -> (r: FontList)
        ensures
            r@.len() == 0,
            r.wf(),
    {
        FontList { fonts: Vec::new() }
    }

    /// Position of the font labelled `label`, if any.
    pub open spec fn position(&self, label: Seq<char>) -> Option<int> {
        if exists|i: int| 0 <= i < self@.len() && self@[i].0 == label {
            Some(choose|i: int| 0 <= i < self@.len() && self@[i].0 == label)
        } else {
            None
        }
    }

    fn find(&self, label: &IndirectFontRef) -> (r: Option<usize>)
        requires
            self.wf(),
        ensures
            r matches Some(i) ==> i < self@.len() && self@[i as int].0 == label.name@,
            r is None ==> forall|i: int| 0 <= i < self@.len() ==> self@[i].0 != label.name@,
    {
        for i in 0..self.fonts.len()
            invariant
                forall|j: int| 0 <= j < i ==> self@[j].0 != label.name@,
        {
            if self.fonts[i].0.name == label.name {
                return Some(i);
            }
        }
        None
    }

    /// Adds a font under a handle, replacing the font that the handle named
    /// before, and returns the handle.
    pub fn add_font(&mut self, font_ref: IndirectFontRef, font: DirectFontRef) -> (r: IndirectFontRef)
        requires
            old(self).wf(),
        ensures
            final(self).wf(),
            r.name@ == font_ref.name@,
            ({
                let e = (font_ref.name@, font.inner_obj, font.data.face_name@, font.data.font_bytes@);
                match old(self).position(font_ref.name@) {
                    Some(i) => final(self)@ == old(self)@.update(i, e),
                    None => final(self)@ == old(self)@.push(e),
                }
            }),
    {
        let ghost e = (font_ref.name@, font.inner_obj, font.data.face_name@, font.data.font_bytes@);
        let r = font_ref.clone();
        match self.find(&font_ref) {
            Some(i) => {
                self.fonts.set(i, (font_ref, font));
                proof {
                    assert(self@ =~= old(self)@.update(i as int, e));
                    assert(old(self).position(e.0) == Some(i as int));
                }
            },
            None => {
                self.fonts.push((font_ref, font));
                proof {
                    assert(self@ =~= old(self)@.push(e));
                }
            },
        }
        r
    }

    /// The embedded font behind a handle, or `None` for an unknown handle.
    pub fn get_font(&self, font: &IndirectFontRef) -> (r: Option<DirectFontRef>)
        requires
            self.wf(),
        ensures
            match self.position(font.name@) {
                Some(i) => r matches Some(d) && d.inner_obj == self@[i].1 && d.data.face_name@ == self@[i].2
                    && d.data.font_bytes@ == self@[i].3,
                None => r is None,
            },
    {
        match self.find(font) {
            Some(i) => Some(self.fonts[i].1.clone()),
            None => None,
        }
    }

    /// The handle of the font with PostScript name `face_name`, if one was added.
    pub fn find_by_face_name(&self, face_name: &String) -> (r: Option<IndirectFontRef>)
        ensures
            r matches Some(f) ==> exists|i: int| 0 <= i < self@.len() && self@[i].2 == face_name@ && self@[i].0 == f.name@,
            r is None ==> forall|i: int| 0 <= i < self@.len() ==> self@[i].2 != face_name@,
    {
        for i in 0..self.fonts.len()
            invariant
                forall|j: int| 0 <= j < i ==> self@[j].2 != face_name@,
        {
            if self.fonts[i].1.data.face_name == *face_name {
                let r = self.fonts[i].0.clone();
                proof {
                    assert(self@[i as int].2 == face_name@ && self@[i as int].0 == r.name@);
                }
                return Some(r);
            }
        }
        None
    }

    /// The number of fonts.
    pub fn len(&self) -> (r: usize)
        ensures
            r == self@.len(),
    {
        self.fonts.len()
    }

    /// Embeds every font into the store, each under the object number that
    /// was reserved for it, and returns the Font resource dictionary: one
    /// entry per font, its label mapped to a reference to its font.
    #[verifier::rlimit(50)]
    pub fn into_with_document(self, store: &mut ObjectStore) -> (r: Result<Vec<(Vec<u8>, Obj)>, Error>)
        requires
            old(store).wf(),
            forall|i: int| 0 <= i < self@.len() ==> 1 <= #[trigger] self@[i].1 <= old(store).max_id,
        ensures
            final(store).wf(),
            final(store).trailer == old(store).trailer,
            (forall|i: int| 0 <= i < self@.len() ==> font_embeddable(#[trigger] self@[i].3))
                && old(store).max_id + 3 * self@.len() <= u32::MAX ==> r is Ok,
            old(store).max_id + 3 * self@.len() <= u32::MAX ==> (r matches Err(e) ==> e == Error::FontDecode),
            r is Ok ==> final(store).max_id == old(store).max_id + 3 * self@.len()
                && final(store).objects@.len() == old(store).objects@.len() + 4 * self@.len()
                && final(store).objects@.take(old(store).objects@.len() as int) == old(store).objects@
                && forall|i: int| 0 <= i < self@.len() ==> font_stored(final(store).objects@,
                    old(store).objects@.len() + 4 * i, old(store).max_id + 3 * i, #[trigger] self@[i]),
            r matches Ok(d) ==> d@.len() == self@.len() && forall|i: int| 0 <= i < self@.len() ==>
                (#[trigger] d@[i]).0@ == vstd::utf8::encode_utf8(self@[i].0) && d@[i].1 == Obj::Reference(self@[i].1),
    {
        let ghost v = self@;
        let ghost max0 = store.max_id as int;
        let ghost trailer0 = store.trailer;
        let ghost objs0 = store.objects@;
        let mut dict: Vec<(Vec<u8>, Obj)> = Vec::new();
        let mut fonts = self.fonts;
        let mut rest: Vec<(IndirectFontRef, DirectFontRef)> = Vec::new();
        let n = fonts.len();
        for k in 0..n
            invariant
                n == fonts@.len() + rest@.len(),
                n == v.len(),
                forall|i: int| 0 <= i < rest@.len() ==> view_of(#[trigger] rest@[i]) == v[n - 1 - i],
                forall|i: int| 0 <= i < fonts@.len() ==> view_of(#[trigger] fonts@[i]) == v[i],
                rest@.len() == k,
                *store == *old(store),
                trailer0 == old(store).trailer,
                max0 == old(store).max_id,
        {
            let e = fonts.pop().unwrap();
            rest.push(e);
        }
        for k in 0..n
            invariant
                store.wf(),
                v == self@,
                store.max_id == max0 + 3 * k,
                store.objects@.len() == objs0.len() + 4 * k,
                store.objects@.take(objs0.len() as int) == objs0,
                objs0 == old(store).objects@,
                max0 == old(store).max_id,
                store.trailer == trailer0,
                trailer0 == old(store).trailer,
                n == v.len(),
                rest@.len() == n - k,
                forall|i: int| 0 <= i < rest@.len() ==> view_of(#[trigger] rest@[i]) == v[n - 1 - i],
                forall|i: int| 0 <= i < v.len() ==> 1 <= #[trigger] v[i].1 <= max0,
                dict@.len() == k,
                forall|i: int| 0 <= i < k ==>
                    (#[trigger] dict@[i]).0@ == vstd::utf8::encode_utf8(v[i].0) && dict@[i].1 == Obj::Reference(v[i].1),
                forall|i: int| 0 <= i < k ==> font_stored(store.objects@, objs0.len() + 4 * i, max0 + 3 * i, #[trigger] v[i]),
        {
            let (label, direct) = rest.pop().unwrap();
            proof {
                assert(view_of((label, direct)) == v[k as int]);
            }
            let id = direct.inner_obj;
            proof {
                assert(id == v[k as int].1);
                assert(1 <= v[k as int].1 <= max0);
            }
            let ghost before = store.objects@;
            let ghost before_max = store.max_id;
            let ghost before_store = *store;
            let res = direct.data.into_obj_with_document(store);
            let font_dict = match res {
                Ok(f) => f,
                Err(e) => {
                    assert(max0 + 3 * v.len() <= u32::MAX ==> before_max <= u32::MAX - 3);
                    assert((forall|i: int| 0 <= i < v.len() ==> font_embeddable(#[trigger] v[i].3)) ==> font_embeddable(v[k as int].3));
                    return Err(e);
                },
            };
            let ghost fd = font_dict;
            let ghost mid = store.objects@;
            let ghost mid_store = *store;
            store.insert_object(id, font_dict);
            proof {
                assert(store.objects@.take(objs0.len() as int) =~= before.take(objs0.len() as int));
                assert(mid.take(before.len() as int) == before);
                assert(store.objects@.take(before.len() as int) =~= before);
                assert forall|i: int| 0 <= i < k implies font_stored(store.objects@, objs0.len() + 4 * i, max0 + 3 * i, #[trigger] v[i]) by {
                    lemma_font_stored_extends(before, store.objects@, objs0.len() + 4 * i, max0 + 3 * i, v[i]);
                }
                lemma_font_stored_new(before_store, mid_store, store.objects@, fd, v[k as int]);
            }
            dict.push((label.name.as_str().as_bytes_vec(), Obj::Reference(id)));
        }
        Ok(dict)
    }
}

spec fn view_of(e: (IndirectFontRef, DirectFontRef)) -> FontView {
    (e.0.name@, e.1.inner_obj, e.1.data.face_name@, e.1.data.font_bytes@)
}

/// Stored at positions `k` to `k + 3` of `o`: the three objects of the
/// font `f` (numbered `m + 1` to `m + 3`) and its Type0 dictionary under
/// the number reserved for it, all as FreeType reports the font's program.
#[verifier::opaque]
pub open spec fn font_stored(o: Seq<(u32, Obj)>, k: int, m: int, f: FontView) -> bool {
    let s = glyph_scan(f.3);
    let mt = ft_size_metrics_of(f.3)->Some_0;
    &&& 0 <= k && k + 3 < o.len()
    &&& o[k + 3].0 == f.1
    &&& exists|g: Seq<(u32, u32, i64)>| #![trigger lists_map(g, glyph_map(s))]
        lists_map(g, glyph_map(s)) && g.len() > 0 && g[0] == (0u32, 0u32, 1000i64)
        && font_objects_at(o, k, m, o[k + 3].1, vstd::utf8::encode_utf8(f.2), f.3, mt.0 as int, mt.1 as int,
            g, max_height(s), total_width(s))
}

pub proof fn lemma_font_stored_extends(o: Seq<(u32, Obj)>, o2: Seq<(u32, Obj)>, k: int, m: int, f: FontView)
    requires
        font_stored(o, k, m, f),
        o2.len() >= o.len(),
        o2.take(o.len() as int) == o,
    ensures
        font_stored(o2, k, m, f),
{
    reveal(font_stored);
    let s = glyph_scan(f.3);
    let g = choose|g: Seq<(u32, u32, i64)>| #![trigger lists_map(g, glyph_map(s))]
        lists_map(g, glyph_map(s)) && g.len() > 0 && g[0] == (0u32, 0u32, 1000i64)
        && font_objects_at(o, k, m, o[k + 3].1, vstd::utf8::encode_utf8(f.2), f.3,
            ft_size_metrics_of(f.3)->Some_0.0 as int, ft_size_metrics_of(f.3)->Some_0.1 as int,
            g, max_height(s), total_width(s));
    assert(o2[k] == o[k]);
    assert(o2[k + 1] == o[k + 1]);
    assert(o2[k + 2] == o[k + 2]);
    assert(o2[k + 3] == o[k + 3]);
    assert(lists_map(g, glyph_map(s)));
}

proof fn lemma_font_stored_new(old_store: ObjectStore, new_store: ObjectStore, after: Seq<(u32, Obj)>, fd: Obj, f: FontView)
    requires
        font_embedded(old_store, new_store, fd, f.2, f.3),
        after == new_store.objects@.push((f.1, fd)),
    ensures
        font_stored(after, old_store.objects@.len() as int, old_store.max_id as int, f),
{
    reveal(font_stored);
    reveal(font_embedded);
    let s = glyph_scan(f.3);
    let mt = ft_size_metrics_of(f.3)->Some_0;
    let n = old_store.objects@.len() as int;
    let o = new_store.objects@;
    let g = choose|g: Seq<(u32, u32, i64)>| #![trigger lists_map(g, glyph_map(s))]
        lists_map(g, glyph_map(s)) && g.len() > 0 && g[0] == (0u32, 0u32, 1000i64)
        && embedded_font(old_store, new_store, fd, vstd::utf8::encode_utf8(f.2), f.3, mt.0 as int, mt.1 as int,
            g, max_height(s), total_width(s));
    assert(after[n] == o[n]);
    assert(after[n + 1] == o[n + 1]);
    assert(after[n + 2] == o[n + 2]);
    assert(after[n + 3] == (f.1, fd));
    assert(lists_map(g, glyph_map(s)));
}

} // verus!
