use printpdf::cmap::to_unicode_cmap;
use printpdf::font::embed_font;
use printpdf::glyphs::{build_glyph_table, GlyphEntry};
use printpdf::object::{Obj, ObjectStore};
use printpdf::{Error, Font, FontList, IndirectFontRef, DirectFontRef};

fn entry(unicode: u32, glyph_id: u32, width: i64, height: i64) -> GlyphEntry {
    GlyphEntry { unicode, glyph_id, width, height }
}

fn count(haystack: &str, needle: &str) -> usize {
    haystack.matches(needle).count()
}

#[test]
fn font_labels() {
    assert_eq!(IndirectFontRef::new(0).name, "F0");
    assert_eq!(IndirectFontRef::new(12).name, "F12");
    assert_eq!(IndirectFontRef::new(4096).name, "F4096");
}

#[test]
fn glyph_zero_is_notdef_even_for_an_empty_font() {
    let t = build_glyph_table(&Vec::new());
    assert_eq!(t.glyphs, vec![(0, 0, 1000)]);
    assert_eq!(t.max_height, 0);
    assert_eq!(t.total_width, 0);
}

#[test]
fn glyph_zero_keeps_notdef_values() {
    let t = build_glyph_table(&vec![entry(0x20, 0, 5, 500), entry(0x41, 3, 600, 700)]);
    assert_eq!(t.glyphs, vec![(0, 0, 1000), (3, 0x41, 600)]);
    assert_eq!(t.max_height, 700);
    assert_eq!(t.total_width, 600);
}

#[test]
fn glyph_table_sorted_by_glyph_index_later_entries_win() {
    let entries = vec![
        entry(0x41, 36, 600, 700),
        entry(0x42, 5, 550, 720),
        entry(0x43, 36, 610, 650),
    ];
    let t = build_glyph_table(&entries);
    assert_eq!(t.glyphs, vec![(0, 0, 1000), (5, 0x42, 550), (36, 0x43, 610)]);
    assert_eq!(t.max_height, 720);
    assert_eq!(t.total_width, 600 + 550 + 610);
}

#[test]
fn cmap_single_block() {
    let g = vec![(0, 0, 1000), (1, 0x41, 500), (2, 0x42, 500)];
    let text = String::from_utf8(to_unicode_cmap(&g)).unwrap();
    assert_eq!(count(&text, "beginbfchar"), 1);
    assert_eq!(count(&text, "endbfchar"), 1);
    assert!(text.contains("3 beginbfchar\r\n<0000> <0000>\n<0001> <0041>\n<0002> <0042>\nendbfchar\r\n"));
    assert!(text.starts_with("/CIDInit"));
    assert!(text.ends_with("end\nend\n"));
}

#[test]
fn cmap_new_block_when_high_byte_changes() {
    let g = vec![(0, 0, 1000), (5, 0x61, 500), (0x100, 0x62, 500), (0x105, 0x63, 500)];
    let text = String::from_utf8(to_unicode_cmap(&g)).unwrap();
    assert_eq!(count(&text, "beginbfchar"), 2);
    assert!(text.contains("2 beginbfchar\r\n<0000> <0000>\n<0005> <0061>\nendbfchar\r\n"));
    assert!(text.contains("2 beginbfchar\r\n<0100> <0062>\n<0105> <0063>\nendbfchar\r\n"));
}

#[test]
fn cmap_new_block_after_more_than_100_above_start() {
    let mut g: Vec<(u32, u32, i64)> = Vec::new();
    for i in 0..=101u32 {
        g.push((i, 0x100 + i, 500));
    }
    let text = String::from_utf8(to_unicode_cmap(&g)).unwrap();
    assert_eq!(count(&text, "beginbfchar"), 2);
    assert!(text.contains("101 beginbfchar\r\n<0000> <0100>\n"));
    assert!(text.contains("1 beginbfchar\r\n<0065> <0165>\nendbfchar\r\n"));
    // one line per glyph, and the codespace range line of the header
    assert_eq!(count(&text, "> <"), 102 + 1);
}

#[test]
fn cmap_large_glyph_index_gets_more_digits() {
    let g = vec![(0, 0, 1000), (0x12345, 0xab, 500)];
    let text = String::from_utf8(to_unicode_cmap(&g)).unwrap();
    assert!(text.contains("<12345> <00ab>\n"));
}

#[test]
fn garbage_is_not_a_font() {
    assert_eq!(Font::new(vec![1, 2, 3, 4]).unwrap_err(), Error::FontDecode);
    assert_eq!(Font::new(Vec::new()).unwrap_err(), Error::FontDecode);
}

fn font(name: &str) -> Font {
    Font { font_bytes: vec![0, 1, 2], face_name: name.to_string() }
}

#[test]
fn fonts_equal_by_name_only() {
    let a = Font { font_bytes: vec![1], face_name: "A".to_string() };
    let b = Font { font_bytes: vec![2], face_name: "A".to_string() };
    assert!(a.eq(&b));
    assert!(!a.eq(&font("B")));
}

#[test]
fn font_list_add_get_replace() {
    let mut l = FontList::new();
    assert_eq!(l.len(), 0);
    let h = l.add_font(IndirectFontRef::new(0), DirectFontRef { inner_obj: 7, data: font("A") });
    assert_eq!(h.name, "F0");
    assert_eq!(l.len(), 1);
    let d = l.get_font(&IndirectFontRef::new(0)).unwrap();
    assert_eq!(d.inner_obj, 7);
    assert_eq!(d.data.face_name, "A");
    assert!(l.get_font(&IndirectFontRef::new(1)).is_none());
    l.add_font(IndirectFontRef::new(0), DirectFontRef { inner_obj: 9, data: font("B") });
    assert_eq!(l.len(), 1);
    assert_eq!(l.get_font(&IndirectFontRef::new(0)).unwrap().inner_obj, 9);
}

#[test]
fn embedding_writes_composite_font() {
    let table = build_glyph_table(&vec![entry(0x41, 1, 600, 700), entry(0x42, 2, 400, 650)]);
    let mut store = ObjectStore::new();
    let f = embed_font(&"MyFont".to_string(), vec![9, 9, 9], 800, -200, &table, &mut store).unwrap();
    assert_eq!(store.max_id, 3);
    assert_eq!(store.objects.len(), 3);
    match &store.objects[1].1 {
        Obj::Stream(d, content, compress) => {
            assert_eq!(content, &vec![9, 9, 9]);
            assert!(!compress);
            assert_eq!(d[0].0, b"Length1".to_vec());
        }
        _ => panic!("the font program is a stream"),
    }
    match &store.objects[2].1 {
        Obj::Dict(d) => {
            assert_eq!(d[8].0, b"FontBBox".to_vec());
            let bbox = format!("{:?}", d[8].1);
            assert_eq!(bbox, "Array([Integer(0), Integer(700), Integer(1000), Integer(700)])");
        }
        _ => panic!("the descriptor is a dictionary"),
    }
    let dbg = format!("{:?}", f);
    assert!(dbg.contains("Array([Integer(0), Array([Integer(1000), Integer(600), Integer(400)])])"));
    assert!(dbg.contains("Reference(1)"));
    assert!(dbg.contains("Reference(3)"));
}

#[test]
fn embedding_refuses_when_numbers_run_out() {
    let table = build_glyph_table(&Vec::new());
    let mut store = ObjectStore::new();
    store.max_id = u32::MAX - 2;
    let r = embed_font(&"F".to_string(), vec![], 0, 0, &table, &mut store);
    assert_eq!(r.unwrap_err(), Error::Allocation);
    assert_eq!(store.objects.len(), 0);
}

#[test]
fn store_runs_out_of_numbers() {
    let mut store = ObjectStore::new();
    store.max_id = u32::MAX;
    assert_eq!(store.new_object_id().unwrap_err(), Error::Allocation);
    let mut store = ObjectStore::new();
    assert_eq!(store.add_object(Obj::Null).unwrap(), 1);
    assert_eq!(store.new_object_id().unwrap(), 2);
}
