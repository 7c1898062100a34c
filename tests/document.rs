use printpdf::document_info::UtcDateTime;
use printpdf::metadata::{PdfConformance, PdfMetadata};
use printpdf::object::{Obj, ObjectStore};
use printpdf::page::{merge_layer_streams, page_dict, PdfLayer};
use printpdf::{Error, Font, FontList, PdfDocument, PdfDocumentReference, PdfLayerIndex, PdfPageIndex};

fn fixed_date() -> UtcDateTime {
    UtcDateTime::from_parts(2017, 5, 5, 15, 2, 24).unwrap()
}

fn fixed_document() -> PdfDocumentReference {
    let (doc, _, _) = PdfDocument::new("Test".to_string(), 595_000, 842_000, "Layer 1".to_string());
    let mut doc = doc.with_mod_date(fixed_date());
    doc.document.metadata.creation_date = fixed_date();
    doc.document.document_id = "ABCDEFGHIJKLMNOPQRSTUVWXYZ012345".to_string();
    doc
}

fn empty_document() -> PdfDocumentReference {
    PdfDocumentReference {
        document: PdfDocument {
            pages: Vec::new(),
            fonts: FontList::new(),
            icc_profile: None,
            inner_doc: ObjectStore::new(),
            document_id: "ABCDEFGHIJKLMNOPQRSTUVWXYZ012345".to_string(),
            metadata: PdfMetadata::new("Empty".to_string(), 1, false, PdfConformance::X3_2002_PDF_1_3, fixed_date()),
        },
    }
}

fn layer(content: &[u8]) -> PdfLayer {
    PdfLayer { name: "L".to_string(), content: content.to_vec() }
}

#[test]
fn merged_content_is_layers_in_order() {
    let layers = vec![layer(b"1 0 0 RG\n"), layer(b""), layer(b"0 0 m 10 10 l S\n")];
    assert_eq!(merge_layer_streams(&layers), b"1 0 0 RG\n0 0 m 10 10 l S\n".to_vec());
    assert_eq!(merge_layer_streams(&Vec::new()), Vec::<u8>::new());
}

#[test]
fn page_boxes_are_equal() {
    let d = page_dict(595_276, 841_890, 1, 5);
    let box_text = "Array([Integer(0), Integer(0), Real(595276), Real(841890)])";
    match d {
        Obj::Dict(entries) => {
            assert_eq!(entries[2].0, b"MediaBox".to_vec());
            assert_eq!(entries[3].0, b"TrimBox".to_vec());
            assert_eq!(entries[4].0, b"CropBox".to_vec());
            for i in 2..5 {
                assert_eq!(format!("{:?}", entries[i].1), box_text);
            }
            assert_eq!(format!("{:?}", entries[1].1), "Integer(0)");
            assert_eq!(format!("{:?}", entries[6].1), "Reference(5)");
        }
        _ => panic!("a page is a dictionary"),
    }
}

#[test]
fn new_document_has_one_page_and_layer() {
    let (doc, page, layer) = PdfDocument::new("Title".to_string(), 1000, 2000, "Layer 1".to_string());
    assert_eq!(page, PdfPageIndex(0));
    assert_eq!(layer, PdfLayerIndex(0));
    assert_eq!(doc.document.pages.len(), 1);
    assert_eq!(doc.document.document_id.len(), 32);
    assert_eq!(doc.document.metadata.document_title, "Title");
    assert!(doc.check_for_errors().is_ok());
    assert!(doc.repair_errors(PdfConformance::X4_2010_PDF_1_6).is_ok());
}

#[test]
fn builders_change_metadata() {
    let (doc, _, _) = PdfDocument::new("A".to_string(), 1000, 2000, "L".to_string());
    let doc = doc
        .with_title("B".to_string())
        .with_trapping(true)
        .with_document_id("xmp-id".to_string())
        .with_document_version(3)
        .with_conformance(PdfConformance::X4_2010_PDF_1_6)
        .with_mod_date(fixed_date());
    let m = &doc.document.metadata;
    assert_eq!(m.document_title, "B");
    assert!(m.trapping);
    assert_eq!(m.xmp_document_id, "xmp-id");
    assert_eq!(m.document_version, 3);
    assert_eq!(m.conformance, PdfConformance::X4_2010_PDF_1_6);
    assert_eq!(m.modification_date, fixed_date());
}

#[test]
fn pages_layers_and_operators() {
    let mut doc = fixed_document();
    let (p, l) = doc.add_page(100, 200, "first".to_string());
    assert_eq!(p, PdfPageIndex(1));
    assert_eq!(l, PdfLayerIndex(0));
    assert_eq!(doc.add_layer(p, "second".to_string()), Some(PdfLayerIndex(1)));
    assert_eq!(doc.add_layer(PdfPageIndex(9), "x".to_string()), None);
    assert!(doc.add_operators(p, PdfLayerIndex(1), &b"B".to_vec()));
    assert!(doc.add_operators(p, PdfLayerIndex(0), &b"A".to_vec()));
    assert!(!doc.add_operators(p, PdfLayerIndex(2), &b"C".to_vec()));
    assert!(!doc.add_operators(PdfPageIndex(2), PdfLayerIndex(0), &b"C".to_vec()));
    let page = doc.get_page(p).unwrap();
    assert_eq!(page.width_pt, 100);
    assert_eq!(merge_layer_streams(&page.layers), b"AB".to_vec());
    assert!(doc.get_page(PdfPageIndex(5)).is_none());
}

#[test]
fn saved_page_content_is_merged_layers() {
    let mut doc = fixed_document();
    doc.add_layer(PdfPageIndex(0), "top".to_string());
    doc.add_operators(PdfPageIndex(0), PdfLayerIndex(1), &b"q Q\n".to_vec());
    doc.add_operators(PdfPageIndex(0), PdfLayerIndex(0), &b"0 g\n".to_vec());
    let store = doc.save_with_instance_id("instance".to_string()).unwrap();
    match &store.objects[2].1 {
        Obj::Stream(_, content, _) => assert_eq!(content, &b"0 g\nq Q\n".to_vec()),
        _ => panic!("page content is a stream"),
    }
    assert_eq!(store.objects.len(), 6);
    assert_eq!(store.max_id, 6);
}

#[test]
fn saving_without_pages_or_layer_content_succeeds() {
    let store = empty_document().save_with_instance_id("i".to_string()).unwrap();
    assert_eq!(store.objects.len(), 4);
    match &store.objects[2].1 {
        Obj::Dict(d) => {
            assert_eq!(d.len(), 3);
            assert_eq!(format!("{:?}", d[1].1), "Integer(0)");
        }
        _ => panic!("the page tree is a dictionary"),
    }
    let store = fixed_document().save().unwrap();
    match &store.objects[2].1 {
        Obj::Stream(_, content, _) => assert!(content.is_empty()),
        _ => panic!("page content is a stream"),
    }
}

#[test]
fn two_saves_differ_only_in_instance_id() {
    let a = fixed_document().save_with_instance_id("first instance".to_string()).unwrap();
    let b = fixed_document().save_with_instance_id("second instance".to_string()).unwrap();
    assert_eq!(format!("{:?}", a.objects), format!("{:?}", b.objects));
    assert_eq!(format!("{:?}", a.trailer[0]), format!("{:?}", b.trailer[0]));
    assert_eq!(format!("{:?}", a.trailer[1]), format!("{:?}", b.trailer[1]));
    match (&a.trailer[2].1, &b.trailer[2].1) {
        (Obj::Array(x), Obj::Array(y)) => {
            assert_eq!(format!("{:?}", x[0]), format!("{:?}", y[0]));
            assert_eq!(format!("{:?}", x[1]), format!("{:?}", Obj::Str(b"first instance".to_vec())));
            assert_eq!(format!("{:?}", y[1]), format!("{:?}", Obj::Str(b"second instance".to_vec())));
        }
        _ => panic!("the ID is an array"),
    }
}

#[test]
fn icc_profile_becomes_destination_profile() {
    let doc = fixed_document().with_icc_profile(vec![1, 2, 3]);
    let store = doc.save_with_instance_id("i".to_string()).unwrap();
    match &store.objects[2].1 {
        Obj::Stream(_, content, _) => assert_eq!(content, &vec![1, 2, 3]),
        _ => panic!("the profile is a stream"),
    }
    assert_eq!(intent_entries(&store.objects.last().unwrap().1).len(), 7);
    assert_eq!(intent_entries(&store.objects.last().unwrap().1)[6].0, b"DestinationOutputProfile".to_vec());
    let plain = fixed_document().save_with_instance_id("i".to_string()).unwrap();
    assert_eq!(intent_entries(&plain.objects.last().unwrap().1).len(), 6);
}

fn intent_entries(catalog: &Obj) -> Vec<(Vec<u8>, String)> {
    match catalog {
        Obj::Dict(d) => match &d[5].1 {
            Obj::Array(a) => match &a[0] {
                Obj::Dict(i) => i.iter().map(|(k, v)| (k.clone(), format!("{:?}", v))).collect(),
                _ => panic!("an output intent is a dictionary"),
            },
            _ => panic!("OutputIntents is an array"),
        },
        _ => panic!("the catalog is a dictionary"),
    }
}

#[test]
fn same_font_name_registers_once() {
    let mut doc = fixed_document();
    let a = doc.register_font(Font { font_bytes: vec![1], face_name: "Sans".to_string() }).unwrap();
    let b = doc.register_font(Font { font_bytes: vec![2], face_name: "Sans".to_string() }).unwrap();
    let c = doc.register_font(Font { font_bytes: vec![3], face_name: "Serif".to_string() }).unwrap();
    assert_eq!(a.name, "F0");
    assert_eq!(b.name, "F0");
    assert_eq!(c.name, "F1");
    assert_eq!(doc.document.fonts.len(), 2);
    assert_eq!(doc.get_font(&a).unwrap().data.font_bytes, vec![1]);
    assert_eq!(doc.get_font(&c).unwrap().inner_obj, 2);
}

#[test]
fn font_bytes_that_do_not_parse_are_refused() {
    let mut doc = fixed_document();
    assert_eq!(doc.add_font(vec![0, 1, 2, 3]).unwrap_err(), Error::FontDecode);
    assert_eq!(doc.document.fonts.len(), 0);
}

#[test]
fn saving_reparses_registered_fonts() {
    let mut doc = fixed_document();
    doc.register_font(Font { font_bytes: vec![1, 2, 3], face_name: "Fake".to_string() }).unwrap();
    assert_eq!(doc.save_with_instance_id("i".to_string()).unwrap_err(), Error::FontDecode);
}

#[test]
fn saving_fails_when_numbers_run_out() {
    let mut doc = fixed_document();
    doc.document.inner_doc.max_id = u32::MAX - 3;
    assert_eq!(doc.save_with_instance_id("i".to_string()).unwrap_err(), Error::Allocation);
}

#[test]
fn inner_store_is_empty_before_saving() {
    let doc = fixed_document();
    let store = doc.get_inner();
    assert_eq!(store.objects.len(), 0);
    assert_eq!(store.max_id, 0);
}

#[test]
fn new_page_keeps_earlier_pages_and_names_its_layer() {
    let mut doc = fixed_document();
    doc.add_page(100, 200, "second page layer".to_string());
    assert_eq!(doc.document.pages.len(), 2);
    assert_eq!(doc.document.pages[0].width_pt, 595_000);
    assert_eq!(doc.document.pages[1].layers[0].name, "second page layer");
}

#[test]
fn builders_keep_the_rest() {
    let doc = fixed_document().with_title("New".to_string());
    assert!(!doc.document.metadata.trapping);
    assert_eq!(doc.document.metadata.document_version, 1);
    let doc = doc.with_trapping(true);
    assert_eq!(doc.document.metadata.document_title, "New");
}

#[test]
fn same_name_keeps_first_program_and_reserves_nothing() {
    let mut doc = fixed_document();
    let a = doc.register_font(Font { font_bytes: vec![1], face_name: "Sans".to_string() }).unwrap();
    let max_id = doc.document.inner_doc.max_id;
    let b = doc.register_font(Font { font_bytes: vec![2], face_name: "Sans".to_string() }).unwrap();
    assert_eq!(a.name, b.name);
    assert_eq!(doc.document.inner_doc.max_id, max_id);
    assert_eq!(doc.get_font(&a).unwrap().data.font_bytes, vec![1]);
}
