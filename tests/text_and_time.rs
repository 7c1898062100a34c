use printpdf::document_info::{to_xmp_time_stamp, DocumentInfo, UtcDateTime};
use printpdf::metadata::{PdfConformance, PdfMetadata};
use printpdf::object::Obj;
use printpdf::to_pdf_time_stamp_metadata;

fn date(year: u32, month: u32, day: u32, hour: u32, minute: u32, second: u32) -> UtcDateTime {
    UtcDateTime::from_parts(year, month, day, hour, minute, second).unwrap()
}

#[test]
fn pdf_timestamp_of_known_date() {
    let d = date(2017, 5, 5, 15, 2, 24);
    assert_eq!(to_pdf_time_stamp_metadata(&d), "D:20170505150224+00'00'");
}

#[test]
fn pdf_timestamp_pads_small_fields() {
    let d = date(7, 1, 2, 3, 4, 5);
    assert_eq!(to_pdf_time_stamp_metadata(&d), "D:00070102030405+00'00'");
}

#[test]
fn xmp_timestamp_of_known_date() {
    let d = date(2017, 5, 5, 15, 2, 24);
    assert_eq!(to_xmp_time_stamp(&d), "2017-05-05T15:02:24+00:00");
}

#[test]
fn out_of_range_fields_are_refused() {
    assert!(UtcDateTime::from_parts(2017, 13, 1, 0, 0, 0).is_none());
    assert!(UtcDateTime::from_parts(2017, 1, 0, 0, 0, 0).is_none());
    assert!(UtcDateTime::from_parts(10000, 1, 1, 0, 0, 0).is_none());
    assert!(UtcDateTime::from_parts(2017, 1, 1, 24, 0, 0).is_none());
    assert!(UtcDateTime::from_parts(2017, 1, 1, 23, 59, 60).is_some());
}

#[test]
fn conformance_identifiers() {
    assert_eq!(PdfConformance::X3_2002_PDF_1_3.get_identifier_string(), "PDF/X-3:2002");
    assert_eq!(PdfConformance::X1A_2001_PDF_1_3.get_identifier_string(), "PDF/X-1a:2001");
    assert_eq!(PdfConformance::X4_2010_PDF_1_6.get_identifier_string(), "PDF/X-4");
}

fn str_of(o: &Obj) -> Vec<u8> {
    match o {
        Obj::Str(s) => s.clone(),
        Obj::Name(s) => s.clone(),
        _ => panic!("not a string"),
    }
}

#[test]
fn info_dictionary_follows_metadata() {
    let d = date(2017, 5, 5, 15, 2, 24);
    let mut m = PdfMetadata::new("Title".to_string(), 1, true, PdfConformance::X3_2002_PDF_1_3, d);
    m.author = "Craig".to_string();
    m.keywords = vec!["a".to_string(), "b".to_string(), "c".to_string()];
    let info = DocumentInfo::new().into_obj(&m);
    match info {
        Obj::Dict(entries) => {
            assert_eq!(entries.len(), 11);
            assert_eq!(entries[0].0, b"Trapped".to_vec());
            assert_eq!(str_of(&entries[0].1), b"True".to_vec());
            assert_eq!(str_of(&entries[1].1), b"D:20170505150224+00'00'".to_vec());
            assert_eq!(str_of(&entries[2].1), b"D:20170505150224+00'00'".to_vec());
            assert_eq!(str_of(&entries[3].1), b"PDF/X-3:2002".to_vec());
            assert_eq!(str_of(&entries[4].1), b"Title".to_vec());
            assert_eq!(str_of(&entries[5].1), b"Craig".to_vec());
            assert_eq!(entries[10].0, b"Keywords".to_vec());
            assert_eq!(str_of(&entries[10].1), b"a,b,c".to_vec());
        }
        _ => panic!("the Info dictionary is a dictionary"),
    }
}

#[test]
fn untrapped_and_no_keywords() {
    let d = date(2020, 12, 31, 23, 59, 59);
    let m = PdfMetadata::new("T".to_string(), 1, false, PdfConformance::X1A_2003_PDF_1_4, d);
    match DocumentInfo::new().into_obj(&m) {
        Obj::Dict(entries) => {
            assert_eq!(str_of(&entries[0].1), b"False".to_vec());
            assert_eq!(str_of(&entries[10].1), Vec::<u8>::new());
        }
        _ => panic!("the Info dictionary is a dictionary"),
    }
}

#[test]
fn xmp_record_carries_title_and_dates() {
    let d = date(2017, 5, 5, 15, 2, 24);
    let mut m = PdfMetadata::new("My Title".to_string(), 1, false, PdfConformance::X3_2002_PDF_1_3, d);
    m.xmp_document_id = "doc-7".to_string();
    match printpdf::document_info::xmp_metadata_obj(&m) {
        Obj::Stream(_, content, _) => {
            let text = String::from_utf8(content).unwrap();
            assert!(text.contains(">My Title<"));
            assert!(text.contains("<xmp:CreateDate>2017-05-05T15:02:24+00:00</xmp:CreateDate>"));
            assert!(text.contains("<xmpMM:DocumentID>doc-7</xmpMM:DocumentID>"));
            assert!(text.contains("PDF/X-3:2002"));
        }
        _ => panic!("the XMP record is a stream"),
    }
}

#[test]
fn current_time_is_in_range() {
    let now = printpdf::ids::utc_now();
    assert!(now.month >= 1 && now.month <= 12);
    assert!(now.day >= 1 && now.day <= 31);
    assert!(now.year >= 2000 && now.year <= 9999);
}

#[test]
fn identifiers_are_32_alphanumerics_and_differ() {
    let a = printpdf::ids::new_identifier();
    let b = printpdf::ids::new_identifier();
    assert_eq!(a.len(), 32);
    assert!(a.chars().all(|c| c.is_ascii_alphanumeric()));
    assert_ne!(a, b);
}

#[test]
fn years_are_clamped_to_four_digits() {
    let d = printpdf::ids::utc_from_fields(-5, 1, 2, 3, 4, 5);
    assert_eq!(d.year, 0);
    assert_eq!(d.month, 1);
    let d = printpdf::ids::utc_from_fields(12345, 12, 31, 23, 59, 59);
    assert_eq!(d.year, 9999);
    assert_eq!(d.second, 59);
    assert_eq!(printpdf::ids::utc_from_fields(2017, 5, 5, 15, 2, 24).year, 2017);
}
