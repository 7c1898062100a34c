//! Timestamps and the "Info" dictionary of a PDF document.

use vstd::prelude::*;
use vstd::string::StringExecFns;
use vstd::string::StrSliceExecFns;
use vstd::utf8::encode_utf8;
use crate::text::{digit_char, digit_str};
use crate::object::{Obj, entry, entries, entry_key, key, is_name, is_str, name};
use crate::metadata::{PdfMetadata, conformance_identifier};

verus! {

/// A point in time, already normalised to UTC, as the calendar fields that a
/// PDF date string carries.
#[derive(Debug, Clone, Copy, PartialEq, Eq, Structural)]
pub struct UtcDateTime {
    pub year: u32,
    pub month: u32,
    pub day: u32,
    pub hour: u32,
    pub minute: u32,
    pub second: u32,
}

impl UtcDateTime {
    /// Fields in the ranges that a calendar date and a time of day take.
    pub open spec fn wf(&self) -> bool {
        &&& self.year <= 9999
        &&& 1 <= self.month <= 12
        &&& 1 <= self.day <= 31
        &&& self.hour < 24
        &&& self.minute < 60
        &&& self.second < 61
    }

    /// Builds a timestamp, or `None` when a field is out of its range.
    pub fn from_parts(year: u32, month: u32, day: u32, hour: u32, minute: u32, second: u32) -> (r: Option<UtcDateTime>)
        ensures
            r matches Some(t) ==> t.wf() && t == (UtcDateTime { year, month, day, hour, minute, second }),
            r is None <==> !(UtcDateTime { year, month, day, hour, minute, second }).wf(),
    {
        let t = UtcDateTime { year, month, day, hour, minute, second };
        if year <= 9999 && 1 <= month && month <= 12 && 1 <= day && day <= 31 && hour < 24
            && minute < 60 && second < 61 {
            Some(t)
        } else {
            None
        }
    }
}

/// The two last decimal digits of `n`, leading zero kept.
pub open spec fn two_digits(n: nat) -> Seq<char> {
    seq![digit_char((n / 10) % 10), digit_char(n % 10)]
}

/// The four last decimal digits of `n`, leading zeros kept.
pub open spec fn four_digits(n: nat) -> Seq<char> {
    seq![digit_char((n / 1000) % 10), digit_char((n / 100) % 10), digit_char((n / 10) % 10), digit_char(n % 10)]
}

/// `D:YYYYMMDDHHMMSS+00'00'`: a PDF date string at zero offset from UTC.
pub open spec fn pdf_timestamp(d: UtcDateTime) -> Seq<char> {
    "D:"@ + four_digits(d.year as nat) + two_digits(d.month as nat) + two_digits(d.day as nat)
        + two_digits(d.hour as nat) + two_digits(d.minute as nat) + two_digits(d.second as nat)
        + "+00'00'"@
}

fn push_two_digits(s: &mut String, n: u32)
    ensures
        final(s)@ == old(s)@ + two_digits(n as nat),
{
    s.append(digit_str(((n / 10) % 10) as u64));
    s.append(digit_str((n % 10) as u64));
}

fn push_four_digits(s: &mut String, n: u32)
    ensures
        final(s)@ == old(s)@ + four_digits(n as nat),
{
    s.append(digit_str(((n / 1000) % 10) as u64));
    s.append(digit_str(((n / 100) % 10) as u64));
    s.append(digit_str(((n / 10) % 10) as u64));
    s.append(digit_str((n % 10) as u64));
}

/// Formats a UTC timestamp as a PDF date string, `D:YYYYMMDDHHMMSS+00'00'`.
/// The fixed suffix states a zero offset, which holds because the value is
/// already in UTC.
pub fn to_pdf_time_stamp_metadata(date: &UtcDateTime) -> (r: String)
    ensures
        r@ == pdf_timestamp(*date),
{
    let mut s = String::from_str("D:");
    push_four_digits(&mut s, date.year);
    push_two_digits(&mut s, date.month);
    push_two_digits(&mut s, date.day);
    push_two_digits(&mut s, date.hour);
    push_two_digits(&mut s, date.minute);
    push_two_digits(&mut s, date.second);
    s.append("+00'00'");
    proof {
        assert(s@ =~= pdf_timestamp(*date));
    }
    s
}

/// `YYYY-MM-DDTHH:MM:SS+00:00`: an XMP date at zero offset from UTC.
pub open spec fn xmp_timestamp(d: UtcDateTime) -> Seq<char> {
    four_digits(d.year as nat) + "-"@ + two_digits(d.month as nat) + "-"@ + two_digits(d.day as nat) + "T"@
        + two_digits(d.hour as nat) + ":"@ + two_digits(d.minute as nat) + ":"@ + two_digits(d.second as nat)
        + "+00:00"@
}

/// Formats a UTC timestamp as an XMP date.
pub fn to_xmp_time_stamp(date: &UtcDateTime) -> (r: String)
    ensures
        r@ == xmp_timestamp(*date),
{
    let mut s = String::new();
    push_four_digits(&mut s, date.year);
    s.append("-");
    push_two_digits(&mut s, date.month);
    s.append("-");
    push_two_digits(&mut s, date.day);
    s.append("T");
    push_two_digits(&mut s, date.hour);
    s.append(":");
    push_two_digits(&mut s, date.minute);
    s.append(":");
    push_two_digits(&mut s, date.second);
    s.append("+00:00");
    proof {
        assert(s@ =~= xmp_timestamp(*date));
    }
    s
}

/// The keywords, each as UTF-8, joined by commas.
pub open spec fn joined_keywords(ks: Seq<String>) -> Seq<u8>
    decreases ks.len(),
{
    if ks.len() == 0 {
        Seq::empty()
    } else if ks.len() == 1 {
        encode_utf8(ks[0]@)
    } else {
        joined_keywords(ks.drop_last()) + seq![44u8] + encode_utf8(ks.last()@)
    }
}

fn join_keywords(ks: &Vec<String>) -> (r: Vec<u8>)
    ensures
        r@ == joined_keywords(ks@),
{
    let mut out: Vec<u8> = Vec::new();
    for i in 0..ks.len()
        invariant
            out@ == joined_keywords(ks@.take(i as int)),
    {
        let mut b = ks[i].as_str().as_bytes_vec();
        if i > 0 {
            out.push(44u8);
        }
        out.append(&mut b);
        proof {
            assert(ks@.take(i + 1).drop_last() =~= ks@.take(i as int));
            if i == 0 {
                assert(out@ =~= joined_keywords(ks@.take(i + 1)));
            }
        }
    }
    proof {
        assert(ks@.take(ks@.len() as int) =~= ks@);
    }
    out
}

/// The Info dictionary written from the metadata `m`.
pub open spec fn is_info_dict(o: Obj, m: &PdfMetadata) -> bool {
    let d = entries(o);
    &&& o is Dict
    &&& d.len() == 11
    &&& entry_key(d, 0, key("Trapped")) && is_name(d[0].1, if m.trapping { key("True") } else { key("False") })
    &&& entry_key(d, 1, key("CreationDate")) && is_str(d[1].1, encode_utf8(pdf_timestamp(m.creation_date)))
    &&& entry_key(d, 2, key("ModDate")) && is_str(d[2].1, encode_utf8(pdf_timestamp(m.modification_date)))
    &&& entry_key(d, 3, key("GTS_PDFXVersion")) && is_str(d[3].1, encode_utf8(conformance_identifier(m.conformance)))
    &&& entry_key(d, 4, key("Title")) && is_str(d[4].1, encode_utf8(m.document_title@))
    &&& entry_key(d, 5, key("Author")) && is_str(d[5].1, encode_utf8(m.author@))
    &&& entry_key(d, 6, key("Creator")) && is_str(d[6].1, encode_utf8(m.creator@))
    &&& entry_key(d, 7, key("Producer")) && is_str(d[7].1, encode_utf8(m.producer@))
    &&& entry_key(d, 8, key("Subject")) && is_str(d[8].1, encode_utf8(m.subject@))
    &&& entry_key(d, 9, key("Identifier")) && is_str(d[9].1, encode_utf8(m.identifier@))
    &&& entry_key(d, 10, key("Keywords")) && is_str(d[10].1, joined_keywords(m.keywords@))
}

fn utf8_str(s: &String) -> (r: Obj)
    ensures
        is_str(r, encode_utf8(s@)),
{
    Obj::Str(s.as_str().as_bytes_vec())
}

/// The "Info" dictionary of a PDF document. It holds nothing itself: it is
/// written from the document's metadata at the moment of saving, so that it
/// always agrees with the XMP record.
#[derive(Debug, Clone, Copy, Default)]
pub struct DocumentInfo {}

impl DocumentInfo {
    pub fn new() -> (r: DocumentInfo) {
        DocumentInfo {}
    }

    /// The Info dictionary for the metadata `m`.
    pub fn into_obj(self, m: &PdfMetadata) -> (r: Obj)
        ensures
            is_info_dict(r, m),
    {
        let trapping = if m.trapping { name("True") } else { name("False") };
        let create = to_pdf_time_stamp_metadata(&m.creation_date);
        let modified = to_pdf_time_stamp_metadata(&m.modification_date);
        let conformance = m.conformance.get_identifier_string();
        let mut d: Vec<(Vec<u8>, Obj)> = Vec::new();
        d.push(entry("Trapped", trapping));
        d.push(entry("CreationDate", utf8_str(&create)));
        d.push(entry("ModDate", utf8_str(&modified)));
        d.push(entry("GTS_PDFXVersion", Obj::Str(conformance.as_bytes_vec())));
        d.push(entry("Title", utf8_str(&m.document_title)));
        d.push(entry("Author", utf8_str(&m.author)));
        d.push(entry("Creator", utf8_str(&m.creator)));
        d.push(entry("Producer", utf8_str(&m.producer)));
        d.push(entry("Subject", utf8_str(&m.subject)));
        d.push(entry("Identifier", utf8_str(&m.identifier)));
        d.push(entry("Keywords", Obj::Str(join_keywords(&m.keywords))));
        Obj::Dict(d)
    }
}

pub const XMP_BEGIN: &'static str = "<?xpacket begin=\"\" id=\"W5M0MpCehiHzreSzNTczkc9d\"?>\n<x:xmpmeta xmlns:x=\"adobe:ns:meta/\">\n<rdf:RDF xmlns:rdf=\"http://www.w3.org/1999/02/22-rdf-syntax-ns#\">\n<rdf:Description rdf:about=\"\" xmlns:dc=\"http://purl.org/dc/elements/1.1/\" xmlns:xmp=\"http://ns.adobe.com/xap/1.0/\" xmlns:xmpMM=\"http://ns.adobe.com/xap/1.0/mm/\" xmlns:pdfx=\"http://ns.adobe.com/pdfx/1.3/\">\n<dc:title><rdf:Alt><rdf:li xml:lang=\"x-default\">";

pub const XMP_AFTER_TITLE: &'static str = "</rdf:li></rdf:Alt></dc:title>\n<dc:creator><rdf:Seq><rdf:li>";

pub const XMP_AFTER_AUTHOR: &'static str = "</rdf:li></rdf:Seq></dc:creator>\n<dc:identifier>";

pub const XMP_AFTER_IDENTIFIER: &'static str = "</dc:identifier>\n<xmp:CreateDate>";

pub const XMP_AFTER_CREATED: &'static str = "</xmp:CreateDate>\n<xmp:ModifyDate>";

pub const XMP_AFTER_MODIFIED: &'static str = "</xmp:ModifyDate>\n<xmpMM:DocumentID>";

pub const XMP_AFTER_DOCUMENT_ID: &'static str = "</xmpMM:DocumentID>\n<pdfx:GTS_PDFXVersion>";

pub const XMP_END: &'static str = "</pdfx:GTS_PDFXVersion>\n</rdf:Description>\n</rdf:RDF>\n</x:xmpmeta>\n<?xpacket end=\"w\"?>";

/// The XMP record of the metadata `m`: the same title, author, identifier,
/// dates and conformance level as the Info dictionary.
pub open spec fn xmp_text(m: &PdfMetadata) -> Seq<char> {
    XMP_BEGIN@ + m.document_title@ + XMP_AFTER_TITLE@ + m.author@ + XMP_AFTER_AUTHOR@ + m.identifier@
        + XMP_AFTER_IDENTIFIER@ + xmp_timestamp(m.creation_date) + XMP_AFTER_CREATED@
        + xmp_timestamp(m.modification_date) + XMP_AFTER_MODIFIED@ + m.xmp_document_id@
        + XMP_AFTER_DOCUMENT_ID@ + conformance_identifier(m.conformance) + XMP_END@
}

/// The XMP metadata stream of `m`.
pub fn xmp_metadata_obj(m: &PdfMetadata) -> (r: Obj)
    ensures
        r matches Obj::Stream(d, c, _) && c@ == encode_utf8(xmp_text(m)) && d@.len() == 2
            && entry_key(d@, 0, key("Type")) && is_name(d@[0].1, key("Metadata"))
            && entry_key(d@, 1, key("Subtype")) && is_name(d@[1].1, key("XML")),
{
    let mut s = String::from_str(XMP_BEGIN);
    s.append(m.document_title.as_str());
    s.append(XMP_AFTER_TITLE);
    s.append(m.author.as_str());
    s.append(XMP_AFTER_AUTHOR);
    s.append(m.identifier.as_str());
    s.append(XMP_AFTER_IDENTIFIER);
    let created = to_xmp_time_stamp(&m.creation_date);
    s.append(created.as_str());
    s.append(XMP_AFTER_CREATED);
    let modified = to_xmp_time_stamp(&m.modification_date);
    s.append(modified.as_str());
    s.append(XMP_AFTER_MODIFIED);
    s.append(m.xmp_document_id.as_str());
    s.append(XMP_AFTER_DOCUMENT_ID);
    s.append(m.conformance.get_identifier_string());
    s.append(XMP_END);
    proof {
        assert(s@ =~= xmp_text(m));
    }
    let mut d: Vec<(Vec<u8>, Obj)> = Vec::new();
    d.push(entry("Type", name("Metadata")));
    d.push(entry("Subtype", name("XML")));
    Obj::Stream(d, s.as_str().as_bytes_vec(), true)
}

} // verus!
