//! Document metadata and PDF/X conformance levels.

use vstd::prelude::*;
use crate::document_info::UtcDateTime;

verus! {

/// The PDF/X rule set that a document claims to follow.
#[allow(non_camel_case_types)]
#[derive(Debug, Clone, Copy, PartialEq, Eq, Structural)]
pub enum PdfConformance {
    X1A_2001_PDF_1_3,
    X3_2002_PDF_1_3,
    X1A_2003_PDF_1_4,
    X3_2003_PDF_1_4,
    X4_2010_PDF_1_6,
}

/// The `GTS_PDFXVersion` value of each conformance level.
pub open spec fn conformance_identifier(c: PdfConformance) -> Seq<char> {
    match c {
        PdfConformance::X1A_2001_PDF_1_3 => "PDF/X-1a:2001"@,
        PdfConformance::X3_2002_PDF_1_3 => "PDF/X-3:2002"@,
        PdfConformance::X1A_2003_PDF_1_4 => "PDF/X-1a:2003"@,
        PdfConformance::X3_2003_PDF_1_4 => "PDF/X-3:2003"@,
        PdfConformance::X4_2010_PDF_1_6 => "PDF/X-4"@,
    }
}

impl PdfConformance {
    /// The identifier written as `GTS_PDFXVersion`.
    pub fn get_identifier_string(&self) -> (r: &'static str)
        ensures
            r@ == conformance_identifier(*self),
    {
        match self {
            PdfConformance::X1A_2001_PDF_1_3 => "PDF/X-1a:2001",
            PdfConformance::X3_2002_PDF_1_3 => "PDF/X-3:2002",
            PdfConformance::X1A_2003_PDF_1_4 => "PDF/X-1a:2003",
            PdfConformance::X3_2003_PDF_1_4 => "PDF/X-3:2003",
            PdfConformance::X4_2010_PDF_1_6 => "PDF/X-4",
        }
    }
}

/// The metadata of a document. The Info dictionary and the XMP record are
/// both written from this one record when the document is saved.
#[derive(Debug)]
pub struct PdfMetadata {
    pub document_title: String,
    pub author: String,
    pub creator: String,
    pub producer: String,
    pub subject: String,
    pub identifier: String,
    pub keywords: Vec<String>,
    pub trapping: bool,
    pub document_version: u32,
    pub conformance: PdfConformance,
    pub creation_date: UtcDateTime,
    pub modification_date: UtcDateTime,
    /// The document ID of the XMP record.
    pub xmp_document_id: String,
}

impl PdfMetadata {
    pub open spec fn wf(&self) -> bool {
        self.creation_date.wf() && self.modification_date.wf()
    }

    /// Metadata created and last modified at `now`, with empty text fields.
    pub fn new(title: String, document_version: u32, trapping: bool, conformance: PdfConformance, now: UtcDateTime) -> (r: PdfMetadata)
        requires
            now.wf(),
        ensures
            r.wf(),
            r.document_title@ == title@,
            r.document_version == document_version,
            r.trapping == trapping,
            r.conformance == conformance,
            r.creation_date == now,
            r.modification_date == now,
            r.author@.len() == 0,
            r.keywords@.len() == 0,
    {
        PdfMetadata {
            document_title: title,
            author: String::new(),
            creator: String::new(),
            producer: String::new(),
            subject: String::new(),
            identifier: String::new(),
            keywords: Vec::new(),
            trapping,
            document_version,
            conformance,
            creation_date: now,
            modification_date: now,
            xmp_document_id: String::new(),
        }
    }
}

} // verus!
