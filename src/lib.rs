//! Building PDF documents: pages and layers, embedded composite fonts with
//! their Unicode maps, document metadata, and the assembly of all of it into
//! one cross-referenced object graph.

pub mod text;
pub mod error;
pub mod object;
pub mod glyphs;
pub mod cmap;
pub mod font;
pub mod page;
pub mod metadata;
pub mod ids;
pub mod document;
pub mod document_info;

pub use crate::document::{PdfDocument, PdfDocumentReference};
pub use crate::document_info::{DocumentInfo, UtcDateTime, to_pdf_time_stamp_metadata};
pub use crate::error::Error;
pub use crate::font::{DirectFontRef, Font, FontList, IndirectFontRef};
pub use crate::metadata::{PdfConformance, PdfMetadata};
pub use crate::object::{Obj, ObjectStore};
pub use crate::page::{PdfLayer, PdfLayerIndex, PdfPage, PdfPageIndex};
