//! A minimal writer for the page-description format of the planning sheets.

pub mod builder;
pub mod content;
pub mod document;
pub mod names;
pub mod object;
pub mod write;

pub use builder::{PDFAllocator, PDFDocumentBuilder, PDFPageBuilder, PeekAlloc};
pub use content::{init_page, ContentBuilder, To72inch, ToMM, A5};
pub use document::PDFDocument;
pub use object::{
    ArrayObject, ContentStream, DictionaryObject, FontStyle, IndirectObject, IndirectRef,
    NameObject, Op, PDFNull, PDFType, ToPDFType,
};
pub use write::PDFWritable;
