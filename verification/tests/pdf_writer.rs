use kneeboard::fixed::ONE;
use kneeboard::pdf::builder::{PDFAllocator, PDFDocumentBuilder};
use kneeboard::pdf::content::{init_page, ContentBuilder, To72inch, ToMM, A5};
use kneeboard::pdf::document::PDFDocument;
use kneeboard::pdf::names::name_before;
use kneeboard::pdf::object::{
    ArrayObject, ContentStream, DictionaryObject, FontStyle, IndirectObject, IndirectRef,
    NameObject, Op, PDFNull, PDFType, ToPDFType,
};
use kneeboard::pdf::write::{escape, write_indirect, PDFWritable};

fn written<T: PDFWritable>(value: &T) -> String {
    let mut out: Vec<u8> = Vec::new();
    let n = value.write(&mut out);
    assert_eq!(n, out.len());
    String::from_utf8(out).unwrap()
}

fn find(haystack: &[u8], needle: &[u8]) -> Option<usize> {
    haystack.windows(needle.len()).position(|w| w == needle)
}

#[test]
fn font_names_are_the_built_in_faces() {
    assert_eq!(FontStyle::Normal.get_font_name(), "Helvetica");
    assert_eq!(FontStyle::Bold.get_font_name(), "Helvetica-Bold");
    assert_eq!(FontStyle::Italics.get_font_name(), "Helvetica-Oblique");
    assert_eq!(FontStyle::BoldItalics.get_font_name(), "Helvetica-BoldOblique");
}

#[test]
fn strings_escape_delimiters_and_control_characters() {
    assert_eq!(escape("plain"), "(plain)");
    assert_eq!(escape(""), "()");
    assert_eq!(escape("a(b)c"), "(a\\(b\\)c)");
    assert_eq!(escape("back\\slash"), "(back\\\\slash)");
    assert_eq!(escape("line\nfeed"), "(line\\nfeed)");
    assert_eq!(escape("carriage\rreturn"), "(carriage\\rreturn)");
    assert_eq!(escape("form\u{0C}feed"), "(form\\ffeed)");
    assert_eq!(escape("back\u{08}space"), "(back\\bspace)");
    assert_eq!(escape("tab\tstays"), "(tab\tstays)");
}

#[test]
fn strings_escape_what_is_not_ascii_in_octal() {
    assert_eq!(escape("310\u{00b0}"), "(310\\260)");
    assert_eq!(escape("\u{0080}"), "(\\200)");
    assert_eq!(escape("\u{007f}"), "(\u{007f})");
    assert_eq!(escape("\u{e9}t\u{e9}"), "(\\351t\\351)");
    assert_eq!(escape("\u{ff}"), "(\\377)");
    assert_eq!(escape("\u{100}"), "(\\400)");
    assert_eq!(escape("\u{1ff}"), "(\\777)");
}

#[test]
fn strings_escape_what_three_digits_cannot_say_as_a_question_mark() {
    assert_eq!(escape("\u{200}"), "(\\077)");
    assert_eq!(escape("\u{20ac}"), "(\\077)");
    assert_eq!(escape("5\u{20ac}4"), "(5\\0774)");
    assert_eq!(escape("\u{10ffff}"), "(\\077)");
}

#[test]
fn escapes_beyond_ascii_have_exactly_three_digits() {
    for c in ['\u{80}', '\u{b0}', '\u{ff}', '\u{1ff}', '\u{200}', '\u{20ac}', '\u{1f600}'] {
        let written = escape(&c.to_string());
        assert_eq!(written.len(), 6, "{written}");
        assert!(written.is_ascii());
        assert!(written[2..5].chars().all(|d| ('0'..='7').contains(&d)));
    }
}

#[test]
fn written_string_is_escaped() {
    assert_eq!(written(&"a)b".to_owned()), "(a\\)b)");
    assert_eq!(written(&PDFType::PDFString("x\ny".to_owned())), "(x\\ny)");
}

#[test]
fn names_are_written_behind_a_solidus() {
    assert_eq!(written(&NameObject::new("Type")), "/Type");
    assert_eq!(written(&PDFType::Name(NameObject::new("WinAnsiEncoding"))), "/WinAnsiEncoding");
    assert_eq!(written(&NameObject::new("caf\u{e9}")).as_bytes(), b"/caf\xc3\xa9");
}

#[test]
fn numbers_booleans_and_null() {
    assert_eq!(written(&42usize), "42");
    assert_eq!(written(&0usize), "0");
    assert_eq!(written(&(11 * ONE)), "11");
    assert_eq!(written(&4_209_449_000i128), "420.9449");
    assert_eq!(written(&-9_000_000i128), "-0.9");
    assert_eq!(written(&true), "true");
    assert_eq!(written(&false), "false");
    assert_eq!(written(&PDFNull), "null");
    assert_eq!(written(&PDFType::Null), "null");
    assert_eq!(written(&PDFType::NumUsize(9)), "9");
    assert_eq!(written(&PDFType::NumFixed(5_000_000)), "0.5");
    assert_eq!(written(&PDFType::Bool(true)), "true");
}

#[test]
fn references_count_objects_from_one() {
    assert_eq!(written(&IndirectRef { id: 0 }), "1 0 R");
    assert_eq!(written(&IndirectRef { id: 41 }), "42 0 R");
    assert_eq!(written(&PDFType::IndirectRef(IndirectRef { id: 6 })), "7 0 R");
    assert_eq!(written(&IndirectRef { id: usize::MAX }), format!("{} 0 R", usize::MAX as u128 + 1));
}

#[test]
fn name_order_is_byte_order() {
    assert!(name_before("Root", "Size"));
    assert!(!name_before("Size", "Root"));
    assert!(!name_before("Root", "Root"));
    assert!(name_before("Page", "Pages"));
    assert!(name_before("", "A"));
    assert!(name_before("Z", "a"));
    assert!(name_before("z", "\u{e9}"));
    assert!(!name_before("A", ""));
}

#[test]
fn dictionary_is_written_in_the_order_of_its_names() {
    let mut dict = DictionaryObject::new();
    assert_eq!(written(&dict), "<<>>");
    dict.insert_strkey("Type", NameObject::new("Font"));
    dict.insert_strkey("Subtype", NameObject::new("Type1"));
    dict.insert_strkey("BaseFont", NameObject::new("Helvetica"));
    dict.insert(NameObject::new("Encoding"), NameObject::new("WinAnsiEncoding"));
    assert_eq!(
        written(&dict),
        "<</BaseFont /Helvetica\n/Encoding /WinAnsiEncoding\n/Subtype /Type1\n/Type /Font\n>>"
    );
    let keys: Vec<&str> = dict.keys().iter().map(|key| key.name.as_str()).collect();
    assert_eq!(keys, vec!["BaseFont", "Encoding", "Subtype", "Type"]);
}

#[test]
fn dictionary_keeps_one_value_for_a_name() {
    let mut dict = DictionaryObject::new_page();
    dict.insert_strkey("Resources", DictionaryObject::new());
    dict.insert_strkey("Count", 3usize);
    dict.insert_strkey("Resources", IndirectRef { id: 5 });
    assert_eq!(written(&dict), "<</Count 3\n/Resources 6 0 R\n/Type /Page\n>>");
    assert_eq!(dict.keys().len(), 3);
    assert_eq!(dict.values().len(), 3);
    assert_eq!(written(&dict.values()[0]), "3");
    assert!(matches!(dict.get("Count"), Some(PDFType::NumUsize(3))));
    assert!(matches!(dict.get("Resources"), Some(PDFType::IndirectRef(IndirectRef { id: 5 }))));
    assert!(dict.get("Kids").is_none());
}

#[test]
fn dictionary_value_can_be_changed_in_place() {
    let mut dict = DictionaryObject::new_page();
    dict.insert_strkey("Count", 3usize);
    dict.insert_strkey("Kids", ArrayObject::new());
    match dict.get_mut("Count".to_owned()) {
        Some(value) => *value = PDFType::NumUsize(4),
        None => panic!("Count is there"),
    }
    match dict.get_mut("Kids".to_owned()) {
        Some(PDFType::Array(kids)) => kids.push(IndirectRef { id: 1 }),
        _ => panic!("Kids is an array"),
    }
    assert!(dict.get_mut("Parent".to_owned()).is_none());
    assert!(dict.get_mut("".to_owned()).is_none());
    assert_eq!(written(&dict), "<</Count 4\n/Kids [2 0 R]\n/Type /Page\n>>");
    let keys: Vec<&str> = dict.keys().iter().map(|key| key.name.as_str()).collect();
    assert_eq!(keys, vec!["Count", "Kids", "Type"]);
}

#[test]
fn dictionaries_start_with_their_type() {
    assert_eq!(written(&DictionaryObject::new_pages()), "<</Type /Pages\n>>");
    assert_eq!(written(&DictionaryObject::new_page()), "<</Type /Page\n>>");
    assert_eq!(written(&DictionaryObject::new_document_catalog()), "<</Type /Catalog\n>>");
    assert_eq!(written(&DictionaryObject::default()), "<<>>");
}

#[test]
fn nested_values_are_written_in_place() {
    let mut inner = DictionaryObject::new();
    inner.insert_strkey("Flag", true);
    let mut array = ArrayObject::new();
    array.push("text");
    array.push(inner);
    array.push(IndirectRef { id: 0 });
    let mut outer = DictionaryObject::new();
    outer.insert_strkey("Items", array);
    assert_eq!(written(&outer), "<</Items [(text) <</Flag true\n>> 1 0 R]\n>>");
}

#[test]
fn arrays_put_a_space_between_items() {
    assert_eq!(written(&ArrayObject::new()), "[]");
    assert_eq!(written(&ArrayObject::default()), "[]");
    let media_box = ArrayObject::new_from(vec![0, 0, 4_209_449_000i128, 5_952_756_000i128]);
    assert_eq!(media_box.len(), 4);
    assert!(!media_box.is_empty());
    assert_eq!(written(&media_box), "[0 0 420.9449 595.2756]");
    let mut kids = ArrayObject::new();
    assert!(kids.is_empty());
    kids.push(IndirectRef { id: 9 });
    assert_eq!(written(&kids), "[10 0 R]");
    kids.push(IndirectRef { id: 11 });
    assert_eq!(written(&kids), "[10 0 R 12 0 R]");
    assert_eq!(written(&PDFType::Array(kids)), "[10 0 R 12 0 R]");
}

#[test]
fn operators_are_written_with_their_mnemonics() {
    assert_eq!(written(&Op::BT), "BT");
    assert_eq!(written(&Op::ET), "ET");
    assert_eq!(written(&Op::q), "q");
    assert_eq!(written(&Op::Q), "Q");
    assert_eq!(written(&Op::S), "S");
    assert_eq!(written(&Op::h), "h");
    assert_eq!(written(&Op::f), "f");
    assert_eq!(written(&Op::TStar), "T*");
    assert_eq!(written(&Op::Td((15_000_000, 2 * ONE))), "1.5 2 Td");
    assert_eq!(written(&Op::TD((0, -ONE))), "0 -1 TD");
    assert_eq!(written(&Op::TL(127_559_000)), "12.7559 TL");
    assert_eq!(written(&Op::RG(0, 0, 0)), "0 0 0 RG");
    assert_eq!(written(&Op::rg(9_000_000, 9_000_000, 9_000_000)), "0.9 0.9 0.9 rg");
    assert_eq!(written(&Op::l((ONE, 2 * ONE))), "1 2 l");
    assert_eq!(written(&Op::m((3 * ONE, 4 * ONE))), "3 4 m");
    assert_eq!(written(&Op::w(7_087_000)), "0.7087 w");
    assert_eq!(
        written(&Op::re { point: (ONE, 2 * ONE), width: 3 * ONE, height: -4 * ONE }),
        "1 2 3 -4 re"
    );
    assert_eq!(
        written(&Op::c {
            ctrl1: (ONE, 2 * ONE),
            ctrl2: (3 * ONE, 4 * ONE),
            end: (5 * ONE, 6 * ONE)
        }),
        "1 2 3 4 5 6 c"
    );
    assert_eq!(
        written(&Op::Tf { font: "Helvetica-Bold".to_owned(), size: 11 * ONE }),
        "/Helvetica-Bold 11 Tf"
    );
    assert_eq!(written(&Op::Tj("310\u{b0} (M)".to_owned())), "(310\\260 \\(M\\)) Tj");
    assert_eq!(written(&PDFType::PDFOp(Op::BT)), "BT");
    assert_eq!(written(&Op::BT.to_pdftype()), "BT");
}

#[test]
fn content_stream_gives_its_length_in_bytes() {
    let mut stream = ContentStream::new();
    assert_eq!(written(&stream), "<</Length 0\n>>\nstream\nendstream");
    stream.contents().push(Op::BT);
    stream.contents().push(Op::Tj("Hi".to_owned()));
    stream.contents().push(Op::ET);
    assert_eq!(
        written(&stream),
        "<</Length 14\n>>\nstream\nBT\n(Hi) Tj\nET\nendstream"
    );
    assert_eq!(
        written(&PDFType::ContentStream(stream)),
        "<</Length 14\n>>\nstream\nBT\n(Hi) Tj\nET\nendstream"
    );
    assert_eq!(written(&ContentStream::default()), "<</Length 0\n>>\nstream\nendstream");
}

#[test]
fn objects_are_framed_by_their_number() {
    let mut out: Vec<u8> = Vec::new();
    let n = write_indirect(2, &PDFType::Bool(true), &mut out);
    assert_eq!(out, b"3 0 obj\ntrue\nendobj");
    assert_eq!(n, out.len());
    let object = IndirectObject::new(6, Box::new(PDFType::Null));
    assert_eq!(object.pdf_ref(), IndirectRef { id: 6 });
    assert_eq!(written(&object), "7 0 obj\nnull\nendobj");
}

#[test]
fn writing_appends_to_what_is_there() {
    let mut out: Vec<u8> = b"before ".to_vec();
    let n = PDFType::NumUsize(12).write(&mut out);
    assert_eq!(n, 2);
    assert_eq!(out, b"before 12");
}

#[test]
fn millimetres_to_points_and_back() {
    assert_eq!((254_000_000i128).to_inch(), 72 * ONE);
    assert_eq!((0i128).to_inch(), 0);
    assert_eq!((10 * ONE).to_inch(), 283_464_567);
    assert_eq!((-10 * ONE).to_inch(), -283_464_567);
    assert_eq!((1_485_000_000i128, 2_100_000_000i128).to_inch(), A5);
    assert_eq!((72 * ONE).to_mm(), 254_000_000);
    assert_eq!(A5.to_mm(), (1_485_000_000, 2_100_000_000));
}

fn ops_text(builder: ContentBuilder) -> Vec<String> {
    builder.into_content().iter().map(written).collect()
}

#[test]
fn page_size_is_given_in_millimetres() {
    let builder = ContentBuilder::new(A5, Vec::new());
    assert_eq!(builder.page_size(), (1_485_000_000, 2_100_000_000));
}

#[test]
fn page_begins_black_inside_a_saved_state() {
    let mut builder = ContentBuilder::new(A5, Vec::new());
    init_page(&mut builder);
    assert_eq!(ops_text(builder), vec!["q", "0 0 0 RG", "0 0 0 rg", "S", "q"]);
}

#[test]
fn places_are_flipped_and_rounded_to_four_decimals() {
    let mut builder = ContentBuilder::new(A5, Vec::new());
    builder.set_text_position((10 * ONE, 20 * ONE));
    builder.begin_subpath((0, 0));
    builder.line((1_485_000_000, 2_100_000_000));
    builder.curve_to((ONE, ONE), (2 * ONE, 2 * ONE), (3 * ONE, 3 * ONE));
    assert_eq!(
        ops_text(builder),
        vec![
            "28.3465 538.5827 Td",
            "0 595.2756 m",
            "420.9449 0 l",
            "2.8346 592.4409 5.6693 589.6063 8.5039 586.7717 c",
        ]
    );
}

#[test]
fn lengths_are_converted_and_rounded() {
    let mut builder = ContentBuilder::new(A5, Vec::new());
    builder.line_width(2_500_000);
    builder.set_leading(45_000_000);
    builder.rectangle((5 * ONE, 29 * ONE), 1_385_000_000, 4 * ONE);
    assert_eq!(
        ops_text(builder),
        vec!["0.7087 w", "12.7559 TL", "14.1732 513.0709 392.5984 -11.3386 re"]
    );
}

#[test]
fn text_and_state_operators_are_added_in_order() {
    let mut builder = ContentBuilder::new(A5, vec![Op::q]);
    builder.start_text_block();
    builder.set_font(FontStyle::Italics, 6 * ONE);
    builder.print_at("Hello", (0, 2_100_000_000));
    builder.next_line();
    builder.print("World".to_owned());
    builder.end_text_block();
    builder.set_colour(ONE, 0, 0);
    builder.set_colour_non_stroking(0, 5_000_000, 0);
    builder.close_path();
    builder.fill();
    builder.stroke_path();
    builder.save_graphics_state();
    builder.restore_graphics_state();
    assert_eq!(builder.content().len(), 15);
    assert_eq!(
        ops_text(builder),
        vec![
            "q",
            "BT",
            "/Helvetica-Oblique 6 Tf",
            "0 0 Td",
            "(Hello) Tj",
            "T*",
            "(World) Tj",
            "ET",
            "1 0 0 RG",
            "0 0.5 0 rg",
            "h",
            "f",
            "S",
            "q",
            "Q",
        ]
    );
}

#[test]
fn allocator_gives_places_in_order() {
    let mut table = PDFAllocator::new();
    let first = table.allocate(7usize);
    let second = table.allocate("two");
    assert_eq!(first, IndirectRef { id: 0 });
    assert_eq!(second, IndirectRef { id: 1 });
    let values = table.into_vec();
    assert_eq!(values.len(), 2);
    assert_eq!(written(&values[0]), "7");
    assert_eq!(written(&values[1]), "(two)");
}

#[test]
fn reserved_place_holds_null_until_completed() {
    let mut table = PDFAllocator::new();
    table.allocate(true);
    let peek = table.peek_alloc();
    let after = table.allocate(false);
    assert_eq!(peek.indirect(), IndirectRef { id: 1 });
    assert_eq!(after, IndirectRef { id: 2 });

    let mut pending = PDFAllocator::new();
    pending.allocate(true);
    pending.peek_alloc();
    assert_eq!(written(&pending.into_vec()[1]), "null");

    let mut dict = DictionaryObject::new();
    dict.insert_strkey("After", after);
    peek.complete(&mut table, dict);
    let values = table.into_vec();
    assert_eq!(values.len(), 3);
    assert_eq!(written(&values[0]), "true");
    assert_eq!(written(&values[1]), "<</After 3 0 R\n>>");
    assert_eq!(written(&values[2]), "false");
}

#[test]
fn document_with_one_object() {
    let doc = PDFDocument::new(Vec::new(), vec![PDFType::NumUsize(7)], IndirectRef { id: 0 });
    assert_eq!(doc.object_count(), 1);
    let mut out: Vec<u8> = Vec::new();
    let n = doc.write(&mut out);
    let expected = "%PDF-1.5\n1 0 obj\n7\nendobj\nxref\n0 2\n0000000000 65535 f \n\
        0000000009 00000 n \ntrailer\n<</Root 1 0 R\n/Size 2\n>>\nstartxref\n26\n%%EOF\n";
    assert_eq!(String::from_utf8(out.clone()).unwrap(), expected);
    assert_eq!(n, expected.len());
}

#[test]
fn document_without_objects() {
    let doc = PDFDocument::new(vec![PDFType::Bool(true)], Vec::new(), IndirectRef { id: 0 });
    let mut out: Vec<u8> = Vec::new();
    doc.write(&mut out);
    let expected = "%PDF-1.5\ntrue\nxref\n0 1\n0000000000 65535 f \ntrailer\n\
        <</Root 1 0 R\n/Size 1\n>>\nstartxref\n14\n%%EOF\n";
    assert_eq!(String::from_utf8(out).unwrap(), expected);
}

#[test]
fn document_offsets_count_from_its_first_byte() {
    let doc = PDFDocument::new(Vec::new(), vec![PDFType::Null], IndirectRef { id: 0 });
    let mut alone: Vec<u8> = Vec::new();
    doc.write(&mut alone);
    let mut behind: Vec<u8> = b"junk".to_vec();
    let n = doc.write(&mut behind);
    assert_eq!(n, alone.len());
    assert_eq!(&behind[4..], &alone[..]);
}

fn xref_offsets(bytes: &[u8]) -> Vec<usize> {
    let at = find(bytes, b"\nxref\n").unwrap() + 1;
    let text = std::str::from_utf8(&bytes[at..]).unwrap();
    let mut lines = text.lines();
    assert_eq!(lines.next(), Some("xref"));
    let range = lines.next().unwrap();
    let count: usize = range.strip_prefix("0 ").unwrap().parse().unwrap();
    assert_eq!(lines.next(), Some("0000000000 65535 f "));
    let mut offsets = Vec::new();
    for _ in 1..count {
        let line = lines.next().unwrap();
        assert_eq!(line.len(), 19);
        assert!(line.ends_with(" 00000 n "));
        offsets.push(line[..10].parse().unwrap());
    }
    assert_eq!(lines.next(), Some("trailer"));
    let start = find(bytes, b"startxref\n").unwrap() + 10;
    let startxref: usize =
        std::str::from_utf8(&bytes[start..]).unwrap().lines().next().unwrap().parse().unwrap();
    assert_eq!(startxref, at);
    offsets
}

#[test]
fn completed_value_stands_at_the_offset_of_its_object() {
    let mut table = PDFAllocator::new();
    table.allocate("first");
    let peek = table.peek_alloc();
    let last = table.allocate(3usize);
    let reserved = peek.indirect();
    let mut dict = DictionaryObject::new();
    dict.insert_strkey("Last", last);
    peek.complete(&mut table, dict);

    let doc = PDFDocument::new(Vec::new(), table.into_vec(), reserved);
    let mut out: Vec<u8> = Vec::new();
    doc.write(&mut out);

    let offsets = xref_offsets(&out);
    assert_eq!(offsets.len(), 3);
    assert!(out[offsets[0]..].starts_with(b"1 0 obj\n(first)\nendobj\n"));
    assert!(out[offsets[1]..].starts_with(b"2 0 obj\n<</Last 3 0 R\n>>\nendobj\n"));
    assert!(out[offsets[2]..].starts_with(b"3 0 obj\n3\nendobj\n"));
    assert!(find(&out, b"null").is_none());
    assert!(find(&out, b"/Size 4\n").is_some());
    assert!(find(&out, b"/Root 2 0 R\n").is_some());
    assert!(find(&out, b"\n0 4\n").is_some());
}

#[test]
fn new_document_shares_four_fonts() {
    let doc = PDFDocumentBuilder::new().to_doc();
    assert_eq!(doc.object_count(), 8);
    let mut out: Vec<u8> = Vec::new();
    doc.write(&mut out);
    let text = String::from_utf8(out.clone()).unwrap();
    assert!(text.starts_with(
        "%PDF-1.5\n1 0 obj\n<</BaseFont /Helvetica\n/Encoding /WinAnsiEncoding\n\
         /Subtype /Type1\n/Type /Font\n>>\nendobj\n2 0 obj\n<</BaseFont /Helvetica-Bold\n"
    ));
    assert!(text.contains(
        "5 0 obj\n<</Helvetica 1 0 R\n/Helvetica-Bold 2 0 R\n/Helvetica-BoldOblique 4 0 R\n\
         /Helvetica-Oblique 3 0 R\n>>\nendobj\n6 0 obj\n<</Font 5 0 R\n>>\nendobj\n"
    ));
    assert!(text.contains("7 0 obj\n<</Count 0\n/Kids []\n/Type /Pages\n>>\nendobj\n"));
    assert!(text.contains(
        "8 0 obj\n<</PageLayout (OneColumn)\n/Pages 7 0 R\n/Type /Catalog\n>>\nendobj\n"
    ));
    assert!(text.contains("trailer\n<</Root 8 0 R\n/Size 9\n>>\n"));
    assert!(text.ends_with("%%EOF\n"));
    assert_eq!(xref_offsets(&out).len(), 8);
    let same = PDFDocumentBuilder::default().to_doc();
    let mut again: Vec<u8> = Vec::new();
    same.write(&mut again);
    assert_eq!(out, again);
}

#[test]
fn pages_name_their_parent_and_their_content() {
    let mut builder = PDFDocumentBuilder::new();
    {
        let page = builder.create_page(A5);
        let layer = page.content_builder();
        layer.start_text_block();
        layer.end_text_block();
    }
    {
        let page = builder.create_page(A5);
        page.content_builder().stroke_path();
    }
    let doc = builder.to_doc();
    assert_eq!(doc.object_count(), 12);
    let mut out: Vec<u8> = Vec::new();
    doc.write(&mut out);
    let text = String::from_utf8(out.clone()).unwrap();
    assert!(text.contains(
        "7 0 obj\n<</Count 2\n/Kids [10 0 R 12 0 R]\n/Type /Pages\n>>\nendobj\n"
    ));
    assert!(text.contains("9 0 obj\n<</Length 6\n>>\nstream\nBT\nET\nendstream\nendobj\n"));
    assert!(text.contains(
        "10 0 obj\n<</Contents 9 0 R\n/MediaBox [0 0 420.9449 595.2756]\n/Parent 7 0 R\n\
         /Resources 6 0 R\n/Type /Page\n>>\nendobj\n"
    ));
    assert!(text.contains("11 0 obj\n<</Length 2\n>>\nstream\nS\nendstream\nendobj\n"));
    assert!(text.contains("12 0 obj\n<</Contents 11 0 R\n"));
    assert!(text.contains("trailer\n<</Root 8 0 R\n/Size 13\n>>\n"));
    let offsets = xref_offsets(&out);
    assert_eq!(offsets.len(), 12);
    for (id, offset) in offsets.iter().enumerate() {
        assert!(out[*offset..].starts_with(format!("{} 0 obj\n", id + 1).as_bytes()));
    }
}
