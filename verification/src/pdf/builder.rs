//! Putting a document together: the table of objects, the fonts that every
//! page shares, and the pages.

use crate::fixed::{trim_coord, trimmed, Coord};
use crate::pdf::content::{page_ok, ContentBuilder};
use crate::pdf::document::PDFDocument;
use crate::pdf::object::{
    inserted, ops_view, point, values_of, ArrayObject, ContentStream, DictionaryObject,
    FontStyle, IndirectRef, NameObject, Op, OpView, PDFType, Point, ToPDFType, Value,
};
use vstd::prelude::*;

verus! {

/// The table of objects while it grows. An object's place in the table is
/// its identity.
pub struct PDFAllocator {
    contents: Vec<PDFType>,
}

impl View for PDFAllocator {
    type V = Seq<Value>;

    /// The values of the table, in its order.
    closed spec fn view(&self) -> Seq<Value> {
        values_of(self.contents@)
    }
}

/// A place of the table that was reserved before its value was known.
pub struct PeekAlloc {
    indirect: IndirectRef,
}

impl PDFAllocator {
    /// A table without objects.
    pub fn new() -> (a: Self)
        ensures
            a@ == Seq::<Value>::empty(),
    {
        let a = Self { contents: Vec::new() };
        assert(a@ =~= Seq::<Value>::empty());
        a
    }

    /// Adds a finished value at the end of the table and gives its place.
    pub fn allocate<T: ToPDFType>(&mut self, obj: T) -> (r: IndirectRef)
        ensures
            r.id == old(self)@.len(),
            final(self)@ == old(self)@.push(obj.to_value()),
    {
        let id: usize = self.contents.len();
        self.contents.push(obj.to_pdftype());
        assert(self@ =~= old(self)@.push(obj.to_value()));
        IndirectRef { id }
    }

    /// Reserves the next place of the table, which holds null until it is
    /// completed.
    pub fn peek_alloc(&mut self) -> (r: PeekAlloc)
        ensures
            r.place() == old(self)@.len(),
            final(self)@ == old(self)@.push(Value::Null),
    {
        let id: usize = self.contents.len();
        self.contents.push(PDFType::Null);
        assert(self@ =~= old(self)@.push(Value::Null));
        PeekAlloc { indirect: IndirectRef { id } }
    }

    /// The table as a list of values.
    pub fn into_vec(self) -> (v: Vec<PDFType>)
        ensures
            values_of(v@) == self@,
    {
        self.contents
    }
}

impl PeekAlloc {
    /// The reserved place.
    pub closed spec fn place(&self) -> nat {
        self.indirect.id as nat
    }

    /// Puts the value into the reserved place, and uses the reservation up.
    pub fn complete<T: ToPDFType>(self, alloc: &mut PDFAllocator, obj: T)
        requires
            self.place() < old(alloc)@.len(),
        ensures
            final(alloc)@ == old(alloc)@.update(self.place() as int, obj.to_value()),
    {
        alloc.contents[self.indirect.id] = obj.to_pdftype();
        assert(alloc@ =~= old(alloc)@.update(self.place() as int, obj.to_value()));
    }

    /// A reference to the reserved place.
    pub fn indirect(&self) -> (r: IndirectRef)
        ensures
            r.id == self.place(),
    {
        self.indirect
    }
}

/// What a page under construction stands for: the entries of its dictionary
/// and the operators of its content.
pub struct PageModel {
    pub dict: Seq<(Seq<char>, Value)>,
    pub ops: Seq<OpView>,
}

/// A page under construction.
pub struct PDFPageBuilder {
    pub page_dict: DictionaryObject,
    pub layer: ContentBuilder,
}

impl View for PDFPageBuilder {
    type V = PageModel;

    open spec fn view(&self) -> PageModel {
        PageModel { dict: self.page_dict@, ops: self.layer@ }
    }
}

impl PDFPageBuilder {
    /// The operators of this page, to be added to by hand.
    pub fn contents(&mut self) -> (r: &mut Vec<Op>)
        ensures
            ops_view(r@) == old(self).layer@,
            final(self).layer@ == ops_view(final(r)@),
            final(self).layer.size() == old(self).layer.size(),
            final(self).page_dict == old(self).page_dict,
    {
        self.layer.contents()
    }

    /// The builder for the content of this page.
    pub fn content_builder(&mut self) -> (r: &mut ContentBuilder)
        ensures
            *r == old(self).layer,
            final(self).layer == *final(r),
            final(self).page_dict == old(self).page_dict,
    {
        &mut self.layer
    }
}

/// The dictionary of one of the built-in fonts.
pub open spec fn font_entries(name: Seq<char>) -> Seq<(Seq<char>, Value)> {
    inserted(
        inserted(
            inserted(
                inserted(Seq::empty(), "Type"@, Value::Name("Font"@)),
                "Subtype"@,
                Value::Name("Type1"@),
            ),
            "BaseFont"@,
            Value::Name(name),
        ),
        "Encoding"@,
        Value::Name("WinAnsiEncoding"@),
    )
}

/// The dictionary that gives each built-in font under its name, for fonts
/// that stand at the places `first` to `first + 3` of the table.
pub open spec fn font_table(first: nat) -> Seq<(Seq<char>, Value)> {
    inserted(
        inserted(
            inserted(
                inserted(Seq::empty(), "Helvetica"@, Value::Ref(first)),
                "Helvetica-Bold"@,
                Value::Ref(first + 1),
            ),
            "Helvetica-Oblique"@,
            Value::Ref(first + 2),
        ),
        "Helvetica-BoldOblique"@,
        Value::Ref(first + 3),
    )
}

/// The objects that every document starts with: the four fonts, the
/// dictionary of the fonts, and the resources that all pages share.
pub open spec fn base_objects() -> Seq<Value> {
    seq![
        Value::Dict(font_entries("Helvetica"@)),
        Value::Dict(font_entries("Helvetica-Bold"@)),
        Value::Dict(font_entries("Helvetica-Oblique"@)),
        Value::Dict(font_entries("Helvetica-BoldOblique"@)),
        Value::Dict(font_table(0)),
        Value::Dict(inserted(Seq::empty(), "Font"@, Value::Ref(4))),
    ]
}

/// The media box of a page: from the origin to the page's size, rounded to
/// four decimal places.
pub open spec fn media_box(size: Point) -> Seq<Value> {
    seq![
        Value::Num(0),
        Value::Num(0),
        Value::Num(trimmed(size.0)),
        Value::Num(trimmed(size.1)),
    ]
}

/// The dictionary of a fresh page of the given size with the shared
/// resources at place `resources`.
pub open spec fn page_entries(size: Point, resources: nat) -> Seq<(Seq<char>, Value)> {
    inserted(
        inserted(
            inserted(
                inserted(Seq::empty(), "Type"@, Value::Name("Page"@)),
                "Resources"@,
                Value::Dict(Seq::empty()),
            ),
            "MediaBox"@,
            Value::Array(media_box(size)),
        ),
        "Resources"@,
        Value::Ref(resources),
    )
}

/// The two objects of each page, in the order of the pages: the content,
/// then the page's dictionary, which names the page tree at place `parent`
/// and its own content. The first of these objects stands at place `first`.
pub open spec fn page_objects(pages: Seq<PageModel>, parent: nat, first: nat) -> Seq<Value>
    decreases pages.len(),
{
    if pages.len() == 0 {
        Seq::empty()
    } else {
        page_objects(pages.drop_last(), parent, first) + seq![
            Value::Stream(pages.last().ops),
            Value::Dict(
                inserted(
                    inserted(pages.last().dict, "Parent"@, Value::Ref(parent)),
                    "Contents"@,
                    Value::Ref((first + 2 * (pages.len() - 1)) as nat),
                ),
            ),
        ]
    }
}

/// References to the dictionaries of `count` pages whose objects start at
/// place `first`.
pub open spec fn kids(count: nat, first: nat) -> Seq<Value> {
    Seq::new(count, |i: int| Value::Ref((first + 2 * i + 1) as nat))
}

/// The dictionary of the page tree.
pub open spec fn pages_entries(count: nat, first: nat) -> Seq<(Seq<char>, Value)> {
    inserted(
        inserted(
            inserted(Seq::empty(), "Type"@, Value::Name("Pages"@)),
            "Count"@,
            Value::Int(count),
        ),
        "Kids"@,
        Value::Array(kids(count, first)),
    )
}

/// The dictionary that the document starts from.
pub open spec fn catalog_entries(pages: nat) -> Seq<(Seq<char>, Value)> {
    inserted(
        inserted(
            inserted(Seq::empty(), "Type"@, Value::Name("Catalog"@)),
            "Pages"@,
            Value::Ref(pages),
        ),
        "PageLayout"@,
        Value::Text("OneColumn"@),
    )
}

/// The table of a finished document: the objects that were there, the page
/// tree, the catalog, and the objects of the pages.
pub open spec fn document_objects(base: Seq<Value>, pages: Seq<PageModel>) -> Seq<Value> {
    base + seq![
        Value::Dict(pages_entries(pages.len(), base.len() + 2)),
        Value::Dict(catalog_entries(base.len())),
    ] + page_objects(pages, base.len(), base.len() + 2)
}

/// Each page adds two objects to the table, behind the page tree and the
/// catalog.
pub proof fn document_objects_len(base: Seq<Value>, pages: Seq<PageModel>)
    ensures
        document_objects(base, pages).len() == base.len() + 2 + 2 * pages.len(),
{
    page_objects_len(pages, base.len(), base.len() + 2);
}

/// Each page has two objects.
pub proof fn page_objects_len(pages: Seq<PageModel>, parent: nat, first: nat)
    ensures
        page_objects(pages, parent, first).len() == 2 * pages.len(),
    decreases pages.len(),
{
    if pages.len() > 0 {
        page_objects_len(pages.drop_last(), parent, first);
    }
}

/// A document under construction.
pub struct PDFDocumentBuilder {
    alloc: PDFAllocator,
    pages: Vec<PDFPageBuilder>,
    page_resources: IndirectRef,
}

/// What each page of a list stands for.
pub open spec fn pages_view(pages: Seq<PDFPageBuilder>) -> Seq<PageModel> {
    Seq::new(pages.len(), |i: int| pages[i]@)
}

/// Adds the dictionary of one built-in font to the table.
fn create_font(name: &str, alloc: &mut PDFAllocator) -> (r: IndirectRef)
    ensures
        r.id == old(alloc)@.len(),
        final(alloc)@ == old(alloc)@.push(Value::Dict(font_entries(name@))),
{
    let mut dict = DictionaryObject::new();
    dict.insert_strkey("Type", NameObject::new("Font"));
    dict.insert_strkey("Subtype", NameObject::new("Type1"));
    dict.insert_strkey("BaseFont", NameObject::new(name));
    dict.insert_strkey("Encoding", NameObject::new("WinAnsiEncoding"));
    alloc.allocate(dict)
}

impl PDFDocumentBuilder {
    /// The objects allocated so far.
    pub closed spec fn objects(&self) -> Seq<Value> {
        self.alloc@
    }

    /// The pages created so far.
    pub closed spec fn pages(&self) -> Seq<PDFPageBuilder> {
        self.pages@
    }

    /// The place of the resources that all pages share.
    pub closed spec fn resources(&self) -> nat {
        self.page_resources.id as nat
    }

    /// A document without pages: the four fonts are allocated once, and one
    /// dictionary of resources names them for every page.
    pub fn new() -> (b: Self)
        ensures
            b.objects() == base_objects(),
            b.pages() == Seq::<PDFPageBuilder>::empty(),
            b.resources() == 5,
    {
        let mut alloc = PDFAllocator::new();
        let font = create_font(FontStyle::Normal.get_font_name(), &mut alloc);
        let font_bold = create_font(FontStyle::Bold.get_font_name(), &mut alloc);
        let font_italics = create_font(FontStyle::Italics.get_font_name(), &mut alloc);
        let font_bold_italics = create_font(FontStyle::BoldItalics.get_font_name(), &mut alloc);

        let mut font_dict = DictionaryObject::new();
        font_dict.insert_strkey(FontStyle::Normal.get_font_name(), font);
        font_dict.insert_strkey(FontStyle::Bold.get_font_name(), font_bold);
        font_dict.insert_strkey(FontStyle::Italics.get_font_name(), font_italics);
        font_dict.insert_strkey(FontStyle::BoldItalics.get_font_name(), font_bold_italics);
        let font_ref = alloc.allocate(font_dict);

        let mut resources = DictionaryObject::new();
        resources.insert_strkey("Font", font_ref);
        let page_resources = alloc.allocate(resources);
        assert(alloc@ =~= base_objects());

        Self { alloc, pages: Vec::new(), page_resources }
    }

    /// Adds a page of the given size, in points, and gives it to be drawn on.
    pub fn create_page(&mut self, page_size: Coord) -> (page: &mut PDFPageBuilder)
        requires
            page_ok(point(page_size)),
        ensures
            page@ == (PageModel {
                dict: page_entries(point(page_size), old(self).resources()),
                ops: Seq::empty(),
            }),
            page.layer.size() == point(page_size),
            final(self).pages() == old(self).pages().push(*final(page)),
            final(self).objects() == old(self).objects(),
            final(self).resources() == old(self).resources(),
    {
        let mut page_dict = DictionaryObject::new_page();
        let layer = ContentBuilder::new(page_size, Vec::new());
        let (page_x, page_y) = trim_coord(page_size);
        let mut corners: Vec<crate::fixed::Fixed> = Vec::new();
        corners.push(0);
        corners.push(0);
        corners.push(page_x);
        corners.push(page_y);
        let mediabox = ArrayObject::new_from(corners);
        assert(mediabox@ =~= media_box(point(page_size)));
        page_dict.insert_strkey("Resources", DictionaryObject::new());
        page_dict.insert_strkey("MediaBox", mediabox);
        page_dict.insert_strkey("Resources", self.page_resources);
        assert(layer@ =~= Seq::<OpView>::empty());

        self.pages.push(PDFPageBuilder { page_dict, layer });
        let n: usize = self.pages.len();
        &mut self.pages[n - 1]
    }

    /// Finishes the document: the page tree and the catalog are reserved
    /// first, so that each page can name the tree, and completed last.
    pub fn to_doc(self) -> (doc: PDFDocument)
        ensures
            doc.content() == Seq::<Value>::empty(),
            doc.objects() == document_objects(self.objects(), pages_view(self.pages())),
            doc.root() == self.objects().len() + 1,
    {
        let ghost base = self.objects();
        let ghost models = pages_view(self.pages());
        let PDFDocumentBuilder { alloc, pages, page_resources } = self;
        let mut alloc = alloc;
        let mut catalog = DictionaryObject::new_document_catalog();
        let mut tree = DictionaryObject::new_pages();
        let pages_peek = alloc.peek_alloc();
        let catalog_peek = alloc.peek_alloc();
        let ghost reserved = alloc@;
        let ghost all = pages@;

        let mut page_array = ArrayObject::new();
        for page in it: pages
            invariant
                it.seq() == all,
                models == pages_view(all),
                reserved == base.push(Value::Null).push(Value::Null),
                pages_peek.place() == base.len(),
                alloc@ == reserved + page_objects(
                    models.take(it.index() as int),
                    base.len(),
                    base.len() + 2,
                ),
                page_objects(models.take(it.index() as int), base.len(), base.len() + 2).len() == 2
                    * it.index(),
                page_array@ == kids(it.index() as nat, base.len() + 2),
        {
            let ghost i = it.index() as int;
            proof {
                assert(models.take(i + 1).drop_last() =~= models.take(i));
                assert(models.take(i + 1).last() == page@);
            }
            let PDFPageBuilder { page_dict, layer } = page;
            let mut page_dict = page_dict;
            let content_ref = alloc.allocate(ContentStream { contents: layer.into_content() });
            page_dict.insert_strkey("Parent", pages_peek.indirect());
            page_dict.insert_strkey("Contents", content_ref);
            let indirect = alloc.allocate(page_dict);
            page_array.push(indirect);
            proof {
                assert(alloc@ =~= reserved + page_objects(
                    models.take(i + 1),
                    base.len(),
                    base.len() + 2,
                ));
                assert(page_array@ =~= kids((i + 1) as nat, base.len() + 2));
            }
        }
        proof {
            assert(models.take(all.len() as int) =~= models);
        }
        tree.insert_strkey("Count", page_array.len());
        tree.insert_strkey("Kids", page_array);

        catalog.insert_strkey("Pages", pages_peek.indirect());
        catalog.insert_strkey("PageLayout", "OneColumn");

        let root = catalog_peek.indirect();
        pages_peek.complete(&mut alloc, tree);
        catalog_peek.complete(&mut alloc, catalog);
        proof {
            assert(alloc@ =~= document_objects(base, models));
        }

        let content: Vec<PDFType> = Vec::new();
        assert(values_of(content@) =~= Seq::<Value>::empty());
        let indirect = alloc.into_vec();
        PDFDocument::new(content, indirect, root)
    }
}

impl Default for PDFDocumentBuilder {
    fn default() -> (b: Self)
        ensures
            b.objects() == base_objects(),
            b.pages() == Seq::<PDFPageBuilder>::empty(),
            b.resources() == 5,
    {
        PDFDocumentBuilder::new()
    }
}

} // verus!
