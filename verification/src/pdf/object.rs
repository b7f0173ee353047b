//! The values that a document is made of, and what each stands for.

use crate::fixed::{Coord, Fixed};
use crate::pdf::names::{
    name_before, name_less, name_less_irreflexive, name_less_total, name_less_transitive,
};
use vstd::prelude::*;

verus! {

/// One of the four built-in faces that text is set in.
#[derive(Clone, Copy, Debug, PartialEq, Eq, Structural)]
pub enum FontStyle {
    Normal,
    Bold,
    Italics,
    BoldItalics,
}

/// A drawing or text operator of a page's content, with its operands.
#[allow(non_camel_case_types)]
#[derive(Debug)]
pub enum Op {
    BT,
    ET,
    Td(Coord),
    TD(Coord),
    Tf { font: String, size: Fixed },
    TL(Fixed),
    Tj(String),
    RG(Fixed, Fixed, Fixed),
    rg(Fixed, Fixed, Fixed),
    q,
    Q,
    S,
    h,
    f,
    re { point: Coord, width: Fixed, height: Fixed },
    TStar,
    l(Coord),
    m(Coord),
    w(Fixed),
    c { ctrl1: Coord, ctrl2: Coord, end: Coord },
}

/// A point as two numbers.
pub type Point = (int, int);

/// The numbers of a point.
pub open spec fn point(p: Coord) -> Point {
    (p.0 as int, p.1 as int)
}

/// What an operator stands for: the same operator, with its operands as
/// numbers and its text as characters.
#[allow(non_camel_case_types)]
pub enum OpView {
    BT,
    ET,
    Td(Point),
    TD(Point),
    Tf { font: Seq<char>, size: int },
    TL(int),
    Tj(Seq<char>),
    RG(int, int, int),
    rg(int, int, int),
    q,
    Q,
    S,
    h,
    f,
    re { point: Point, width: int, height: int },
    TStar,
    l(Point),
    m(Point),
    w(int),
    c { ctrl1: Point, ctrl2: Point, end: Point },
}

impl View for Op {
    type V = OpView;

    open spec fn view(&self) -> OpView {
        match *self {
            Op::BT => OpView::BT,
            Op::ET => OpView::ET,
            Op::Td(p) => OpView::Td(point(p)),
            Op::TD(p) => OpView::TD(point(p)),
            Op::Tf { font, size } => OpView::Tf { font: font@, size: size as int },
            Op::TL(leading) => OpView::TL(leading as int),
            Op::Tj(text) => OpView::Tj(text@),
            Op::RG(r, g, b) => OpView::RG(r as int, g as int, b as int),
            Op::rg(r, g, b) => OpView::rg(r as int, g as int, b as int),
            Op::q => OpView::q,
            Op::Q => OpView::Q,
            Op::S => OpView::S,
            Op::h => OpView::h,
            Op::f => OpView::f,
            Op::re { point: p, width, height } => OpView::re {
                point: point(p),
                width: width as int,
                height: height as int,
            },
            Op::TStar => OpView::TStar,
            Op::l(p) => OpView::l(point(p)),
            Op::m(p) => OpView::m(point(p)),
            Op::w(width) => OpView::w(width as int),
            Op::c { ctrl1, ctrl2, end } => OpView::c {
                ctrl1: point(ctrl1),
                ctrl2: point(ctrl2),
                end: point(end),
            },
        }
    }
}

/// What a list of operators stands for.
pub open spec fn ops_view(ops: Seq<Op>) -> Seq<OpView> {
    Seq::new(ops.len(), |i: int| ops[i]@)
}

/// A name, written with a solidus in front.
#[derive(Debug, PartialEq, Eq, PartialOrd, Ord)]
pub struct NameObject {
    pub name: String,
}

/// A reference to an object of the document by its place in the object table.
#[derive(Clone, Copy, Debug, PartialEq, Eq, PartialOrd, Ord, Structural)]
pub struct IndirectRef {
    pub id: usize,
}

/// The null object.
#[derive(Debug)]
pub struct PDFNull;

/// A dictionary: values by name, kept in the order of the names. The names
/// and the values stand side by side, each value at the place of its name.
#[derive(Debug)]
pub struct DictionaryObject {
    pub(crate) keys: Vec<NameObject>,
    pub(crate) values: Vec<PDFType>,
}

impl DictionaryObject {
    /// The names in the order they are kept.
    pub closed spec fn names(self) -> Seq<NameObject> {
        self.keys@
    }

    /// The values, each at the place of its name.
    pub closed spec fn stored(self) -> Seq<PDFType> {
        self.values@
    }
}

/// The names and values that the dictionary keeps are the ones it stands
/// for, and there are as many of the one as of the other.
pub(crate) proof fn parts_are_kept(d: DictionaryObject)
    ensures
        d.names() == d.keys@,
        d.stored() == d.values@,
{
}

/// An array of values.
#[derive(Debug)]
pub struct ArrayObject {
    pub array: Vec<PDFType>,
}

/// The content of one page: its operators in the order they paint.
#[derive(Debug)]
pub struct ContentStream {
    pub contents: Vec<Op>,
}

/// Any value that a document can hold.
#[derive(Debug)]
pub enum PDFType {
    NumUsize(usize),
    NumFixed(Fixed),
    Bool(bool),
    Name(NameObject),
    PDFString(String),
    Dictionary(DictionaryObject),
    IndirectRef(IndirectRef),
    Array(ArrayObject),
    PDFOp(Op),
    ContentStream(ContentStream),
    Null,
}

/// What a value stands for: numbers as numbers, text as characters, a
/// dictionary as its entries in the order of their names.
pub enum Value {
    Int(nat),
    Num(int),
    Bool(bool),
    Name(Seq<char>),
    Text(Seq<char>),
    Dict(Seq<(Seq<char>, Value)>),
    Ref(nat),
    Array(Seq<Value>),
    Op(OpView),
    Stream(Seq<OpView>),
    Null,
}

/// What a value stands for.
pub open spec fn value_of(v: PDFType) -> Value
    decreases v,
{
    match v {
        PDFType::NumUsize(n) => Value::Int(n as nat),
        PDFType::NumFixed(x) => Value::Num(x as int),
        PDFType::Bool(b) => Value::Bool(b),
        PDFType::Name(n) => Value::Name(n.name@),
        PDFType::PDFString(s) => Value::Text(s@),
        PDFType::Dictionary(d) => Value::Dict(entries_of(d.names(), d.stored())),
        PDFType::IndirectRef(r) => Value::Ref(r.id as nat),
        PDFType::Array(a) => Value::Array(values_of(a.array@)),
        PDFType::PDFOp(op) => Value::Op(op@),
        PDFType::ContentStream(s) => Value::Stream(ops_view(s.contents@)),
        PDFType::Null => Value::Null,
    }
}

/// What each value of a list stands for.
pub open spec fn values_of(items: Seq<PDFType>) -> Seq<Value>
    decreases items,
{
    Seq::new(
        items.len(),
        |i: int|
            if 0 <= i < items.len() {
                value_of(items[i])
            } else {
                Value::Null
            },
    )
}

/// Whether names stand in their strict order, so that none occurs twice.
pub open spec fn names_sorted(keys: Seq<NameObject>) -> bool {
    forall|i: int, j: int|
        #![trigger keys[i], keys[j]]
        0 <= i < j < keys.len() ==> name_less(keys[i].name@, keys[j].name@)
}

/// Entries stand in the order of their names exactly when their names do.
pub proof fn entries_sorted_as_names(keys: Seq<NameObject>, values: Seq<PDFType>)
    requires
        keys.len() == values.len(),
    ensures
        is_sorted(entries_of(keys, values)) == names_sorted(keys),
{
    let entries = entries_of(keys, values);
    if names_sorted(keys) {
        assert forall|i: int, j: int|
            #![trigger entries[i], entries[j]]
            0 <= i < j < entries.len() implies name_less(entries[i].0, entries[j].0) by {
            assert(name_less(keys[i].name@, keys[j].name@));
        }
    }
    if is_sorted(entries) {
        assert forall|i: int, j: int|
            #![trigger keys[i], keys[j]]
            0 <= i < j < keys.len() implies name_less(keys[i].name@, keys[j].name@) by {
            assert(name_less(entries[i].0, entries[j].0));
        }
    }
}

/// What names and the values at their places stand for, as entries.
pub open spec fn entries_of(keys: Seq<NameObject>, values: Seq<PDFType>) -> Seq<
    (Seq<char>, Value),
>
    decreases values,
{
    Seq::new(
        keys.len(),
        |i: int|
            if 0 <= i < keys.len() && i < values.len() {
                (keys[i].name@, value_of(values[i]))
            } else {
                (Seq::empty(), Value::Null)
            },
    )
}

} // verus!

verus! {

impl View for PDFType {
    type V = Value;

    open spec fn view(&self) -> Value {
        value_of(*self)
    }
}

impl View for NameObject {
    type V = Seq<char>;

    open spec fn view(&self) -> Seq<char> {
        self.name@
    }
}

impl View for ArrayObject {
    type V = Seq<Value>;

    open spec fn view(&self) -> Seq<Value> {
        values_of(self.array@)
    }
}

impl View for ContentStream {
    type V = Seq<OpView>;

    open spec fn view(&self) -> Seq<OpView> {
        ops_view(self.contents@)
    }
}

impl View for DictionaryObject {
    type V = Seq<(Seq<char>, Value)>;

    open spec fn view(&self) -> Seq<(Seq<char>, Value)> {
        entries_of(self.names(), self.stored())
    }
}

/// The name of the built-in face for a style.
pub open spec fn font_name(style: FontStyle) -> Seq<char> {
    match style {
        FontStyle::Normal => "Helvetica"@,
        FontStyle::Bold => "Helvetica-Bold"@,
        FontStyle::Italics => "Helvetica-Oblique"@,
        FontStyle::BoldItalics => "Helvetica-BoldOblique"@,
    }
}

impl FontStyle {
    /// The name of the built-in face for this style.
    pub fn get_font_name(self) -> (name: &'static str)
        ensures
            name@ == font_name(self),
    {
        match self {
            FontStyle::Normal => "Helvetica",
            FontStyle::Bold => "Helvetica-Bold",
            FontStyle::Italics => "Helvetica-Oblique",
            FontStyle::BoldItalics => "Helvetica-BoldOblique",
        }
    }
}

impl NameObject {
    /// The name with the given text.
    pub fn new(name: &str) -> (n: Self)
        ensures
            n@ == name@,
    {
        NameObject { name: name.to_owned() }
    }
}

/// Whether the entries stand in the strict order of their names, so that no
/// name occurs twice.
pub open spec fn is_sorted(entries: Seq<(Seq<char>, Value)>) -> bool {
    forall|i: int, j: int|
        #![trigger entries[i], entries[j]]
        0 <= i < j < entries.len() ==> name_less(entries[i].0, entries[j].0)
}

/// The entries after `value` is put under `key`: in the place of the value
/// that `key` had, or else where the order of names puts it.
pub open spec fn inserted(entries: Seq<(Seq<char>, Value)>, key: Seq<char>, value: Value) -> Seq<
    (Seq<char>, Value),
>
    decreases entries.len(),
{
    if entries.len() == 0 {
        seq![(key, value)]
    } else if name_less(entries[0].0, key) {
        seq![entries[0]] + inserted(entries.drop_first(), key, value)
    } else if name_less(key, entries[0].0) {
        seq![(key, value)] + entries
    } else {
        seq![(key, value)] + entries.drop_first()
    }
}

/// The value that stands under `key`, if any.
pub open spec fn lookup(entries: Seq<(Seq<char>, Value)>, key: Seq<char>) -> Option<Value>
    decreases entries.len(),
{
    if entries.len() == 0 {
        None
    } else if entries[0].0 == key {
        Some(entries[0].1)
    } else {
        lookup(entries.drop_first(), key)
    }
}

/// Where `key` belongs among sorted entries, and whether it is there already.
pub open spec fn is_place(entries: Seq<(Seq<char>, Value)>, key: Seq<char>, i: int) -> bool {
    &&& 0 <= i <= entries.len()
    &&& forall|j: int| 0 <= j < i ==> name_less((#[trigger] entries[j]).0, key)
    &&& i < entries.len() ==> !name_less(entries[i].0, key)
}

/// Putting a value under a key replaces the entry at the key's place if the
/// key is there, and else inserts a new entry at that place.
pub proof fn inserted_at_place(
    entries: Seq<(Seq<char>, Value)>,
    key: Seq<char>,
    value: Value,
    i: int,
)
    requires
        is_place(entries, key, i),
    ensures
        inserted(entries, key, value) == if i < entries.len() && !name_less(key, entries[i].0) {
            entries.update(i, (key, value))
        } else {
            entries.insert(i, (key, value))
        },
    decreases i,
{
    if i == 0 {
        if entries.len() == 0 {
            assert(seq![(key, value)] =~= entries.insert(0, (key, value)));
        } else if name_less(key, entries[0].0) {
            assert(seq![(key, value)] + entries =~= entries.insert(0, (key, value)));
        } else {
            assert(seq![(key, value)] + entries.drop_first() =~= entries.update(
                0,
                (key, value),
            ));
        }
    } else {
        let rest = entries.drop_first();
        assert forall|j: int| 0 <= j < i - 1 implies name_less((#[trigger] rest[j]).0, key) by {
            assert(rest[j] == entries[j + 1]);
        }
        inserted_at_place(rest, key, value, i - 1);
        assert(name_less(entries[0].0, key));
        if i < entries.len() && !name_less(key, entries[i].0) {
            assert(seq![entries[0]] + rest.update(i - 1, (key, value)) =~= entries.update(
                i,
                (key, value),
            ));
        } else {
            assert(seq![entries[0]] + rest.insert(i - 1, (key, value)) =~= entries.insert(
                i,
                (key, value),
            ));
        }
    }
}

/// Putting a value under a key keeps the entries in the order of their names.
pub proof fn inserted_keeps_order(
    entries: Seq<(Seq<char>, Value)>,
    key: Seq<char>,
    value: Value,
    i: int,
)
    requires
        is_sorted(entries),
        is_place(entries, key, i),
    ensures
        is_sorted(inserted(entries, key, value)),
{
    inserted_at_place(entries, key, value, i);
    let r = inserted(entries, key, value);
    if i < entries.len() && !name_less(key, entries[i].0) {
        name_less_total(key, entries[i].0);
        assert forall|a: int, b: int|
            #![trigger r[a], r[b]]
            0 <= a < b < r.len() implies name_less(r[a].0, r[b].0) by {
            assert(name_less(entries[a].0, entries[b].0));
        }
    } else {
        assert forall|a: int, b: int|
            #![trigger r[a], r[b]]
            0 <= a < b < r.len() implies name_less(r[a].0, r[b].0) by {
            if b < i {
                assert(name_less(entries[a].0, entries[b].0));
            } else if b == i {
                assert(name_less(entries[a].0, key));
            } else if a < i {
                assert(name_less(entries[a].0, entries[b - 1].0));
            } else if a == i {
                name_less_total(key, entries[i].0);
                if key == entries[i].0 {
                    name_less_irreflexive(key);
                }
                assert(name_less(key, entries[i].0));
                if b - 1 > i {
                    assert(name_less(entries[i].0, entries[b - 1].0));
                    name_less_transitive(key, entries[i].0, entries[b - 1].0);
                }
            } else {
                assert(name_less(entries[a - 1].0, entries[b - 1].0));
            }
        }
    }
}

/// After a value is put under a key, it is the value found under that key.
pub proof fn lookup_finds_inserted(entries: Seq<(Seq<char>, Value)>, key: Seq<char>, value: Value)
    ensures
        lookup(inserted(entries, key, value), key) == Some(value),
    decreases entries.len(),
{
    if entries.len() > 0 && name_less(entries[0].0, key) {
        let rest = entries.drop_first();
        lookup_finds_inserted(rest, key, value);
        name_less_irreflexive(key);
        let r = seq![entries[0]] + inserted(rest, key, value);
        assert(r.drop_first() =~= inserted(rest, key, value));
    }
}

/// Putting a value under one key changes nothing under any other key.
pub proof fn lookup_skips_inserted(
    entries: Seq<(Seq<char>, Value)>,
    key: Seq<char>,
    value: Value,
    other: Seq<char>,
)
    requires
        other != key,
    ensures
        lookup(inserted(entries, key, value), other) == lookup(entries, other),
    decreases entries.len(),
{
    if entries.len() == 0 {
        let r = seq![(key, value)];
        assert(r.drop_first() =~= entries);
    } else if name_less(entries[0].0, key) {
        let rest = entries.drop_first();
        lookup_skips_inserted(rest, key, value, other);
        let r = seq![entries[0]] + inserted(rest, key, value);
        assert(r.drop_first() =~= inserted(rest, key, value));
    } else if name_less(key, entries[0].0) {
        let r = seq![(key, value)] + entries;
        assert(r.drop_first() =~= entries);
    } else {
        name_less_total(key, entries[0].0);
        let r = seq![(key, value)] + entries.drop_first();
        assert(r.drop_first() =~= entries.drop_first());
    }
}

/// A value that can be stored in a document.
pub trait ToPDFType: Sized {
    /// What the stored value stands for.
    spec fn to_value(self) -> Value;

    /// The value as the document stores it.
    fn to_pdftype(self) -> (r: PDFType)
        ensures
            r@ == self.to_value(),
    ;
}

impl ToPDFType for String {
    open spec fn to_value(self) -> Value {
        Value::Text(self@)
    }

    fn to_pdftype(self) -> (r: PDFType)
        ensures
            r@ == Value::Text(self@),
    {
        PDFType::PDFString(self)
    }
}

impl ToPDFType for &str {
    open spec fn to_value(self) -> Value {
        Value::Text(self@)
    }

    fn to_pdftype(self) -> (r: PDFType)
        ensures
            r@ == Value::Text(self@),
    {
        PDFType::PDFString(self.to_owned())
    }
}

impl ToPDFType for NameObject {
    open spec fn to_value(self) -> Value {
        Value::Name(self@)
    }

    fn to_pdftype(self) -> (r: PDFType)
        ensures
            r@ == Value::Name(self@),
    {
        PDFType::Name(self)
    }
}

impl ToPDFType for Fixed {
    open spec fn to_value(self) -> Value {
        Value::Num(self as int)
    }

    fn to_pdftype(self) -> (r: PDFType)
        ensures
            r@ == Value::Num(self as int),
    {
        PDFType::NumFixed(self)
    }
}

impl ToPDFType for usize {
    open spec fn to_value(self) -> Value {
        Value::Int(self as nat)
    }

    fn to_pdftype(self) -> (r: PDFType)
        ensures
            r@ == Value::Int(self as nat),
    {
        PDFType::NumUsize(self)
    }
}

impl ToPDFType for bool {
    open spec fn to_value(self) -> Value {
        Value::Bool(self)
    }

    fn to_pdftype(self) -> (r: PDFType)
        ensures
            r@ == Value::Bool(self),
    {
        PDFType::Bool(self)
    }
}

impl ToPDFType for DictionaryObject {
    open spec fn to_value(self) -> Value {
        Value::Dict(self@)
    }

    fn to_pdftype(self) -> (r: PDFType)
        ensures
            r@ == Value::Dict(self@),
    {
        PDFType::Dictionary(self)
    }
}

impl ToPDFType for IndirectRef {
    open spec fn to_value(self) -> Value {
        Value::Ref(self.id as nat)
    }

    fn to_pdftype(self) -> (r: PDFType)
        ensures
            r@ == Value::Ref(self.id as nat),
    {
        PDFType::IndirectRef(self)
    }
}

impl ToPDFType for ArrayObject {
    open spec fn to_value(self) -> Value {
        Value::Array(self@)
    }

    fn to_pdftype(self) -> (r: PDFType)
        ensures
            r@ == Value::Array(self@),
    {
        PDFType::Array(self)
    }
}

impl ToPDFType for ContentStream {
    open spec fn to_value(self) -> Value {
        Value::Stream(self@)
    }

    fn to_pdftype(self) -> (r: PDFType)
        ensures
            r@ == Value::Stream(self@),
    {
        PDFType::ContentStream(self)
    }
}

impl ToPDFType for Op {
    open spec fn to_value(self) -> Value {
        Value::Op(self@)
    }

    fn to_pdftype(self) -> (r: PDFType)
        ensures
            r@ == Value::Op(self@),
    {
        PDFType::PDFOp(self)
    }
}

impl DictionaryObject {
    #[verifier::type_invariant]
    spec fn in_order(self) -> bool {
        &&& self.keys@.len() == self.values@.len()
        &&& names_sorted(self.keys@)
    }

    /// A dictionary without entries.
    pub fn new() -> (d: Self)
        ensures
            d@ == Seq::<(Seq<char>, Value)>::empty(),
    {
        let d = DictionaryObject { keys: Vec::new(), values: Vec::new() };
        assert(d@ =~= Seq::<(Seq<char>, Value)>::empty());
        d
    }

    /// The dictionary that heads a page tree.
    pub fn new_pages() -> (d: Self)
        ensures
            d@ == seq![("Type"@, Value::Name("Pages"@))],
    {
        let mut dict = DictionaryObject::new();
        dict.insert_strkey("Type", NameObject::new("Pages"));
        dict
    }

    /// The dictionary that heads a page.
    pub fn new_page() -> (d: Self)
        ensures
            d@ == seq![("Type"@, Value::Name("Page"@))],
    {
        let mut dict = DictionaryObject::new();
        dict.insert_strkey("Type", NameObject::new("Page"));
        dict
    }

    /// The dictionary that heads a document.
    pub fn new_document_catalog() -> (d: Self)
        ensures
            d@ == seq![("Type"@, Value::Name("Catalog"@))],
    {
        let mut dict = DictionaryObject::new();
        dict.insert_strkey("Type", NameObject::new("Catalog"));
        dict
    }

    /// The names in the order they are kept and written.
    pub fn keys(&self) -> (r: &Vec<NameObject>)
        ensures
            r@ == self.names(),
            r@.len() == self@.len(),
            forall|i: int| 0 <= i < r@.len() ==> (#[trigger] r@[i])@ == self@[i].0,
            is_sorted(self@),
    {
        proof {
            use_type_invariant(self);
            entries_sorted_as_names(self.keys@, self.values@);
        }
        &self.keys
    }

    /// The values, each at the place of its name.
    pub fn values(&self) -> (r: &Vec<PDFType>)
        ensures
            r@ == self.stored(),
            r@.len() == self@.len(),
            forall|i: int| 0 <= i < r@.len() ==> (#[trigger] r@[i])@ == self@[i].1,
    {
        proof {
            use_type_invariant(self);
        }
        &self.values
    }

    /// Puts `value` under `key`, in the place of the value that `key` had, if
    /// any.
    pub fn insert<T: ToPDFType>(&mut self, key: NameObject, value: T)
        ensures
            final(self)@ == inserted(old(self)@, key@, value.to_value()),
            is_sorted(final(self)@),
    {
        proof {
            use_type_invariant(&*self);
            entries_sorted_as_names(self.keys@, self.values@);
        }
        let stored = value.to_pdftype();
        let ghost before = self@;
        let mut i: usize = 0;
        while i < self.keys.len() && name_before(self.keys[i].name.as_str(), key.name.as_str())
            invariant
                i <= self.keys.len(),
                self.keys@.len() == self.values@.len(),
                self@ == before,
                *self == *old(self),
                forall|j: int| 0 <= j < i ==> name_less((#[trigger] before[j]).0, key@),
            decreases self.keys.len() - i,
        {
            i += 1;
        }
        let replace: bool = i < self.keys.len() && !name_before(
            key.name.as_str(),
            self.keys[i].name.as_str(),
        );
        proof {
            assert(is_place(before, key@, i as int));
            inserted_at_place(before, key@, stored@, i as int);
            inserted_keeps_order(before, key@, stored@, i as int);
        }
        let mut taken = DictionaryObject { keys: Vec::new(), values: Vec::new() };
        core::mem::swap(self, &mut taken);
        let DictionaryObject { keys, values } = taken;
        let mut keys = keys;
        let mut values = values;
        if replace {
            keys[i] = key;
            values[i] = stored;
            assert(entries_of(keys@, values@) =~= before.update(i as int, (key@, stored@)));
        } else {
            keys.insert(i, key);
            values.insert(i, stored);
            assert(entries_of(keys@, values@) =~= before.insert(i as int, (key@, stored@)));
        }
        proof {
            entries_sorted_as_names(keys@, values@);
        }
        *self = DictionaryObject { keys, values };
    }

    /// Puts `value` under the name `key`.
    pub fn insert_strkey<T: ToPDFType>(&mut self, key: &str, value: T)
        ensures
            final(self)@ == inserted(old(self)@, key@, value.to_value()),
            is_sorted(final(self)@),
    {
        self.insert(NameObject::new(key), value);
    }

    /// The value under `key`, if there is one, to be changed in place. The
    /// names and their order stay as they are.
    pub fn get_mut(&mut self, key: String) -> (r: Option<&mut PDFType>)
        ensures
            match r {
                Some(v) => exists|i: int|
                    {
                        &&& 0 <= i < old(self)@.len()
                        &&& #[trigger] old(self)@[i] == (key@, v@)
                        &&& final(self)@ == old(self)@.update(i, (key@, final(v)@))
                    },
                None => final(self)@ == old(self)@,
            },
            match r {
                Some(v) => lookup(old(self)@, key@) == Some(v@),
                None => lookup(old(self)@, key@).is_none(),
            },
    {
        let mut i: usize = 0;
        proof {
            assert(self@.skip(0) =~= self@);
        }
        while i < self.keys.len()
            invariant
                i <= self.keys.len(),
                *self == *old(self),
                lookup(self@, key@) == lookup(self@.skip(i as int), key@),
            decreases self.keys.len() - i,
        {
            proof {
                use_type_invariant(&*self);
            }
            let name = self.keys[i].name.as_str();
            let same: bool = !name_before(name, key.as_str()) && !name_before(key.as_str(), name);
            proof {
                name_less_total(name@, key@);
                name_less_irreflexive(key@);
                assert(self@.skip(i as int)[0] == self@[i as int]);
                assert(self@.skip(i as int).drop_first() =~= self@.skip(i + 1));
            }
            if same {
                let ghost names = self.keys@;
                let ghost before = self.values@;
                let value = &mut self.values[i];
                proof {
                    assert(entries_of(names, before)[i as int] == (key@, value@));
                    assert(entries_of(names, before.update(i as int, *final(value))) =~= entries_of(
                        names,
                        before,
                    ).update(i as int, (key@, final(value)@)));
                }
                return Some(value);
            }
            i += 1;
        }
        None
    }

    /// The value under `key`, if there is one.
    pub fn get(&self, key: &str) -> (r: Option<&PDFType>)
        ensures
            match r {
                Some(v) => lookup(self@, key@) == Some(v@),
                None => lookup(self@, key@).is_none(),
            },
    {
        let mut i: usize = 0;
        proof {
            assert(self@.skip(0) =~= self@);
        }
        while i < self.keys.len()
            invariant
                i <= self.keys.len(),
                lookup(self@, key@) == lookup(self@.skip(i as int), key@),
            decreases self.keys.len() - i,
        {
            proof {
                use_type_invariant(self);
            }
            let name = self.keys[i].name.as_str();
            let same: bool = !name_before(name, key) && !name_before(key, name);
            proof {
                name_less_total(name@, key@);
                name_less_irreflexive(key@);
                assert(self@.skip(i as int)[0] == self@[i as int]);
                assert(self@.skip(i as int).drop_first() =~= self@.skip(i + 1));
            }
            if same {
                return Some(&self.values[i]);
            }
            i += 1;
        }
        None
    }
}

impl Default for DictionaryObject {
    fn default() -> (d: Self)
        ensures
            d@ == Seq::<(Seq<char>, Value)>::empty(),
    {
        DictionaryObject::new()
    }
}

impl ArrayObject {
    /// An array without items.
    pub fn new() -> (a: Self)
        ensures
            a@ == Seq::<Value>::empty(),
    {
        let a = ArrayObject { array: Vec::new() };
        assert(a@ =~= Seq::<Value>::empty());
        a
    }

    /// An array of the given values, in their order.
    pub fn new_from<T: ToPDFType>(values: Vec<T>) -> (a: Self)
        ensures
            a@ == Seq::new(values@.len(), |i: int| values@[i].to_value()),
    {
        let mut array: Vec<PDFType> = Vec::new();
        let ghost all = values@;
        for value in it: values
            invariant
                it.seq() == all,
                array@.len() == it.index(),
                forall|j: int| 0 <= j < it.index() ==> (#[trigger] array@[j])@ == all[j].to_value(),
        {
            array.push(value.to_pdftype());
        }
        let a = ArrayObject { array };
        assert(a@ =~= Seq::new(all.len(), |i: int| all[i].to_value()));
        a
    }

    /// Adds a value at the end.
    pub fn push<T: ToPDFType>(&mut self, value: T)
        ensures
            final(self)@ == old(self)@.push(value.to_value()),
    {
        self.array.push(value.to_pdftype());
        assert(self@ =~= old(self)@.push(value.to_value()));
    }

    /// How many values the array holds.
    pub fn len(&self) -> (n: usize)
        ensures
            n == self@.len(),
    {
        self.array.len()
    }

    /// Whether the array holds nothing.
    pub fn is_empty(&self) -> (r: bool)
        ensures
            r == (self@.len() == 0),
    {
        self.array.is_empty()
    }
}

impl Default for ArrayObject {
    fn default() -> (a: Self)
        ensures
            a@ == Seq::<Value>::empty(),
    {
        ArrayObject::new()
    }
}

impl ContentStream {
    /// A page content without operators.
    pub fn new() -> (s: Self)
        ensures
            s@ == Seq::<OpView>::empty(),
    {
        let s = ContentStream { contents: Vec::new() };
        assert(s@ =~= Seq::<OpView>::empty());
        s
    }

    /// The operators, to be added to.
    pub fn contents(&mut self) -> (r: &mut Vec<Op>)
        ensures
            *r == old(self).contents,
            final(self).contents == *final(r),
    {
        &mut self.contents
    }
}

impl Default for ContentStream {
    fn default() -> (s: Self)
        ensures
            s@ == Seq::<OpView>::empty(),
    {
        ContentStream::new()
    }
}

/// A value together with its place in the object table.
#[derive(Debug)]
pub struct IndirectObject {
    pub pdf_obj: Box<PDFType>,
    pub id: usize,
}

impl IndirectObject {
    /// The value `pdf_obj` at place `id`.
    pub fn new(id: usize, pdf_obj: Box<PDFType>) -> (o: Self)
        ensures
            o.id == id,
            o.pdf_obj == pdf_obj,
    {
        Self { id, pdf_obj }
    }

    /// A reference to this object.
    pub fn pdf_ref(&self) -> (r: IndirectRef)
        ensures
            r.id == self.id,
    {
        IndirectRef { id: self.id }
    }
}

} // verus!
