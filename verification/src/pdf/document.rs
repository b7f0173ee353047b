//! A finished document and how it is written out: the objects in the order
//! they were allocated, the table of their offsets, and the trailer.

use crate::pdf::names::{bytes_less, name_less, utf8};
use crate::pdf::object::{inserted, values_of, IndirectRef, PDFType, Value};
use crate::pdf::write::{
    dict_bytes, entries_bytes, indirect_bytes, name_bytes, put_str, ref_bytes, value_bytes,
    write_indirect, write_name, write_ref, write_value,
};
use crate::text::{decimal, padded, push_decimal, push_padded, push_text};
use vstd::prelude::*;

verus! {

/// A finished document: values written first as they are, the table of
/// objects, and the place of the object that the document starts from.
pub struct PDFDocument {
    pub(crate) content: Vec<PDFType>,
    pub(crate) indirect: Vec<PDFType>,
    pub(crate) root: IndirectRef,
}

/// The line that every document starts with.
pub open spec fn header_bytes() -> Seq<u8> {
    utf8("%PDF-1.5\n"@)
}

/// The bytes of values written as they are, each on a line of its own.
pub open spec fn lines_bytes(values: Seq<Value>) -> Seq<u8>
    decreases values.len(),
{
    if values.len() == 0 {
        Seq::empty()
    } else {
        lines_bytes(values.drop_last()) + value_bytes(values.last()) + utf8("\n"@)
    }
}

/// The bytes of the objects of the table, in the order of the table, each
/// followed by a line feed.
pub open spec fn objects_bytes(objects: Seq<Value>) -> Seq<u8>
    decreases objects.len(),
{
    if objects.len() == 0 {
        Seq::empty()
    } else {
        objects_bytes(objects.drop_last()) + indirect_bytes(
            (objects.len() - 1) as nat,
            objects.last(),
        ) + utf8("\n"@)
    }
}

/// Everything in front of the objects of the table.
pub open spec fn front_bytes(content: Seq<Value>) -> Seq<u8> {
    header_bytes() + lines_bytes(content)
}

/// Everything in front of the table of offsets.
pub open spec fn body_bytes(content: Seq<Value>, objects: Seq<Value>) -> Seq<u8> {
    front_bytes(content) + objects_bytes(objects)
}

/// How many bytes stand in front of the object at place `i` of the table,
/// when `front` bytes stand in front of the first.
pub open spec fn offset_after(front: nat, objects: Seq<Value>, i: int) -> nat {
    front + objects_bytes(objects.take(i)).len()
}

/// How many bytes stand in front of the object at place `i` of the table.
pub open spec fn offset_of(content: Seq<Value>, objects: Seq<Value>, i: int) -> nat {
    offset_after(front_bytes(content).len(), objects, i)
}

/// The offsets of all objects of the table, in its order, when `front` bytes
/// stand in front of the first.
pub open spec fn offsets_after(front: nat, objects: Seq<Value>) -> Seq<nat> {
    Seq::new(objects.len(), |i: int| offset_after(front, objects, i))
}

/// The offsets of all objects of the table, in its order.
pub open spec fn offsets_of(content: Seq<Value>, objects: Seq<Value>) -> Seq<nat> {
    offsets_after(front_bytes(content).len(), objects)
}

/// A list of numbers, as natural numbers.
pub open spec fn naturals(numbers: Seq<usize>) -> Seq<nat> {
    Seq::new(numbers.len(), |i: int| numbers[i] as nat)
}

/// The line of the table of offsets for an object that is in use: its
/// offset in ten digits, the generation 0 and the letter n.
pub open spec fn xref_line(offset: nat) -> Seq<u8> {
    utf8(padded(decimal(offset), 10) + " 00000 n \n"@)
}

/// The lines of the table of offsets for objects at the given offsets.
pub open spec fn xref_lines(offsets: Seq<nat>) -> Seq<u8>
    decreases offsets.len(),
{
    if offsets.len() == 0 {
        Seq::empty()
    } else {
        xref_lines(offsets.drop_last()) + xref_line(offsets.last())
    }
}

/// The table of offsets: its keyword, the range of object numbers from 0,
/// the line of the free list's head, and a line for each object.
pub open spec fn xref_bytes(offsets: Seq<nat>) -> Seq<u8> {
    utf8("xref\n"@) + utf8("0 "@ + decimal(offsets.len() + 1) + "\n"@) + utf8(
        "0000000000 65535 f \n"@,
    ) + xref_lines(offsets)
}

/// The entries of the trailer's dictionary: the number of lines of the table
/// of offsets, and the object that the document starts from.
pub open spec fn trailer_entries(count: nat, root: nat) -> Seq<(Seq<char>, Value)> {
    inserted(
        inserted(Seq::empty(), "Size"@, Value::Int(count + 1)),
        "Root"@,
        Value::Ref(root),
    )
}

/// The trailer: its dictionary, where the table of offsets starts, and the
/// mark of the end.
pub open spec fn trailer_bytes(count: nat, root: nat, startxref: nat) -> Seq<u8> {
    utf8("trailer\n"@) + dict_bytes(trailer_entries(count, root)) + utf8("\n"@) + utf8(
        "startxref\n"@,
    ) + utf8(decimal(startxref) + "\n"@) + utf8("%%EOF\n"@)
}

/// The bytes of a whole document.
pub open spec fn document_bytes(content: Seq<Value>, objects: Seq<Value>, root: nat) -> Seq<u8> {
    let body = body_bytes(content, objects);
    body + xref_bytes(offsets_of(content, objects)) + trailer_bytes(
        objects.len(),
        root,
        body.len(),
    )
}

/// The line of the table of offsets for an object that stands within the
/// first ten thousand million bytes is twenty bytes long: the lines have a
/// fixed width.
pub proof fn xref_line_is_twenty_bytes(offset: nat)
    requires
        offset < 10_000_000_000,
    ensures
        xref_line(offset).len() == 20,
{
    reveal_with_fuel(crate::text::power_of_ten, 11);
    crate::text::decimal_is_short(offset, 10, 10_000_000_000);
    crate::text::decimal_is_digits(offset);
    reveal_strlit(" 00000 n \n");
    let digits = padded(decimal(offset), 10);
    let text = digits + " 00000 n \n"@;
    assert(digits.len() == 10);
    assert(text.len() == 20);
    assert forall|i: int| 0 <= i < text.len() implies '\0' <= #[trigger] text[i] <= '\u{7f}' by {
        if i < 10 {
            if decimal(offset).len() < 10 && i < 10 - decimal(offset).len() {
                assert(text[i] == '0');
            } else {
                let k = i - (10 - decimal(offset).len());
                assert(text[i] == decimal(offset)[k]);
                assert('0' <= decimal(offset)[k] <= '9');
            }
        } else {
            let tail = " 00000 n \n"@;
            assert(text[i] == tail[i - 10]);
            assert(tail[0] == ' ' && tail[1] == '0' && tail[2] == '0' && tail[3] == '0' && tail[4]
                == '0' && tail[5] == '0' && tail[6] == ' ' && tail[7] == 'n' && tail[8] == ' '
                && tail[9] == '\n');
        }
    }
    assert(vstd::utf8::is_ascii_chars(text));
    vstd::utf8::is_ascii_chars_encode_utf8(text);
}

/// In a document whose body is shorter than ten thousand million bytes,
/// every object's line of the table of offsets is twenty bytes long, with
/// the offset in exactly ten digits.
pub proof fn offsets_have_ten_digits(content: Seq<Value>, objects: Seq<Value>, i: int)
    requires
        0 <= i < objects.len(),
        body_bytes(content, objects).len() < 10_000_000_000,
    ensures
        padded(decimal(offset_of(content, objects, i)), 10).len() == 10,
        xref_line(offset_of(content, objects, i)).len() == 20,
{
    objects_bytes_extends(objects, i);
    let offset = offset_of(content, objects, i);
    assert(offset <= body_bytes(content, objects).len());
    reveal_with_fuel(crate::text::power_of_ten, 11);
    crate::text::decimal_is_short(offset, 10, 10_000_000_000);
    xref_line_is_twenty_bytes(offset);
}

/// In the trailer's dictionary the root stands before the size.
pub proof fn trailer_entries_in_order(count: nat, root: nat)
    ensures
        trailer_entries(count, root) == seq![
            ("Root"@, Value::Ref(root)),
            ("Size"@, Value::Int(count + 1)),
        ],
{
    reveal_strlit("Root");
    reveal_strlit("Size");
    vstd::utf8::is_ascii_chars_encode_utf8("Root"@);
    vstd::utf8::is_ascii_chars_encode_utf8("Size"@);
    let a = utf8("Root"@);
    let b = utf8("Size"@);
    assert(a.len() == 4 && b.len() == 4);
    assert(a[0] == 82u8 && b[0] == 83u8);
    assert(bytes_less(a, b));
    assert(name_less("Root"@, "Size"@));
    let first = inserted(Seq::empty(), "Size"@, Value::Int(count + 1));
    assert(first == seq![("Size"@, Value::Int(count + 1))]);
    assert(first[0].0 == "Size"@);
    crate::pdf::names::name_less_irreflexive("Size"@);
    if name_less("Size"@, "Root"@) {
        crate::pdf::names::name_less_transitive("Size"@, "Root"@, "Size"@);
    }
    assert(trailer_entries(count, root) =~= seq![
        ("Root"@, Value::Ref(root)),
        ("Size"@, Value::Int(count + 1)),
    ]);
}

/// The objects up to any place of the table are written in front of the
/// rest: what stands before an object does not depend on what follows it.
pub proof fn objects_bytes_extends(objects: Seq<Value>, i: int)
    requires
        0 <= i <= objects.len(),
    ensures
        objects_bytes(objects.take(i)).len() <= objects_bytes(objects).len(),
        objects_bytes(objects).subrange(0, objects_bytes(objects.take(i)).len() as int)
            == objects_bytes(objects.take(i)),
    decreases objects.len() - i,
{
    if i == objects.len() {
        assert(objects.take(i) =~= objects);
        assert(objects_bytes(objects).subrange(0, objects_bytes(objects).len() as int)
            =~= objects_bytes(objects));
    } else {
        objects_bytes_extends(objects, i + 1);
        let more = objects.take(i + 1);
        assert(more.drop_last() =~= objects.take(i));
        assert(more.last() == objects[i]);
        let head = objects_bytes(objects.take(i));
        assert(objects_bytes(more) == head + indirect_bytes(i as nat, objects[i]) + utf8(
            "\n"@,
        ));
        assert(objects_bytes(objects).subrange(0, head.len() as int) =~= objects_bytes(
            more,
        ).subrange(0, head.len() as int));
        assert(objects_bytes(more).subrange(0, head.len() as int) =~= head);
    }
}

/// In a written document, each object of the table stands at the offset that
/// the table of offsets gives for it, with the value that the table holds.
pub proof fn object_stands_at_its_offset(
    content: Seq<Value>,
    objects: Seq<Value>,
    root: nat,
    i: int,
)
    requires
        0 <= i < objects.len(),
    ensures
        ({
            let at = offset_of(content, objects, i) as int;
            let written = indirect_bytes(i as nat, objects[i]);
            &&& at + written.len() <= document_bytes(content, objects, root).len()
            &&& document_bytes(content, objects, root).subrange(at, at + written.len())
                == written
        }),
{
    let front = front_bytes(content);
    let head = objects_bytes(objects.take(i));
    let written = indirect_bytes(i as nat, objects[i]);
    let all = objects_bytes(objects);
    let rest = all.skip((head + written + utf8("\n"@)).len() as int);
    objects_bytes_splits(objects, i);
    let table = xref_bytes(offsets_of(content, objects));
    let trailer = trailer_bytes(objects.len(), root, body_bytes(content, objects).len());
    middle_of_seven(front, head, written, utf8("\n"@), rest, table, trailer);
}

/// A value that was put into a reserved place of the table is what stands
/// at the offset of that place in the written document, not the null that
/// held the place.
pub proof fn completed_value_stands_at_its_offset(
    content: Seq<Value>,
    reserved: Seq<Value>,
    root: nat,
    i: int,
    value: Value,
)
    requires
        0 <= i < reserved.len(),
    ensures
        ({
            let objects = reserved.update(i, value);
            let at = offset_of(content, objects, i) as int;
            let written = indirect_bytes(i as nat, value);
            &&& at + written.len() <= document_bytes(content, objects, root).len()
            &&& document_bytes(content, objects, root).subrange(at, at + written.len())
                == written
        }),
{
    object_stands_at_its_offset(content, reserved.update(i, value), root, i);
}

/// The bytes of all objects are those of the objects in front of any one of
/// them, then that object and a line feed, then the rest.
pub proof fn objects_bytes_splits(objects: Seq<Value>, i: int)
    requires
        0 <= i < objects.len(),
    ensures
        ({
            let upto = objects_bytes(objects.take(i)) + indirect_bytes(i as nat, objects[i])
                + utf8("\n"@);
            &&& upto.len() <= objects_bytes(objects).len()
            &&& objects_bytes(objects) == upto + objects_bytes(objects).skip(upto.len() as int)
        }),
{
    objects_bytes_extends(objects, i + 1);
    let more = objects.take(i + 1);
    assert(more.drop_last() =~= objects.take(i));
    assert(more.last() == objects[i]);
    let all = objects_bytes(objects);
    let upto = objects_bytes(more);
    assert(all =~= all.subrange(0, upto.len() as int) + all.skip(upto.len() as int));
}

/// Of seven pieces put together, the third is found behind the first two.
pub proof fn middle_of_seven(
    a: Seq<u8>,
    b: Seq<u8>,
    c: Seq<u8>,
    d: Seq<u8>,
    e: Seq<u8>,
    f: Seq<u8>,
    g: Seq<u8>,
)
    ensures
        ({
            let whole = a + (b + c + d + e) + f + g;
            let at = (a + b).len() as int;
            &&& at + c.len() <= whole.len()
            &&& whole.subrange(at, at + c.len()) == c
        }),
{
    let whole = a + (b + c + d + e) + f + g;
    let at = (a + b).len() as int;
    assert(whole.subrange(at, at + c.len()) =~= c);
}

impl PDFDocument {
    /// The values written first, as they are.
    pub closed spec fn content(&self) -> Seq<Value> {
        values_of(self.content@)
    }

    /// The values of the table of objects, in the order of the table.
    pub closed spec fn objects(&self) -> Seq<Value> {
        values_of(self.indirect@)
    }

    /// The place in the table of the object that the document starts from.
    pub closed spec fn root(&self) -> nat {
        self.root.id as nat
    }

    /// The bytes of the document.
    pub open spec fn bytes(&self) -> Seq<u8> {
        document_bytes(self.content(), self.objects(), self.root())
    }

    /// A document of the given parts.
    pub fn new(content: Vec<PDFType>, indirect: Vec<PDFType>, root: IndirectRef) -> (doc: Self)
        ensures
            doc.content() == values_of(content@),
            doc.objects() == values_of(indirect@),
            doc.root() == root.id,
    {
        PDFDocument { content, indirect, root }
    }

    /// How many objects the table holds.
    pub fn object_count(&self) -> (n: usize)
        ensures
            n == self.objects().len(),
    {
        self.indirect.len()
    }

    /// Writes the document behind what `writer` holds and gives the number
    /// of bytes written. Offsets count from the document's first byte.
    pub fn write(&self, writer: &mut Vec<u8>) -> (n: usize)
        ensures
            final(writer)@ == old(writer)@ + self.bytes(),
            n == self.bytes().len(),
    {
        let before: usize = writer.len();
        write_front(&self.content, writer);
        let ghost fronted = writer@;
        let xref = write_objects(&self.indirect, writer, before);
        let ghost bodied = writer@;
        let startxref: usize = writer.len() - before;
        write_xref(&xref, writer);
        let ghost tabled = writer@;
        write_trailer(self.indirect.len(), self.root.id, startxref, writer);
        proof {
            written_is_document(
                old(writer)@,
                fronted,
                bodied,
                tabled,
                writer@,
                self.content(),
                self.objects(),
                self.root(),
                naturals(xref@),
                startxref as nat,
            );
        }
        writer.len() - before
    }
}

/// What is written step by step is the document: the front, the objects,
/// the table of their offsets, and the trailer.
pub proof fn written_is_document(
    before: Seq<u8>,
    fronted: Seq<u8>,
    bodied: Seq<u8>,
    tabled: Seq<u8>,
    done: Seq<u8>,
    content: Seq<Value>,
    objects: Seq<Value>,
    root: nat,
    offsets: Seq<nat>,
    startxref: nat,
)
    requires
        fronted == before + front_bytes(content),
        bodied == fronted + objects_bytes(objects),
        offsets == offsets_after((fronted.len() - before.len()) as nat, objects),
        startxref == bodied.len() - before.len(),
        tabled == bodied + xref_bytes(offsets),
        done == tabled + trailer_bytes(objects.len(), root, startxref),
    ensures
        done == before + document_bytes(content, objects, root),
        document_bytes(content, objects, root).len() == done.len() - before.len(),
{
    let front = front_bytes(content);
    let all = objects_bytes(objects);
    let table = xref_bytes(offsets);
    let trailer = trailer_bytes(objects.len(), root, startxref);
    assert(offsets == offsets_of(content, objects));
    assert(startxref == body_bytes(content, objects).len());
    assert(document_bytes(content, objects, root) == front + all + table + trailer);
    four_after_one(before, front, all, table, trailer);
}

/// Pieces appended one after another are appended together.
pub proof fn four_after_one(a: Seq<u8>, b: Seq<u8>, c: Seq<u8>, d: Seq<u8>, e: Seq<u8>)
    ensures
        a + b + c + d + e == a + (b + c + d + e),
        (b + c + d + e).len() == b.len() + c.len() + d.len() + e.len(),
{
    assert(a + b + c + d + e =~= a + (b + c + d + e));
}

/// Writes the first line of a document and the values that are written as
/// they are.
pub fn write_front(values: &Vec<PDFType>, writer: &mut Vec<u8>)
    ensures
        final(writer)@ == old(writer)@ + front_bytes(values_of(values@)),
{
    put_str(writer, "%PDF-1.5\n");
    write_lines(values, writer);
    assert(writer@ =~= old(writer)@ + front_bytes(values_of(values@)));
}

/// Writes values as they are, each on a line of its own.
pub fn write_lines(values: &Vec<PDFType>, writer: &mut Vec<u8>)
    ensures
        final(writer)@ == old(writer)@ + lines_bytes(values_of(values@)),
{
    let ghost all = values_of(values@);
    let mut c: usize = 0;
    while c < values.len()
        invariant
            c <= values.len(),
            all == values_of(values@),
            writer@ == old(writer)@ + lines_bytes(all.take(c as int)),
        decreases values.len() - c,
    {
        proof {
            assert(all.take(c + 1).drop_last() =~= all.take(c as int));
        }
        write_value(&values[c], writer);
        put_str(writer, "\n");
        c += 1;
        assert(writer@ =~= old(writer)@ + lines_bytes(all.take(c as int)));
    }
    assert(all.take(values.len() as int) =~= all);
}

/// Writes the objects of the table in its order, each followed by a line
/// feed, and gives for each the number of bytes between the place `start` of
/// `writer` and the object's first byte.
pub fn write_objects(objects: &Vec<PDFType>, writer: &mut Vec<u8>, start: usize) -> (offsets:
    Vec<usize>)
    requires
        start <= old(writer)@.len(),
    ensures
        final(writer)@ == old(writer)@ + objects_bytes(values_of(objects@)),
        naturals(offsets@) == offsets_after(
            (old(writer)@.len() - start) as nat,
            values_of(objects@),
        ),
{
    let ghost all = values_of(objects@);
    let ghost front = (old(writer)@.len() - start) as nat;
    let mut offsets: Vec<usize> = Vec::new();
    let mut id: usize = 0;
    while id < objects.len()
        invariant
            id <= objects.len(),
            start <= old(writer)@.len(),
            front == old(writer)@.len() - start,
            all == values_of(objects@),
            writer@ == old(writer)@ + objects_bytes(all.take(id as int)),
            offsets@.len() == id,
            forall|k: int|
                0 <= k < id ==> (#[trigger] offsets@[k]) == offset_after(front, all, k),
        decreases objects.len() - id,
    {
        proof {
            assert(all.take(id + 1).drop_last() =~= all.take(id as int));
        }
        let offset: usize = writer.len() - start;
        offsets.push(offset);
        write_indirect(id, &objects[id], writer);
        put_str(writer, "\n");
        id += 1;
        assert(writer@ =~= old(writer)@ + objects_bytes(all.take(id as int)));
    }
    assert(all.take(objects.len() as int) =~= all);
    assert(naturals(offsets@) =~= offsets_after(front, all));
    offsets
}

/// Writes the table of offsets.
pub fn write_xref(offsets: &Vec<usize>, writer: &mut Vec<u8>)
    ensures
        final(writer)@ == old(writer)@ + xref_bytes(naturals(offsets@)),
{
    let ghost all = naturals(offsets@);
    put_str(writer, "xref\n");
    let mut range = String::new();
    push_text(&mut range, "0 ");
    push_decimal(&mut range, offsets.len() as u128 + 1);
    push_text(&mut range, "\n");
    assert(range@ =~= "0 "@ + decimal(all.len() + 1) + "\n"@);
    put_str(writer, range.as_str());
    put_str(writer, "0000000000 65535 f \n");
    let ghost table = writer@;
    let mut k: usize = 0;
    while k < offsets.len()
        invariant
            k <= offsets.len(),
            all == naturals(offsets@),
            writer@ == table + xref_lines(all.take(k as int)),
        decreases offsets.len() - k,
    {
        proof {
            assert(all.take(k + 1).drop_last() =~= all.take(k as int));
        }
        let mut line = String::new();
        push_padded(&mut line, offsets[k] as u128, 10);
        push_text(&mut line, " 00000 n \n");
        assert(line@ =~= padded(decimal(all[k as int]), 10) + " 00000 n \n"@);
        put_str(writer, line.as_str());
        k += 1;
        assert(writer@ =~= table + xref_lines(all.take(k as int)));
    }
    assert(all.take(offsets.len() as int) =~= all);
    assert(writer@ =~= old(writer)@ + xref_bytes(all));
}

/// The trailer's dictionary, written out piece by piece.
pub proof fn trailer_dict_bytes(count: nat, root: nat)
    ensures
        dict_bytes(trailer_entries(count, root)) == utf8("<<"@) + (name_bytes("Root"@) + utf8(
            " "@,
        ) + ref_bytes(root) + utf8("\n"@)) + (name_bytes("Size"@) + utf8(" "@) + utf8(
            decimal(count + 1),
        ) + utf8("\n"@)) + utf8(">>"@),
{
    trailer_entries_in_order(count, root);
    let entries = trailer_entries(count, root);
    let one = entries.drop_last();
    assert(entries.len() == 2);
    assert(entries.last() == ("Size"@, Value::Int(count + 1)));
    assert(one =~= seq![("Root"@, Value::Ref(root))]);
    assert(one.len() == 1);
    assert(one.last() == ("Root"@, Value::Ref(root)));
    assert(one.drop_last() =~= Seq::<(Seq<char>, Value)>::empty());
    assert(entries_bytes(one.drop_last()) =~= Seq::<u8>::empty());
    let first = name_bytes("Root"@) + utf8(" "@) + ref_bytes(root) + utf8("\n"@);
    let second = name_bytes("Size"@) + utf8(" "@) + utf8(decimal(count + 1)) + utf8("\n"@);
    assert(value_bytes(Value::Ref(root)) == ref_bytes(root));
    assert(value_bytes(Value::Int(count + 1)) == utf8(decimal(count + 1)));
    assert(entries_bytes(one) =~= first);
    assert(entries_bytes(entries) =~= first + second);
}

/// Writes the dictionary of the trailer.
pub fn write_trailer_dict(count: usize, root: usize, writer: &mut Vec<u8>)
    ensures
        final(writer)@ == old(writer)@ + dict_bytes(trailer_entries(count as nat, root as nat)),
{
    put_str(writer, "<<");
    let ghost opened = writer@;
    write_name("Root", writer);
    put_str(writer, " ");
    write_ref(root, writer);
    put_str(writer, "\n");
    let ghost half = writer@;
    assert(half =~= opened + (name_bytes("Root"@) + utf8(" "@) + ref_bytes(root as nat) + utf8(
        "\n"@,
    )));
    write_name("Size", writer);
    put_str(writer, " ");
    let mut size = String::new();
    push_decimal(&mut size, count as u128 + 1);
    assert(size@ =~= decimal((count + 1) as nat));
    put_str(writer, size.as_str());
    put_str(writer, "\n");
    assert(writer@ =~= half + (name_bytes("Size"@) + utf8(" "@) + utf8(
        decimal((count + 1) as nat),
    ) + utf8("\n"@)));
    put_str(writer, ">>");
    proof {
        trailer_dict_bytes(count as nat, root as nat);
    }
}

/// Writes the trailer of a document with `count` objects that starts from
/// the object at place `root` and whose table of offsets stands at
/// `startxref`.
pub fn write_trailer(count: usize, root: usize, startxref: usize, writer: &mut Vec<u8>)
    ensures
        final(writer)@ == old(writer)@ + trailer_bytes(
            count as nat,
            root as nat,
            startxref as nat,
        ),
{
    put_str(writer, "trailer\n");
    write_trailer_dict(count, root, writer);
    put_str(writer, "\n");
    put_str(writer, "startxref\n");
    let mut start = String::new();
    push_decimal(&mut start, startxref as u128);
    push_text(&mut start, "\n");
    assert(start@ =~= decimal(startxref as nat) + "\n"@);
    put_str(writer, start.as_str());
    put_str(writer, "%%EOF\n");
    assert(writer@ =~= old(writer)@ + trailer_bytes(count as nat, root as nat, startxref as nat));
}

} // verus!
