//! How each value is written out as bytes.

use crate::fixed::Fixed;
use crate::pdf::names::utf8;
use crate::pdf::object::{
    entries_of, ops_view, parts_are_kept, point, values_of, ArrayObject, ContentStream,
    DictionaryObject, IndirectObject, IndirectRef, NameObject, Op, OpView, PDFNull, PDFType,
    Point, Value,
};
use crate::text::{
    decimal, digit, digit_char, fixed_text, fixed_to_text, nat_text, push_char, push_decimal,
    push_fixed, push_text,
};
use vstd::prelude::*;
use vstd::string::StrSliceExecFns;

verus! {

/// The number that a character beyond ASCII is written by. Three octal
/// digits reach up to U+01FF; a character beyond that has no number of its
/// own and is written by the number of the question mark.
pub open spec fn escape_code(c: char) -> nat {
    if c as u32 <= 0x1ff {
        c as nat
    } else {
        0x3f
    }
}

/// A backslash and the three octal digits of a number below 512.
pub open spec fn octal_escape(code: nat) -> Seq<char> {
    seq![
        '\\',
        digit_char((code / 64) as int),
        digit_char((code / 8 % 8) as int),
        digit_char((code % 8) as int),
    ]
}

/// What one character of a text string is written as: the delimiters and the
/// backslash behind a backslash, the usual letters for line feed, carriage
/// return, form feed and backspace, and any character beyond ASCII as a
/// backslash and exactly three octal digits.
pub open spec fn escaped_char(c: char) -> Seq<char> {
    if c == '\n' {
        seq!['\\', 'n']
    } else if c == '\r' {
        seq!['\\', 'r']
    } else if c == '\u{0C}' {
        seq!['\\', 'f']
    } else if c == '\u{08}' {
        seq!['\\', 'b']
    } else if c == '(' {
        seq!['\\', '(']
    } else if c == ')' {
        seq!['\\', ')']
    } else if c == '\\' {
        seq!['\\', '\\']
    } else if c as u32 > 0x7f {
        octal_escape(escape_code(c))
    } else {
        seq![c]
    }
}

/// Whether a character is an octal digit.
pub open spec fn is_octal_digit(c: char) -> bool {
    '0' <= c <= '7'
}

/// Every character beyond ASCII is written as a backslash and exactly three
/// octal digits; up to U+01FF these are the digits of its own number.
pub proof fn beyond_ascii_is_three_octal_digits(c: char)
    requires
        c as u32 > 0x7f,
    ensures
        escaped_char(c).len() == 4,
        escaped_char(c)[0] == '\\',
        is_octal_digit(escaped_char(c)[1]),
        is_octal_digit(escaped_char(c)[2]),
        is_octal_digit(escaped_char(c)[3]),
        c as u32 <= 0x1ff ==> (escaped_char(c)[1] as nat - 48) * 64 + (escaped_char(c)[2] as nat
            - 48) * 8 + (escaped_char(c)[3] as nat - 48) == c as nat,
{
    let code = escape_code(c);
    assert(code < 512);
    assert(code / 64 < 8);
    assert(digit_char((code / 64) as int) as nat == 48 + code / 64);
    assert(digit_char((code / 8 % 8) as int) as nat == 48 + code / 8 % 8);
    assert(digit_char((code % 8) as int) as nat == 48 + code % 8);
}

/// A text with each of its characters escaped.
pub open spec fn escaped(text: Seq<char>) -> Seq<char>
    decreases text.len(),
{
    if text.len() == 0 {
        Seq::empty()
    } else {
        escaped(text.drop_last()) + escaped_char(text.last())
    }
}

/// A text string as it is written: escaped, between parentheses.
pub open spec fn string_text(text: Seq<char>) -> Seq<char> {
    seq!['('] + escaped(text) + seq![')']
}

/// No character is written as a bare delimiter or a bare backslash: what is
/// written for it either is the character itself, which then is an ASCII
/// character other than these three, or begins with a backslash that one
/// letter, one delimiter, a second backslash or three octal digits follow.
pub proof fn escaped_char_cannot_end_a_string(c: char)
    ensures
        ({
            let w = escaped_char(c);
            ||| w == seq![c] && c != '(' && c != ')' && c != '\\' && c as u32 <= 0x7f
            ||| w.len() == 2 && w[0] == '\\' && (w[1] == 'n' || w[1] == 'r' || w[1] == 'f' || w[1]
                == 'b' || w[1] == '(' || w[1] == ')' || w[1] == '\\')
            ||| w.len() == 4 && w[0] == '\\' && is_octal_digit(w[1]) && is_octal_digit(w[2])
                && is_octal_digit(w[3])
        }),
{
    if c as u32 > 0x7f {
        beyond_ascii_is_three_octal_digits(c);
    }
}

/// Whether every character of a text is an ASCII character.
pub open spec fn is_ascii(text: Seq<char>) -> bool {
    forall|i: int| 0 <= i < text.len() ==> #[trigger] text[i] as u32 <= 0x7f
}

/// Whatever a text holds, it is written in ASCII characters only: what is
/// beyond ASCII is written by its number.
pub proof fn string_text_is_ascii(text: Seq<char>)
    ensures
        is_ascii(string_text(text)),
    decreases text.len(),
{
    escaped_is_ascii(text);
}

/// An escaped text holds ASCII characters only.
pub proof fn escaped_is_ascii(text: Seq<char>)
    ensures
        is_ascii(escaped(text)),
    decreases text.len(),
{
    if text.len() > 0 {
        escaped_is_ascii(text.drop_last());
        let c = text.last();
        if c as u32 > 0x7f {
            beyond_ascii_is_three_octal_digits(c);
        }
        assert(is_ascii(escaped_char(c)));
    }
}

/// The bytes of a text string.
pub open spec fn string_bytes(text: Seq<char>) -> Seq<u8> {
    utf8(string_text(text))
}

/// The bytes of a name: a solidus and the name.
pub open spec fn name_bytes(name: Seq<char>) -> Seq<u8> {
    utf8(seq!['/'] + name)
}

/// The bytes of a reference: the object's number, which is one more than its
/// place in the table, the generation 0 and the letter R.
pub open spec fn ref_bytes(id: nat) -> Seq<u8> {
    utf8(decimal(id + 1) + " 0 R"@)
}

/// One operand of an operator: the number and a space.
pub open spec fn operand(x: int) -> Seq<char> {
    fixed_text(x) + seq![' ']
}

/// The operands of a point: both of its parts.
pub open spec fn operands(p: Point) -> Seq<char> {
    operand(p.0) + operand(p.1)
}

/// The numbers and the mnemonic of an operator, as text.
pub open spec fn op_text(op: OpView) -> Seq<char> {
    match op {
        OpView::BT => "BT"@,
        OpView::ET => "ET"@,
        OpView::q => "q"@,
        OpView::Q => "Q"@,
        OpView::S => "S"@,
        OpView::h => "h"@,
        OpView::f => "f"@,
        OpView::TStar => "T*"@,
        OpView::re { point, width, height } => operands(point) + operand(width) + operand(height)
            + "re"@,
        OpView::TL(leading) => operand(leading) + "TL"@,
        OpView::Td(p) => operands(p) + "Td"@,
        OpView::TD(p) => operands(p) + "TD"@,
        OpView::RG(r, g, b) => operand(r) + operand(g) + operand(b) + "RG"@,
        OpView::rg(r, g, b) => operand(r) + operand(g) + operand(b) + "rg"@,
        OpView::l(p) => operands(p) + "l"@,
        OpView::m(p) => operands(p) + "m"@,
        OpView::w(width) => operand(width) + "w"@,
        OpView::c { ctrl1, ctrl2, end } => operands(ctrl1) + operands(ctrl2) + operands(end)
            + "c"@,
        OpView::Tf { font, size } => seq![' '] + operand(size) + "Tf"@,
        OpView::Tj(_) => " Tj"@,
    }
}

/// The bytes of an operator: for font selection the face's name comes first,
/// for showing text the text string; then the numbers and the mnemonic.
pub open spec fn op_bytes(op: OpView) -> Seq<u8> {
    match op {
        OpView::Tf { font, size } => name_bytes(font) + utf8(op_text(op)),
        OpView::Tj(text) => string_bytes(text) + utf8(op_text(op)),
        _ => utf8(op_text(op)),
    }
}

/// The bytes of a list of operators: each on a line of its own.
pub open spec fn ops_bytes(ops: Seq<OpView>) -> Seq<u8>
    decreases ops.len(),
{
    if ops.len() == 0 {
        Seq::empty()
    } else {
        ops_bytes(ops.drop_last()) + op_bytes(ops.last()) + utf8("\n"@)
    }
}

/// The bytes of a dictionary whose one entry gives a length in bytes.
pub open spec fn length_dict_bytes(length: nat) -> Seq<u8> {
    utf8("<<"@) + name_bytes("Length"@) + utf8(" "@) + utf8(decimal(length)) + utf8("\n"@) + utf8(
        ">>"@,
    )
}

/// The bytes of a content stream: a dictionary with the length of the
/// content in bytes, then the content between the two stream keywords.
pub open spec fn stream_bytes(ops: Seq<OpView>) -> Seq<u8> {
    let body = ops_bytes(ops);
    length_dict_bytes(body.len()) + utf8("\nstream\n"@) + body + utf8("endstream"@)
}

/// The bytes of any value.
pub open spec fn value_bytes(v: Value) -> Seq<u8>
    decreases v,
{
    match v {
        Value::Int(n) => utf8(decimal(n)),
        Value::Num(x) => utf8(fixed_text(x)),
        Value::Bool(b) => utf8(
            if b {
                "true"@
            } else {
                "false"@
            },
        ),
        Value::Name(name) => name_bytes(name),
        Value::Text(text) => string_bytes(text),
        Value::Dict(entries) => utf8("<<"@) + entries_bytes(entries) + utf8(">>"@),
        Value::Ref(id) => ref_bytes(id),
        Value::Array(items) => utf8("["@) + items_bytes(items) + utf8("]"@),
        Value::Op(op) => op_bytes(op),
        Value::Stream(ops) => stream_bytes(ops),
        Value::Null => utf8("null"@),
    }
}

/// The bytes of the entries of a dictionary: each name, a space, the value
/// and a line feed.
pub open spec fn entries_bytes(entries: Seq<(Seq<char>, Value)>) -> Seq<u8>
    decreases entries,
{
    if entries.len() == 0 {
        Seq::empty()
    } else {
        entries_bytes(entries.drop_last()) + name_bytes(entries.last().0) + utf8(" "@)
            + value_bytes(entries.last().1) + utf8("\n"@)
    }
}

/// The bytes of the items of an array, with a space between two items.
pub open spec fn items_bytes(items: Seq<Value>) -> Seq<u8>
    decreases items,
{
    if items.len() == 0 {
        Seq::empty()
    } else if items.len() == 1 {
        value_bytes(items.last())
    } else {
        items_bytes(items.drop_last()) + utf8(" "@) + value_bytes(items.last())
    }
}

/// The bytes of a dictionary: its entries between double angle brackets.
pub open spec fn dict_bytes(entries: Seq<(Seq<char>, Value)>) -> Seq<u8> {
    value_bytes(Value::Dict(entries))
}

/// The dictionary in front of a content stream is written as any dictionary
/// with the one entry `Length`.
pub proof fn length_dict_is_dict(length: nat)
    ensures
        length_dict_bytes(length) == dict_bytes(seq![("Length"@, Value::Int(length))]),
{
    let entries = seq![("Length"@, Value::Int(length))];
    assert(entries.drop_last() =~= Seq::<(Seq<char>, Value)>::empty());
    assert(entries_bytes(entries.drop_last()) =~= Seq::<u8>::empty());
    assert(entries.last() == ("Length"@, Value::Int(length)));
    assert(entries_bytes(entries) == entries_bytes(entries.drop_last()) + name_bytes(
        entries.last().0,
    ) + utf8(" "@) + value_bytes(entries.last().1) + utf8("\n"@));
    assert(length_dict_bytes(length) =~= dict_bytes(entries));
}

/// The bytes of an object of the table: its number and the opening keyword,
/// the value, and the closing keyword.
pub open spec fn indirect_bytes(id: nat, v: Value) -> Seq<u8> {
    utf8(decimal(id + 1) + " 0 obj\n"@) + value_bytes(v) + utf8("\nendobj"@)
}

/// Appends bytes to what has been written.
pub fn put_bytes(out: &mut Vec<u8>, bytes: &[u8])
    ensures
        final(out)@ == old(out)@ + bytes@,
{
    let mut i: usize = 0;
    while i < bytes.len()
        invariant
            i <= bytes.len(),
            out@ == old(out)@ + bytes@.take(i as int),
        decreases bytes.len() - i,
    {
        out.push(bytes[i]);
        i += 1;
        assert(out@ =~= old(out)@ + bytes@.take(i as int));
    }
    assert(bytes@.take(bytes.len() as int) =~= bytes@);
}

/// Appends a text, encoded, to what has been written.
pub fn put_str(out: &mut Vec<u8>, text: &str)
    ensures
        final(out)@ == old(out)@ + utf8(text@),
{
    put_bytes(out, text.as_bytes());
}

/// Appends one character of a text string, escaped.
pub fn push_escaped(result: &mut String, c: char)
    ensures
        final(result)@ == old(result)@ + escaped_char(c),
{
    if c == '\n' {
        push_char(result, '\\');
        push_char(result, 'n');
    } else if c == '\r' {
        push_char(result, '\\');
        push_char(result, 'r');
    } else if c == '\u{0C}' {
        push_char(result, '\\');
        push_char(result, 'f');
    } else if c == '\u{08}' {
        push_char(result, '\\');
        push_char(result, 'b');
    } else if c == '(' {
        push_char(result, '\\');
        push_char(result, '(');
    } else if c == ')' {
        push_char(result, '\\');
        push_char(result, ')');
    } else if c == '\\' {
        push_char(result, '\\');
        push_char(result, '\\');
    } else if c as u32 > 0x7f {
        let code: u32 = c as u32;
        let shown: u32 = if code <= 0x1ff {
            code
        } else {
            0x3f
        };
        push_char(result, '\\');
        push_char(result, digit((shown / 64) as u8));
        push_char(result, digit((shown / 8 % 8) as u8));
        push_char(result, digit((shown % 8) as u8));
    } else {
        push_char(result, c);
    }
    assert(result@ =~= old(result)@ + escaped_char(c));
}

/// A text string as it is written: escaped, between parentheses.
pub fn escape(text: &str) -> (result: String)
    ensures
        result@ == string_text(text@),
{
    let mut result = String::new();
    push_char(&mut result, '(');
    for c in it: text.chars()
        invariant
            it.seq() == text@,
            result@ == seq!['('] + escaped(text@.take(it.index() as int)),
    {
        proof {
            let k = it.index() as int;
            assert(text@.take(k + 1).drop_last() =~= text@.take(k));
            assert(text@.take(0) =~= Seq::<char>::empty());
        }
        push_escaped(&mut result, c);
        assert(result@ =~= seq!['('] + escaped(text@.take(it.index() + 1)));
    }
    proof {
        assert(text@.take(text@.len() as int) =~= text@);
    }
    push_char(&mut result, ')');
    result
}

/// Writes a name.
pub fn write_name(name: &str, out: &mut Vec<u8>)
    ensures
        final(out)@ == old(out)@ + name_bytes(name@),
{
    let mut text = String::new();
    push_char(&mut text, '/');
    push_text(&mut text, name);
    assert(text@ =~= seq!['/'] + name@);
    put_str(out, text.as_str());
}

/// Writes a text string.
pub fn write_string(text: &str, out: &mut Vec<u8>)
    ensures
        final(out)@ == old(out)@ + string_bytes(text@),
{
    let escaped = escape(text);
    put_str(out, escaped.as_str());
}

/// Writes a whole number.
pub fn write_usize(n: usize, out: &mut Vec<u8>)
    ensures
        final(out)@ == old(out)@ + utf8(decimal(n as nat)),
{
    let text = nat_text(n as u128);
    put_str(out, text.as_str());
}

/// Writes a fixed-point number.
pub fn write_fixed(x: Fixed, out: &mut Vec<u8>)
    ensures
        final(out)@ == old(out)@ + utf8(fixed_text(x as int)),
{
    let text = fixed_to_text(x);
    put_str(out, text.as_str());
}

/// Writes a reference to the object at place `id` of the table.
pub fn write_ref(id: usize, out: &mut Vec<u8>)
    ensures
        final(out)@ == old(out)@ + ref_bytes(id as nat),
{
    let mut text = String::new();
    push_decimal(&mut text, id as u128 + 1);
    push_text(&mut text, " 0 R");
    assert(text@ =~= decimal((id + 1) as nat) + " 0 R"@);
    put_str(out, text.as_str());
}

/// Appends one operand: the number and a space.
pub fn push_operand(text: &mut String, x: Fixed)
    ensures
        final(text)@ == old(text)@ + operand(x as int),
{
    push_fixed(text, x);
    push_char(text, ' ');
    assert(text@ =~= old(text)@ + operand(x as int));
}

/// Appends the operands of a point.
pub fn push_operands(text: &mut String, p: (Fixed, Fixed))
    ensures
        final(text)@ == old(text)@ + operands(point(p)),
{
    push_operand(text, p.0);
    push_operand(text, p.1);
    assert(text@ =~= old(text)@ + operands(point(p)));
}

/// The numbers and the mnemonic of an operator, as text.
pub fn op_to_text(op: &Op) -> (text: String)
    ensures
        text@ == op_text(op@),
{
    let mut text = String::new();
    match op {
        Op::BT => push_text(&mut text, "BT"),
        Op::ET => push_text(&mut text, "ET"),
        Op::q => push_text(&mut text, "q"),
        Op::Q => push_text(&mut text, "Q"),
        Op::S => push_text(&mut text, "S"),
        Op::h => push_text(&mut text, "h"),
        Op::f => push_text(&mut text, "f"),
        Op::TStar => push_text(&mut text, "T*"),
        Op::re { point, width, height } => {
            push_operands(&mut text, *point);
            push_operand(&mut text, *width);
            push_operand(&mut text, *height);
            push_text(&mut text, "re");
        },
        Op::TL(leading) => {
            push_operand(&mut text, *leading);
            push_text(&mut text, "TL");
        },
        Op::Td(p) => {
            push_operands(&mut text, *p);
            push_text(&mut text, "Td");
        },
        Op::TD(p) => {
            push_operands(&mut text, *p);
            push_text(&mut text, "TD");
        },
        Op::RG(r, g, b) => {
            push_operand(&mut text, *r);
            push_operand(&mut text, *g);
            push_operand(&mut text, *b);
            push_text(&mut text, "RG");
        },
        Op::rg(r, g, b) => {
            push_operand(&mut text, *r);
            push_operand(&mut text, *g);
            push_operand(&mut text, *b);
            push_text(&mut text, "rg");
        },
        Op::l(p) => {
            push_operands(&mut text, *p);
            push_text(&mut text, "l");
        },
        Op::m(p) => {
            push_operands(&mut text, *p);
            push_text(&mut text, "m");
        },
        Op::w(width) => {
            push_operand(&mut text, *width);
            push_text(&mut text, "w");
        },
        Op::c { ctrl1, ctrl2, end } => {
            push_operands(&mut text, *ctrl1);
            push_operands(&mut text, *ctrl2);
            push_operands(&mut text, *end);
            push_text(&mut text, "c");
        },
        Op::Tf { font, size } => {
            push_char(&mut text, ' ');
            push_operand(&mut text, *size);
            push_text(&mut text, "Tf");
        },
        Op::Tj(_) => push_text(&mut text, " Tj"),
    }
    assert(text@ =~= op_text(op@));
    text
}

/// Writes an operator.
pub fn write_op(op: &Op, out: &mut Vec<u8>)
    ensures
        final(out)@ == old(out)@ + op_bytes(op@),
{
    match op {
        Op::Tf { font, size } => write_name(font.as_str(), out),
        Op::Tj(text) => write_string(text.as_str(), out),
        _ => {},
    }
    let text = op_to_text(op);
    put_str(out, text.as_str());
    assert(out@ =~= old(out)@ + op_bytes(op@));
}

/// Writes operators, each on a line of its own.
pub fn write_ops(ops: &Vec<Op>, out: &mut Vec<u8>)
    ensures
        final(out)@ == old(out)@ + ops_bytes(ops_view(ops@)),
{
    let ghost all = ops_view(ops@);
    let mut i: usize = 0;
    while i < ops.len()
        invariant
            i <= ops.len(),
            all == ops_view(ops@),
            out@ == old(out)@ + ops_bytes(all.take(i as int)),
        decreases ops.len() - i,
    {
        proof {
            assert(all.take(i + 1).drop_last() =~= all.take(i as int));
        }
        write_op(&ops[i], out);
        put_str(out, "\n");
        i += 1;
        assert(out@ =~= old(out)@ + ops_bytes(all.take(i as int)));
    }
    assert(all.take(ops.len() as int) =~= all);
}

/// Writes a content stream.
pub fn write_stream(ops: &Vec<Op>, out: &mut Vec<u8>)
    ensures
        final(out)@ == old(out)@ + stream_bytes(ops_view(ops@)),
{
    let mut body: Vec<u8> = Vec::new();
    write_ops(ops, &mut body);
    assert(body@ =~= ops_bytes(ops_view(ops@)));
    put_str(out, "<<");
    write_name("Length", out);
    put_str(out, " ");
    write_usize(body.len(), out);
    put_str(out, "\n");
    put_str(out, ">>");
    put_str(out, "\nstream\n");
    put_bytes(out, body.as_slice());
    put_str(out, "endstream");
    assert(out@ =~= old(out)@ + stream_bytes(ops_view(ops@)));
}

/// Writes any value.
pub fn write_value(v: &PDFType, out: &mut Vec<u8>)
    ensures
        final(out)@ == old(out)@ + value_bytes(v@),
    decreases v, 0nat,
{
    match v {
        PDFType::NumUsize(n) => write_usize(*n, out),
        PDFType::NumFixed(x) => write_fixed(*x, out),
        PDFType::Bool(b) => {
            if *b {
                put_str(out, "true")
            } else {
                put_str(out, "false")
            }
        },
        PDFType::Name(name) => write_name(name.name.as_str(), out),
        PDFType::PDFString(text) => write_string(text.as_str(), out),
        PDFType::Dictionary(dict) => write_dict(dict, out),
        PDFType::IndirectRef(r) => write_ref(r.id, out),
        PDFType::Array(array) => write_array(array, out),
        PDFType::PDFOp(op) => write_op(op, out),
        PDFType::ContentStream(stream) => write_stream(&stream.contents, out),
        PDFType::Null => put_str(out, "null"),
    }
}

/// Writes a dictionary: its entries, in their kept order, between double
/// angle brackets.
pub fn write_dict(dict: &DictionaryObject, out: &mut Vec<u8>)
    ensures
        final(out)@ == old(out)@ + dict_bytes(dict@),
    decreases dict, 1nat,
{
    proof {
        parts_are_kept(*dict);
    }
    put_str(out, "<<");
    let ghost start = out@;
    let ghost all = dict@;
    let mut i: usize = 0;
    let keys = dict.keys();
    let values = dict.values();
    while i < keys.len()
        invariant
            i <= keys.len(),
            keys@.len() == values@.len(),
            keys@ == dict.keys@,
            values@ == dict.values@,
            all == entries_of(dict.keys@, dict.values@),
            out@ == start + entries_bytes(all.take(i as int)),
        decreases keys.len() - i,
    {
        proof {
            assert(all.take(i + 1).drop_last() =~= all.take(i as int));
        }
        write_name(keys[i].name.as_str(), out);
        put_str(out, " ");
        write_value(&dict.values[i], out);
        put_str(out, "\n");
        i += 1;
        assert(out@ =~= start + entries_bytes(all.take(i as int)));
    }
    assert(all.take(keys.len() as int) =~= all);
    put_str(out, ">>");
    assert(out@ =~= old(out)@ + dict_bytes(dict@));
}

/// Writes an array: its items between square brackets, a space between two.
pub fn write_array(array: &ArrayObject, out: &mut Vec<u8>)
    ensures
        final(out)@ == old(out)@ + value_bytes(Value::Array(array@)),
    decreases array, 1nat,
{
    put_str(out, "[");
    let ghost start = out@;
    let ghost all = array@;
    let mut i: usize = 0;
    while i < array.array.len()
        invariant
            i <= array.array.len(),
            all == values_of(array.array@),
            out@ == start + items_bytes(all.take(i as int)),
        decreases array.array.len() - i,
    {
        proof {
            assert(all.take(i + 1).drop_last() =~= all.take(i as int));
        }
        if i > 0 {
            put_str(out, " ");
        }
        write_value(&array.array[i], out);
        i += 1;
        assert(out@ =~= start + items_bytes(all.take(i as int)));
    }
    assert(all.take(array.array.len() as int) =~= all);
    put_str(out, "]");
    assert(out@ =~= old(out)@ + value_bytes(Value::Array(array@)));
}

/// Writes an object of the table and gives the number of bytes written.
pub fn write_indirect(id: usize, value: &PDFType, out: &mut Vec<u8>) -> (n: usize)
    ensures
        final(out)@ == old(out)@ + indirect_bytes(id as nat, value@),
        n == indirect_bytes(id as nat, value@).len(),
{
    let before: usize = out.len();
    let mut start = String::new();
    push_decimal(&mut start, id as u128 + 1);
    push_text(&mut start, " 0 obj\n");
    assert(start@ =~= decimal((id + 1) as nat) + " 0 obj\n"@);
    put_str(out, start.as_str());
    write_value(value, out);
    put_str(out, "\nendobj");
    assert(out@ =~= old(out)@ + indirect_bytes(id as nat, value@));
    out.len() - before
}

/// A value that can be written into a document.
pub trait PDFWritable {
    /// The bytes that the value is written as.
    spec fn bytes(&self) -> Seq<u8>;

    /// Appends the value's bytes to `writer` and gives their number.
    fn write(&self, writer: &mut Vec<u8>) -> (n: usize)
        ensures
            final(writer)@ == old(writer)@ + self.bytes(),
            n == self.bytes().len(),
    ;
}

impl PDFWritable for PDFType {
    open spec fn bytes(&self) -> Seq<u8> {
        value_bytes(self@)
    }

    fn write(&self, writer: &mut Vec<u8>) -> (n: usize)
        ensures
            final(writer)@ == old(writer)@ + value_bytes(self@),
            n == value_bytes(self@).len(),
    {
        let before: usize = writer.len();
        write_value(self, writer);
        writer.len() - before
    }
}

impl PDFWritable for Op {
    open spec fn bytes(&self) -> Seq<u8> {
        op_bytes(self@)
    }

    fn write(&self, writer: &mut Vec<u8>) -> (n: usize)
        ensures
            final(writer)@ == old(writer)@ + op_bytes(self@),
            n == op_bytes(self@).len(),
    {
        let before: usize = writer.len();
        write_op(self, writer);
        writer.len() - before
    }
}

impl PDFWritable for usize {
    open spec fn bytes(&self) -> Seq<u8> {
        utf8(decimal(*self as nat))
    }

    fn write(&self, writer: &mut Vec<u8>) -> (n: usize)
        ensures
            final(writer)@ == old(writer)@ + utf8(decimal(*self as nat)),
            n == utf8(decimal(*self as nat)).len(),
    {
        let before: usize = writer.len();
        write_usize(*self, writer);
        writer.len() - before
    }
}

impl PDFWritable for Fixed {
    open spec fn bytes(&self) -> Seq<u8> {
        utf8(fixed_text(*self as int))
    }

    fn write(&self, writer: &mut Vec<u8>) -> (n: usize)
        ensures
            final(writer)@ == old(writer)@ + utf8(fixed_text(*self as int)),
            n == utf8(fixed_text(*self as int)).len(),
    {
        let before: usize = writer.len();
        write_fixed(*self, writer);
        writer.len() - before
    }
}

impl PDFWritable for bool {
    open spec fn bytes(&self) -> Seq<u8> {
        value_bytes(Value::Bool(*self))
    }

    fn write(&self, writer: &mut Vec<u8>) -> (n: usize)
        ensures
            final(writer)@ == old(writer)@ + value_bytes(Value::Bool(*self)),
            n == value_bytes(Value::Bool(*self)).len(),
    {
        let before: usize = writer.len();
        if *self {
            put_str(writer, "true");
        } else {
            put_str(writer, "false");
        }
        writer.len() - before
    }
}

impl PDFWritable for NameObject {
    open spec fn bytes(&self) -> Seq<u8> {
        name_bytes(self@)
    }

    fn write(&self, writer: &mut Vec<u8>) -> (n: usize)
        ensures
            final(writer)@ == old(writer)@ + name_bytes(self@),
            n == name_bytes(self@).len(),
    {
        let before: usize = writer.len();
        write_name(self.name.as_str(), writer);
        writer.len() - before
    }
}

impl PDFWritable for String {
    open spec fn bytes(&self) -> Seq<u8> {
        string_bytes(self@)
    }

    fn write(&self, writer: &mut Vec<u8>) -> (n: usize)
        ensures
            final(writer)@ == old(writer)@ + string_bytes(self@),
            n == string_bytes(self@).len(),
    {
        let before: usize = writer.len();
        write_string(self.as_str(), writer);
        writer.len() - before
    }
}

impl PDFWritable for PDFNull {
    open spec fn bytes(&self) -> Seq<u8> {
        utf8("null"@)
    }

    fn write(&self, writer: &mut Vec<u8>) -> (n: usize)
        ensures
            final(writer)@ == old(writer)@ + utf8("null"@),
            n == utf8("null"@).len(),
    {
        let before: usize = writer.len();
        put_str(writer, "null");
        writer.len() - before
    }
}

impl PDFWritable for DictionaryObject {
    open spec fn bytes(&self) -> Seq<u8> {
        dict_bytes(self@)
    }

    fn write(&self, writer: &mut Vec<u8>) -> (n: usize)
        ensures
            final(writer)@ == old(writer)@ + dict_bytes(self@),
            n == dict_bytes(self@).len(),
    {
        let before: usize = writer.len();
        write_dict(self, writer);
        writer.len() - before
    }
}

impl PDFWritable for ContentStream {
    open spec fn bytes(&self) -> Seq<u8> {
        stream_bytes(self@)
    }

    fn write(&self, writer: &mut Vec<u8>) -> (n: usize)
        ensures
            final(writer)@ == old(writer)@ + stream_bytes(self@),
            n == stream_bytes(self@).len(),
    {
        let before: usize = writer.len();
        write_stream(&self.contents, writer);
        writer.len() - before
    }
}

impl PDFWritable for IndirectRef {
    open spec fn bytes(&self) -> Seq<u8> {
        ref_bytes(self.id as nat)
    }

    fn write(&self, writer: &mut Vec<u8>) -> (n: usize)
        ensures
            final(writer)@ == old(writer)@ + ref_bytes(self.id as nat),
            n == ref_bytes(self.id as nat).len(),
    {
        let before: usize = writer.len();
        write_ref(self.id, writer);
        writer.len() - before
    }
}

impl PDFWritable for IndirectObject {
    open spec fn bytes(&self) -> Seq<u8> {
        indirect_bytes(self.id as nat, (*self.pdf_obj)@)
    }

    fn write(&self, writer: &mut Vec<u8>) -> (n: usize)
        ensures
            final(writer)@ == old(writer)@ + indirect_bytes(self.id as nat, (*self.pdf_obj)@),
            n == indirect_bytes(self.id as nat, (*self.pdf_obj)@).len(),
    {
        write_indirect(self.id, &*self.pdf_obj, writer)
    }
}

impl PDFWritable for ArrayObject {
    open spec fn bytes(&self) -> Seq<u8> {
        value_bytes(Value::Array(self@))
    }

    fn write(&self, writer: &mut Vec<u8>) -> (n: usize)
        ensures
            final(writer)@ == old(writer)@ + value_bytes(Value::Array(self@)),
            n == value_bytes(Value::Array(self@)).len(),
    {
        let before: usize = writer.len();
        write_array(self, writer);
        writer.len() - before
    }
}

} // verus!
