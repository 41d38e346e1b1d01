//! Values written out as text: the one-line preview of the value list and
//! the full text of the inspector.

use vstd::prelude::*;
use vstd::string::StringExecFns;
use crate::node::Value;
use crate::node::ValueContent;
use crate::text::append_decimal;
use crate::text::append_signed_decimal;
use crate::text::decimal;
use crate::text::signed_decimal;

verus! {

/// The dump of a byte string in lines of sixteen bytes: offset, the bytes
/// in hexadecimal, and their printable characters.
pub uninterp spec fn hexdump_text(bytes: Seq<u8>) -> Seq<char>;

/// A string as a string literal of the language: in double quotes, with
/// escapes for what cannot stand in one as it is.
pub uninterp spec fn debug_quoted(text: Seq<char>) -> Seq<char>;

/// Calls `hxdmp::hexdump` on a buffer in memory and hands the dump back
/// as text. The dump depends on the bytes alone.
#[verifier::external_body]
fn hex_dump(bytes: &Vec<u8>) -> (text: String)
    ensures
        text@ == hexdump_text(bytes@),
{
    let mut dump: Vec<u8> = Vec::new();
    let _ = hxdmp::hexdump(bytes, &mut dump);
    String::from_utf8(dump).unwrap_or_default()
}

/// Formats a string with the `Debug` formatter of `str`, which writes it as
/// a quoted, escaped literal. The result depends on the string alone.
#[verifier::external_body]
fn debug_quote(text: &str) -> (quoted: String)
    ensures
        quoted@ == debug_quoted(text@),
{
    format!("{:?}", text)
}

/// A string between double quotes, as it is.
pub open spec fn in_quotes(text: Seq<char>) -> Seq<char> {
    "\""@ + text + "\""@
}

/// The strings in double quotes, separated by a comma and a space.
pub open spec fn quoted_list(items: Seq<String>) -> Seq<char>
    decreases items.len(),
{
    if items.len() == 0 {
        Seq::empty()
    } else if items.len() == 1 {
        in_quotes(items[0]@)
    } else {
        quoted_list(items.drop_last()) + ", "@ + in_quotes(items.last()@)
    }
}

/// The strings as escaped literals, separated by a comma and a space.
pub open spec fn literal_list(items: Seq<String>) -> Seq<char>
    decreases items.len(),
{
    if items.len() == 0 {
        Seq::empty()
    } else if items.len() == 1 {
        debug_quoted(items[0]@)
    } else {
        literal_list(items.drop_last()) + ", "@ + debug_quoted(items.last()@)
    }
}

/// The one-line preview of a value: its registry type and what it holds,
/// or a note where there is nothing to show in a line.
pub open spec fn preview_text(content: ValueContent) -> Seq<char> {
    match content {
        ValueContent::Absent => "<NO VALUE>"@,
        ValueContent::U32(v) => "REG_DWORD: "@ + decimal(v as nat),
        ValueContent::U64(v) => "REG_QWORD: "@ + decimal(v as nat),
        ValueContent::I32(v) => "REG_DWORD: "@ + signed_decimal(v as int),
        ValueContent::I64(v) => "REG_QWORD: "@ + signed_decimal(v as int),
        ValueContent::Text(s) => "REG_SZ: "@ + in_quotes(s@),
        ValueContent::Error => "ERROR DECODING VALUE"@,
        ValueContent::Binary(_) => "BINARY DATA"@,
        ValueContent::MultiText(items) => "REG_MULTI_SZ: "@ + quoted_list(items@),
    }
}

/// What a value holds, in full: a dump for bytes, and for the rest the
/// kind of content with the content in brackets.
pub open spec fn data_text(content: ValueContent) -> Seq<char> {
    match content {
        ValueContent::Absent => "None"@,
        ValueContent::Binary(bytes) => hexdump_text(bytes@),
        ValueContent::Text(s) => "String("@ + debug_quoted(s@) + ")"@,
        ValueContent::MultiText(items) => "MultiString(["@ + literal_list(items@) + "])"@,
        ValueContent::U32(v) => "U32("@ + decimal(v as nat) + ")"@,
        ValueContent::I32(v) => "I32("@ + signed_decimal(v as int) + ")"@,
        ValueContent::U64(v) => "U64("@ + decimal(v as nat) + ")"@,
        ValueContent::I64(v) => "I64("@ + signed_decimal(v as int) + ")"@,
        ValueContent::Error => "Error"@,
    }
}

/// The two lines of the inspector, given the type and the data as text.
pub open spec fn inspection_text(data_type: Seq<char>, data: Seq<char>) -> Seq<char> {
    "Data Type: "@ + data_type + "\nValue Data: "@ + data
}

/// The text of the inspector for the selected value; empty where no value
/// is selected.
pub open spec fn inspector_text(value: Option<Value>) -> Seq<char> {
    match value {
        Some(v) => inspection_text(v.data_type@, data_text(v.content)),
        None => Seq::empty(),
    }
}

/// Appends the strings in double quotes, separated by commas.
fn append_quoted_list(out: &mut String, items: &Vec<String>)
    ensures
        final(out)@ == old(out)@ + quoted_list(items@),
{
    let mut i: usize = 0;
    proof {
        assert(items@.take(0) =~= Seq::<String>::empty());
        assert(out@ =~= old(out)@ + quoted_list(items@.take(0)));
    }
    while i < items.len()
        invariant
            i <= items@.len(),
            out@ == old(out)@ + quoted_list(items@.take(i as int)),
        decreases items@.len() - i,
    {
        let ghost before = out@;
        if i > 0 {
            out.append(", ");
        }
        out.append("\"");
        out.append(items[i].as_str());
        out.append("\"");
        proof {
            let next = items@.take(i + 1);
            assert(next.drop_last() =~= items@.take(i as int));
            assert(next.last() == items@[i as int]);
            if i > 0 {
                assert(out@ =~= old(out)@ + (quoted_list(items@.take(i as int)) + ", "@ + in_quotes(
                    items@[i as int]@,
                )));
            } else {
                assert(quoted_list(items@.take(0)) =~= Seq::<char>::empty());
                assert(out@ =~= old(out)@ + in_quotes(items@[0]@));
            }
        }
        i += 1;
    }
    proof {
        assert(items@.take(i as int) =~= items@);
    }
}

/// Appends the strings as escaped literals, separated by commas.
fn append_literal_list(out: &mut String, items: &Vec<String>)
    ensures
        final(out)@ == old(out)@ + literal_list(items@),
{
    let mut i: usize = 0;
    proof {
        assert(items@.take(0) =~= Seq::<String>::empty());
        assert(out@ =~= old(out)@ + literal_list(items@.take(0)));
    }
    while i < items.len()
        invariant
            i <= items@.len(),
            out@ == old(out)@ + literal_list(items@.take(i as int)),
        decreases items@.len() - i,
    {
        if i > 0 {
            out.append(", ");
        }
        let quoted = debug_quote(items[i].as_str());
        out.append(quoted.as_str());
        proof {
            let next = items@.take(i + 1);
            assert(next.drop_last() =~= items@.take(i as int));
            assert(next.last() == items@[i as int]);
            if i > 0 {
                assert(out@ =~= old(out)@ + (literal_list(items@.take(i as int)) + ", "@ + debug_quoted(
                    items@[i as int]@,
                )));
            } else {
                assert(literal_list(items@.take(0)) =~= Seq::<char>::empty());
                assert(out@ =~= old(out)@ + debug_quoted(items@[0]@));
            }
        }
        i += 1;
    }
    proof {
        assert(items@.take(i as int) =~= items@);
    }
}

/// The one-line preview of what a value holds.
pub fn preview(content: &ValueContent) -> (text: String)
    ensures
        text@ == preview_text(*content),
{
    match content {
        ValueContent::Absent => String::from_str("<NO VALUE>"),
        ValueContent::U32(v) => {
            let mut out = String::from_str("REG_DWORD: ");
            append_decimal(&mut out, *v as u64);
            out
        },
        ValueContent::U64(v) => {
            let mut out = String::from_str("REG_QWORD: ");
            append_decimal(&mut out, *v);
            out
        },
        ValueContent::I32(v) => {
            let mut out = String::from_str("REG_DWORD: ");
            append_signed_decimal(&mut out, *v as i64);
            out
        },
        ValueContent::I64(v) => {
            let mut out = String::from_str("REG_QWORD: ");
            append_signed_decimal(&mut out, *v);
            out
        },
        ValueContent::Text(s) => {
            let mut out = String::from_str("REG_SZ: ");
            out.append("\"");
            out.append(s.as_str());
            out.append("\"");
            assert(out@ =~= "REG_SZ: "@ + in_quotes(s@));
            out
        },
        ValueContent::Error => String::from_str("ERROR DECODING VALUE"),
        ValueContent::Binary(_) => String::from_str("BINARY DATA"),
        ValueContent::MultiText(items) => {
            let mut out = String::from_str("REG_MULTI_SZ: ");
            append_quoted_list(&mut out, items);
            out
        },
    }
}

/// What a value holds, in full.
pub fn data(content: &ValueContent) -> (text: String)
    ensures
        text@ == data_text(*content),
{
    match content {
        ValueContent::Absent => String::from_str("None"),
        ValueContent::Binary(bytes) => hex_dump(bytes),
        ValueContent::Text(s) => {
            let mut out = String::from_str("String(");
            let quoted = debug_quote(s.as_str());
            out.append(quoted.as_str());
            out.append(")");
            out
        },
        ValueContent::MultiText(items) => {
            let mut out = String::from_str("MultiString([");
            append_literal_list(&mut out, items);
            out.append("])");
            out
        },
        ValueContent::U32(v) => {
            let mut out = String::from_str("U32(");
            append_decimal(&mut out, *v as u64);
            out.append(")");
            out
        },
        ValueContent::I32(v) => {
            let mut out = String::from_str("I32(");
            append_signed_decimal(&mut out, *v as i64);
            out.append(")");
            out
        },
        ValueContent::U64(v) => {
            let mut out = String::from_str("U64(");
            append_decimal(&mut out, *v);
            out.append(")");
            out
        },
        ValueContent::I64(v) => {
            let mut out = String::from_str("I64(");
            append_signed_decimal(&mut out, *v);
            out.append(")");
            out
        },
        ValueContent::Error => String::from_str("Error"),
    }
}

/// The two lines of the inspector for a type and data given as text.
pub fn inspection(data_type: &str, data: &str) -> (text: String)
    ensures
        text@ == inspection_text(data_type@, data@),
{
    let mut out = String::from_str("Data Type: ");
    out.append(data_type);
    out.append("\nValue Data: ");
    out.append(data);
    out
}

/// The text of the inspector for the selected value.
pub fn inspect(value: Option<&Value>) -> (text: String)
    ensures
        text@ == inspector_text(
            match value {
                Some(v) => Some(*v),
                None => None,
            },
        ),
{
    match value {
        Some(v) => {
            let shown = data(&v.content);
            inspection(v.data_type.as_str(), shown.as_str())
        },
        None => String::new(),
    }
}

} // verus!
