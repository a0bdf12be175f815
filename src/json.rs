use vstd::prelude::*;
use vstd::string::*;
use crate::cell::Cell;
use crate::record::RowRecord;

verus! {

/// A lowercase hexadecimal digit.
pub open spec fn hex_digit(d: nat) -> char {
    seq!['0', '1', '2', '3', '4', '5', '6', '7', '8', '9', 'a', 'b', 'c', 'd', 'e', 'f'][d as int]
}

/// How one character is written inside a JSON string literal: the quote,
/// the backslash and the control characters are escaped, short forms first,
/// `\u00xx` for the other control characters; every other character stands
/// for itself.
pub open spec fn escaped_char(c: char) -> Seq<char> {
    if c == '"' {
        seq!['\\', '"']
    } else if c == '\\' {
        seq!['\\', '\\']
    } else if c == '\x08' {
        seq!['\\', 'b']
    } else if c == '\t' {
        seq!['\\', 't']
    } else if c == '\n' {
        seq!['\\', 'n']
    } else if c == '\x0c' {
        seq!['\\', 'f']
    } else if c == '\r' {
        seq!['\\', 'r']
    } else if (c as u32) < 0x20 {
        seq!['\\', 'u', '0', '0', hex_digit((c as u32 / 16) as nat), hex_digit((c as u32 % 16) as nat)]
    } else {
        seq![c]
    }
}

/// The characters of a text, each escaped.
pub open spec fn escaped(s: Seq<char>) -> Seq<char>
    decreases s.len(),
{
    if s.len() == 0 {
        Seq::empty()
    } else {
        escaped(s.drop_last()) + escaped_char(s.last())
    }
}

/// The JSON string literal of a text: quoted, its characters escaped.
pub open spec fn json_text(s: Seq<char>) -> Seq<char> {
    seq!['"'] + escaped(s) + seq!['"']
}

/// The JSON number that serde_json writes for the real number with these
/// IEEE-754 bits (`null` where the number is not finite).
pub uninterp spec fn json_real(bits: u64) -> Seq<char>;

/// The decimal digit `d`.
pub open spec fn digit_char(d: nat) -> char {
    seq!['0', '1', '2', '3', '4', '5', '6', '7', '8', '9'][d as int]
}

/// The decimal numeral of `n`, without leading zeros.
pub open spec fn digits(n: nat) -> Seq<char>
    decreases n,
{
    if n < 10 {
        seq![digit_char(n)]
    } else {
        digits(n / 10).push(digit_char(n % 10))
    }
}

/// The decimal numeral of `i`, with a minus sign when it is negative.
pub open spec fn int_text(i: int) -> Seq<char> {
    if i < 0 {
        seq!['-'] + digits((-i) as nat)
    } else {
        digits(i as nat)
    }
}

/// The JSON value written for one cell.
pub open spec fn cell_json(c: Cell) -> Seq<char> {
    match c {
        Cell::Null => seq!['n', 'u', 'l', 'l'],
        Cell::Integer(v) => int_text(v as int),
        Cell::Real(_, text) => text@,
        Cell::Text(s) => json_text(s@),
        Cell::Blob(_) => Seq::empty(),
    }
}

/// One member of a row object: the quoted name, a colon, the value.
pub open spec fn member_json(e: (Seq<char>, Cell)) -> Seq<char> {
    json_text(e.0) + seq![':'] + cell_json(e.1)
}

/// The parts written one after another with a comma between neighbours.
pub open spec fn joined(parts: Seq<Seq<char>>) -> Seq<char>
    decreases parts.len(),
{
    if parts.len() == 0 {
        Seq::empty()
    } else if parts.len() == 1 {
        parts[0]
    } else {
        joined(parts.drop_last()) + seq![','] + parts.last()
    }
}

/// The JSON object of a row, its members in the given order.
pub open spec fn object_json(es: Seq<(Seq<char>, Cell)>) -> Seq<char> {
    seq!['{'] + joined(es.map_values(|e: (Seq<char>, Cell)| member_json(e))) + seq!['}']
}

/// The JSON array of the row objects, in row order.
pub open spec fn array_json(rows: Seq<Seq<(Seq<char>, Cell)>>) -> Seq<char> {
    seq!['['] + joined(rows.map_values(|es: Seq<(Seq<char>, Cell)>| object_json(es))) + seq![']']
}

/// Relies on `serde_json::to_string` for `i64`: the decimal numeral
/// (serialising into memory cannot fail).
#[verifier::external_body]
fn encode_int(v: i64) -> (r: String)
    ensures
        r@ == int_text(v as int),
{
    serde_json::to_string(&v).unwrap_or_default()
}

/// Relies on `serde_json::to_string` for `str`: the quoted literal, escaped
/// by serde_json's escape table (serialising into memory cannot fail).
#[verifier::external_body]
fn encode_text(s: &str) -> (r: String)
    ensures
        r@ == json_text(s@),
{
    serde_json::to_string(s).unwrap_or_default()
}

/// The JSON value of one cell (nothing for a blob, which no row object
/// holds).
pub fn encode_cell(c: &Cell) -> (r: String)
    ensures
        r@ == cell_json(*c),
{
    match c {
        Cell::Null => {
            proof {
                reveal_strlit("null");
            }
            String::from_str("null")
        },
        Cell::Integer(v) => encode_int(*v),
        Cell::Real(_, text) => text.clone(),
        Cell::Text(s) => encode_text(s.as_str()),
        Cell::Blob(_) => String::new(),
    }
}

/// The JSON object of one row, its members in entry order.
pub fn encode_row(row: &RowRecord) -> (r: String)
    ensures
        r@ == object_json(row.pairs()),
{
    let es = row.entries();
    let ghost parts = row.pairs().map_values(|e: (Seq<char>, Cell)| member_json(e));
    proof {
        reveal_strlit("{");
        reveal_strlit("}");
    }
    let mut out = String::from_str("{");
    let mut i: usize = 0;
    while i < es.len()
        invariant
            i <= es.len(),
            es@.map_values(|e: (String, Cell)| (e.0@, e.1)) == row.pairs(),
            parts == row.pairs().map_values(|e: (Seq<char>, Cell)| member_json(e)),
            out@ == seq!['{'] + joined(parts.take(i as int)),
        decreases es.len() - i,
    {
        assert(parts.take(i + 1).drop_last() =~= parts.take(i as int));
        assert(row.pairs()[i as int] == (es@[i as int].0@, es@[i as int].1));
        if i > 0 {
            out.append(",");
        }
        let name = encode_text(es[i].0.as_str());
        out.append(name.as_str());
        out.append(":");
        let value = encode_cell(&es[i].1);
        out.append(value.as_str());
        assert(parts[i as int] == name@ + seq![':'] + value@);
        proof {
            reveal_strlit(",");
            reveal_strlit(":");
        }
        assert(","@ =~= seq![',']);
        assert(":"@ =~= seq![':']);
        if i == 0 {
            assert(parts.take(1) =~= seq![parts[0]]);
            assert(out@ =~= seq!['{'] + joined(parts.take(1)));
        } else {
            assert(parts.take(i + 1).last() == parts[i as int]);
            assert(joined(parts.take(i + 1)) == joined(parts.take(i as int)) + seq![','] + parts[i as int]);
            assert(out@ =~= seq!['{'] + joined(parts.take(i + 1)));
        }
        i = i + 1;
    }
    assert(parts.take(es.len() as int) =~= parts);
    out.append("}");
    out
}

/// The JSON array of the row objects, in row order.
pub fn encode_rows(rows: &Vec<RowRecord>) -> (r: String)
    ensures
        r@ == array_json(rows@.map_values(|row: RowRecord| row.pairs())),
{
    let ghost objs = rows@.map_values(|row: RowRecord| row.pairs()).map_values(
        |es: Seq<(Seq<char>, Cell)>| object_json(es),
    );
    proof {
        reveal_strlit("[");
        reveal_strlit("]");
    }
    let mut out = String::from_str("[");
    let mut i: usize = 0;
    while i < rows.len()
        invariant
            i <= rows.len(),
            objs == rows@.map_values(|row: RowRecord| row.pairs()).map_values(
                |es: Seq<(Seq<char>, Cell)>| object_json(es),
            ),
            out@ == seq!['['] + joined(objs.take(i as int)),
        decreases rows.len() - i,
    {
        assert(objs.take(i + 1).drop_last() =~= objs.take(i as int));
        if i > 0 {
            out.append(",");
        }
        let obj = encode_row(&rows[i]);
        out.append(obj.as_str());
        proof {
            reveal_strlit(",");
        }
        assert(","@ =~= seq![',']);
        assert(obj@ == objs[i as int]);
        if i == 0 {
            assert(objs.take(1) =~= seq![objs[0]]);
            assert(out@ =~= seq!['['] + joined(objs.take(1)));
        } else {
            assert(objs.take(i + 1).last() == objs[i as int]);
            assert(joined(objs.take(i + 1)) == joined(objs.take(i as int)) + seq![','] + objs[i as int]);
            assert(out@ =~= seq!['['] + joined(objs.take(i + 1)));
        }
        i = i + 1;
    }
    assert(objs.take(rows.len() as int) =~= objs);
    out.append("]");
    out
}

} // verus!
