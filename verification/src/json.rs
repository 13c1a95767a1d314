//! A model of the JSON payloads the Docker volume endpoints exchange.
//!
//! The endpoints this client speaks to read and write null, booleans,
//! strings, arrays and objects; a number that turns up anyway is carried
//! as its verbatim token and rejected wherever the schema wants another
//! shape. Objects are kept as ordered key/value sequences; the builder
//! layer keeps keys unique.

use vstd::prelude::*;
use vstd::string::StrSliceExecFns;

verus! {

broadcast use vstd::seq::axiom_seq_index_decreases;

/// A JSON value as this client builds and reads it. A number carries its
/// verbatim token: the volume payloads this client reads and writes hold
/// no numeric field, so the decoders reject a number wherever the schema
/// wants something else, and the builder never emits one.
#[derive(Debug, PartialEq)]
pub enum Json {
    Null,
    Bool(bool),
    Num(String),
    Str(String),
    Arr(Vec<Json>),
    Obj(Vec<(String, Json)>),
}

/// The mathematical shape of a JSON value: strings as character sequences,
/// arrays and objects as sequences.
pub ghost enum JsonV {
    Null,
    Bool(bool),
    Num(Seq<char>),
    Str(Seq<char>),
    Arr(Seq<JsonV>),
    Obj(Seq<(Seq<char>, JsonV)>),
}

/// The shape of a JSON value.
pub open spec fn jview(j: Json) -> JsonV
    decreases j,
{
    match j {
        Json::Null => JsonV::Null,
        Json::Bool(b) => JsonV::Bool(b),
        Json::Num(t) => JsonV::Num(t@),
        Json::Str(s) => JsonV::Str(s@),
        Json::Arr(items) => JsonV::Arr(jview_arr(items@)),
        Json::Obj(fields) => JsonV::Obj(jview_obj(fields@)),
    }
}

/// The shapes of the elements of a JSON array.
pub open spec fn jview_arr(items: Seq<Json>) -> Seq<JsonV>
    decreases items,
{
    if items.len() == 0 {
        Seq::empty()
    } else {
        jview_arr(items.drop_last()).push(jview(items.last()))
    }
}

/// The shapes of the fields of a JSON object.
pub open spec fn jview_obj(fields: Seq<(String, Json)>) -> Seq<(Seq<char>, JsonV)>
    decreases fields,
{
    if fields.len() == 0 {
        Seq::empty()
    } else {
        jview_obj(fields.drop_last()).push((fields.last().0@, jview(fields.last().1)))
    }
}

impl View for Json {
    type V = JsonV;

    open spec fn view(&self) -> JsonV {
        jview(*self)
    }
}

/// An array's shape is the element-wise shape.
pub proof fn lemma_jview_arr(items: Seq<Json>)
    ensures
        jview_arr(items).len() == items.len(),
        forall|i: int| 0 <= i < items.len() ==> jview_arr(items)[i] == jview(items[i]),
    decreases items.len(),
{
    if items.len() > 0 {
        lemma_jview_arr(items.drop_last());
    }
}

/// An object's shape is the field-wise shape.
pub proof fn lemma_jview_obj(fields: Seq<(String, Json)>)
    ensures
        jview_obj(fields).len() == fields.len(),
        forall|i: int| 0 <= i < fields.len() ==> jview_obj(fields)[i] == (
        fields[i].0@,
        jview(fields[i].1),
        ),
    decreases fields.len(),
{
    if fields.len() > 0 {
        lemma_jview_obj(fields.drop_last());
    }
}

/// A hexadecimal digit, lower case.
pub open spec fn hex_digit(n: int) -> char {
    if n == 0 {
        '0'
    } else if n == 1 {
        '1'
    } else if n == 2 {
        '2'
    } else if n == 3 {
        '3'
    } else if n == 4 {
        '4'
    } else if n == 5 {
        '5'
    } else if n == 6 {
        '6'
    } else if n == 7 {
        '7'
    } else if n == 8 {
        '8'
    } else if n == 9 {
        '9'
    } else if n == 10 {
        'a'
    } else if n == 11 {
        'b'
    } else if n == 12 {
        'c'
    } else if n == 13 {
        'd'
    } else if n == 14 {
        'e'
    } else {
        'f'
    }
}

/// The characters a string character serializes to: named escapes for the
/// quote, the backslash and the common control characters, a `\u00XX`
/// escape for every other control character below U+0020, the character
/// itself otherwise.
pub open spec fn esc_char(c: char) -> Seq<char> {
    if c == '"' {
        seq!['\\', '"']
    } else if c == '\\' {
        seq!['\\', '\\']
    } else if c == '\n' {
        seq!['\\', 'n']
    } else if c == '\r' {
        seq!['\\', 'r']
    } else if c == '\t' {
        seq!['\\', 't']
    } else if (c as u32) < 32 {
        seq!['\\', 'u', '0', '0', hex_digit(c as u32 as int / 16), hex_digit(c as u32 as int % 16)]
    } else {
        seq![c]
    }
}

/// The escaped body of a serialized string.
pub open spec fn esc_str(s: Seq<char>) -> Seq<char>
    decreases s.len(),
{
    if s.len() == 0 {
        Seq::empty()
    } else {
        esc_str(s.drop_last()) + esc_char(s.last())
    }
}

/// A serialized JSON string: the escaped body between quotes.
pub open spec fn ser_str(s: Seq<char>) -> Seq<char> {
    seq!['"'] + esc_str(s) + seq!['"']
}

/// The text a JSON value serializes to.
pub open spec fn ser(j: JsonV) -> Seq<char>
    decreases j, 1int,
{
    match j {
        JsonV::Null => seq!['n', 'u', 'l', 'l'],
        JsonV::Bool(b) => if b {
            seq!['t', 'r', 'u', 'e']
        } else {
            seq!['f', 'a', 'l', 's', 'e']
        },
        JsonV::Num(t) => t,
        JsonV::Str(s) => ser_str(s),
        JsonV::Arr(items) => seq!['['] + ser_items(items) + seq![']'],
        JsonV::Obj(fields) => seq!['{'] + ser_fields(fields) + seq!['}'],
    }
}

/// The comma-separated serialization of an array's elements.
pub open spec fn ser_items(items: Seq<JsonV>) -> Seq<char>
    decreases items, 0int,
{
    if items.len() == 0 {
        Seq::empty()
    } else if items.len() == 1 {
        ser(items.last())
    } else {
        ser_items(items.drop_last()) + seq![','] + ser(items.last())
    }
}

/// The comma-separated serialization of an object's fields.
pub open spec fn ser_fields(fields: Seq<(Seq<char>, JsonV)>) -> Seq<char>
    decreases fields, 0int,
{
    if fields.len() == 0 {
        Seq::empty()
    } else if fields.len() == 1 {
        ser_str(fields.last().0) + seq![':'] + ser(fields.last().1)
    } else {
        ser_fields(fields.drop_last()) + seq![','] + ser_str(fields.last().0) + seq![':'] + ser(
            fields.last().1,
        )
    }
}

/// A hexadecimal digit, lower case.
fn hex_digit_char(n: u8) -> (r: char)
    requires
        n < 16,
    ensures
        r == hex_digit(n as int),
{
    match n {
        0 => '0',
        1 => '1',
        2 => '2',
        3 => '3',
        4 => '4',
        5 => '5',
        6 => '6',
        7 => '7',
        8 => '8',
        9 => '9',
        10 => 'a',
        11 => 'b',
        12 => 'c',
        13 => 'd',
        14 => 'e',
        _ => 'f',
    }
}

/// Appends the serialization of a string to the output.
fn write_str(s: &String, out: &mut Vec<char>)
    ensures
        final(out)@ == old(out)@ + ser_str(s@),
{
    out.push('"');
    let n = s.as_str().unicode_len();
    for i in 0..n
        invariant
            n == s@.len(),
            out@ == old(out)@ + seq!['"'] + esc_str(s@.take(i as int)),
    {
        let c = s.as_str().get_char(i);
        if c == '"' {
            out.push('\\');
            out.push('"');
        } else if c == '\\' {
            out.push('\\');
            out.push('\\');
        } else if c == '\n' {
            out.push('\\');
            out.push('n');
        } else if c == '\r' {
            out.push('\\');
            out.push('r');
        } else if c == '\t' {
            out.push('\\');
            out.push('t');
        } else if (c as u32) < 32 {
            out.push('\\');
            out.push('u');
            out.push('0');
            out.push('0');
            out.push(hex_digit_char((c as u32 / 16) as u8));
            out.push(hex_digit_char((c as u32 % 16) as u8));
        } else {
            out.push(c);
        }
        proof {
            assert(s@.take(i + 1).drop_last() =~= s@.take(i as int));
            assert(s@.take(i + 1).last() == s@[i as int]);
            assert(out@ == old(out)@ + seq!['"'] + esc_str(s@.take(i + 1)));
        }
    }
    proof {
        assert(s@.take(n as int) =~= s@);
    }
    out.push('"');
}

/// Appends the characters of a string to the output as they stand, as a
/// number token is written.
fn write_raw(s: &String, out: &mut Vec<char>)
    ensures
        final(out)@ == old(out)@ + s@,
{
    let n = s.as_str().unicode_len();
    for i in 0..n
        invariant
            n == s@.len(),
            out@ == old(out)@ + s@.take(i as int),
    {
        out.push(s.as_str().get_char(i));
        proof {
            assert(s@.take(i + 1) =~= s@.take(i as int).push(s@[i as int]));
        }
    }
    proof {
        assert(s@.take(n as int) =~= s@);
    }
}

/// Appends the serialization of a value to the output.
#[verifier::loop_isolation(false)]
#[verifier::rlimit(60)]
pub fn ser_into(j: &Json, out: &mut Vec<char>)
    ensures
        final(out)@ == old(out)@ + ser(j@),
    decreases *j,
{
    match j {
        Json::Null => {
            out.push('n');
            out.push('u');
            out.push('l');
            out.push('l');
        },
        Json::Bool(b) => {
            if *b {
                out.push('t');
                out.push('r');
                out.push('u');
                out.push('e');
            } else {
                out.push('f');
                out.push('a');
                out.push('l');
                out.push('s');
                out.push('e');
            }
        },
        Json::Num(t) => {
            write_raw(t, out);
        },
        Json::Str(s) => {
            write_str(s, out);
        },
        Json::Arr(items) => {
            proof {
                lemma_jview_arr(items@);
            }
            let ghost iv = jview_arr(items@);
            out.push('[');
            for i in 0..items.len()
                invariant
                    iv == jview_arr(items@),
                    iv.len() == items@.len(),
                    forall|k: int| 0 <= k < items@.len() ==> iv[k] == jview(items@[k]),
                    out@ == old(out)@ + seq!['['] + ser_items(iv.take(i as int)),
                    j@ == JsonV::Arr(iv),
            {
                if i > 0 {
                    out.push(',');
                }
                proof {
                    assert(decreases_to!(*j => j->Arr_0));
                    assert(decreases_to!(j->Arr_0 => j->Arr_0@));
                    assert(decreases_to!(j->Arr_0@ => j->Arr_0@[i as int]));
                    assert(decreases_to!(*j => items@[i as int]));
                }
                ser_into(&items[i], out);
                proof {
                    assert(iv.take(i + 1).drop_last() =~= iv.take(i as int));
                    assert(iv.take(i + 1).last() == iv[i as int]);
                    assert(out@ == old(out)@ + seq!['['] + ser_items(iv.take(i + 1)));
                }
            }
            proof {
                assert(iv.take(items@.len() as int) =~= iv);
            }
            out.push(']');
        },
        Json::Obj(fields) => {
            proof {
                assert(decreases_to!(*j => j->Obj_0));
                assert(decreases_to!(j->Obj_0 => j->Obj_0@));
            }
            write_obj(fields, out);
        },
    }
}

/// Appends the serialization of an object with the given fields to the
/// output.
#[verifier::loop_isolation(false)]
#[verifier::rlimit(60)]
pub fn write_obj(fields: &Vec<(String, Json)>, out: &mut Vec<char>)
    ensures
        final(out)@ == old(out)@ + ser(JsonV::Obj(jview_obj(fields@))),
    decreases fields@,
{
    proof {
        lemma_jview_obj(fields@);
    }
    let ghost fv = jview_obj(fields@);
    out.push('{');
    for i in 0..fields.len()
        invariant
            out@ == old(out)@ + seq!['{'] + ser_fields(fv.take(i as int)),
    {
        if i > 0 {
            out.push(',');
        }
        write_str(&fields[i].0, out);
        out.push(':');
        proof {
            assert(decreases_to!(fields@ => fields@[i as int]));
            assert(decreases_to!(fields@[i as int] => fields@[i as int].1));
        }
        ser_into(&fields[i].1, out);
        proof {
            assert(fv.take(i + 1).drop_last() =~= fv.take(i as int));
            assert(fv.take(i + 1).last() == fv[i as int]);
            assert(out@ == old(out)@ + seq!['{'] + ser_fields(fv.take(i + 1)));
        }
    }
    proof {
        assert(fv.take(fields@.len() as int) =~= fv);
    }
    out.push('}');
}

/// Relies on std's String as FromIterator of char: collecting characters
/// yields the string of exactly those characters.
#[verifier::external_body]
pub(crate) fn chars_to_string(v: &Vec<char>) -> (r: String)
    ensures
        r@ == v@,
{
    v.iter().collect()
}

/// Serializes a JSON value to text.
pub fn to_text(j: &Json) -> (r: String)
    ensures
        r@ == ser(j@),
{
    let mut out: Vec<char> = Vec::new();
    ser_into(j, &mut out);
    chars_to_string(&out)
}

/// The shapes of a sequence of string pairs, as labels and driver options
/// are carried.
pub open spec fn pairs_view(entries: Seq<(String, String)>) -> Seq<(Seq<char>, Seq<char>)> {
    Seq::new(entries.len(), |i: int| (entries[i].0@, entries[i].1@))
}

/// The object fields that a map of strings turns into: each value a JSON
/// string.
pub open spec fn str_map_fields(m: Seq<(Seq<char>, Seq<char>)>) -> Seq<(Seq<char>, JsonV)> {
    Seq::new(m.len(), |i: int| (m[i].0, JsonV::Str(m[i].1)))
}

/// The value under a key in an object's fields; of two bindings of one key
/// the later wins, as it does for the daemon.
pub open spec fn lookup(fields: Seq<(Seq<char>, JsonV)>, key: Seq<char>) -> Option<JsonV>
    decreases fields.len(),
{
    if fields.len() == 0 {
        None
    } else if fields.last().0 == key {
        Some(fields.last().1)
    } else {
        lookup(fields.drop_last(), key)
    }
}

/// Finds the last binding of a key in an object's fields.
pub fn lookup_field<'a>(fields: &'a Vec<(String, Json)>, key: &String) -> (r: Option<&'a Json>)
    ensures
        match r {
            Some(j) => lookup(jview_obj(fields@), key@) == Some(jview(*j)),
            None => lookup(jview_obj(fields@), key@) is None,
        },
{
    proof {
        lemma_jview_obj(fields@);
    }
    let ghost fv = jview_obj(fields@);
    let mut i: usize = fields.len();
    proof {
        assert(fv.take(fields@.len() as int) =~= fv);
    }
    while i > 0
        invariant
            i <= fields.len(),
            fv == jview_obj(fields@),
            fv.len() == fields@.len(),
            forall|k: int| 0 <= k < fields@.len() ==> fv[k] == (fields@[k].0@, jview(fields@[k].1)),
            lookup(fv, key@) == lookup(fv.take(i as int), key@),
        decreases i,
    {
        i = i - 1;
        proof {
            assert(fv.take(i + 1).drop_last() =~= fv.take(i as int));
            assert(fv.take(i + 1).last() == fv[i as int]);
        }
        if fields[i].0 == *key {
            return Some(&fields[i].1);
        }
    }
    proof {
        assert(fv.take(0) =~= Seq::<(Seq<char>, JsonV)>::empty());
    }
    None
}

#[verifier::external_type_specification]
#[verifier::external_body]
pub struct ExValue(serde_json::Value);

/// What parsing a text as JSON yields: the tree, or nothing when the text
/// is not valid JSON. Parsing depends on the text alone.
pub uninterp spec fn parsed_json(s: Seq<char>) -> Option<JsonV>;

/// Carries a parsed serde_json tree over into the library's model, one
/// variant to one variant; a number keeps its verbatim token, and the
/// decoders reject it wherever the schema wants another shape.
#[verifier::external_body]
fn value_to_json(v: serde_json::Value) -> Json {
    match v {
        serde_json::Value::Null => Json::Null,
        serde_json::Value::Bool(b) => Json::Bool(b),
        serde_json::Value::Number(n) => Json::Num(n.to_string()),
        serde_json::Value::String(s) => Json::Str(s),
        serde_json::Value::Array(a) => Json::Arr(a.into_iter().map(value_to_json).collect()),
        serde_json::Value::Object(m) => Json::Obj(
            m.into_iter().map(|(k, v)| (k, value_to_json(v))).collect(),
        ),
    }
}

/// Relies on serde_json::from_str: whether a text parses as JSON, and the
/// tree it parses to, depend on the text alone.
#[verifier::external_body]
pub fn parse_json(s: &str) -> (r: Option<Json>)
    ensures
        match r {
            Some(j) => parsed_json(s@) == Some(j@),
            None => parsed_json(s@) is None,
        },
{
    serde_json::from_str::<serde_json::Value>(s).ok().map(value_to_json)
}

} // verus!
