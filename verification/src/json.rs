//! The engine's model of a JSON document, its canonical compact text form,
//! and the trusted boundary to serde_json's parser.
//!
//! A number is carried as its rendered numeral text: the engine never does
//! arithmetic on JSON numbers, it only threads their text form into
//! variables, and this keeps the model free of floating point.

use vstd::prelude::*;
use vstd::string::StrSliceExecFns;
use crate::text::push_char;

verus! {

/// A JSON value. Object members keep the order in which the parser
/// yields them.
#[derive(Debug, PartialEq, Eq)]
pub enum Json {
    Null,
    Bool(bool),
    Num(String),
    Str(String),
    Arr(Vec<Json>),
    Obj(Vec<(String, Json)>),
}

/// The mathematical model of a JSON value.
pub enum JsonV {
    Null,
    Bool(bool),
    Num(Seq<char>),
    Str(Seq<char>),
    Arr(Seq<JsonV>),
    Obj(Seq<(Seq<char>, JsonV)>),
}

pub open spec fn json_view(j: Json) -> JsonV
    decreases j, 0int,
{
    match j {
        Json::Null => JsonV::Null,
        Json::Bool(b) => JsonV::Bool(b),
        Json::Num(s) => JsonV::Num(s@),
        Json::Str(s) => JsonV::Str(s@),
        Json::Arr(items) => JsonV::Arr(json_arr_view(items@, 0)),
        Json::Obj(fields) => JsonV::Obj(json_obj_view(fields@, 0)),
    }
}

pub open spec fn json_arr_view(items: Seq<Json>, i: int) -> Seq<JsonV>
    decreases items, items.len() - i,
{
    if i < 0 || i >= items.len() {
        Seq::empty()
    } else {
        seq![json_view(items[i])] + json_arr_view(items, i + 1)
    }
}

pub open spec fn json_obj_view(fields: Seq<(String, Json)>, i: int) -> Seq<(Seq<char>, JsonV)>
    decreases fields, fields.len() - i,
{
    if i < 0 || i >= fields.len() {
        Seq::empty()
    } else {
        seq![(fields[i].0@, json_view(fields[i].1))] + json_obj_view(fields, i + 1)
    }
}

impl View for Json {
    type V = JsonV;

    open spec fn view(&self) -> JsonV {
        json_view(*self)
    }
}

pub proof fn lemma_json_arr_view(items: Seq<Json>, i: int)
    requires
        0 <= i <= items.len(),
    ensures
        json_arr_view(items, i).len() == items.len() - i,
        forall|k: int|
            i <= k < items.len() ==> json_arr_view(items, i)[k - i] == json_view(items[k]),
    decreases items.len() - i,
{
    if i < items.len() {
        lemma_json_arr_view(items, i + 1);
    }
}

pub proof fn lemma_json_obj_view(fields: Seq<(String, Json)>, i: int)
    requires
        0 <= i <= fields.len(),
    ensures
        json_obj_view(fields, i).len() == fields.len() - i,
        forall|k: int|
            i <= k < fields.len() ==> json_obj_view(fields, i)[k - i] == (
            fields[k].0@,
            json_view(fields[k].1),
            ),
    decreases fields.len() - i,
{
    if i < fields.len() {
        lemma_json_obj_view(fields, i + 1);
    }
}

/// The lower-case hexadecimal digit for `n`.
pub open spec fn hex_digit(n: int) -> char {
    if n < 10 {
        ((48 + n) as u8) as char
    } else {
        ((87 + n) as u8) as char
    }
}

/// How one character of a JSON string is written inside quotes: the two
/// escapes for quote and backslash, the short escapes for the common control
/// characters, `\u00..` for the other control characters, and the character
/// itself for everything else.
pub open spec fn esc_char(c: char) -> Seq<char> {
    if c == '"' {
        seq!['\\', '"']
    } else if c == '\\' {
        seq!['\\', '\\']
    } else if c == '\u{8}' {
        seq!['\\', 'b']
    } else if c == '\t' {
        seq!['\\', 't']
    } else if c == '\n' {
        seq!['\\', 'n']
    } else if c == '\u{c}' {
        seq!['\\', 'f']
    } else if c == '\r' {
        seq!['\\', 'r']
    } else if (c as u32) < 0x20 {
        seq!['\\', 'u', '0', '0', hex_digit((c as u32) as int / 16), hex_digit((c as u32) as int % 16)]
    } else {
        seq![c]
    }
}

/// The escaped body of a JSON string, from position `i` on.
pub open spec fn spec_escape(s: Seq<char>, i: int) -> Seq<char>
    decreases s.len() - i,
{
    if i < 0 || i >= s.len() {
        Seq::empty()
    } else {
        esc_char(s[i]) + spec_escape(s, i + 1)
    }
}

/// A JSON string in its text form: quoted and escaped.
pub open spec fn spec_quote(s: Seq<char>) -> Seq<char> {
    seq!['"'] + spec_escape(s, 0) + seq!['"']
}

/// The canonical compact text form of a JSON value: no added whitespace,
/// object members in model order.
pub open spec fn spec_json_text(v: JsonV) -> Seq<char>
    decreases v, 0int,
{
    match v {
        JsonV::Null => "null"@,
        JsonV::Bool(b) => if b {
            "true"@
        } else {
            "false"@
        },
        JsonV::Num(s) => s,
        JsonV::Str(s) => spec_quote(s),
        JsonV::Arr(items) => seq!['['] + spec_arr_text(items, 0) + seq![']'],
        JsonV::Obj(fields) => seq!['{'] + spec_obj_text(fields, 0) + seq!['}'],
    }
}

/// The members of an array from `i` on, joined by commas.
pub open spec fn spec_arr_text(items: Seq<JsonV>, i: int) -> Seq<char>
    decreases items, items.len() - i,
{
    if i < 0 || i >= items.len() {
        Seq::empty()
    } else if i == items.len() - 1 {
        spec_json_text(items[i])
    } else {
        spec_json_text(items[i]) + seq![','] + spec_arr_text(items, i + 1)
    }
}

/// The members of an object from `i` on, written `"key":value` and joined by
/// commas.
pub open spec fn spec_obj_text(fields: Seq<(Seq<char>, JsonV)>, i: int) -> Seq<char>
    decreases fields, fields.len() - i,
{
    if i < 0 || i >= fields.len() {
        Seq::empty()
    } else if i == fields.len() - 1 {
        spec_quote(fields[i].0) + seq![':'] + spec_json_text(fields[i].1)
    } else {
        spec_quote(fields[i].0) + seq![':'] + spec_json_text(fields[i].1) + seq![',']
            + spec_obj_text(fields, i + 1)
    }
}

/// The lower-case hexadecimal digit for `n`.
fn hex_digit_exec(n: u8) -> (r: char)
    requires
        n < 16,
    ensures
        r == hex_digit(n as int),
{
    if n < 10 {
        (48 + n) as char
    } else {
        (87 + n) as char
    }
}

/// Appends the escaped body of `s` to `out`.
fn escape_onto(out: &mut String, s: &str)
    ensures
        final(out)@ == old(out)@ + spec_escape(s@, 0),
{
    let len = s.unicode_len();
    let mut i: usize = 0;
    proof {
        assert(old(out)@ + spec_escape(s@, 0) =~= old(out)@ + spec_escape(s@, 0));
    }
    while i < len
        invariant
            i <= len,
            len == s@.len(),
            out@ + spec_escape(s@, i as int) == old(out)@ + spec_escape(s@, 0),
        decreases len - i,
    {
        let ghost pre = out@;
        let c = s.get_char(i);
        if c == '"' {
            push_char(out, '\\');
            push_char(out, '"');
        } else if c == '\\' {
            push_char(out, '\\');
            push_char(out, '\\');
        } else if c == '\u{8}' {
            push_char(out, '\\');
            push_char(out, 'b');
        } else if c == '\t' {
            push_char(out, '\\');
            push_char(out, 't');
        } else if c == '\n' {
            push_char(out, '\\');
            push_char(out, 'n');
        } else if c == '\u{c}' {
            push_char(out, '\\');
            push_char(out, 'f');
        } else if c == '\r' {
            push_char(out, '\\');
            push_char(out, 'r');
        } else if (c as u32) < 0x20 {
            let n = (c as u32) as u8;
            push_char(out, '\\');
            push_char(out, 'u');
            push_char(out, '0');
            push_char(out, '0');
            push_char(out, hex_digit_exec(n / 16));
            push_char(out, hex_digit_exec(n % 16));
        } else {
            push_char(out, c);
        }
        proof {
            assert(out@ =~= pre + esc_char(c));
            assert((pre + esc_char(c)) + spec_escape(s@, i + 1) =~= pre + (esc_char(c)
                + spec_escape(s@, i + 1)));
        }
        i += 1;
    }
    proof {
        assert(spec_escape(s@, len as int) =~= Seq::<char>::empty());
        assert(out@ + Seq::<char>::empty() =~= out@);
    }
}

/// Appends the quoted, escaped text form of the string `s` to `out`.
fn quote_onto(out: &mut String, s: &str)
    ensures
        final(out)@ == old(out)@ + spec_quote(s@),
{
    push_char(out, '"');
    escape_onto(out, s);
    push_char(out, '"');
    proof {
        assert(old(out)@.push('"') =~= old(out)@ + seq!['"']);
        assert((old(out)@ + seq!['"'] + spec_escape(s@, 0)).push('"') =~= old(out)@ + (seq!['"']
            + spec_escape(s@, 0) + seq!['"']));
    }
}

/// Renders a JSON value in its canonical compact text form.
pub fn json_text(j: &Json) -> (r: String)
    ensures
        r@ == spec_json_text(j@),
    decreases *j,
{
    match j {
        Json::Null => String::from_str("null"),
        Json::Bool(b) => if *b {
            String::from_str("true")
        } else {
            String::from_str("false")
        },
        Json::Num(s) => s.clone(),
        Json::Str(s) => {
            let mut out = String::new();
            quote_onto(&mut out, s.as_str());
            proof {
                assert(Seq::<char>::empty() + spec_quote(s@) =~= spec_quote(s@));
            }
            out
        },
        Json::Arr(items) => {
            let ghost items_v = json_arr_view(items@, 0);
            proof {
                lemma_json_arr_view(items@, 0);
            }
            let mut out = String::new();
            push_char(&mut out, '[');
            proof {
                assert(out@ =~= seq!['[']);
            }
            let len = items.len();
            let mut k: usize = 0;
            while k < len
                invariant
                    *j == Json::Arr(*items),
                    k <= len,
                    len == items@.len(),
                    items_v == json_arr_view(items@, 0),
                    items_v.len() == len,
                    forall|t: int| 0 <= t < len ==> items_v[t] == json_view(items@[t]),
                    out@ + spec_arr_text(items_v, k as int) == seq!['['] + spec_arr_text(
                        items_v,
                        0,
                    ),
                decreases len - k,
            {
                let ghost pre = out@;
                proof {
                    assert(decreases_to!(*j => j->Arr_0));
                    assert(decreases_to!(j->Arr_0 => j->Arr_0@));
                    assert(decreases_to!(j->Arr_0@ => j->Arr_0@[k as int]));
                    assert(j->Arr_0@[k as int] == items@[k as int]);
                }
                let piece = json_text(&items[k]);
                out.append(piece.as_str());
                if k + 1 < len {
                    push_char(&mut out, ',');
                    proof {
                        assert(out@ =~= pre + spec_json_text(items_v[k as int]) + seq![',']);
                        assert(pre + spec_json_text(items_v[k as int]) + seq![','] + spec_arr_text(
                            items_v,
                            k + 1,
                        ) =~= pre + spec_arr_text(items_v, k as int));
                    }
                } else {
                    proof {
                        assert(out@ =~= pre + spec_json_text(items_v[k as int]));
                        assert(spec_arr_text(items_v, k + 1) =~= Seq::<char>::empty());
                        assert(pre + spec_json_text(items_v[k as int]) + spec_arr_text(
                            items_v,
                            k + 1,
                        ) =~= pre + spec_arr_text(items_v, k as int));
                    }
                }
                k += 1;
            }
            push_char(&mut out, ']');
            proof {
                assert(spec_arr_text(items_v, len as int) =~= Seq::<char>::empty());
                assert(seq!['['] + spec_arr_text(items_v, 0) + Seq::<char>::empty() =~= seq!['[']
                    + spec_arr_text(items_v, 0));
                assert(out@ =~= seq!['['] + spec_arr_text(items_v, 0) + seq![']']);
            }
            out
        },
        Json::Obj(fields) => {
            let ghost fields_v = json_obj_view(fields@, 0);
            proof {
                lemma_json_obj_view(fields@, 0);
            }
            let mut out = String::new();
            push_char(&mut out, '{');
            proof {
                assert(out@ =~= seq!['{']);
            }
            let len = fields.len();
            let mut k: usize = 0;
            while k < len
                invariant
                    *j == Json::Obj(*fields),
                    k <= len,
                    len == fields@.len(),
                    fields_v == json_obj_view(fields@, 0),
                    fields_v.len() == len,
                    forall|t: int|
                        0 <= t < len ==> fields_v[t] == (fields@[t].0@, json_view(fields@[t].1)),
                    out@ + spec_obj_text(fields_v, k as int) == seq!['{'] + spec_obj_text(
                        fields_v,
                        0,
                    ),
                decreases len - k,
            {
                let ghost pre = out@;
                quote_onto(&mut out, fields[k].0.as_str());
                push_char(&mut out, ':');
                proof {
                    assert(decreases_to!(*j => j->Obj_0));
                    assert(decreases_to!(j->Obj_0 => j->Obj_0@));
                    assert(decreases_to!(j->Obj_0@ => j->Obj_0@[k as int]));
                    assert(decreases_to!(j->Obj_0@[k as int] => j->Obj_0@[k as int].1));
                    assert(j->Obj_0@[k as int].1 == fields@[k as int].1);
                }
                let piece = json_text(&fields[k].1);
                out.append(piece.as_str());
                if k + 1 < len {
                    push_char(&mut out, ',');
                    proof {
                        assert(out@ =~= pre + spec_quote(fields_v[k as int].0) + seq![':']
                            + spec_json_text(fields_v[k as int].1) + seq![',']);
                        assert(pre + spec_quote(fields_v[k as int].0) + seq![':'] + spec_json_text(
                            fields_v[k as int].1,
                        ) + seq![','] + spec_obj_text(fields_v, k + 1) =~= pre + spec_obj_text(
                            fields_v,
                            k as int,
                        ));
                    }
                } else {
                    proof {
                        assert(out@ =~= pre + spec_quote(fields_v[k as int].0) + seq![':']
                            + spec_json_text(fields_v[k as int].1));
                        assert(spec_obj_text(fields_v, k + 1) =~= Seq::<char>::empty());
                        assert(pre + spec_quote(fields_v[k as int].0) + seq![':'] + spec_json_text(
                            fields_v[k as int].1,
                        ) + spec_obj_text(fields_v, k + 1) =~= pre + spec_obj_text(
                            fields_v,
                            k as int,
                        ));
                    }
                }
                k += 1;
            }
            push_char(&mut out, '}');
            proof {
                assert(spec_obj_text(fields_v, len as int) =~= Seq::<char>::empty());
                assert(seq!['{'] + spec_obj_text(fields_v, 0) + Seq::<char>::empty() =~= seq!['{']
                    + spec_obj_text(fields_v, 0));
                assert(out@ =~= seq!['{'] + spec_obj_text(fields_v, 0) + seq!['}']);
            }
            out
        },
    }
}


/// Clones a JSON value; the clone denotes the same value.
pub fn clone_json(j: &Json) -> (r: Json)
    ensures
        r@ == j@,
    decreases *j,
{
    match j {
        Json::Null => Json::Null,
        Json::Bool(b) => Json::Bool(*b),
        Json::Num(s) => Json::Num(s.clone()),
        Json::Str(s) => Json::Str(s.clone()),
        Json::Arr(items) => {
            let mut out: Vec<Json> = Vec::new();
            let len = items.len();
            let mut k: usize = 0;
            while k < len
                invariant
                    *j == Json::Arr(*items),
                    k <= len,
                    len == items@.len(),
                    out@.len() == k,
                    forall|t: int| 0 <= t < k ==> json_view(#[trigger] out@[t]) == json_view(
                        items@[t],
                    ),
                decreases len - k,
            {
                proof {
                    assert(decreases_to!(*j => j->Arr_0));
                    assert(decreases_to!(j->Arr_0 => j->Arr_0@));
                    assert(decreases_to!(j->Arr_0@ => j->Arr_0@[k as int]));
                    assert(j->Arr_0@[k as int] == items@[k as int]);
                }
                let piece = clone_json(&items[k]);
                out.push(piece);
                k += 1;
            }
            proof {
                lemma_json_arr_view(out@, 0);
                lemma_json_arr_view(items@, 0);
                assert forall|t: int|
                    0 <= t < len implies json_arr_view(out@, 0)[t] == json_arr_view(
                    items@,
                    0,
                )[t] by {
                    assert(json_arr_view(out@, 0)[t] == json_view(out@[t]));
                    assert(json_arr_view(items@, 0)[t] == json_view(items@[t]));
                }
                assert(json_arr_view(out@, 0) =~= json_arr_view(items@, 0));
            }
            Json::Arr(out)
        },
        Json::Obj(fields) => {
            let mut out: Vec<(String, Json)> = Vec::new();
            let len = fields.len();
            let mut k: usize = 0;
            while k < len
                invariant
                    *j == Json::Obj(*fields),
                    k <= len,
                    len == fields@.len(),
                    out@.len() == k,
                    forall|t: int|
                        0 <= t < k ==> (#[trigger] out@[t]).0@ == fields@[t].0@ && json_view(
                            out@[t].1,
                        ) == json_view(fields@[t].1),
                decreases len - k,
            {
                proof {
                    assert(decreases_to!(*j => j->Obj_0));
                    assert(decreases_to!(j->Obj_0 => j->Obj_0@));
                    assert(decreases_to!(j->Obj_0@ => j->Obj_0@[k as int]));
                    assert(decreases_to!(j->Obj_0@[k as int] => j->Obj_0@[k as int].1));
                    assert(j->Obj_0@[k as int].1 == fields@[k as int].1);
                }
                let piece = clone_json(&fields[k].1);
                out.push((fields[k].0.clone(), piece));
                k += 1;
            }
            proof {
                lemma_json_obj_view(out@, 0);
                lemma_json_obj_view(fields@, 0);
                assert forall|t: int|
                    0 <= t < len implies json_obj_view(out@, 0)[t] == json_obj_view(
                    fields@,
                    0,
                )[t] by {
                    assert(json_obj_view(out@, 0)[t] == (out@[t].0@, json_view(out@[t].1)));
                    assert(json_obj_view(fields@, 0)[t] == (
                        fields@[t].0@,
                        json_view(fields@[t].1),
                    ));
                }
                assert(json_obj_view(out@, 0) =~= json_obj_view(fields@, 0));
            }
            Json::Obj(out)
        },
    }
}

#[verifier::external_type_specification]
#[verifier::external_body]
pub struct ExSerdeValue(serde_json::Value);

/// The JSON tree that serde_json's parser yields on `s`, `None` where `s` is
/// not a valid JSON document. The result depends on the text alone.
pub uninterp spec fn spec_parse_json(s: Seq<char>) -> Option<JsonV>;

/// Rebuilds serde_json's tree in the engine's model, variant for variant;
/// a number becomes its rendered numeral text.
#[verifier::external_body]
fn value_to_json(v: &serde_json::Value) -> Json {
    match v {
        serde_json::Value::Null => Json::Null,
        serde_json::Value::Bool(b) => Json::Bool(*b),
        serde_json::Value::Number(n) => Json::Num(n.to_string()),
        serde_json::Value::String(s) => Json::Str(s.clone()),
        serde_json::Value::Array(a) => Json::Arr(a.iter().map(value_to_json).collect()),
        serde_json::Value::Object(o) => Json::Obj(
            o.iter().map(|(k, x)| (k.clone(), value_to_json(x))).collect(),
        ),
    }
}

/// Relies on serde_json::from_str: parses one JSON document, rejecting
/// malformed text. The parser is deterministic in the text, and object
/// members are kept in the order serde_json's map yields them.
#[verifier::external_body]
pub(crate) fn parse_json(s: &str) -> (r: Option<Json>)
    ensures
        r is Some <==> spec_parse_json(s@) is Some,
        r is Some ==> (r->0)@ == spec_parse_json(s@)->0,
{
    match serde_json::from_str::<serde_json::Value>(s) {
        Ok(v) => Some(value_to_json(&v)),
        Err(_) => None,
    }
}

} // verus!
