//! A plain model of JSON documents, with a verified renderer and a trusted
//! parser.
//!
//! Installer payloads, configuration patches, secrets stores and the bootstrap
//! state record are all JSON documents.  The logic of this crate works on
//! [`JsonValue`]; contracts speak of its mathematical image [`JsonSpec`]
//! (reached by [`json_view`]).  Rendering to text is verified against
//! [`spec_json_text`], while parsing text is a single trusted call into
//! `serde_json` whose result is only known by the name [`json_of`].

use vstd::prelude::*;
use crate::strutil::{digit_char, push_char, str_eq};

verus! {

/// A JSON document as plain data.
///
/// Numbers keep their decimal literal text: no component of this crate
/// computes with them, they are carried through verbatim.  Object fields keep
/// their order; a lookup takes the first binding of a key.
#[derive(Debug)]
pub enum JsonValue {
    Null,
    Bool(bool),
    Num(String),
    Str(String),
    Arr(Vec<JsonValue>),
    Obj(Vec<(String, JsonValue)>),
}

/// The mathematical image of a JSON document: the same tree over `Seq`,
/// where equality is structural.
#[verifier::ext_equal]
pub enum JsonSpec {
    Null,
    Bool(bool),
    Num(Seq<char>),
    Str(Seq<char>),
    Arr(Seq<JsonSpec>),
    Obj(Seq<(Seq<char>, JsonSpec)>),
}

/// The mathematical image of a document.
pub open spec fn json_view(v: JsonValue) -> JsonSpec
    decreases v,
{
    match v {
        JsonValue::Null => JsonSpec::Null,
        JsonValue::Bool(b) => JsonSpec::Bool(b),
        JsonValue::Num(text) => JsonSpec::Num(text@),
        JsonValue::Str(text) => JsonSpec::Str(text@),
        JsonValue::Arr(items) => JsonSpec::Arr(json_view_list(items@)),
        JsonValue::Obj(fields) => JsonSpec::Obj(json_view_fields(fields@)),
    }
}

/// The images of a list of documents, in order.
pub open spec fn json_view_list(items: Seq<JsonValue>) -> Seq<JsonSpec>
    decreases items,
{
    if items.len() == 0 {
        Seq::<JsonSpec>::empty()
    } else {
        seq![json_view(items[0])] + json_view_list(items.drop_first())
    }
}

/// The images of a list of fields, in order.
pub open spec fn json_view_fields(fields: Seq<(String, JsonValue)>) -> Seq<(Seq<char>, JsonSpec)>
    decreases fields,
{
    if fields.len() == 0 {
        Seq::<(Seq<char>, JsonSpec)>::empty()
    } else {
        seq![(fields[0].0@, json_view(fields[0].1))] + json_view_fields(fields.drop_first())
    }
}

pub broadcast proof fn lemma_json_view_list(items: Seq<JsonValue>)
    ensures
        (#[trigger] json_view_list(items)).len() == items.len(),
        forall|i: int|
            0 <= i < items.len() ==> json_view_list(items)[i] == json_view(items[i]),
    decreases items,
{
    if items.len() > 0 {
        lemma_json_view_list(items.drop_first());
        assert forall|i: int| 0 <= i < items.len() implies json_view_list(items)[i] == json_view(
            items[i],
        ) by {
            if i > 0 {
                assert(json_view_list(items.drop_first())[i - 1] == json_view(
                    items.drop_first()[i - 1],
                ));
            }
        };
    }
}

pub broadcast proof fn lemma_json_view_fields(fields: Seq<(String, JsonValue)>)
    ensures
        (#[trigger] json_view_fields(fields)).len() == fields.len(),
        forall|i: int|
            0 <= i < fields.len() ==> json_view_fields(fields)[i] == (
            fields[i].0@,
            json_view(fields[i].1),
            ),
    decreases fields,
{
    if fields.len() > 0 {
        lemma_json_view_fields(fields.drop_first());
        assert forall|i: int| 0 <= i < fields.len() implies json_view_fields(fields)[i] == (
        fields[i].0@,
        json_view(fields[i].1),
        ) by {
            if i > 0 {
                assert(json_view_fields(fields.drop_first())[i - 1] == (
                fields.drop_first()[i - 1].0@,
                json_view(fields.drop_first()[i - 1].1),
                ));
            }
        };
    }
}

/// Lower-case hexadecimal digit for a value below sixteen.
pub open spec fn hex_digit(n: nat) -> char {
    if n < 10 {
        digit_char(n)
    } else {
        ((97 + (n - 10)) as char)
    }
}

/// The escape sequence a character renders as inside a JSON string literal.
pub open spec fn spec_escape_char(c: char) -> Seq<char> {
    if c == '"' {
        seq!['\\', '"']
    } else if c == '\\' {
        seq!['\\', '\\']
    } else if c == '\n' {
        seq!['\\', 'n']
    } else if c == '\r' {
        seq!['\\', 'r']
    } else if c == '\t' {
        seq!['\\', 't']
    } else if (c as u32) < 32 {
        seq!['\\', 'u', '0', '0', hex_digit(((c as u32) / 16) as nat), hex_digit(
            ((c as u32) % 16) as nat,
        )]
    } else {
        seq![c]
    }
}

/// The body of a JSON string literal for the text `s`.
pub open spec fn spec_escape(s: Seq<char>) -> Seq<char>
    decreases s.len(),
{
    if s.len() == 0 {
        Seq::<char>::empty()
    } else {
        spec_escape_char(s[0]) + spec_escape(s.drop_first())
    }
}

proof fn lemma_escape_push(s: Seq<char>, c: char)
    ensures
        spec_escape(s.push(c)) == spec_escape(s) + spec_escape_char(c),
    decreases s.len(),
{
    if s.len() == 0 {
        reveal_with_fuel(spec_escape, 3);
        assert(s.push(c)[0] == c);
        assert(s.push(c).drop_first() =~= Seq::<char>::empty());
        assert(spec_escape(s.push(c)) =~= spec_escape_char(c));
        assert(spec_escape(s) + spec_escape_char(c) =~= spec_escape_char(c));
    } else {
        lemma_escape_push(s.drop_first(), c);
        assert(s.push(c)[0] == s[0]);
        assert(s.push(c).drop_first() =~= s.drop_first().push(c));
        assert(spec_escape(s.push(c)) =~= spec_escape_char(s[0]) + spec_escape(
            s.drop_first().push(c),
        ));
        assert(spec_escape_char(s[0]) + (spec_escape(s.drop_first()) + spec_escape_char(c)) =~= (
        spec_escape_char(s[0]) + spec_escape(s.drop_first())) + spec_escape_char(c));
    }
}

/// The rendered text of a JSON document: compact, with fields in order and
/// only the escapes of [`spec_escape_char`].
pub open spec fn spec_json_text(v: JsonSpec) -> Seq<char>
    decreases v,
{
    match v {
        JsonSpec::Null => "null"@,
        JsonSpec::Bool(b) => if b {
            "true"@
        } else {
            "false"@
        },
        JsonSpec::Num(text) => text,
        JsonSpec::Str(text) => seq!['"'] + spec_escape(text) + seq!['"'],
        JsonSpec::Arr(items) => seq!['['] + spec_arr_text(items) + seq![']'],
        JsonSpec::Obj(fields) => seq!['{'] + spec_obj_text(fields) + seq!['}'],
    }
}

/// The comma-joined texts of array items.
pub open spec fn spec_arr_text(items: Seq<JsonSpec>) -> Seq<char>
    decreases items,
{
    if items.len() == 0 {
        Seq::<char>::empty()
    } else if items.len() == 1 {
        spec_json_text(items[0])
    } else {
        spec_json_text(items[0]) + seq![','] + spec_arr_text(items.drop_first())
    }
}

/// The comma-joined texts of object fields.
pub open spec fn spec_obj_text(fields: Seq<(Seq<char>, JsonSpec)>) -> Seq<char>
    decreases fields,
{
    if fields.len() == 0 {
        Seq::<char>::empty()
    } else if fields.len() == 1 {
        seq!['"'] + spec_escape(fields[0].0) + seq!['"', ':'] + spec_json_text(fields[0].1)
    } else {
        seq!['"'] + spec_escape(fields[0].0) + seq!['"', ':'] + spec_json_text(fields[0].1)
            + seq![','] + spec_obj_text(fields.drop_first())
    }
}

/// The text of one object field.
pub open spec fn spec_field_text(key: Seq<char>, v: JsonSpec) -> Seq<char> {
    seq!['"'] + spec_escape(key) + seq!['"', ':'] + spec_json_text(v)
}

proof fn lemma_arr_text_push(items: Seq<JsonSpec>, x: JsonSpec)
    ensures
        items.len() == 0 ==> spec_arr_text(items.push(x)) == spec_json_text(x),
        items.len() > 0 ==> spec_arr_text(items.push(x)) == spec_arr_text(items) + seq![',']
            + spec_json_text(x),
    decreases items.len(),
{
    if items.len() == 0 {
        assert(items.push(x)[0] == x);
        assert(items.push(x).len() == 1);
    } else {
        lemma_arr_text_push(items.drop_first(), x);
        assert(items.push(x).drop_first() =~= items.drop_first().push(x));
        assert(items.push(x)[0] == items[0]);
        if items.len() == 1 {
            assert(spec_arr_text(items.push(x)) =~= spec_json_text(items[0]) + seq![',']
                + spec_json_text(x));
            assert(spec_arr_text(items) == spec_json_text(items[0]));
        } else {
            assert(spec_arr_text(items.push(x)) =~= spec_json_text(items[0]) + seq![','] + (
            spec_arr_text(items.drop_first()) + seq![','] + spec_json_text(x)));
            assert(spec_json_text(items[0]) + seq![','] + (spec_arr_text(items.drop_first())
                + seq![','] + spec_json_text(x)) =~= (spec_json_text(items[0]) + seq![',']
                + spec_arr_text(items.drop_first())) + seq![','] + spec_json_text(x));
        }
    }
}

proof fn lemma_obj_text_push(fields: Seq<(Seq<char>, JsonSpec)>, k: Seq<char>, x: JsonSpec)
    ensures
        fields.len() == 0 ==> spec_obj_text(fields.push((k, x))) == spec_field_text(k, x),
        fields.len() > 0 ==> spec_obj_text(fields.push((k, x))) == spec_obj_text(fields)
            + seq![','] + spec_field_text(k, x),
    decreases fields.len(),
{
    if fields.len() == 0 {
        assert(fields.push((k, x))[0] == (k, x));
        assert(fields.push((k, x)).len() == 1);
    } else {
        lemma_obj_text_push(fields.drop_first(), k, x);
        assert(fields.push((k, x)).drop_first() =~= fields.drop_first().push((k, x)));
        assert(fields.push((k, x))[0] == fields[0]);
        if fields.len() == 1 {
            assert(spec_obj_text(fields.push((k, x))) =~= spec_field_text(fields[0].0, fields[0].1)
                + seq![','] + spec_field_text(k, x));
            assert(spec_obj_text(fields) == spec_field_text(fields[0].0, fields[0].1));
        } else {
            assert(spec_obj_text(fields.push((k, x))) =~= spec_field_text(fields[0].0, fields[0].1)
                + seq![','] + (spec_obj_text(fields.drop_first()) + seq![','] + spec_field_text(
                k,
                x,
            )));
            assert(spec_field_text(fields[0].0, fields[0].1) + seq![','] + (spec_obj_text(
                fields.drop_first(),
            ) + seq![','] + spec_field_text(k, x)) =~= (spec_field_text(fields[0].0, fields[0].1)
                + seq![','] + spec_obj_text(fields.drop_first())) + seq![','] + spec_field_text(
                k,
                x,
            ));
        }
    }
}

/// Appends the JSON string literal for `text` (quotes included) to `out`.
fn append_string_literal(out: &mut String, text: &str)
    ensures
        final(out)@ == old(out)@ + seq!['"'] + spec_escape(text@) + seq!['"'],
{
    push_char(out, '"');
    let n: usize = text.unicode_len();
    let mut i: usize = 0;
    while i < n
        invariant
            i <= n,
            n == text@.len(),
            out@ == old(out)@ + seq!['"'] + spec_escape(text@.subrange(0, i as int)),
        decreases n - i,
    {
        let c = text.get_char(i);
        if c == '"' {
            push_char(out, '\\');
            push_char(out, '"');
        } else if c == '\\' {
            push_char(out, '\\');
            push_char(out, '\\');
        } else if c == '\n' {
            push_char(out, '\\');
            push_char(out, 'n');
        } else if c == '\r' {
            push_char(out, '\\');
            push_char(out, 'r');
        } else if c == '\t' {
            push_char(out, '\\');
            push_char(out, 't');
        } else if (c as u32) < 32 {
            push_char(out, '\\');
            push_char(out, 'u');
            push_char(out, '0');
            push_char(out, '0');
            let hi: u32 = (c as u32) / 16;
            let lo: u32 = (c as u32) % 16;
            let hic: char = if hi < 10 {
                ((48 + hi as u8) as char)
            } else {
                ((97 + (hi as u8 - 10)) as char)
            };
            let loc: char = if lo < 10 {
                ((48 + lo as u8) as char)
            } else {
                ((97 + (lo as u8 - 10)) as char)
            };
            push_char(out, hic);
            push_char(out, loc);
            assert(hic == hex_digit(((c as u32) / 16) as nat));
            assert(loc == hex_digit(((c as u32) % 16) as nat));
        } else {
            push_char(out, c);
        }
        proof {
            lemma_escape_push(text@.subrange(0, i as int), text@[i as int]);
            assert(text@.subrange(0, i + 1) =~= text@.subrange(0, i as int).push(text@[i as int]));
            assert(out@ =~= old(out)@ + seq!['"'] + spec_escape(text@.subrange(0, i + 1)));
        }
        i = i + 1;
    }
    assert(text@.subrange(0, n as int) =~= text@);
    push_char(out, '"');
    assert(out@ =~= old(out)@ + seq!['"'] + spec_escape(text@) + seq!['"']);
}

/// Appends `v`'s rendered text to `out`.
#[verifier::loop_isolation(false)]
fn append_json(out: &mut String, v: &JsonValue)
    ensures
        final(out)@ == old(out)@ + spec_json_text(json_view(*v)),
    decreases *v,
{
    broadcast use lemma_json_view_list, lemma_json_view_fields;

    match v {
        JsonValue::Null => {
            push_char(out, 'n');
            push_char(out, 'u');
            push_char(out, 'l');
            push_char(out, 'l');
            proof {
                reveal_strlit("null");
                assert(out@ =~= old(out)@ + "null"@);
            }
        },
        JsonValue::Bool(b) => {
            if *b {
                push_char(out, 't');
                push_char(out, 'r');
                push_char(out, 'u');
                push_char(out, 'e');
                proof {
                    reveal_strlit("true");
                    assert(out@ =~= old(out)@ + "true"@);
                }
            } else {
                push_char(out, 'f');
                push_char(out, 'a');
                push_char(out, 'l');
                push_char(out, 's');
                push_char(out, 'e');
                proof {
                    reveal_strlit("false");
                    assert(out@ =~= old(out)@ + "false"@);
                }
            }
        },
        JsonValue::Num(text) => {
            out.append(text.as_str());
        },
        JsonValue::Str(text) => {
            append_string_literal(out, text.as_str());
        },
        JsonValue::Arr(items) => {
            push_char(out, '[');
            let ghost gitems = json_view_list(items@);
            let n = items.len();
            let mut i: usize = 0;
            while i < n
                invariant
                    i <= n,
                    n == items@.len(),
                    gitems == json_view_list(items@),
                    gitems.len() == n,
                    out@ == old(out)@ + seq!['['] + spec_arr_text(gitems.subrange(0, i as int)),
                decreases n - i,
            {
                broadcast use lemma_json_view_list;

                if i > 0 {
                    push_char(out, ',');
                }
                proof {
                    assert(decreases_to!(*v => (*v)->Arr_0));
                    assert((*v)->Arr_0 == *items);
                    assert(decreases_to!(*items => items@[i as int]));
                }
                append_json(out, &items[i]);
                proof {
                    lemma_arr_text_push(gitems.subrange(0, i as int), gitems[i as int]);
                    assert(gitems.subrange(0, i + 1) =~= gitems.subrange(0, i as int).push(
                        gitems[i as int],
                    ));
                    assert(gitems[i as int] == json_view(items@[i as int]));
                    assert(out@ =~= old(out)@ + seq!['['] + spec_arr_text(
                        gitems.subrange(0, i + 1),
                    ));
                }
                i = i + 1;
            }
            assert(gitems.subrange(0, n as int) =~= gitems);
            push_char(out, ']');
            assert(out@ =~= old(out)@ + spec_json_text(json_view(*v)));
        },
        JsonValue::Obj(fields) => {
            push_char(out, '{');
            let ghost gfields = json_view_fields(fields@);
            let n = fields.len();
            let mut i: usize = 0;
            while i < n
                invariant
                    i <= n,
                    n == fields@.len(),
                    gfields == json_view_fields(fields@),
                    gfields.len() == n,
                    out@ == old(out)@ + seq!['{'] + spec_obj_text(gfields.subrange(0, i as int)),
                decreases n - i,
            {
                broadcast use lemma_json_view_fields;

                if i > 0 {
                    push_char(out, ',');
                }
                append_string_literal(out, fields[i].0.as_str());
                push_char(out, ':');
                proof {
                    assert(decreases_to!(*v => (*v)->Obj_0));
                    assert((*v)->Obj_0 == *fields);
                    assert(decreases_to!(*fields => fields@[i as int]));
                    assert(decreases_to!(fields@[i as int] => fields@[i as int].1));
                }
                append_json(out, &fields[i].1);
                proof {
                    lemma_obj_text_push(
                        gfields.subrange(0, i as int),
                        gfields[i as int].0,
                        gfields[i as int].1,
                    );
                    assert(gfields.subrange(0, i + 1) =~= gfields.subrange(0, i as int).push(
                        gfields[i as int],
                    ));
                    assert(gfields[i as int] == (fields@[i as int].0@, json_view(
                        fields@[i as int].1,
                    )));
                    assert(out@ =~= old(out)@ + seq!['{'] + spec_obj_text(
                        gfields.subrange(0, i + 1),
                    ));
                }
                i = i + 1;
            }
            assert(gfields.subrange(0, n as int) =~= gfields);
            push_char(out, '}');
            assert(out@ =~= old(out)@ + spec_json_text(json_view(*v)));
        },
    }
}

/// Renders a JSON document as compact text.
pub fn json_to_string(v: &JsonValue) -> (r: String)
    ensures
        r@ == spec_json_text(json_view(*v)),
{
    let mut out = String::new();
    append_json(&mut out, v);
    out
}

/// A structurally equal copy of a JSON document.
#[verifier::loop_isolation(false)]
fn clone_json(v: &JsonValue) -> (r: JsonValue)
    ensures
        json_view(r) == json_view(*v),
    decreases *v,
{
    broadcast use lemma_json_view_list, lemma_json_view_fields;

    match v {
        JsonValue::Null => JsonValue::Null,
        JsonValue::Bool(b) => JsonValue::Bool(*b),
        JsonValue::Num(text) => JsonValue::Num(text.clone()),
        JsonValue::Str(text) => JsonValue::Str(text.clone()),
        JsonValue::Arr(items) => {
            let n = items.len();
            let mut copies: Vec<JsonValue> = Vec::new();
            let mut i: usize = 0;
            while i < n
                invariant
                    i <= n,
                    n == items@.len(),
                    json_view_list(copies@) =~= json_view_list(items@).subrange(0, i as int),
                decreases n - i,
            {
                broadcast use lemma_json_view_list;

                proof {
                    assert(decreases_to!(*v => (*v)->Arr_0));
                    assert((*v)->Arr_0 == *items);
                    assert(decreases_to!(*items => items@[i as int]));
                }
                let ghost old_copies = copies@;
                let c = clone_json(&items[i]);
                copies.push(c);
                proof {
                    lemma_view_list_push(old_copies, c);
                    assert(json_view_list(copies@) =~= json_view_list(items@).subrange(0, i + 1));
                }
                i = i + 1;
            }
            assert(json_view_list(items@).subrange(0, n as int) =~= json_view_list(items@));
            JsonValue::Arr(copies)
        },
        JsonValue::Obj(fields) => {
            let n = fields.len();
            let mut copies: Vec<(String, JsonValue)> = Vec::new();
            let mut i: usize = 0;
            while i < n
                invariant
                    i <= n,
                    n == fields@.len(),
                    json_view_fields(copies@) =~= json_view_fields(fields@).subrange(0, i as int),
                decreases n - i,
            {
                broadcast use lemma_json_view_fields;

                proof {
                    assert(decreases_to!(*v => (*v)->Obj_0));
                    assert((*v)->Obj_0 == *fields);
                    assert(decreases_to!(*fields => fields@[i as int]));
                    assert(decreases_to!(fields@[i as int] => fields@[i as int].1));
                }
                let ghost old_copies = copies@;
                let k = fields[i].0.clone();
                let c = clone_json(&fields[i].1);
                copies.push((k, c));
                proof {
                    lemma_view_fields_push(old_copies, k, c);
                    assert(json_view_fields(copies@) =~= json_view_fields(fields@).subrange(
                        0,
                        i + 1,
                    ));
                }
                i = i + 1;
            }
            assert(json_view_fields(fields@).subrange(0, n as int) =~= json_view_fields(fields@));
            JsonValue::Obj(copies)
        },
    }
}

pub proof fn lemma_view_list_push(items: Seq<JsonValue>, x: JsonValue)
    ensures
        json_view_list(items.push(x)) == json_view_list(items).push(json_view(x)),
{
    broadcast use lemma_json_view_list;

    assert forall|i: int| 0 <= i < items.len() + 1 implies json_view_list(items.push(x))[i]
        == json_view_list(items).push(json_view(x))[i] by {
        assert(json_view_list(items.push(x))[i] == json_view(items.push(x)[i]));
    };
    assert(json_view_list(items.push(x)) =~= json_view_list(items).push(json_view(x)));
}

pub proof fn lemma_view_fields_push(fields: Seq<(String, JsonValue)>, k: String, x: JsonValue)
    ensures
        json_view_fields(fields.push((k, x))) == json_view_fields(fields).push(
            (k@, json_view(x)),
        ),
{
    broadcast use lemma_json_view_fields;

    assert forall|i: int| 0 <= i < fields.len() + 1 implies json_view_fields(fields.push((k, x)))[i]
        == json_view_fields(fields).push((k@, json_view(x)))[i] by {
        assert(json_view_fields(fields.push((k, x)))[i] == (
        fields.push((k, x))[i].0@,
        json_view(fields.push((k, x))[i].1),
        ));
    };
    assert(json_view_fields(fields.push((k, x))) =~= json_view_fields(fields).push(
        (k@, json_view(x)),
    ));
}

impl Clone for JsonValue {
    /// A clone has the same mathematical image as the original.
    fn clone(&self) -> (r: Self)
        ensures
            json_view(r) == json_view(*self),
    {
        clone_json(self)
    }
}

/// The first binding of `key` among `fields`, if any.
pub open spec fn spec_fields_get(fields: Seq<(Seq<char>, JsonSpec)>, key: Seq<char>) -> Option<
    JsonSpec,
>
    decreases fields,
{
    if fields.len() == 0 {
        Option::None
    } else if fields[0].0 == key {
        Option::Some(fields[0].1)
    } else {
        spec_fields_get(fields.drop_first(), key)
    }
}

/// Object lookup: the first binding of `key` if `v` is an object, `None`
/// otherwise.
pub open spec fn spec_json_get(v: JsonSpec, key: Seq<char>) -> Option<JsonSpec> {
    match v {
        JsonSpec::Obj(fields) => spec_fields_get(fields, key),
        _ => Option::None,
    }
}

impl JsonValue {
    /// Looks `key` up among this document's fields; `None` on non-objects.
    #[verifier::loop_isolation(false)]
    pub fn get<'a>(&'a self, key: &str) -> (r: Option<&'a JsonValue>)
        ensures
            match r {
                Option::Some(found) => spec_json_get(json_view(*self), key@) == Option::Some(
                    json_view(*found),
                ),
                Option::None => spec_json_get(json_view(*self), key@) == Option::<JsonSpec>::None,
            },
    {
        broadcast use lemma_json_view_fields;

        match self {
            JsonValue::Obj(fields) => {
                let ghost gfields = json_view_fields(fields@);
                let n = fields.len();
                let mut i: usize = 0;
                assert(gfields.subrange(0, n as int) =~= gfields);
                while i < n
                    invariant
                        i <= n,
                        n == fields@.len(),
                        gfields == json_view_fields(fields@),
                        gfields.len() == n,
                        spec_fields_get(gfields, key@) == spec_fields_get(
                            gfields.subrange(i as int, n as int),
                            key@,
                        ),
                    decreases n - i,
                {
                    broadcast use lemma_json_view_fields;

                    let ghost rest = gfields.subrange(i as int, n as int);
                    assert(rest[0] == gfields[i as int]);
                    assert(rest.drop_first() =~= gfields.subrange(i + 1, n as int));
                    if str_eq(fields[i].0.as_str(), key) {
                        assert(gfields[i as int].0 == key@);
                        assert(spec_fields_get(rest, key@) == Option::Some(rest[0].1));
                        assert(json_view(fields@[i as int].1) == gfields[i as int].1);
                        return Option::Some(&fields[i].1);
                    }
                    assert(gfields[i as int].0 != key@);
                    i = i + 1;
                }
                assert(gfields.subrange(n as int, n as int) =~= Seq::<(Seq<char>, JsonSpec)>::empty());
                Option::None
            },
            _ => Option::None,
        }
    }

    /// The text of a string document; `None` on every other kind.
    pub fn as_text<'a>(&'a self) -> (r: Option<&'a String>)
        ensures
            match r {
                Option::Some(text) => json_view(*self) == JsonSpec::Str(text@),
                Option::None => !(json_view(*self) is Str),
            },
    {
        match self {
            JsonValue::Str(text) => Option::Some(text),
            _ => Option::None,
        }
    }
}

#[verifier::external_type_specification]
#[verifier::external_body]
pub struct ExSerdeValue(serde_json::Value);

/// What `serde_json` parses the bytes to, carried over field by field into
/// [`JsonValue`]: a function of the bytes alone.
pub uninterp spec fn json_of(bytes: Seq<u8>) -> Option<JsonSpec>;

/// Carries a parsed `serde_json` document over into [`JsonValue`], variant by
/// variant; numbers keep their rendered text.
#[verifier::external_body]
fn json_from_serde(v: serde_json::Value) -> JsonValue {
    match v {
        serde_json::Value::Null => JsonValue::Null,
        serde_json::Value::Bool(b) => JsonValue::Bool(b),
        serde_json::Value::Number(n) => JsonValue::Num(n.to_string()),
        serde_json::Value::String(text) => JsonValue::Str(text),
        serde_json::Value::Array(items) => JsonValue::Arr(
            items.into_iter().map(json_from_serde).collect(),
        ),
        serde_json::Value::Object(fields) => JsonValue::Obj(
            fields.into_iter().map(|entry| (entry.0, json_from_serde(entry.1))).collect(),
        ),
    }
}

/// Relies on `serde_json::from_slice`: whether the bytes are a JSON document,
/// and which one, depends on the bytes alone.
#[verifier::external_body]
fn parse_json_trusted(bytes: &[u8]) -> (r: Option<JsonValue>)
    ensures
        match r {
            Option::Some(v) => json_of(bytes@) == Option::Some(json_view(v)),
            Option::None => json_of(bytes@) == Option::<JsonSpec>::None,
        },
{
    match serde_json::from_slice::<serde_json::Value>(bytes) {
        Ok(v) => Some(json_from_serde(v)),
        Err(_) => None,
    }
}

/// Parses JSON text; `None` when the bytes are not a JSON document.
pub fn parse_json(bytes: &[u8]) -> (r: Option<JsonValue>)
    ensures
        match r {
            Option::Some(v) => json_of(bytes@) == Option::Some(json_view(v)),
            Option::None => json_of(bytes@) == Option::<JsonSpec>::None,
        },
{
    parse_json_trusted(bytes)
}


/// The fields after binding `key` to `value`: updated in place when the key
/// is present, appended otherwise.
pub open spec fn spec_obj_insert(
    fields: Seq<(Seq<char>, JsonSpec)>,
    key: Seq<char>,
    value: JsonSpec,
) -> Seq<(Seq<char>, JsonSpec)>
    decreases fields,
{
    if fields.len() == 0 {
        seq![(key, value)]
    } else if fields[0].0 == key {
        seq![(key, value)] + fields.drop_first()
    } else {
        seq![fields[0]] + spec_obj_insert(fields.drop_first(), key, value)
    }
}

/// Inserting over the first binding of `key` updates it in place.
proof fn lemma_obj_insert_at(
    fields: Seq<(Seq<char>, JsonSpec)>,
    key: Seq<char>,
    value: JsonSpec,
    at: int,
)
    requires
        0 <= at < fields.len(),
        fields[at].0 == key,
        forall|j: int| 0 <= j < at ==> fields[j].0 != key,
    ensures
        spec_obj_insert(fields, key, value) == fields.update(at, (key, value)),
    decreases at,
{
    if at == 0 {
        assert(spec_obj_insert(fields, key, value) =~= fields.update(0, (key, value)));
    } else {
        lemma_obj_insert_at(fields.drop_first(), key, value, at - 1);
        assert(spec_obj_insert(fields, key, value) =~= seq![fields[0]]
            + fields.drop_first().update(at - 1, (key, value)));
        assert(seq![fields[0]] + fields.drop_first().update(at - 1, (key, value)) =~= fields.update(
            at,
            (key, value),
        ));
    }
}

/// Inserting an absent key appends it.
proof fn lemma_obj_insert_absent(fields: Seq<(Seq<char>, JsonSpec)>, key: Seq<char>, value: JsonSpec)
    requires
        forall|j: int| 0 <= j < fields.len() ==> fields[j].0 != key,
    ensures
        spec_obj_insert(fields, key, value) == fields.push((key, value)),
    decreases fields.len(),
{
    if fields.len() == 0 {
        assert(spec_obj_insert(fields, key, value) =~= fields.push((key, value)));
    } else {
        lemma_obj_insert_absent(fields.drop_first(), key, value);
        assert(spec_obj_insert(fields, key, value) =~= seq![fields[0]]
            + fields.drop_first().push((key, value)));
        assert(seq![fields[0]] + fields.drop_first().push((key, value)) =~= fields.push(
            (key, value),
        ));
    }
}

/// Binds `key` to `value` among object fields, replacing the first earlier
/// binding or appending a new one.
#[verifier::loop_isolation(false)]
pub fn obj_insert(fields: &mut Vec<(String, JsonValue)>, key: &str, value: JsonValue)
    ensures
        json_view_fields(final(fields)@) == spec_obj_insert(
            json_view_fields(old(fields)@),
            key@,
            json_view(value),
        ),
{
    broadcast use lemma_json_view_fields;

    let n = fields.len();
    let mut i: usize = 0;
    while i < n
        invariant
            i <= n,
            n == fields@.len(),
            fields@ == old(fields)@,
            forall|j: int| 0 <= j < i ==> json_view_fields(fields@)[j].0 != key@,
        decreases n - i,
    {
        assert(json_view_fields(fields@)[i as int] == (
        fields@[i as int].0@,
        json_view(fields@[i as int].1),
        ));
        if str_eq(fields[i].0.as_str(), key) {
            let ghost gkey = key@;
            let ghost gvalue = json_view(value);
            fields.set(i, (String::from_str(key), value));
            proof {
                lemma_obj_insert_at(json_view_fields(old(fields)@), gkey, gvalue, i as int);
                assert forall|j: int| 0 <= j < json_view_fields(fields@).len() implies
                    json_view_fields(fields@)[j] == json_view_fields(old(fields)@).update(
                    i as int,
                    (gkey, gvalue),
                )[j] by {
                    assert(json_view_fields(fields@)[j] == (
                    fields@[j].0@,
                    json_view(fields@[j].1),
                    ));
                    assert(json_view_fields(old(fields)@)[j] == (
                    old(fields)@[j].0@,
                    json_view(old(fields)@[j].1),
                    ));
                };
                assert(json_view_fields(fields@) =~= json_view_fields(old(fields)@).update(
                    i as int,
                    (gkey, gvalue),
                ));
            }
            return ;
        }
        i = i + 1;
    }
    let ghost gkey = key@;
    let ghost gvalue = json_view(value);
    let ghost before = fields@;
    fields.push((String::from_str(key), value));
    proof {
        lemma_obj_insert_absent(json_view_fields(before), gkey, gvalue);
        assert forall|j: int| 0 <= j < fields@.len() implies json_view_fields(fields@)[j]
            == json_view_fields(before).push((gkey, gvalue))[j] by {
            assert(json_view_fields(fields@)[j] == (fields@[j].0@, json_view(fields@[j].1)));
            if j < before.len() {
                assert(fields@[j] == before[j]);
                assert(json_view_fields(before)[j] == (before[j].0@, json_view(before[j].1)));
            }
        };
        assert(json_view_fields(fields@) =~= json_view_fields(before).push((gkey, gvalue)));
    }
}


/// What a lookup finds after one binding: the new value under its key,
/// everything else untouched.
pub proof fn lemma_obj_insert_get(
    fields: Seq<(Seq<char>, JsonSpec)>,
    key: Seq<char>,
    value: JsonSpec,
    probe: Seq<char>,
)
    ensures
        spec_fields_get(spec_obj_insert(fields, key, value), probe) == (if probe == key {
            Option::Some(value)
        } else {
            spec_fields_get(fields, probe)
        }),
    decreases fields,
{
    if fields.len() == 0 {
        assert(spec_obj_insert(fields, key, value) =~= seq![(key, value)]);
        reveal_with_fuel(spec_fields_get, 3);
    } else if fields[0].0 == key {
        let inserted = spec_obj_insert(fields, key, value);
        assert(inserted =~= seq![(key, value)] + fields.drop_first());
        assert(inserted[0] == (key, value));
        assert(inserted.drop_first() =~= fields.drop_first());
    } else {
        lemma_obj_insert_get(fields.drop_first(), key, value, probe);
        let inserted = spec_obj_insert(fields, key, value);
        assert(inserted =~= seq![fields[0]] + spec_obj_insert(fields.drop_first(), key, value));
        assert(inserted[0] == fields[0]);
        assert(inserted.drop_first() =~= spec_obj_insert(fields.drop_first(), key, value));
    }
}

} // verus!
