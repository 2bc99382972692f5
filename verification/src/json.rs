//! A small JSON object model for response bodies, and a verified renderer
//! that produces the wire text: objects of string and unsigned-number fields,
//! with strings quoted and escaped.

use vstd::prelude::*;

verus! {

/// A JSON value as this service uses it: a string or an unsigned number.
pub enum JsonValue {
    Text(String),
    Number(u32),
}

/// One `"key": value` member of a JSON object.
pub struct JsonField {
    pub key: String,
    pub value: JsonValue,
}

/// A JSON object, its fields in rendering order.
pub struct JsonObject {
    pub fields: Vec<JsonField>,
}

/// Relies on `String::push`: appends the given character at the end of the
/// string, as its std documentation states.
pub assume_specification[ String::push ](s: &mut String, ch: char)
    ensures
        final(s)@ == old(s)@.push(ch),
;

/// The decimal digit `d` as a character, for `d < 10`.
pub open spec fn digit_char(d: int) -> char {
    if d == 0 { '0' }
    else if d == 1 { '1' }
    else if d == 2 { '2' }
    else if d == 3 { '3' }
    else if d == 4 { '4' }
    else if d == 5 { '5' }
    else if d == 6 { '6' }
    else if d == 7 { '7' }
    else if d == 8 { '8' }
    else { '9' }
}

/// The hexadecimal digit `d` as a lower-case character, for `d < 16`.
pub open spec fn hex_digit_char(d: int) -> char {
    if d < 10 { digit_char(d) }
    else if d == 10 { 'a' }
    else if d == 11 { 'b' }
    else if d == 12 { 'c' }
    else if d == 13 { 'd' }
    else if d == 14 { 'e' }
    else { 'f' }
}

/// The usual decimal rendering of `n`: no sign, no leading zeros (except for 0).
pub open spec fn dec_text(n: nat) -> Seq<char>
    decreases n,
{
    if n < 10 {
        seq![digit_char(n as int)]
    } else {
        dec_text(n / 10).push(digit_char((n % 10) as int))
    }
}

/// How one character appears inside a JSON string literal: quotes and
/// backslashes are escaped, control characters become `\u00xx`, and every
/// other character stands for itself.
pub open spec fn escape_char(c: char) -> Seq<char> {
    if c == '"' {
        seq!['\\', '"']
    } else if c == '\\' {
        seq!['\\', '\\']
    } else if (c as u32) < 32 {
        seq!['\\', 'u', '0', '0', hex_digit_char((c as u32 / 16) as int), hex_digit_char((c as u32 % 16) as int)]
    } else {
        seq![c]
    }
}

/// The body of a JSON string literal: each character escaped in order.
pub open spec fn escaped(s: Seq<char>) -> Seq<char>
    decreases s.len(),
{
    if s.len() == 0 {
        Seq::empty()
    } else {
        escaped(s.drop_last()) + escape_char(s.last())
    }
}

/// A JSON string literal: the escaped text between double quotes.
pub open spec fn quoted(s: Seq<char>) -> Seq<char> {
    seq!['"'] + escaped(s) + seq!['"']
}

/// The rendering of a single JSON value.
pub open spec fn value_text(v: JsonValue) -> Seq<char> {
    match v {
        JsonValue::Text(s) => quoted(s@),
        JsonValue::Number(n) => dec_text(n as nat),
    }
}

/// The rendering of one object member: quoted key, colon, value.
pub open spec fn field_text(f: JsonField) -> Seq<char> {
    quoted(f.key@) + seq![':'] + value_text(f.value)
}

/// The members of an object in order, separated by commas.
pub open spec fn fields_text(fs: Seq<JsonField>) -> Seq<char>
    decreases fs.len(),
{
    if fs.len() == 0 {
        Seq::empty()
    } else if fs.len() == 1 {
        field_text(fs.last())
    } else {
        fields_text(fs.drop_last()) + seq![','] + field_text(fs.last())
    }
}

/// The rendering of a whole object: its members between braces.
pub open spec fn object_text(obj: JsonObject) -> Seq<char> {
    seq!['{'] + fields_text(obj.fields@) + seq!['}']
}

/// Whether the object has a member under the given key.
pub open spec fn has_key(obj: JsonObject, k: Seq<char>) -> bool {
    exists|i: int| 0 <= i < obj.fields@.len() && obj.fields@[i].key@ == k
}

fn push_digit(out: &mut String, d: u32)
    requires
        d < 10,
    ensures
        final(out)@ == old(out)@.push(digit_char(d as int)),
{
    let c: char = if d == 0 { '0' }
    else if d == 1 { '1' }
    else if d == 2 { '2' }
    else if d == 3 { '3' }
    else if d == 4 { '4' }
    else if d == 5 { '5' }
    else if d == 6 { '6' }
    else if d == 7 { '7' }
    else if d == 8 { '8' }
    else { '9' };
    out.push(c);
}

fn push_hex_digit(out: &mut String, d: u32)
    requires
        d < 16,
    ensures
        final(out)@ == old(out)@.push(hex_digit_char(d as int)),
{
    if d < 10 {
        push_digit(out, d);
    } else {
        let c: char = if d == 10 { 'a' }
        else if d == 11 { 'b' }
        else if d == 12 { 'c' }
        else if d == 13 { 'd' }
        else if d == 14 { 'e' }
        else { 'f' };
        out.push(c);
    }
}

fn push_decimal(out: &mut String, n: u32)
    ensures
        final(out)@ == old(out)@ + dec_text(n as nat),
    decreases n,
{
    if n >= 10 {
        push_decimal(out, n / 10);
    }
    push_digit(out, n % 10);
    proof {
        if n < 10 {
            assert(out@ =~= old(out)@ + dec_text(n as nat));
        } else {
            assert(dec_text(n as nat) == dec_text(n as nat / 10).push(digit_char((n % 10) as int)));
            assert(out@ =~= old(out)@ + dec_text(n as nat));
        }
    }
}

fn push_escaped_char(out: &mut String, c: char)
    ensures
        final(out)@ == old(out)@ + escape_char(c),
{
    if c == '"' {
        out.push('\\');
        out.push('"');
    } else if c == '\\' {
        out.push('\\');
        out.push('\\');
    } else {
        let u: u32 = c as u32;
        if u < 32 {
            out.push('\\');
            out.push('u');
            out.push('0');
            out.push('0');
            push_hex_digit(out, u / 16);
            push_hex_digit(out, u % 16);
        } else {
            out.push(c);
        }
    }
    proof {
        assert(out@ =~= old(out)@ + escape_char(c));
    }
}

fn push_escaped(out: &mut String, s: &str)
    ensures
        final(out)@ == old(out)@ + escaped(s@),
{
    let n = s.unicode_len();
    let mut i: usize = 0;
    while i < n
        invariant
            n == s@.len(),
            i <= n,
            out@ == old(out)@ + escaped(s@.take(i as int)),
        decreases n - i,
    {
        let c = s.get_char(i);
        push_escaped_char(out, c);
        proof {
            assert(s@.take(i + 1).drop_last() =~= s@.take(i as int));
            assert(s@.take(i + 1).last() == c);
            assert(out@ =~= old(out)@ + escaped(s@.take(i + 1)));
        }
        i = i + 1;
    }
    proof {
        assert(s@.take(n as int) =~= s@);
    }
}

fn push_quoted(out: &mut String, s: &str)
    ensures
        final(out)@ == old(out)@ + quoted(s@),
{
    out.push('"');
    push_escaped(out, s);
    out.push('"');
    proof {
        assert(out@ =~= old(out)@ + quoted(s@));
    }
}

/// Renders the object as JSON text, exactly as `object_text` describes it.
pub fn render_object(obj: &JsonObject) -> (r: String)
    ensures
        r@ == object_text(*obj),
{
    let mut out = String::new();
    out.push('{');
    let n = obj.fields.len();
    let mut i: usize = 0;
    while i < n
        invariant
            n == obj.fields@.len(),
            i <= n,
            out@ == seq!['{'] + fields_text(obj.fields@.take(i as int)),
        decreases n - i,
    {
        if i > 0 {
            out.push(',');
        }
        let f = &obj.fields[i];
        push_quoted(&mut out, f.key.as_str());
        out.push(':');
        match &f.value {
            JsonValue::Text(s) => push_quoted(&mut out, s.as_str()),
            JsonValue::Number(v) => push_decimal(&mut out, *v),
        }
        proof {
            let fs = obj.fields@;
            assert(fs.take(i + 1).drop_last() =~= fs.take(i as int));
            assert(fs.take(i + 1).last() == fs[i as int]);
            assert(out@ =~= seq!['{'] + fields_text(fs.take(i + 1)));
        }
        i = i + 1;
    }
    out.push('}');
    proof {
        assert(obj.fields@.take(n as int) =~= obj.fields@);
        assert(out@ =~= object_text(*obj));
    }
    out
}

} // verus!
