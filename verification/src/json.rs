//! Writing JSON text: string escaping and `"key":value,` fields.
use vstd::prelude::*;

use crate::text::{chars_of, push_char};

verus! {

/// How one character is written inside a JSON string.
pub open spec fn escape_json_char(c: char) -> Seq<char> {
    if c == '"' {
        seq!['\\', '"']
    } else if c == '\\' {
        seq!['\\', '\\']
    } else if c == '\n' {
        seq!['\\', 'n']
    } else if c == '\r' {
        seq!['\\', 'r']
    } else if c == '\t' {
        seq!['\\', 't']
    } else {
        seq![c]
    }
}

/// A text as written inside a JSON string: quotes, backslashes, newlines, carriage
/// returns and tabs escaped; other characters as they are.
pub open spec fn escape_json_spec(s: Seq<char>) -> Seq<char>
    decreases s.len(),
{
    if s.len() == 0 {
        Seq::empty()
    } else {
        escape_json_spec(s.drop_last()) + escape_json_char(s.last())
    }
}

fn push_escaped_char(out: &mut String, c: char)
    ensures
        final(out)@ == old(out)@ + escape_json_char(c),
{
    if c == '"' {
        push_char(out, '\\');
        push_char(out, '"');
    } else if c == '\\' {
        push_char(out, '\\');
        push_char(out, '\\');
    } else if c == '\n' {
        push_char(out, '\\');
        push_char(out, 'n');
    } else if c == '\r' {
        push_char(out, '\\');
        push_char(out, 'r');
    } else if c == '\t' {
        push_char(out, '\\');
        push_char(out, 't');
    } else {
        push_char(out, c);
    }
    assert(out@ =~= old(out)@ + escape_json_char(c));
}

/// Appends `input` escaped for a JSON string.
pub fn push_escaped(out: &mut String, input: &str)
    ensures
        final(out)@ == old(out)@ + escape_json_spec(input@),
{
    let v = chars_of(input);
    let mut i: usize = 0;
    while i < v.len()
        invariant
            i <= v@.len(),
            v@ == input@,
            out@ == old(out)@ + escape_json_spec(v@.subrange(0, i as int)),
        decreases v@.len() - i,
    {
        push_escaped_char(out, v[i]);
        assert(v@.subrange(0, i + 1).drop_last() =~= v@.subrange(0, i as int));
        i = i + 1;
        assert(out@ =~= old(out)@ + escape_json_spec(v@.subrange(0, i as int)));
    }
    assert(v@.subrange(0, v@.len() as int) =~= v@);
}

/// `input` escaped for a JSON string.
pub fn escape_json(input: &str) -> (r: String)
    ensures
        r@ == escape_json_spec(input@),
{
    let mut s = String::new();
    push_escaped(&mut s, input);
    assert(s@ =~= escape_json_spec(input@));
    s
}

/// A field and its trailing comma: `"key":"value",` when quoted, else `"key":value,`.
pub open spec fn json_field(key: Seq<char>, value: Seq<char>, quoted: bool) -> Seq<char> {
    seq!['"'] + escape_json_spec(key) + seq!['"', ':'] + (if quoted {
        seq!['"'] + escape_json_spec(value) + seq!['"']
    } else {
        value
    }) + seq![',']
}

pub fn push_json_field(out: &mut String, key: &str, value: &str, quoted: bool)
    ensures
        final(out)@ == old(out)@ + json_field(key@, value@, quoted),
{
    push_char(out, '"');
    push_escaped(out, key);
    push_char(out, '"');
    push_char(out, ':');
    if quoted {
        push_char(out, '"');
        push_escaped(out, value);
        push_char(out, '"');
    } else {
        out.append(value);
    }
    push_char(out, ',');
    assert(out@ =~= old(out)@ + json_field(key@, value@, quoted));
}

/// Removes a trailing comma, if there is one.
pub fn pop_trailing_comma(out: &mut String)
    ensures
        final(out)@ == if old(out)@.len() > 0 && old(out)@.last() == ',' {
            old(out)@.drop_last()
        } else {
            old(out)@
        },
{
    let v = chars_of(out.as_str());
    if v.len() > 0 && v[v.len() - 1] == ',' {
        *out = crate::text::string_of(&v, 0, v.len() - 1);
    }
}

} // verus!
