//! A verified JSON serializer: the exact text a [`JsonValue`] is written as.
//! Transports send these characters as UTF-8 bytes; nothing else shapes what
//! goes on the wire.
use vstd::prelude::*;
use crate::json::{JsonVal, JsonValue};
use crate::text::{dec_str, push_char, u64_to_string};

verus! {

broadcast use vstd::seq::axiom_seq_index_decreases;

/// The hexadecimal digit character for one value below sixteen.
pub open spec fn hex_digit(d: int) -> char {
    if d == 0 {
        '0'
    } else if d == 1 {
        '1'
    } else if d == 2 {
        '2'
    } else if d == 3 {
        '3'
    } else if d == 4 {
        '4'
    } else if d == 5 {
        '5'
    } else if d == 6 {
        '6'
    } else if d == 7 {
        '7'
    } else if d == 8 {
        '8'
    } else if d == 9 {
        '9'
    } else if d == 10 {
        'a'
    } else if d == 11 {
        'b'
    } else if d == 12 {
        'c'
    } else if d == 13 {
        'd'
    } else if d == 14 {
        'e'
    } else {
        'f'
    }
}

/// How one character appears inside a JSON string literal: quote and
/// backslash are escaped, control characters take the shortest escape JSON
/// offers, everything else stands as it is.
pub open spec fn esc_char(c: char) -> Seq<char> {
    if c == '"' {
        seq!['\\', '"']
    } else if c == '\\' {
        seq!['\\', '\\']
    } else if c == '\n' {
        seq!['\\', 'n']
    } else if c == '\r' {
        seq!['\\', 'r']
    } else if c == '\t' {
        seq!['\\', 't']
    } else if (c as int) < 32 {
        seq!['\\', 'u', '0', '0', hex_digit(c as int / 16), hex_digit(c as int % 16)]
    } else {
        seq![c]
    }
}

/// The body of a JSON string literal.
pub open spec fn esc_str(s: Seq<char>) -> Seq<char>
    decreases s.len(),
{
    if s.len() == 0 {
        Seq::empty()
    } else {
        esc_char(s[0]) + esc_str(s.drop_first())
    }
}

/// The text of a JSON integer.
pub open spec fn int_text(i: int) -> Seq<char> {
    if i < 0 {
        seq!['-'] + dec_str(-i)
    } else {
        dec_str(i)
    }
}

/// The exact text a value is written as: no whitespace, object fields in
/// their held order.
pub open spec fn json_text(v: JsonVal) -> Seq<char>
    decreases v,
{
    match v {
        JsonVal::Null => "null"@,
        JsonVal::Bool(b) => if b {
            "true"@
        } else {
            "false"@
        },
        JsonVal::Int(i) => int_text(i),
        JsonVal::Str(s) => seq!['"'] + esc_str(s) + seq!['"'],
        JsonVal::Arr(items) => seq!['['] + json_list(items) + seq![']'],
        JsonVal::Obj(fields) => seq!['{'] + json_fields(fields) + seq!['}'],
    }
}

/// The comma-separated elements of an array.
pub open spec fn json_list(items: Seq<JsonVal>) -> Seq<char>
    decreases items, items.len(),
{
    if items.len() == 0 {
        Seq::empty()
    } else if items.len() == 1 {
        json_text(items[0])
    } else {
        json_text(items[0]) + seq![','] + json_list(items.drop_first())
    }
}

/// The comma-separated members of an object.
pub open spec fn json_fields(fields: Seq<(Seq<char>, JsonVal)>) -> Seq<char>
    decreases fields, fields.len(),
{
    if fields.len() == 0 {
        Seq::empty()
    } else {
        let member = seq!['"'] + esc_str(fields[0].0) + seq!['"', ':'] + json_text(fields[0].1);
        if fields.len() == 1 {
            member
        } else {
            member + seq![','] + json_fields(fields.drop_first())
        }
    }
}

fn hex_digit_exec(d: u32) -> (c: char)
    requires
        d < 16,
    ensures
        c == hex_digit(d as int),
{
    if d == 0 {
        '0'
    } else if d == 1 {
        '1'
    } else if d == 2 {
        '2'
    } else if d == 3 {
        '3'
    } else if d == 4 {
        '4'
    } else if d == 5 {
        '5'
    } else if d == 6 {
        '6'
    } else if d == 7 {
        '7'
    } else if d == 8 {
        '8'
    } else if d == 9 {
        '9'
    } else if d == 10 {
        'a'
    } else if d == 11 {
        'b'
    } else if d == 12 {
        'c'
    } else if d == 13 {
        'd'
    } else if d == 14 {
        'e'
    } else {
        'f'
    }
}

fn push_escaped(out: &mut String, c: char)
    ensures
        final(out)@ == old(out)@ + esc_char(c),
{
    if c == '"' {
        push_char(out, '\\');
        push_char(out, '"');
    } else if c == '\\' {
        push_char(out, '\\');
        push_char(out, '\\');
    } else if c == '\n' {
        push_char(out, '\\');
        push_char(out, 'n');
    } else if c == '\r' {
        push_char(out, '\\');
        push_char(out, 'r');
    } else if c == '\t' {
        push_char(out, '\\');
        push_char(out, 't');
    } else if (c as u32) < 32 {
        let d = c as u32;
        push_char(out, '\\');
        push_char(out, 'u');
        push_char(out, '0');
        push_char(out, '0');
        push_char(out, hex_digit_exec(d / 16));
        push_char(out, hex_digit_exec(d % 16));
        proof {
            assert(out@ =~= old(out)@ + esc_char(c));
        }
    } else {
        push_char(out, c);
    }
    proof {
        assert(out@ =~= old(out)@ + esc_char(c));
    }
}

proof fn lemma_esc_str_snoc(s: Seq<char>, i: int)
    requires
        0 <= i < s.len(),
    ensures
        esc_str(s.take(i + 1)) == esc_str(s.take(i)) + esc_char(s[i]),
    decreases i,
{
    if i == 0 {
        let t = s.take(1);
        assert(t.len() == 1);
        assert(t[0] == s[0]);
        assert(t.drop_first() =~= Seq::<char>::empty());
        assert(esc_str(Seq::<char>::empty()) == Seq::<char>::empty());
        assert(esc_str(t) == esc_char(s[0]) + Seq::<char>::empty());
        assert(esc_char(s[0]) + Seq::<char>::empty() =~= esc_char(s[0]));
        assert(s.take(0).len() == 0);
        assert(esc_str(s.take(0)) == Seq::<char>::empty());
        assert(Seq::<char>::empty() + esc_char(s[0]) =~= esc_char(s[0]));
    } else {
        lemma_esc_str_snoc(s.drop_first(), i - 1);
        assert(s.take(i + 1).drop_first() =~= s.drop_first().take(i));
        assert(s.take(i).drop_first() =~= s.drop_first().take(i - 1));
        assert(s.take(i + 1)[0] == s[0]);
        assert(s.take(i)[0] == s[0]);
        assert(s.drop_first()[i - 1] == s[i]);
        assert(s.take(i + 1).len() == i + 1);
        assert(s.take(i).len() == i);
        assert(esc_char(s[0]) + (esc_str(s.drop_first().take(i - 1)) + esc_char(s[i]))
            =~= (esc_char(s[0]) + esc_str(s.drop_first().take(i - 1))) + esc_char(s[i]));
    }
}

fn append_escaped(out: &mut String, s: &str)
    ensures
        final(out)@ == old(out)@ + esc_str(s@),
{
    let n = s.unicode_len();
    let mut i: usize = 0;
    proof {
        assert(s@.take(0).len() == 0);
        assert(out@ =~= old(out)@ + esc_str(s@.take(0)));
    }
    while i < n
        invariant
            i <= n,
            n == s@.len(),
            out@ == old(out)@ + esc_str(s@.take(i as int)),
        decreases n - i,
    {
        push_escaped(out, s.get_char(i));
        proof {
            lemma_esc_str_snoc(s@, i as int);
            assert((old(out)@ + esc_str(s@.take(i as int))) + esc_char(s@[i as int]) =~= old(
                out,
            )@ + (esc_str(s@.take(i as int)) + esc_char(s@[i as int])));
        }
        i = i + 1;
    }
    proof {
        assert(s@.take(n as int) =~= s@);
    }
}

fn append_int(out: &mut String, i: i64)
    ensures
        final(out)@ == old(out)@ + int_text(i as int),
{
    if i < 0 {
        push_char(out, '-');
        let wide: i128 = i as i128;
        let m: u64 = (-wide) as u64;
        proof {
            assert(m == -(i as int));
        }
        let digits = u64_to_string(m);
        out.append(digits.as_str());
        proof {
            assert((old(out)@ + seq!['-']) + dec_str(m as int) =~= old(out)@ + (seq!['-']
                + dec_str(m as int)));
        }
    } else {
        let digits = u64_to_string(i as u64);
        out.append(digits.as_str());
    }
}

proof fn lemma_json_list_snoc(items: Seq<JsonVal>, i: int)
    requires
        0 <= i < items.len(),
    ensures
        i == 0 ==> json_list(items.take(1)) == json_text(items[0]),
        i > 0 ==> json_list(items.take(i + 1)) == json_list(items.take(i)) + seq![',']
            + json_text(items[i]),
    decreases i,
{
    if i == 0 {
        assert(items.take(1).len() == 1);
        assert(items.take(1)[0] == items[0]);
    } else if i == 1 {
        let t = items.take(2);
        let u = items.take(1);
        let d = t.drop_first();
        assert(t.len() == 2);
        assert(u.len() == 1);
        assert(t[0] == items[0]);
        assert(u[0] == items[0]);
        assert(d.len() == 1);
        assert(d[0] == items[1]);
        assert(json_list(d) == json_text(d[0]));
        assert(json_list(t) == json_text(t[0]) + seq![','] + json_list(d));
        assert(json_list(u) == json_text(u[0]));
    } else {
        lemma_json_list_snoc(items.drop_first(), i - 1);
        assert(items.take(i + 1).drop_first() =~= items.drop_first().take(i));
        assert(items.take(i).drop_first() =~= items.drop_first().take(i - 1));
        assert(items.take(i + 1)[0] == items[0]);
        assert(items.take(i)[0] == items[0]);
        assert(items.drop_first()[i - 1] == items[i]);
        assert(items.take(i + 1).len() == i + 1);
        assert(items.take(i).len() == i);
        assert(json_text(items[0]) + seq![','] + (json_list(items.drop_first().take(i - 1))
            + seq![','] + json_text(items[i])) =~= (json_text(items[0]) + seq![','] + json_list(
            items.drop_first().take(i - 1),
        )) + seq![','] + json_text(items[i]));
    }
}

proof fn lemma_json_fields_snoc(fields: Seq<(Seq<char>, JsonVal)>, i: int)
    requires
        0 <= i < fields.len(),
    ensures
        i == 0 ==> json_fields(fields.take(1)) == seq!['"'] + esc_str(fields[0].0) + seq![
            '"',
            ':',
        ] + json_text(fields[0].1),
        i > 0 ==> json_fields(fields.take(i + 1)) == json_fields(fields.take(i)) + seq![','] + (
        seq!['"'] + esc_str(fields[i].0) + seq!['"', ':'] + json_text(fields[i].1)),
    decreases i,
{
    if i == 0 {
        assert(fields.take(1).len() == 1);
        assert(fields.take(1)[0] == fields[0]);
    } else if i == 1 {
        let t = fields.take(2);
        let u = fields.take(1);
        let d = t.drop_first();
        assert(t.len() == 2);
        assert(u.len() == 1);
        assert(t[0] == fields[0]);
        assert(u[0] == fields[0]);
        assert(d.len() == 1);
        assert(d[0] == fields[1]);
        let m0 = seq!['"'] + esc_str(fields[0].0) + seq!['"', ':'] + json_text(fields[0].1);
        let m1 = seq!['"'] + esc_str(fields[1].0) + seq!['"', ':'] + json_text(fields[1].1);
        assert(json_fields(d) == m1);
        assert(json_fields(t) == m0 + seq![','] + json_fields(d));
        assert(json_fields(u) == m0);
    } else {
        lemma_json_fields_snoc(fields.drop_first(), i - 1);
        assert(fields.take(i + 1).drop_first() =~= fields.drop_first().take(i));
        assert(fields.take(i).drop_first() =~= fields.drop_first().take(i - 1));
        assert(fields.take(i + 1)[0] == fields[0]);
        assert(fields.take(i)[0] == fields[0]);
        assert(fields.drop_first()[i - 1] == fields[i]);
        assert(fields.take(i + 1).len() == i + 1);
        assert(fields.take(i).len() == i);
        let m0 = seq!['"'] + esc_str(fields[0].0) + seq!['"', ':'] + json_text(fields[0].1);
        let mi = seq!['"'] + esc_str(fields[i].0) + seq!['"', ':'] + json_text(fields[i].1);
        assert(m0 + seq![','] + (json_fields(fields.drop_first().take(i - 1)) + seq![','] + mi)
            =~= (m0 + seq![','] + json_fields(fields.drop_first().take(i - 1))) + seq![','] + mi);
    }
}

/// Appends the exact JSON text of the value.
#[verifier::loop_isolation(false)]
pub fn write_json(out: &mut String, v: &JsonValue)
    ensures
        final(out)@ == old(out)@ + json_text(v@),
    decreases *v,
{
    match v {
        JsonValue::Null => {
            out.append("null");
        },
        JsonValue::Bool(b) => {
            if *b {
                out.append("true");
            } else {
                out.append("false");
            }
        },
        JsonValue::Int(i) => {
            append_int(out, *i);
        },
        JsonValue::Str(s) => {
            push_char(out, '"');
            append_escaped(out, s.as_str());
            push_char(out, '"');
            proof {
                assert(out@ =~= old(out)@ + json_text(v@));
            }
        },
        JsonValue::Arr(items) => {
            let ghost vs = v@->Arr_0;
            push_char(out, '[');
            let mut i: usize = 0;
            while i < items.len()
                invariant
                    i <= items@.len(),
                    out@ == old(out)@ + seq!['['] + json_list(vs.take(i as int)),
                decreases items@.len() - i,
            {
                if i > 0 {
                    push_char(out, ',');
                }
                proof {
                    assert(decreases_to!(*items => items@));
                    assert(decreases_to!(items@ => items@[i as int]));
                }
                write_json(out, &items[i]);
                proof {
                    assert(vs[i as int] == items@[i as int]@);
                    lemma_json_list_snoc(vs, i as int);
                    assert(out@ =~= old(out)@ + seq!['['] + json_list(vs.take(i as int + 1)));
                }
                i = i + 1;
            }
            push_char(out, ']');
            proof {
                assert(vs.take(vs.len() as int) =~= vs);
                assert(out@ =~= old(out)@ + json_text(v@));
            }
        },
        JsonValue::Obj(fields) => {
            let ghost vf = v@->Obj_0;
            push_char(out, '{');
            let mut i: usize = 0;
            while i < fields.len()
                invariant
                    i <= fields@.len(),
                    out@ == old(out)@ + seq!['{'] + json_fields(vf.take(i as int)),
                decreases fields@.len() - i,
            {
                if i > 0 {
                    push_char(out, ',');
                }
                push_char(out, '"');
                append_escaped(out, fields[i].0.as_str());
                push_char(out, '"');
                push_char(out, ':');
                proof {
                    assert(decreases_to!(*fields => fields@));
                    assert(decreases_to!(fields@ => fields@[i as int]));
                    assert(decreases_to!(fields@[i as int] => fields@[i as int].1));
                }
                write_json(out, &fields[i].1);
                proof {
                    assert(vf[i as int] == (fields@[i as int].0@, fields@[i as int].1@));
                    lemma_json_fields_snoc(vf, i as int);
                    assert(out@ =~= old(out)@ + seq!['{'] + json_fields(vf.take(i as int + 1)));
                }
                i = i + 1;
            }
            push_char(out, '}');
            proof {
                assert(vf.take(vf.len() as int) =~= vf);
                assert(out@ =~= old(out)@ + json_text(v@));
            }
        },
    }
}

/// The exact JSON text of a value, as one string.
pub fn to_json_text(v: &JsonValue) -> (r: String)
    ensures
        r@ == json_text(v@),
{
    let mut out = String::new();
    write_json(&mut out, v);
    proof {
        assert(Seq::<char>::empty() + json_text(v@) =~= json_text(v@));
    }
    out
}

} // verus!
