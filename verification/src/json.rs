//! JSON rendering of the wire payloads, proved against spec-level
//! renderings of the same text.

use vstd::prelude::*;
use crate::decimal::{dec_int, digit_char, digit_str, i32_to_decimal};
use crate::models::{Item, ItemModel};

verus! {

/// The character for one hexadecimal digit, lower case.
pub open spec fn hex_char(d: nat) -> char {
    if d < 10 {
        digit_char(d)
    } else if d == 10 {
        'a'
    } else if d == 11 {
        'b'
    } else if d == 12 {
        'c'
    } else if d == 13 {
        'd'
    } else if d == 14 {
        'e'
    } else {
        'f'
    }
}

/// How one character appears inside a JSON string literal: quote and
/// backslash get a backslash escape, the common control characters get their
/// short escapes, the remaining control characters a `\u00XX` escape, and
/// everything else stands as it is.
pub open spec fn json_escape_char(c: char) -> Seq<char> {
    if c == '"' {
        seq!['\\', '"']
    } else if c == '\\' {
        seq!['\\', '\\']
    } else if c == '\n' {
        seq!['\\', 'n']
    } else if c == '\r' {
        seq!['\\', 'r']
    } else if c == '\t' {
        seq!['\\', 't']
    } else if (c as u32) < 32 {
        seq!['\\', 'u', '0', '0', hex_char((c as u32 / 16) as nat), hex_char((c as u32 % 16) as nat)]
    } else {
        seq![c]
    }
}

/// A whole character sequence escaped for a JSON string literal.
pub open spec fn json_escape(s: Seq<char>) -> Seq<char>
    decreases s.len(),
{
    if s.len() == 0 {
        Seq::<char>::empty()
    } else {
        json_escape(s.drop_last()) + json_escape_char(s.last())
    }
}

/// A JSON string literal: the escaped text between double quotes.
pub open spec fn json_string(s: Seq<char>) -> Seq<char> {
    seq!['"'] + json_escape(s) + seq!['"']
}

/// An optional text as a JSON value: a string literal, or `null`.
pub open spec fn json_opt_string(o: Option<Seq<char>>) -> Seq<char> {
    match o {
        Some(s) => json_string(s),
        None => seq!['n', 'u', 'l', 'l'],
    }
}

/// An optional number as a JSON value: its decimal rendering, or `null`.
pub open spec fn json_opt_number(o: Option<i32>) -> Seq<char> {
    match o {
        Some(n) => dec_int(n as int),
        None => seq!['n', 'u', 'l', 'l'],
    }
}

/// One item as a JSON object, fields in wire order.
pub open spec fn item_json(m: ItemModel) -> Seq<char> {
    "{\"id\":"@ + json_opt_number(m.id) + ",\"name\":"@ + json_string(m.name)
        + ",\"description\":"@ + json_opt_string(m.description) + ",\"created_at\":"@
        + json_opt_string(m.created_at) + "}"@
}

/// The comma-separated renderings of a sequence of items.
pub open spec fn items_array_inner(rows: Seq<ItemModel>) -> Seq<char>
    decreases rows.len(),
{
    if rows.len() == 0 {
        Seq::<char>::empty()
    } else if rows.len() == 1 {
        item_json(rows[0])
    } else {
        items_array_inner(rows.drop_last()) + seq![','] + item_json(rows.last())
    }
}

/// A sequence of items as a JSON array.
pub open spec fn items_array_json(rows: Seq<ItemModel>) -> Seq<char> {
    seq!['['] + items_array_inner(rows) + seq![']']
}

/// The views of a sequence of items.
pub open spec fn models(rows: Seq<Item>) -> Seq<ItemModel> {
    rows.map_values(|it: Item| it@)
}

fn hex_str(d: u32) -> (r: &'static str)
    requires
        d < 16,
    ensures
        r@ == seq![hex_char(d as nat)],
{
    if d < 10 {
        digit_str(d)
    } else if d == 10 {
        proof {
            reveal_strlit("a");
            assert("a"@ =~= seq![hex_char(10)]);
        }
        "a"
    } else if d == 11 {
        proof {
            reveal_strlit("b");
            assert("b"@ =~= seq![hex_char(11)]);
        }
        "b"
    } else if d == 12 {
        proof {
            reveal_strlit("c");
            assert("c"@ =~= seq![hex_char(12)]);
        }
        "c"
    } else if d == 13 {
        proof {
            reveal_strlit("d");
            assert("d"@ =~= seq![hex_char(13)]);
        }
        "d"
    } else if d == 14 {
        proof {
            reveal_strlit("e");
            assert("e"@ =~= seq![hex_char(14)]);
        }
        "e"
    } else {
        proof {
            reveal_strlit("f");
            assert("f"@ =~= seq![hex_char(15)]);
        }
        "f"
    }
}

/// Appends the escaped form of one character that needs an escape.
fn append_escaped_char(out: &mut String, c: char)
    requires
        c == '"' || c == '\\' || (c as u32) < 32,
    ensures
        final(out)@ == old(out)@ + json_escape_char(c),
{
    let code = c as u32;
    if c == '"' {
        proof {
            reveal_strlit("\\\"");
            assert("\\\""@ =~= seq!['\\', '"']);
        }
        out.append("\\\"");
    } else if c == '\\' {
        proof {
            reveal_strlit("\\\\");
            assert("\\\\"@ =~= seq!['\\', '\\']);
        }
        out.append("\\\\");
    } else if c == '\n' {
        proof {
            reveal_strlit("\\n");
            assert("\\n"@ =~= seq!['\\', 'n']);
        }
        out.append("\\n");
    } else if c == '\r' {
        proof {
            reveal_strlit("\\r");
            assert("\\r"@ =~= seq!['\\', 'r']);
        }
        out.append("\\r");
    } else if code < 32 {
        proof {
            reveal_strlit("\\t");
            reveal_strlit("\\u00");
            assert("\\t"@ =~= seq!['\\', 't']);
            assert("\\u00"@ =~= seq!['\\', 'u', '0', '0']);
        }
        if c == '\t' {
            out.append("\\t");
        } else {
            out.append("\\u00");
            out.append(hex_str(code / 16));
            out.append(hex_str(code % 16));
            proof {
                assert(out@ =~= old(out)@ + json_escape_char(c));
            }
        }
    } else {
        proof {
            assert(false);
        }
    }
}

/// Appends the escaped text of `s`.
fn append_escaped(out: &mut String, s: &str)
    ensures
        final(out)@ == old(out)@ + json_escape(s@),
{
    let len = s.unicode_len();
    let mut i: usize = 0;
    while i < len
        invariant
            len == s@.len(),
            i <= len,
            out@ == old(out)@ + json_escape(s@.take(i as int)),
        decreases len - i,
    {
        let c = s.get_char(i);
        if c == '"' || c == '\\' || (c as u32) < 32 {
            append_escaped_char(out, c);
        } else {
            let piece = s.substring_char(i, i + 1);
            out.append(piece);
            proof {
                assert(piece@ =~= seq![c]);
                assert(json_escape_char(c) == seq![c]);
            }
        }
        proof {
            assert(s@.take(i + 1 as int).drop_last() =~= s@.take(i as int));
            assert(s@.take(i + 1 as int).last() == c);
        }
        i = i + 1;
    }
    proof {
        assert(s@.take(len as int) =~= s@);
    }
}

/// Appends `s` as a JSON string literal.
pub fn append_json_string(out: &mut String, s: &str)
    ensures
        final(out)@ == old(out)@ + json_string(s@),
{
    proof {
        reveal_strlit("\"");
        assert("\""@ =~= seq!['"']);
    }
    out.append("\"");
    append_escaped(out, s);
    out.append("\"");
    proof {
        assert(out@ =~= old(out)@ + json_string(s@));
    }
}

fn append_opt_json_string(out: &mut String, o: &Option<String>)
    ensures
        final(out)@ == old(out)@ + json_opt_string(
            match *o {
                Some(s) => Some(s@),
                None => None,
            },
        ),
{
    match o {
        Some(s) => append_json_string(out, s.as_str()),
        None => {
            proof {
                reveal_strlit("null");
                assert("null"@ =~= seq!['n', 'u', 'l', 'l']);
            }
            out.append("null");
        },
    }
}

/// Renders one item as a JSON object.
pub fn item_to_json(it: &Item) -> (r: String)
    ensures
        r@ == item_json(it@),
{
    let mut r = String::from_str("{\"id\":");
    match it.id {
        Some(n) => {
            let digits = i32_to_decimal(n);
            r.append(digits.as_str());
        },
        None => {
            proof {
                reveal_strlit("null");
                assert("null"@ =~= seq!['n', 'u', 'l', 'l']);
            }
            r.append("null");
        },
    }
    r.append(",\"name\":");
    append_json_string(&mut r, it.name.as_str());
    r.append(",\"description\":");
    append_opt_json_string(&mut r, &it.description);
    r.append(",\"created_at\":");
    append_opt_json_string(&mut r, &it.created_at);
    r.append("}");
    proof {
        assert(r@ =~= item_json(it@));
    }
    r
}

/// Renders a vector of items as a JSON array, in order.
pub fn items_to_json(items: &Vec<Item>) -> (r: String)
    ensures
        r@ == items_array_json(models(items@)),
{
    let ghost m = models(items@);
    let mut r = String::from_str("[");
    proof {
        reveal_strlit("[");
        reveal_strlit("]");
        assert("["@ =~= seq!['[']);
        assert("]"@ =~= seq![']']);
        assert(r@ =~= seq!['['] + items_array_inner(m.take(0)));
    }
    let mut j: usize = 0;
    while j < items.len()
        invariant
            m == models(items@),
            m.len() == items@.len(),
            j <= items@.len(),
            r@ == seq!['['] + items_array_inner(m.take(j as int)),
        decreases items@.len() - j,
    {
        if j > 0 {
            proof {
                reveal_strlit(",");
                assert(","@ =~= seq![',']);
            }
            r.append(",");
        }
        let piece = item_to_json(&items[j]);
        r.append(piece.as_str());
        proof {
            assert(m.take(j + 1 as int).drop_last() =~= m.take(j as int));
            assert(m.take(j + 1 as int).last() == m[j as int]);
            assert(m[j as int] == items@[j as int]@);
            if j == 0 {
                assert(items_array_inner(m.take(1)) == item_json(m.take(1)[0]));
                assert(m.take(1)[0] == m[0]);
            }
            assert(r@ =~= seq!['['] + items_array_inner(m.take(j + 1 as int)));
        }
        j = j + 1;
    }
    proof {
        assert(m.take(m.len() as int) =~= m);
    }
    r.append("]");
    proof {
        assert(r@ =~= items_array_json(m));
    }
    r
}

} // verus!
