//! A small JSON writer: string escaping and the object forms the wire
//! protocol and the event stream emit. The stream's message payloads are
//! already JSON text and are embedded verbatim.

use vstd::prelude::*;

use crate::numstr::{dec_rep, u64_to_dec};
use crate::platform::{hex_digit, push_char};

verus! {

/// How one character appears inside a JSON string literal.
pub open spec fn esc_char(c: char) -> Seq<char> {
    if c == '"' {
        "\\\""@
    } else if c == '\\' {
        "\\\\"@
    } else if c == '\n' {
        "\\n"@
    } else if c == '\r' {
        "\\r"@
    } else if c == '\t' {
        "\\t"@
    } else if (c as int) < 32 {
        "\\u00"@ + seq![hex_digit(((c as int) / 16) as nat), hex_digit(((c as int) % 16) as nat)]
    } else {
        seq![c]
    }
}

/// A whole string body, escaped.
pub open spec fn json_escaped(s: Seq<char>) -> Seq<char>
    decreases s.len(),
{
    if s.len() == 0 {
        Seq::empty()
    } else {
        esc_char(s[0]) + json_escaped(s.drop_first())
    }
}

/// A JSON string literal: quotes around the escaped body.
pub open spec fn json_string(s: Seq<char>) -> Seq<char> {
    seq!['"'] + json_escaped(s) + seq!['"']
}

proof fn lemma_json_escaped_add(a: Seq<char>, b: Seq<char>)
    ensures
        json_escaped(a + b) == json_escaped(a) + json_escaped(b),
    decreases a.len(),
{
    if a.len() == 0 {
        assert(a + b =~= b);
        assert(json_escaped(a) + json_escaped(b) =~= json_escaped(b));
    } else {
        assert((a + b)[0] == a[0]);
        assert((a + b).drop_first() =~= a.drop_first() + b);
        lemma_json_escaped_add(a.drop_first(), b);
        assert(esc_char(a[0]) + (json_escaped(a.drop_first()) + json_escaped(b)) =~= (esc_char(
            a[0],
        ) + json_escaped(a.drop_first())) + json_escaped(b));
    }
}

/// The character for one hexadecimal digit value.
fn hex_digit_char(v: u8) -> (r: char)
    requires
        v < 16,
    ensures
        r == hex_digit(v as nat),
{
    if v < 10 {
        (v + 48) as char
    } else {
        (v + 87) as char
    }
}

/// Appends one character's escaped form.
fn push_escaped(out: &mut String, c: char)
    ensures
        final(out)@ == old(out)@ + esc_char(c),
{
    let v = c as u32;
    if c == '"' {
        out.append("\\\"");
    } else if c == '\\' {
        out.append("\\\\");
    } else if c == '\n' {
        out.append("\\n");
    } else if c == '\r' {
        out.append("\\r");
    } else if c == '\t' {
        out.append("\\t");
    } else if v < 32 {
        out.append("\\u00");
        push_char(out, hex_digit_char((v / 16) as u8));
        push_char(out, hex_digit_char((v % 16) as u8));
        proof {
            assert(final(out)@ =~= old(out)@ + esc_char(c));
        }
    } else {
        push_char(out, c);
        proof {
            assert(final(out)@ =~= old(out)@ + seq![c]);
        }
    }
}

/// Appends a JSON string literal for the given text.
pub fn append_json_string(out: &mut String, s: &str)
    ensures
        final(out)@ == old(out)@ + json_string(s@),
{
    proof {
        reveal_strlit("\"");
        assert("\""@ =~= seq!['"']);
    }
    out.append("\"");
    let len = s.unicode_len();
    let mut i: usize = 0;
    let ghost mark = out@;
    proof {
        assert(json_escaped(s@.take(0)) =~= Seq::<char>::empty());
        assert(mark + Seq::<char>::empty() =~= mark);
    }
    while i < len
        invariant
            0 <= i <= len,
            len == s@.len(),
            out@ == mark + json_escaped(s@.take(i as int)),
        decreases len - i,
    {
        let c = s.get_char(i);
        push_escaped(out, c);
        proof {
            assert(s@.take(i as int + 1) =~= s@.take(i as int) + seq![s@[i as int]]);
            lemma_json_escaped_add(s@.take(i as int), seq![s@[i as int]]);
            assert(seq![s@[i as int]].drop_first() =~= Seq::<char>::empty());
            assert(json_escaped(Seq::<char>::empty()) =~= Seq::<char>::empty());
            assert(json_escaped(seq![s@[i as int]]) =~= esc_char(s@[i as int]) + Seq::<
                char,
            >::empty());
            assert(esc_char(s@[i as int]) + Seq::<char>::empty() =~= esc_char(s@[i as int]));
            assert(out@ =~= mark + json_escaped(s@.take(i as int + 1)));
        }
        i = i + 1;
    }
    out.append("\"");
    proof {
        assert(s@.take(len as int) =~= s@);
        assert(out@ =~= old(out)@ + json_string(s@));
    }
}

/// The event-stream `connected` payload for an offset.
pub open spec fn offset_json(offset: u64) -> Seq<char> {
    "{\"offset\":"@ + dec_rep(offset as nat) + "}"@
}

/// Renders the `connected` payload.
pub fn offset_json_text(offset: u64) -> (r: String)
    ensures
        r@ == offset_json(offset),
{
    let mut r = String::from_str("{\"offset\":");
    r.append(u64_to_dec(offset).as_str());
    r.append("}");
    proof {
        assert(r@ =~= offset_json(offset));
    }
    r
}

} // verus!
