//! A verified JSON emitter for the response envelope: string escaping,
//! string arrays, and the fixed object shapes the six routes return.

use vstd::prelude::*;

use crate::data::{JsonResponse, Payload, StartBody, StartBodyV, VersionInfo};

verus! {

/// The hexadecimal digit for `d`.
pub open spec fn hex_digit(d: int) -> char {
    if d == 0 {
        '0'
    } else if d == 1 {
        '1'
    } else if d == 2 {
        '2'
    } else if d == 3 {
        '3'
    } else if d == 4 {
        '4'
    } else if d == 5 {
        '5'
    } else if d == 6 {
        '6'
    } else if d == 7 {
        '7'
    } else if d == 8 {
        '8'
    } else if d == 9 {
        '9'
    } else if d == 10 {
        'a'
    } else if d == 11 {
        'b'
    } else if d == 12 {
        'c'
    } else if d == 13 {
        'd'
    } else if d == 14 {
        'e'
    } else {
        'f'
    }
}

/// The escape of one character inside a JSON string literal.
pub open spec fn esc_char(c: char) -> Seq<char> {
    if c == '"' {
        seq!['\\', '"']
    } else if c == '\\' {
        seq!['\\', '\\']
    } else if c == '\n' {
        seq!['\\', 'n']
    } else if c == '\r' {
        seq!['\\', 'r']
    } else if c == '\t' {
        seq!['\\', 't']
    } else if (c as u32) < 32 {
        seq!['\\', 'u', '0', '0', hex_digit(c as u32 as int / 16), hex_digit(c as u32 as int % 16)]
    } else {
        seq![c]
    }
}

/// The escape of a whole string body.
pub open spec fn spec_escape(s: Seq<char>) -> Seq<char>
    decreases s.len(),
{
    if s.len() == 0 {
        Seq::empty()
    } else {
        esc_char(s[0]) + spec_escape(s.skip(1))
    }
}

/// Escaping distributes over concatenation.
pub proof fn lemma_escape_app(a: Seq<char>, b: Seq<char>)
    ensures
        spec_escape(a + b) == spec_escape(a) + spec_escape(b),
    decreases a.len(),
{
    if a.len() == 0 {
        assert(a + b =~= b);
        assert(spec_escape(a) + spec_escape(b) =~= spec_escape(b));
    } else {
        assert((a + b).len() > 0);
        assert((a + b)[0] == a[0]);
        assert((a + b).skip(1) =~= a.skip(1) + b);
        lemma_escape_app(a.skip(1), b);
        assert(esc_char(a[0]) + (spec_escape(a.skip(1)) + spec_escape(b)) =~= (esc_char(a[0])
            + spec_escape(a.skip(1))) + spec_escape(b));
    }
}

/// Relies on `String::push`: appends exactly the given character.
#[verifier::external_body]
fn push_char(out: &mut String, c: char)
    ensures
        final(out)@ == old(out)@ + seq![c],
{
    out.push(c);
}

/// Appends the hexadecimal digit for `d`.
fn push_hex_digit(out: &mut String, d: u32)
    requires
        d < 16,
    ensures
        final(out)@ == old(out)@ + seq![hex_digit(d as int)],
{
    if d == 0 {
        out.append("0");
        proof {
            reveal_strlit("0");
        }
    } else if d == 1 {
        out.append("1");
        proof {
            reveal_strlit("1");
        }
    } else if d == 2 {
        out.append("2");
        proof {
            reveal_strlit("2");
        }
    } else if d == 3 {
        out.append("3");
        proof {
            reveal_strlit("3");
        }
    } else if d == 4 {
        out.append("4");
        proof {
            reveal_strlit("4");
        }
    } else if d == 5 {
        out.append("5");
        proof {
            reveal_strlit("5");
        }
    } else if d == 6 {
        out.append("6");
        proof {
            reveal_strlit("6");
        }
    } else if d == 7 {
        out.append("7");
        proof {
            reveal_strlit("7");
        }
    } else if d == 8 {
        out.append("8");
        proof {
            reveal_strlit("8");
        }
    } else if d == 9 {
        out.append("9");
        proof {
            reveal_strlit("9");
        }
    } else if d == 10 {
        out.append("a");
        proof {
            reveal_strlit("a");
        }
    } else if d == 11 {
        out.append("b");
        proof {
            reveal_strlit("b");
        }
    } else if d == 12 {
        out.append("c");
        proof {
            reveal_strlit("c");
        }
    } else if d == 13 {
        out.append("d");
        proof {
            reveal_strlit("d");
        }
    } else if d == 14 {
        out.append("e");
        proof {
            reveal_strlit("e");
        }
    } else {
        out.append("f");
        proof {
            reveal_strlit("f");
        }
    }
    assert(final(out)@ =~= old(out)@ + seq![hex_digit(d as int)]);
}

/// Appends the escape of one character.
fn push_escaped_char(out: &mut String, c: char)
    ensures
        final(out)@ == old(out)@ + esc_char(c),
{
    if c == '"' {
        out.append("\\\"");
        proof {
            reveal_strlit("\\\"");
            assert(final(out)@ =~= old(out)@ + esc_char(c));
        }
    } else if c == '\\' {
        out.append("\\\\");
        proof {
            reveal_strlit("\\\\");
            assert(final(out)@ =~= old(out)@ + esc_char(c));
        }
    } else if c == '\n' {
        out.append("\\n");
        proof {
            reveal_strlit("\\n");
            assert(final(out)@ =~= old(out)@ + esc_char(c));
        }
    } else if c == '\r' {
        out.append("\\r");
        proof {
            reveal_strlit("\\r");
            assert(final(out)@ =~= old(out)@ + esc_char(c));
        }
    } else if c == '\t' {
        out.append("\\t");
        proof {
            reveal_strlit("\\t");
            assert(final(out)@ =~= old(out)@ + esc_char(c));
        }
    } else if (c as u32) < 32 {
        let code = c as u32;
        out.append("\\u00");
        push_hex_digit(out, code / 16);
        push_hex_digit(out, code % 16);
        proof {
            reveal_strlit("\\u00");
            assert(final(out)@ =~= old(out)@ + esc_char(c));
        }
    } else {
        push_char(out, c);
        assert(final(out)@ =~= old(out)@ + esc_char(c));
    }
}

/// A JSON string literal: quote, escaped body, quote.
pub open spec fn json_string(s: Seq<char>) -> Seq<char> {
    seq!['"'] + spec_escape(s) + seq!['"']
}

/// Renders `s` as a JSON string literal.
pub fn json_string_of(s: &str) -> (r: String)
    ensures
        r@ == json_string(s@),
{
    let len = s.unicode_len();
    let mut out = String::new();
    out.append("\"");
    let mut i: usize = 0;
    proof {
        reveal_strlit("\"");
        assert(s@.take(0int) =~= Seq::<char>::empty());
        assert(out@ =~= seq!['"'] + spec_escape(s@.take(0int)));
    }
    while i < len
        invariant
            len == s@.len(),
            i <= len,
            out@ == seq!['"'] + spec_escape(s@.take(i as int)),
        decreases len - i,
    {
        let c = s.get_char(i);
        push_escaped_char(&mut out, c);
        proof {
            assert(s@.take(i + 1) =~= s@.take(i as int) + seq![s@[i as int]]);
            lemma_escape_app(s@.take(i as int), seq![s@[i as int]]);
            assert(seq![s@[i as int]].skip(1) =~= Seq::<char>::empty());
            assert(spec_escape(Seq::<char>::empty()) =~= Seq::<char>::empty());
            assert(spec_escape(seq![s@[i as int]]) =~= esc_char(s@[i as int]));
            assert(out@ =~= seq!['"'] + spec_escape(s@.take(i + 1)));
        }
        i = i + 1;
    }
    assert(s@.take(i as int) =~= s@);
    out.append("\"");
    proof {
        reveal_strlit("\"");
        assert(out@ =~= json_string(s@));
    }
    out
}

/// The comma-separated JSON string literals of `elems`.
pub open spec fn json_str_items(elems: Seq<Seq<char>>) -> Seq<char>
    decreases elems.len(),
{
    if elems.len() == 0 {
        Seq::empty()
    } else if elems.len() == 1 {
        json_string(elems[0])
    } else {
        json_string(elems[0]) + seq![','] + json_str_items(elems.skip(1))
    }
}

/// Appending one element extends the item list with a comma when it is not
/// the first.
pub proof fn lemma_items_push(elems: Seq<Seq<char>>, x: Seq<char>)
    ensures
        json_str_items(elems.push(x)) == if elems.len() == 0 {
            json_string(x)
        } else {
            json_str_items(elems) + seq![','] + json_string(x)
        },
    decreases elems.len(),
{
    let p = elems.push(x);
    if elems.len() == 0 {
        assert(p.len() == 1);
        assert(p[0] == x);
    } else {
        assert(p[0] == elems[0]);
        assert(p.skip(1) =~= elems.skip(1).push(x));
        lemma_items_push(elems.skip(1), x);
        if elems.len() == 1 {
            assert(elems.skip(1).len() == 0);
            assert(json_str_items(p) =~= json_str_items(elems) + seq![','] + json_string(x));
        } else {
            assert(json_string(elems[0]) + seq![','] + (json_str_items(elems.skip(1)) + seq![',']
                + json_string(x)) =~= (json_string(elems[0]) + seq![','] + json_str_items(
                elems.skip(1),
            )) + seq![','] + json_string(x));
        }
    }
}

/// A JSON array of string literals.
pub open spec fn json_str_array(elems: Seq<Seq<char>>) -> Seq<char> {
    seq!['['] + json_str_items(elems) + seq![']']
}

/// Renders a list of strings as a JSON array.
pub fn json_str_array_of(elems: &Vec<String>) -> (r: String)
    ensures
        r@ == json_str_array(elems.deep_view()),
{
    let ghost ev = elems.deep_view();
    let mut out = String::new();
    out.append("[");
    let mut i: usize = 0;
    proof {
        reveal_strlit("[");
        assert(ev.take(0int) =~= Seq::<Seq<char>>::empty());
        assert(out@ =~= seq!['['] + json_str_items(ev.take(0int)));
    }
    while i < elems.len()
        invariant
            elems.deep_view() == ev,
            elems@.len() == ev.len(),
            i <= ev.len(),
            out@ == seq!['['] + json_str_items(ev.take(i as int)),
        decreases ev.len() - i,
    {
        proof {
            assert(elems@[i as int]@ == ev[i as int]);
        }
        if i > 0 {
            out.append(",");
            proof {
                reveal_strlit(",");
            }
        }
        let piece = json_string_of(elems[i].as_str());
        out.append(piece.as_str());
        proof {
            assert(ev.take(i + 1) =~= ev.take(i as int).push(ev[i as int]));
            lemma_items_push(ev.take(i as int), ev[i as int]);
            assert(out@ =~= seq!['['] + json_str_items(ev.take(i + 1)));
        }
        i = i + 1;
    }
    assert(ev.take(i as int) =~= ev);
    out.append("]");
    proof {
        reveal_strlit("]");
        assert(out@ =~= json_str_array(ev));
    }
    out
}

/// The JSON object for a launch specification.
pub open spec fn start_body_json(b: StartBodyV) -> Seq<char> {
    "{\"bin_path\":"@ + json_string(b.bin_path) + ",\"args\":"@ + json_str_array(b.args)
        + ",\"log_file\":"@ + json_string(b.log_file) + "}"@
}

/// Renders a launch specification as JSON.
pub fn start_body_json_of(b: &StartBody) -> (r: String)
    ensures
        r@ == start_body_json(b@),
{
    let mut out = String::new();
    out.append("{\"bin_path\":");
    let piece = json_string_of(b.bin_path.as_str());
    out.append(piece.as_str());
    out.append(",\"args\":");
    let piece = json_str_array_of(&b.args);
    out.append(piece.as_str());
    out.append(",\"log_file\":");
    let piece = json_string_of(b.log_file.as_str());
    out.append(piece.as_str());
    out.append("}");
    assert(out@ =~= start_body_json(b@));
    out
}

/// The JSON object for the version report.
pub open spec fn version_json(service: Seq<char>, version: Seq<char>) -> Seq<char> {
    "{\"service\":"@ + json_string(service) + ",\"version\":"@ + json_string(version) + "}"@
}

/// Renders the version report as JSON.
pub fn version_json_of(v: &VersionInfo) -> (r: String)
    ensures
        r@ == version_json(v.service@, v.version@),
{
    let mut out = String::new();
    out.append("{\"service\":");
    let piece = json_string_of(v.service.as_str());
    out.append(piece.as_str());
    out.append(",\"version\":");
    let piece = json_string_of(v.version.as_str());
    out.append(piece.as_str());
    out.append("}");
    assert(out@ =~= version_json(v.service@, v.version@));
    out
}

/// The JSON form of a response's data field: the payload's object, or
/// `null` when there is none.
pub open spec fn data_json(data: Option<Payload>) -> Seq<char> {
    match data {
        Some(Payload::Version(v)) => version_json(v.service@, v.version@),
        Some(Payload::Spec(b)) => start_body_json(b@),
        None => "null"@,
    }
}

/// The JSON form of a whole response envelope.
pub open spec fn spec_response_json(r: JsonResponse) -> Seq<char> {
    "{\"code\":"@ + (if r.code == 0 {
        "0"@
    } else {
        "400"@
    }) + ",\"msg\":"@ + json_string(r.msg@) + ",\"data\":"@ + data_json(r.data) + "}"@
}

/// Serializes a response envelope.  An envelope's code is always exactly
/// 0 (success) or 400 (failure).
pub fn response_json(r: &JsonResponse) -> (out: String)
    requires
        r.code == 0 || r.code == 400,
    ensures
        out@ == spec_response_json(*r),
{
    let mut out = String::new();
    out.append("{\"code\":");
    if r.code == 0 {
        out.append("0");
    } else {
        out.append("400");
    }
    out.append(",\"msg\":");
    let piece = json_string_of(r.msg.as_str());
    out.append(piece.as_str());
    out.append(",\"data\":");
    match &r.data {
        Some(Payload::Version(v)) => {
            let piece = version_json_of(v);
            out.append(piece.as_str());
        },
        Some(Payload::Spec(b)) => {
            let piece = start_body_json_of(b);
            out.append(piece.as_str());
        },
        None => {
            out.append("null");
        },
    }
    out.append("}");
    assert(out@ =~= spec_response_json(*r));
    out
}

} // verus!
