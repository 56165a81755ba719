use vstd::prelude::*;

use crate::params::ResolvedConfig;
use crate::text::push_str_chars;
use crate::text::str_chars;
use crate::text::string_from_chars;

verus! {

pub open spec fn hex_char(n: int) -> char {
    if n < 10 {
        (48 + n) as char
    } else {
        (87 + n) as char
    }
}

/// How one character is written inside a JSON string literal: quote,
/// backslash and the named control characters get a two-character escape,
/// the remaining control characters a \u00XX escape, and everything else
/// stands for itself.
pub open spec fn spec_escape_char(c: char) -> Seq<char> {
    if c == '"' {
        seq!['\\', '"']
    } else if c == '\\' {
        seq!['\\', '\\']
    } else if c == '\u{8}' {
        seq!['\\', 'b']
    } else if c == '\u{c}' {
        seq!['\\', 'f']
    } else if c == '\n' {
        seq!['\\', 'n']
    } else if c == '\r' {
        seq!['\\', 'r']
    } else if c == '\t' {
        seq!['\\', 't']
    } else if (c as u32) < 32 {
        seq!['\\', 'u', '0', '0', hex_char((c as u32 / 16) as int), hex_char((c as u32 % 16) as int)]
    } else {
        seq![c]
    }
}

/// A whole string escaped for embedding inside a JSON string literal.
pub open spec fn spec_json_escape(s: Seq<char>) -> Seq<char>
    decreases s.len(),
{
    if s.len() == 0 {
        Seq::empty()
    } else {
        spec_escape_char(s[0]) + spec_json_escape(s.drop_first())
    }
}

pub proof fn lemma_json_escape_concat(a: Seq<char>, b: Seq<char>)
    ensures
        spec_json_escape(a + b) == spec_json_escape(a) + spec_json_escape(b),
    decreases a.len(),
{
    if a.len() == 0 {
        assert(a + b =~= b);
        assert(spec_json_escape(a) =~= Seq::empty());
        assert(spec_json_escape(a) + spec_json_escape(b) =~= spec_json_escape(b));
    } else {
        assert((a + b).drop_first() =~= a.drop_first() + b);
        assert((a + b)[0] == a[0]);
        assert((a + b).len() > 0);
        lemma_json_escape_concat(a.drop_first(), b);
        assert(spec_escape_char(a[0]) + (spec_json_escape(a.drop_first()) + spec_json_escape(b))
            =~= (spec_escape_char(a[0]) + spec_json_escape(a.drop_first())) + spec_json_escape(b));
    }
}

fn hex_char_exec(n: u32) -> (r: char)
    requires
        n < 16,
    ensures
        r == hex_char(n as int),
{
    if n < 10 {
        ((48 + n) as u8) as char
    } else {
        ((87 + n) as u8) as char
    }
}

/// Appends one character's JSON escape to the buffer.
fn escape_char_into(out: &mut Vec<char>, c: char)
    ensures
        final(out)@ == old(out)@ + spec_escape_char(c),
{
    if c == '"' {
        out.push('\\');
        out.push('"');
    } else if c == '\\' {
        out.push('\\');
        out.push('\\');
    } else if c == '\u{8}' {
        out.push('\\');
        out.push('b');
    } else if c == '\u{c}' {
        out.push('\\');
        out.push('f');
    } else if c == '\n' {
        out.push('\\');
        out.push('n');
    } else if c == '\r' {
        out.push('\\');
        out.push('r');
    } else if c == '\t' {
        out.push('\\');
        out.push('t');
    } else if (c as u32) < 32 {
        out.push('\\');
        out.push('u');
        out.push('0');
        out.push('0');
        out.push(hex_char_exec((c as u32) / 16));
        out.push(hex_char_exec((c as u32) % 16));
    } else {
        out.push(c);
    }
    proof {
        assert(final(out)@ =~= old(out)@ + spec_escape_char(c));
    }
}

/// Appends the JSON escape of a whole character sequence to the buffer.
fn escape_into(out: &mut Vec<char>, s: &Vec<char>)
    ensures
        final(out)@ == old(out)@ + spec_json_escape(s@),
{
    let mut i: usize = 0;
    while i < s.len()
        invariant
            0 <= i <= s@.len(),
            out@ == old(out)@ + spec_json_escape(s@.take(i as int)),
        decreases s@.len() - i,
    {
        escape_char_into(out, s[i]);
        proof {
            assert(s@.take(i as int + 1) =~= s@.take(i as int) + seq![s@[i as int]]);
            lemma_json_escape_concat(s@.take(i as int), seq![s@[i as int]]);
            let c = s@[i as int];
            assert(seq![c].drop_first() =~= Seq::<char>::empty());
            assert(spec_json_escape(Seq::<char>::empty()) == Seq::<char>::empty());
            assert(spec_json_escape(seq![c]) == spec_escape_char(c) + Seq::<char>::empty());
            assert(spec_escape_char(c) + Seq::<char>::empty() =~= spec_escape_char(c));
            assert(out@ =~= old(out)@ + spec_json_escape(s@.take(i as int + 1)));
        }
        i += 1;
    }
    proof {
        assert(s@.take(s@.len() as int) =~= s@);
    }
}

/// The outbound chat-completion document: a system message with the prompt,
/// a user message with the fixed marker text and the image as a data URI
/// under the image/jpeg MIME type, then the stream flag, the model, and the
/// fixed sampling parameters.
pub open spec fn spec_request_body(
    prompt: Seq<char>,
    model: Seq<char>,
    image_b64: Seq<char>,
    stream: bool,
) -> Seq<char> {
    "{\"messages\":[{\"role\":\"system\",\"content\":\""@ + spec_json_escape(prompt)
        + "\"},{\"role\":\"user\",\"content\":[{\"type\":\"text\",\"text\":\"analyze\"},{\"type\":\"image_url\",\"image_url\":{\"url\":\"data:image/jpeg;base64,"@
        + spec_json_escape(image_b64) + "\"}}]}],\"stream\":"@ + (if stream {
        "true"@
    } else {
        "false"@
    }) + ",\"model\":\""@ + spec_json_escape(model)
        + "\",\"temperature\":0.5,\"presence_penalty\":0,\"frequency_penalty\":0,\"top_p\":1}"@
}

/// Assembles the request body from the resolved configuration and the
/// normalized image. Pure: the result is a function of its arguments alone.
pub fn build_request_body(config: &ResolvedConfig, image_b64: &String) -> (r: String)
    ensures
        r@ == spec_request_body(config.prompt@, config.model@, image_b64@, config.stream),
{
    let mut out: Vec<char> = Vec::new();
    push_str_chars(&mut out, "{\"messages\":[{\"role\":\"system\",\"content\":\"");
    let pc = str_chars(config.prompt.as_str());
    escape_into(&mut out, &pc);
    push_str_chars(
        &mut out,
        "\"},{\"role\":\"user\",\"content\":[{\"type\":\"text\",\"text\":\"analyze\"},{\"type\":\"image_url\",\"image_url\":{\"url\":\"data:image/jpeg;base64,",
    );
    let ic = str_chars(image_b64.as_str());
    escape_into(&mut out, &ic);
    push_str_chars(&mut out, "\"}}]}],\"stream\":");
    if config.stream {
        push_str_chars(&mut out, "true");
    } else {
        push_str_chars(&mut out, "false");
    }
    push_str_chars(&mut out, ",\"model\":\"");
    let mc = str_chars(config.model.as_str());
    escape_into(&mut out, &mc);
    push_str_chars(
        &mut out,
        "\",\"temperature\":0.5,\"presence_penalty\":0,\"frequency_penalty\":0,\"top_p\":1}",
    );
    proof {
        assert(out@ =~= spec_request_body(
            config.prompt@,
            config.model@,
            image_b64@,
            config.stream,
        ));
    }
    string_from_chars(&out)
}

proof fn lemma_hex_char_val(n: int)
    requires
        0 <= n < 16,
    ensures
        crate::json::hex_val(hex_char(n)) == n,
{
}

/// Escaping round-trips through the string scanner: wherever a document
/// holds the JSON escape of `s` followed by a closing quote, the scanner
/// decodes exactly `s` and stops just past that quote. So any text the
/// request builder embeds in a string literal would be read back unchanged.
pub proof fn lemma_escape_unescape(w: Seq<char>, i: int, s: Seq<char>, acc: Seq<char>)
    requires
        0 <= i,
        i + spec_json_escape(s).len() < w.len(),
        w.subrange(i, i + spec_json_escape(s).len()) == spec_json_escape(s),
        w[i + spec_json_escape(s).len()] == '"',
    ensures
        crate::json::spec_str_body(w, i, acc) == Some::<(Seq<char>, int)>(
            (acc + s, i + spec_json_escape(s).len() + 1),
        ),
    decreases s.len(),
{
    let e = spec_json_escape(s);
    assert forall|k: int| 0 <= k < e.len() implies w[i + k] == e[k] by {
        assert(w.subrange(i, i + e.len())[k] == e[k]);
    }
    if s.len() == 0 {
        assert(e.len() == 0);
        assert(w[i] == '"');
        assert(acc + s =~= acc);
    } else {
        let c = s[0];
        let ec = spec_escape_char(c);
        let s2 = s.drop_first();
        let e2 = spec_json_escape(s2);
        assert(e == ec + e2);
        let i2 = i + ec.len();
        assert forall|k: int| 0 <= k < ec.len() implies w[i + k] == ec[k] by {
            assert(e[k] == ec[k]);
        }
        assert(w.subrange(i2, i2 + e2.len()) =~= e2) by {
            assert forall|k: int| 0 <= k < e2.len() implies w.subrange(i2, i2 + e2.len())[k]
                == e2[k] by {
                assert(e[ec.len() + k] == e2[k]);
                assert(w[i2 + k] == e[ec.len() + k]);
            }
        }
        assert(w[i2 + e2.len()] == '"');
        if c == '"' || c == '\\' {
            lemma_escape_unescape(w, i2, s2, acc.push(c));
        } else if c == '\u{8}' || c == '\u{c}' || c == '\n' || c == '\r' || c == '\t' {
            lemma_escape_unescape(w, i2, s2, acc.push(c));
        } else if (c as u32) < 32 {
            let hi = (c as u32 / 16) as int;
            let lo = (c as u32 % 16) as int;
            lemma_hex_char_val(hi);
            lemma_hex_char_val(lo);
            assert(crate::json::hex_val('0') == 0);
            assert(crate::json::hex4_val(w, i + 2) == hi * 16 + lo);
            assert(hi * 16 + lo == c as u32) by (nonlinear_arith)
                requires
                    hi == c as u32 / 16,
                    lo == c as u32 % 16,
            ;
            vstd::utf8::char_u32_cast(c, c as u32);
            assert((((hi * 16 + lo) as u32) as char) == c);
            lemma_escape_unescape(w, i2, s2, acc.push(c));
        } else {
            assert(ec == seq![c]);
            assert(w[i + 0] == ec[0]);
            assert(w[i] == c);
            lemma_escape_unescape(w, i2, s2, acc.push(c));
        }
        assert(acc.push(c) + s2 =~= acc + s);
    }
}

} // verus!
