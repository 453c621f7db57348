//! The JSON texts the server answers with and the page reads its settings from.

use vstd::prelude::*;
use crate::text::{decimal, decimal_exec, hex_char, join, join_exec, push_all, push_str, string_of, to_chars, views};

verus! {

/// How serde_json writes one character inside a string literal: `"` and `\`
/// behind a backslash; backspace, tab, line feed, form feed and carriage return
/// as `\b`, `\t`, `\n`, `\f`, `\r`; any other character below U+0020 as
/// `\u00` and two lowercase hex digits; every other character as itself.
pub open spec fn json_char_escape(c: char) -> Seq<char> {
    let u = c as u32;
    if c == '"' {
        seq!['\\', '"']
    } else if c == '\\' {
        seq!['\\', '\\']
    } else if u == 8 {
        seq!['\\', 'b']
    } else if u == 9 {
        seq!['\\', 't']
    } else if u == 10 {
        seq!['\\', 'n']
    } else if u == 12 {
        seq!['\\', 'f']
    } else if u == 13 {
        seq!['\\', 'r']
    } else if u < 32 {
        seq!['\\', 'u', '0', '0', hex_char((u / 16) as nat), hex_char((u % 16) as nat)]
    } else {
        seq![c]
    }
}

/// The characters of `s`, each escaped in turn.
pub open spec fn json_escaped(s: Seq<char>) -> Seq<char>
    decreases s.len(),
{
    if s.len() == 0 {
        seq![]
    } else {
        json_escaped(s.drop_last()) + json_char_escape(s.last())
    }
}

/// What `serde_json::to_string` returns for a string: the escaped characters
/// between double quotes.
pub open spec fn json_quoted(s: Seq<char>) -> Seq<char> {
    seq!['"'] + json_escaped(s) + seq!['"']
}

/// A character that serde_json writes as itself inside a string literal.
pub open spec fn json_plain_char(c: char) -> bool {
    c != '"' && c != '\\' && (c as u32) >= 32
}

proof fn lemma_plain_escaped(s: Seq<char>)
    requires
        forall|i: int| 0 <= i < s.len() ==> json_plain_char(#[trigger] s[i]),
    ensures
        json_escaped(s) == s,
    decreases s.len(),
{
    if s.len() > 0 {
        let init = s.drop_last();
        assert forall|i: int| 0 <= i < init.len() implies json_plain_char(#[trigger] init[i]) by {
            assert(init[i] == s[i]);
        }
        lemma_plain_escaped(init);
        assert(json_plain_char(s[s.len() - 1]));
        assert(json_char_escape(s.last()) == seq![s.last()]);
        assert(init + seq![s.last()] =~= s);
    }
}

/// Text without quotes, backslashes or control characters appears in the JSON
/// exactly as it is, between double quotes.
pub proof fn law_plain_text_quoted_verbatim(s: Seq<char>)
    requires
        forall|i: int| 0 <= i < s.len() ==> json_plain_char(#[trigger] s[i]),
    ensures
        json_quoted(s) == seq!['"'] + s + seq!['"'],
{
    lemma_plain_escaped(s);
}

/// Calls `serde_json::to_string` on a string. Serializing a `str` cannot fail;
/// the result is the quoted literal with serde_json's escapes (its `ESCAPE`
/// table in `ser.rs`), as `json_quoted` states.
#[verifier::external_body]
pub(crate) fn json_string(s: &str) -> (r: String)
    ensures
        r@ == json_quoted(s@),
{
    serde_json::to_string(s).unwrap_or_default()
}

/// `true` or `false`.
pub open spec fn json_bool(b: bool) -> Seq<char> {
    if b {
        seq!['t', 'r', 'u', 'e']
    } else {
        seq!['f', 'a', 'l', 's', 'e']
    }
}

pub(crate) fn json_bool_exec(b: bool) -> (r: Vec<char>)
    ensures
        r@ == json_bool(b),
{
    let r: Vec<char> = if b {
        vec!['t', 'r', 'u', 'e']
    } else {
        vec!['f', 'a', 'l', 's', 'e']
    };
    assert(r@ =~= json_bool(b));
    r
}

/// An integer as serde_json writes it: its decimal digits, after `-` when negative.
pub open spec fn json_int(n: int) -> Seq<char> {
    if n < 0 {
        seq!['-'] + decimal((-n) as nat)
    } else {
        decimal(n as nat)
    }
}

pub(crate) fn json_int_exec(n: i64) -> (r: Vec<char>)
    ensures
        r@ == json_int(n as int),
{
    if n < 0 {
        let wide: i128 = n as i128;
        let m: u128 = (0 - wide) as u128;
        let mut r: Vec<char> = vec!['-'];
        push_all(&mut r, &decimal_exec(m));
        r
    } else {
        decimal_exec(n as u128)
    }
}

/// A JSON array of strings, compact, in order.
pub open spec fn json_string_array(items: Seq<Seq<char>>) -> Seq<char> {
    seq!['['] + join(items.map_values(|s: Seq<char>| json_quoted(s)), seq![',']) + seq![']']
}

pub(crate) fn json_string_array_exec(items: &Vec<String>) -> (r: Vec<char>)
    ensures
        r@ == json_string_array(items@.map_values(|s: String| s@)),
{
    let ghost quoted = items@.map_values(|s: String| s@).map_values(|s: Seq<char>| json_quoted(s));
    let mut parts: Vec<Vec<char>> = Vec::new();
    let mut i: usize = 0;
    while i < items.len()
        invariant
            quoted == items@.map_values(|s: String| s@).map_values(
                |s: Seq<char>| json_quoted(s),
            ),
            i <= items@.len(),
            views(parts@) == quoted.take(i as int),
        decreases items.len() - i,
    {
        let q = json_string(items[i].as_str());
        let v = to_chars(q.as_str());
        let ghost before = views(parts@);
        parts.push(v);
        assert(views(parts@) =~= before.push(v@));
        assert(quoted.take(i + 1) =~= quoted.take(i as int).push(quoted[i as int]));
        i += 1;
    }
    assert(quoted.take(i as int) =~= quoted);
    let comma: Vec<char> = vec![','];
    assert(comma@ =~= seq![',']);
    let joined = join_exec(&parts, &comma);
    let mut r: Vec<char> = vec!['['];
    push_all(&mut r, &joined);
    r.push(']');
    assert(r@ =~= json_string_array(items@.map_values(|s: String| s@)));
    r
}

/// The answer to a request that worked and returns nothing else.
pub const OK_JSON: &'static str = "{\"ok\":true}";

/// `{"ok":false,"error":<message>}`.
pub open spec fn error_json_of(message: Seq<char>) -> Seq<char> {
    seq!['{', '"', 'o', 'k', '"', ':', 'f', 'a', 'l', 's', 'e', ',', '"', 'e', 'r', 'r', 'o', 'r', '"', ':'] + json_quoted(message) + seq!['}']
}

/// The answer to a request that failed, carrying its message.
pub fn err_json(message: &str) -> (r: String)
    ensures
        r@ == error_json_of(message@),
{
    let mut out: Vec<char> = vec!['{', '"', 'o', 'k', '"', ':', 'f', 'a', 'l', 's', 'e', ',', '"', 'e', 'r', 'r', 'o', 'r', '"', ':'];
    let ghost head = out@;
    assert(head =~= seq!['{', '"', 'o', 'k', '"', ':', 'f', 'a', 'l', 's', 'e', ',', '"', 'e', 'r', 'r', 'o', 'r', '"', ':']);
    let q = json_string(message);
    push_str(&mut out, q.as_str());
    out.push('}');
    assert(out@ =~= error_json_of(message@));
    string_of(&out)
}

/// `{"ok":true,"slug":<slug>}` (serde_json writes object keys in order).
pub open spec fn slug_json_of(slug: Seq<char>) -> Seq<char> {
    seq!['{', '"', 'o', 'k', '"', ':', 't', 'r', 'u', 'e', ',', '"', 's', 'l', 'u', 'g', '"', ':'] + json_quoted(slug) + seq!['}']
}

/// The answer to a page creation or rename: the page's slug.
pub fn slug_json(slug: &str) -> (r: String)
    ensures
        r@ == slug_json_of(slug@),
{
    let mut out: Vec<char> = vec!['{', '"', 'o', 'k', '"', ':', 't', 'r', 'u', 'e', ',', '"', 's', 'l', 'u', 'g', '"', ':'];
    assert(out@ =~= seq!['{', '"', 'o', 'k', '"', ':', 't', 'r', 'u', 'e', ',', '"', 's', 'l', 'u', 'g', '"', ':']);
    let q = json_string(slug);
    push_str(&mut out, q.as_str());
    out.push('}');
    assert(out@ =~= slug_json_of(slug@));
    string_of(&out)
}

/// `{"html":<html>,"ok":true}` (serde_json writes object keys in order).
pub open spec fn html_json_of(html: Seq<char>) -> Seq<char> {
    seq!['{', '"', 'h', 't', 'm', 'l', '"', ':'] + json_quoted(html) + seq![',', '"', 'o', 'k', '"', ':', 't', 'r', 'u', 'e', '}']
}

/// The answer to a save: the freshly rendered page HTML.
pub fn html_json(html: &str) -> (r: String)
    ensures
        r@ == html_json_of(html@),
{
    let mut out: Vec<char> = vec!['{', '"', 'h', 't', 'm', 'l', '"', ':'];
    assert(out@ =~= seq!['{', '"', 'h', 't', 'm', 'l', '"', ':']);
    let q = json_string(html);
    push_str(&mut out, q.as_str());
    let tail: Vec<char> = vec![',', '"', 'o', 'k', '"', ':', 't', 'r', 'u', 'e', '}'];
    assert(tail@ =~= seq![',', '"', 'o', 'k', '"', ':', 't', 'r', 'u', 'e', '}']);
    push_all(&mut out, &tail);
    assert(out@ =~= html_json_of(html@));
    string_of(&out)
}

/// `{"body":<body>,"ok":true}` (serde_json writes object keys in order).
pub open spec fn body_json_of(body: Seq<char>) -> Seq<char> {
    seq!['{', '"', 'b', 'o', 'd', 'y', '"', ':'] + json_quoted(body) + seq![',', '"', 'o', 'k', '"', ':', 't', 'r', 'u', 'e', '}']
}

/// The answer to saving an image into the repo: the page's new body.
pub fn body_json(body: &str) -> (r: String)
    ensures
        r@ == body_json_of(body@),
{
    let mut out: Vec<char> = vec!['{', '"', 'b', 'o', 'd', 'y', '"', ':'];
    assert(out@ =~= seq!['{', '"', 'b', 'o', 'd', 'y', '"', ':']);
    let q = json_string(body);
    push_str(&mut out, q.as_str());
    let tail: Vec<char> = vec![',', '"', 'o', 'k', '"', ':', 't', 'r', 'u', 'e', '}'];
    assert(tail@ =~= seq![',', '"', 'o', 'k', '"', ':', 't', 'r', 'u', 'e', '}']);
    push_all(&mut out, &tail);
    assert(out@ =~= body_json_of(body@));
    string_of(&out)
}

} // verus!
