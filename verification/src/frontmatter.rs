//! The `---`-delimited frontmatter block at the head of a page, the `title` and
//! `order` it carries, and the page's first level-one heading.

use vstd::prelude::*;
use crate::text::{
    find_from, from_chars, lemma_find_from, lines, lines_exec, occurs_at_exec, range_eq, slice_of,
    starts_with, string_of, to_chars, trim, trim_bounds, trim_char, trim_char_bounds,
    find_from_exec,
};

verus! {

/// The opening delimiter `---\n`.
pub open spec fn fm_open() -> Seq<char> {
    seq!['-', '-', '-', '\n']
}

/// The closing delimiter search key `\n---`.
pub open spec fn fm_close() -> Seq<char> {
    seq!['\n', '-', '-', '-']
}

/// Where the frontmatter block of `raw` ends, if `raw` has one: `raw` starts
/// with `---\n`, a later `\n---` closes it, and the block runs through the end
/// of that closing line (or to the end of `raw` when that line has no newline).
pub open spec fn frontmatter_end(raw: Seq<char>) -> Option<nat> {
    if starts_with(raw, fm_open()) {
        let after = raw.skip(4);
        match find_from(after, fm_close(), 0) {
            Some(idx) => match find_from(after, seq!['\n'], idx + 4) {
                Some(k) => Some(4 + k + 1),
                None => Some(raw.len()),
            },
            None => None,
        }
    } else {
        None
    }
}

/// The (frontmatter block, body) split of `raw`.
pub open spec fn split_of(raw: Seq<char>) -> (Seq<char>, Seq<char>) {
    match frontmatter_end(raw) {
        Some(k) => (raw.take(k as int), raw.skip(k as int)),
        None => (seq![], raw),
    }
}

/// Split a raw file into (frontmatter block, body). The frontmatter keeps its
/// `---` delimiters and trailing newline so `frontmatter + body == raw`.
pub fn split_frontmatter(raw: &str) -> (r: (String, String))
    ensures
        (r.0@, r.1@) == split_of(raw@),
        r.0@ + r.1@ == raw@,
        r.0@.len() == 0 || starts_with(r.0@, fm_open()),
{
    let chars = to_chars(raw);
    let n = chars.len();
    let open: Vec<char> = vec!['-', '-', '-', '\n'];
    if occurs_at_exec(&chars, &open, 0) {
        let after = slice_of(&chars, 4, n);
        let close: Vec<char> = vec!['\n', '-', '-', '-'];
        let nl: Vec<char> = vec!['\n'];
        proof {
            assert(after@ =~= raw@.skip(4));
            lemma_find_from(after@, close@, 0);
        }
        match find_from_exec(&after, &close, 0) {
            Some(idx) => {
                proof {
                    lemma_find_from(after@, nl@, (idx + 4) as nat);
                }
                match find_from_exec(&after, &nl, idx + 4) {
                    Some(k) => {
                        let at = 4 + k + 1;
                        let fm = from_chars(&chars, 0, at);
                        let body = from_chars(&chars, at, n);
                        assert(fm@ + body@ =~= raw@);
                        assert(fm@ =~= raw@.take(at as int));
                        assert(body@ =~= raw@.skip(at as int));
                        assert(starts_with(raw@, fm_open()));
                        assert(nl@ =~= seq!['\n']);
                        assert(after@ =~= raw@.skip(4));
                        assert(find_from(raw@.skip(4), fm_close(), 0) == Some(idx as nat));
                        assert(find_from(raw@.skip(4), seq!['\n'], (idx + 4) as nat) == Some(k as nat));
                        assert(frontmatter_end(raw@) == Some(at as nat));
                        assert(fm@.subrange(0, 4) =~= chars@.subrange(0, 4));
                        return (fm, body);
                    },
                    None => {
                        let fm = from_chars(&chars, 0, n);
                        assert(fm@ =~= raw@);
                        assert(nl@ =~= seq!['\n']);
                        assert(after@ =~= raw@.skip(4));
                        assert(frontmatter_end(raw@) == Some(raw@.len()));
                        assert(raw@.take(raw@.len() as int) =~= raw@);
                        assert(raw@.skip(raw@.len() as int) =~= seq![]);
                        assert(fm@.subrange(0, 4) =~= chars@.subrange(0, 4));
                        return (fm, String::new());
                    },
                }
            },
            None => {},
        }
    }
    assert(seq![] + raw@ =~= raw@);
    (String::new(), string_of(&chars))
}

// ---------------------------------------------------------------------------
// Integers

/// `'0' <= c <= '9'`.
pub open spec fn is_digit(c: char) -> bool {
    '0' <= c <= '9'
}

/// The value of a string of decimal digits.
pub open spec fn digits_value(d: Seq<char>) -> nat
    decreases d.len(),
{
    if d.len() == 0 {
        0
    } else {
        digits_value(d.drop_last()) * 10 + ((d.last() as u32) - ('0' as u32)) as nat
    }
}

/// The length of a leading `+` or `-`.
pub open spec fn sign_len(s: Seq<char>) -> int {
    if s.len() > 0 && (s[0] == '-' || s[0] == '+') {
        1
    } else {
        0
    }
}

/// `str::parse::<i64>`: an optional `+` or `-`, then one or more ASCII digits,
/// with the value in range.
pub open spec fn parse_i64(s: Seq<char>) -> Option<i64> {
    let neg = s.len() > 0 && s[0] == '-';
    let d = s.skip(sign_len(s));
    if d.len() == 0 || !(forall|i: int| 0 <= i < d.len() ==> is_digit(#[trigger] d[i])) {
        None
    } else {
        let v: int = if neg {
            -(digits_value(d) as int)
        } else {
            digits_value(d) as int
        };
        if i64::MIN <= v <= i64::MAX {
            Some(v as i64)
        } else {
            None
        }
    }
}

proof fn lemma_digits_value_monotone(d: Seq<char>, k: int)
    requires
        0 <= k <= d.len(),
        forall|i: int| 0 <= i < d.len() ==> is_digit(#[trigger] d[i]),
    ensures
        digits_value(d.take(k)) <= digits_value(d),
    decreases d.len() - k,
{
    if k < d.len() {
        lemma_digits_value_monotone(d, k + 1);
        assert(d.take(k + 1).drop_last() =~= d.take(k));
        assert(d.take(k + 1).last() == d[k]);
    } else {
        assert(d.take(k) =~= d);
    }
}

/// Parse `s[from..to]` as an `i64` the way `str::parse` does.
pub fn parse_i64_range(s: &Vec<char>, from: usize, to: usize) -> (r: Option<i64>)
    requires
        from <= to <= s@.len(),
    ensures
        r == parse_i64(s@.subrange(from as int, to as int)),
{
    let ghost t = s@.subrange(from as int, to as int);
    let mut a = from;
    let neg = from < to && s[from] == '-';
    if from < to && (s[from] == '-' || s[from] == '+') {
        a = from + 1;
    }
    let ghost d = s@.subrange(a as int, to as int);
    assert(d =~= t.skip(sign_len(t)));
    assert(neg == (t.len() > 0 && t[0] == '-'));
    if a == to {
        return None;
    }
    // every character must be a digit
    let mut i = a;
    while i < to
        invariant
            a <= i <= to <= s@.len(),
            d == s@.subrange(a as int, to as int),
            t == s@.subrange(from as int, to as int),
            d == t.skip(sign_len(t)),
            d.len() > 0,
            forall|j: int| 0 <= j < i - a ==> is_digit(#[trigger] d[j]),
        decreases to - i,
    {
        assert(d[i - a] == s@[i as int]);
        if !('0' <= s[i] && s[i] <= '9') {
            assert(!is_digit(d[i - a]));
            return None;
        }
        i += 1;
    }
    // accumulate the magnitude, stopping once it leaves the range
    let limit: u64 = if neg {
        9223372036854775808
    } else {
        9223372036854775807
    };
    let mut acc: u64 = 0;
    let mut i = a;
    while i < to
        invariant
            a <= i <= to <= s@.len(),
            d == s@.subrange(a as int, to as int),
            t == s@.subrange(from as int, to as int),
            d == t.skip(sign_len(t)),
            d.len() > 0,
            neg == (t.len() > 0 && t[0] == '-'),
            forall|j: int| 0 <= j < d.len() ==> is_digit(#[trigger] d[j]),
            acc as nat == digits_value(d.take(i - a)),
            acc <= limit,
            limit == (if neg {
                9223372036854775808u64
            } else {
                9223372036854775807u64
            }),
        decreases to - i,
    {
        assert(d[i - a] == s@[i as int]);
        assert(is_digit(d[i - a]));
        let digit = (s[i] as u32 - '0' as u32) as u64;
        assert(d.take(i + 1 - a).drop_last() =~= d.take(i - a));
        assert(d.take(i + 1 - a).last() == d[i - a]);
        assert(digits_value(d.take(i + 1 - a)) == acc * 10 + digit);
        if acc > (limit - digit) / 10 {
            assert(acc * 10 + digit > limit) by (nonlinear_arith)
                requires
                    acc > (limit - digit) / 10,
                    digit <= 9,
                    limit >= 9,
            ;
            proof {
                lemma_digits_value_monotone(d, i + 1 - a);
            }
            return None;
        }
        assert(acc * 10 + digit <= limit) by (nonlinear_arith)
            requires
                acc <= (limit - digit) / 10,
                digit <= 9,
                limit >= 9,
        ;
        acc = acc * 10 + digit;
        i += 1;
    }
    assert(d.take(i - a) =~= d);
    if neg {
        if acc == 9223372036854775808 {
            Some(i64::MIN)
        } else {
            Some(-(acc as i64))
        }
    } else {
        Some(acc as i64)
    }
}

// ---------------------------------------------------------------------------
// Title and order

/// The key `title`.
pub open spec fn key_title() -> Seq<char> {
    seq!['t', 'i', 't', 'l', 'e']
}

/// The key `order`.
pub open spec fn key_order() -> Seq<char> {
    seq!['o', 'r', 'd', 'e', 'r']
}

/// A `key: value` value with surrounding whitespace, then double quotes, then
/// single quotes trimmed off.
pub open spec fn meta_value(v: Seq<char>) -> Seq<char> {
    trim_char(trim_char(trim(v), '"'), '\'')
}

/// What one frontmatter line does to the (title, order) read so far.
pub open spec fn meta_step(line: Seq<char>, acc: (Option<Seq<char>>, i64)) -> (
    Option<Seq<char>>,
    i64,
) {
    if trim(line) == seq!['-', '-', '-'] {
        acc
    } else {
        match find_from(line, seq![':'], 0) {
            None => acc,
            Some(k) => {
                let key = trim(line.take(k as int));
                let v = meta_value(line.skip(k + 1 as int));
                if key == key_title() {
                    (Some(v), acc.1)
                } else if key == key_order() {
                    (
                        acc.0,
                        match parse_i64(v) {
                            Some(n) => n,
                            None => 999,
                        },
                    )
                } else {
                    acc
                }
            },
        }
    }
}

/// (title, order) after reading the given lines in turn; no title and order
/// 999 before any.
pub open spec fn meta_of(ls: Seq<Seq<char>>) -> (Option<Seq<char>>, i64)
    decreases ls.len(),
{
    if ls.len() == 0 {
        (None, 999)
    } else {
        meta_step(ls.last(), meta_of(ls.drop_last()))
    }
}

/// The view of an optional string.
pub open spec fn opt_view(o: Option<String>) -> Option<Seq<char>> {
    match o {
        Some(s) => Some(s@),
        None => None,
    }
}

/// Read `title`/`order` from a frontmatter block (the `---`-delimited header that
/// `split_frontmatter` returns). Minimal `key: value` parser; "" yields defaults.
pub fn frontmatter_meta(fm: &str) -> (r: (Option<String>, i64))
    ensures
        (opt_view(r.0), r.1) == meta_of(lines(fm@)),
{
    let chars = to_chars(fm);
    let ls = lines_exec(&chars);
    let dashes: Vec<char> = vec!['-', '-', '-'];
    let colon: Vec<char> = vec![':'];
    let title_key: Vec<char> = vec!['t', 'i', 't', 'l', 'e'];
    let order_key: Vec<char> = vec!['o', 'r', 'd', 'e', 'r'];
    let ghost all = lines(fm@);
    let mut title: Option<String> = None;
    let mut order: i64 = 999;
    let mut i: usize = 0;
    while i < ls.len()
        invariant
            all == lines(fm@),
            ls@.len() == all.len(),
            forall|j: int| 0 <= j < ls@.len() ==> #[trigger] ls@[j]@ == all[j],
            dashes@ == seq!['-', '-', '-'],
            colon@ == seq![':'],
            title_key@ == key_title(),
            order_key@ == key_order(),
            i <= ls@.len(),
            (opt_view(title), order) == meta_of(all.take(i as int)),
        decreases ls.len() - i,
    {
        let line = &ls[i];
        assert(line@ == all[i as int]);
        assert(all.take(i + 1).drop_last() =~= all.take(i as int));
        assert(all.take(i + 1).last() == all[i as int]);
        let (a, b) = trim_bounds(line, 0, line.len());
        assert(line@.subrange(0, line@.len() as int) =~= line@);
        if range_eq(line, a, b, &dashes) {
        } else {
            proof {
                lemma_find_from(line@, colon@, 0);
            }
            match find_from_exec(line, &colon, 0) {
                None => {},
                Some(k) => {
                    let (ka, kb) = trim_bounds(line, 0, k);
                    let (va, vb) = trim_bounds(line, k + 1, line.len());
                    let (qa, qb) = trim_char_bounds(line, va, vb, '"');
                    let (sa, sb) = trim_char_bounds(line, qa, qb, '\'');
                    assert(line@.take(k as int) =~= line@.subrange(0, k as int));
                    assert(line@.skip(k + 1) =~= line@.subrange(k + 1, line@.len() as int));
                    if range_eq(line, ka, kb, &title_key) {
                        title = Some(from_chars(line, sa, sb));
                    } else if range_eq(line, ka, kb, &order_key) {
                        order = match parse_i64_range(line, sa, sb) {
                            Some(n) => n,
                            None => 999,
                        };
                    }
                },
            }
        }
        i += 1;
    }
    assert(all.take(i as int) =~= all);
    (title, order)
}

// ---------------------------------------------------------------------------
// First heading

/// The heading prefix `# `.
pub open spec fn h1_prefix() -> Seq<char> {
    seq!['#', ' ']
}

/// The first of `ls` that starts with `# `, without that prefix and trimmed.
pub open spec fn first_h1_of(ls: Seq<Seq<char>>) -> Option<Seq<char>>
    decreases ls.len(),
{
    if ls.len() == 0 {
        None
    } else if starts_with(ls[0], h1_prefix()) {
        Some(trim(ls[0].skip(2)))
    } else {
        first_h1_of(ls.drop_first())
    }
}

/// The text of the first `# ` heading line of `body`.
pub fn first_h1(body: &str) -> (r: Option<String>)
    ensures
        opt_view(r) == first_h1_of(lines(body@)),
{
    let chars = to_chars(body);
    let ls = lines_exec(&chars);
    let prefix: Vec<char> = vec!['#', ' '];
    let ghost all = lines(body@);
    let mut i: usize = 0;
    assert(all.skip(0) =~= all);
    while i < ls.len()
        invariant
            all == lines(body@),
            ls@.len() == all.len(),
            forall|j: int| 0 <= j < ls@.len() ==> #[trigger] ls@[j]@ == all[j],
            prefix@ == h1_prefix(),
            i <= ls@.len(),
            first_h1_of(all) == first_h1_of(all.skip(i as int)),
        decreases ls.len() - i,
    {
        let line = &ls[i];
        assert(all.skip(i as int)[0] == line@);
        if occurs_at_exec(line, &prefix, 0) {
            let (a, b) = trim_bounds(line, 2, line.len());
            assert(line@.skip(2) =~= line@.subrange(2, line@.len() as int));
            return Some(from_chars(line, a, b));
        }
        assert(all.skip(i as int).drop_first() =~= all.skip(i + 1));
        i += 1;
    }
    assert(all.skip(i as int) =~= seq![]);
    None
}

} // verus!
