//! Markdown rendering and the canonical write path, through comrak, plus the
//! rewriting of rendered links into in-page routes (through regex).

use vstd::prelude::*;
use crate::frontmatter::opt_view;
use crate::links::{route_of, resolve_link};
use crate::text::{
    contains, ends_with, find_from, find_from_exec, join, join_exec, lemma_find_from,
    lemma_trim_strip_cr, lemma_trim_subrange, lines, lines_exec, lines_from, occurs_at, push_all,
    push_str, range_eq, replace_all, replace_exec, replace_from, slice_of, string_of, strip_cr,
    to_chars, trim, trim_bounds, views,
};

verus! {

/// The markdown extensions the tool renders and normalizes with.
pub struct MarkdownOptions {
    pub table: bool,
    pub strikethrough: bool,
    pub autolink: bool,
    pub tasklist: bool,
    /// Frontmatter delimiter: a block fenced by it is kept out of rendered HTML
    /// and carried verbatim through normalization.
    pub front_matter_delimiter: Option<String>,
}

/// What `comrak::markdown_to_commonmark` returns for `md` under the given
/// extension settings.
pub uninterp spec fn commonmark_of(
    md: Seq<char>,
    table: bool,
    strikethrough: bool,
    autolink: bool,
    tasklist: bool,
    front_matter_delimiter: Option<Seq<char>>,
) -> Seq<char>;

/// What `comrak::markdown_to_html` returns for `md` under the given extension
/// settings.
pub uninterp spec fn html_of(
    md: Seq<char>,
    table: bool,
    strikethrough: bool,
    autolink: bool,
    tasklist: bool,
    front_matter_delimiter: Option<Seq<char>>,
) -> Seq<char>;

/// Calls `comrak::markdown_to_commonmark` (parse, then re-emit CommonMark) with
/// comrak's default options plus the given extension settings. Its result is
/// named, not described: it is whatever comrak emits for these arguments.
#[verifier::external_body]
fn comrak_commonmark(md: &str, opts: &MarkdownOptions) -> (r: String)
    ensures
        r@ == commonmark_of(
            md@,
            opts.table,
            opts.strikethrough,
            opts.autolink,
            opts.tasklist,
            opt_view(opts.front_matter_delimiter),
        ),
{
    let mut o = comrak::Options::default();
    o.extension.table = opts.table;
    o.extension.strikethrough = opts.strikethrough;
    o.extension.autolink = opts.autolink;
    o.extension.tasklist = opts.tasklist;
    o.extension.front_matter_delimiter = opts.front_matter_delimiter.clone();
    comrak::markdown_to_commonmark(md, &o)
}

/// Calls `comrak::markdown_to_html` with comrak's default options plus the given
/// extension settings. Its result is named, not described: it is whatever comrak
/// renders for these arguments.
#[verifier::external_body]
fn comrak_html(md: &str, opts: &MarkdownOptions) -> (r: String)
    ensures
        r@ == html_of(
            md@,
            opts.table,
            opts.strikethrough,
            opts.autolink,
            opts.tasklist,
            opt_view(opts.front_matter_delimiter),
        ),
{
    let mut o = comrak::Options::default();
    o.extension.table = opts.table;
    o.extension.strikethrough = opts.strikethrough;
    o.extension.autolink = opts.autolink;
    o.extension.tasklist = opts.tasklist;
    o.extension.front_matter_delimiter = opts.front_matter_delimiter.clone();
    comrak::markdown_to_html(md, &o)
}

/// `---`
pub open spec fn fm_delimiter() -> Seq<char> {
    seq!['-', '-', '-']
}

/// The one set of markdown options used everywhere — render AND normalize.
/// front_matter_delimiter keeps `---` frontmatter out of rendered HTML and
/// preserved verbatim on normalize.
pub fn base_opts() -> (o: MarkdownOptions)
    ensures
        o.table && o.strikethrough && o.autolink && o.tasklist,
        opt_view(o.front_matter_delimiter) == Some(fm_delimiter()),
{
    let mut d = String::new();
    d.push('-');
    d.push('-');
    d.push('-');
    MarkdownOptions {
        table: true,
        strikethrough: true,
        autolink: true,
        tasklist: true,
        front_matter_delimiter: Some(d),
    }
}

/// CommonMark for `md` under the base options.
pub open spec fn base_commonmark(md: Seq<char>) -> Seq<char> {
    commonmark_of(md, true, true, true, true, Some(fm_delimiter()))
}

/// HTML for `md` under the base options.
pub open spec fn base_html(md: Seq<char>) -> Seq<char> {
    html_of(md, true, true, true, true, Some(fm_delimiter()))
}

/// Rendering and normalizing use exactly the options `base_opts` returns: for
/// any options meeting its postcondition (every extension on, `---`
/// frontmatter), the HTML is what comrak renders and the CommonMark what comrak
/// emits under those options.
pub proof fn law_pipeline_uses_base_opts(md: Seq<char>, o: MarkdownOptions)
    requires
        o.table && o.strikethrough && o.autolink && o.tasklist,
        opt_view(o.front_matter_delimiter) == Some(fm_delimiter()),
    ensures
        base_html(md) == html_of(
            md,
            o.table,
            o.strikethrough,
            o.autolink,
            o.tasklist,
            opt_view(o.front_matter_delimiter),
        ),
        base_commonmark(md) == commonmark_of(
            md,
            o.table,
            o.strikethrough,
            o.autolink,
            o.tasklist,
            opt_view(o.front_matter_delimiter),
        ),
{
}

// ---------------------------------------------------------------------------
// The `<!-- end list -->` artifact

/// `<!-- end list -->`
pub open spec fn end_list_marker() -> Seq<char> {
    seq!['<', '!', '-', '-', ' ', 'e', 'n', 'd', ' ', 'l', 'i', 's', 't', ' ', '-', '-', '>']
}

pub open spec fn nl3() -> Seq<char> {
    seq!['\n', '\n', '\n']
}

pub open spec fn nl2() -> Seq<char> {
    seq!['\n', '\n']
}

/// A line kept by `strip_list_separators`: its trimmed text is not the marker.
pub open spec fn keeps_line(l: Seq<char>) -> bool {
    trim(l) != end_list_marker()
}

pub proof fn lemma_replace_from_shrinks(s: Seq<char>, p: Seq<char>, r: Seq<char>, i: nat)
    requires
        p.len() > 0,
        r.len() < p.len(),
        i <= s.len(),
    ensures
        replace_from(s, p, r, i).len() <= s.len() - i,
        find_from(s, p, i) is Some ==> replace_from(s, p, r, i).len() < s.len() - i,
    decreases s.len() - i,
{
    lemma_find_from(s, p, i);
    match find_from(s, p, i) {
        None => {},
        Some(k) => {
            lemma_replace_from_shrinks(s, p, r, k + p.len());
        },
    }
}

pub proof fn lemma_contains_find(s: Seq<char>, p: Seq<char>)
    ensures
        contains(s, p) <==> find_from(s, p, 0) is Some,
{
    lemma_find_from(s, p, 0);
    if find_from(s, p, 0) is Some {
        let k = find_from(s, p, 0)->0;
        assert(occurs_at(s, p, k as int));
    }
}

/// Blank-line runs collapsed: while the text holds `\n\n\n`, each is replaced
/// by `\n\n`.
pub open spec fn collapse_blank_lines(s: Seq<char>) -> Seq<char>
    decreases s.len(),
{
    if contains(s, nl3()) {
        proof {
            lemma_contains_find(s, nl3());
            lemma_replace_from_shrinks(s, nl3(), nl2(), 0);
        }
        collapse_blank_lines(replace_all(s, nl3(), nl2()))
    } else {
        s
    }
}

/// The lines that `keeps_line` keeps, in order.
pub open spec fn kept_lines(ls: Seq<Seq<char>>) -> Seq<Seq<char>>
    decreases ls.len(),
{
    if ls.len() == 0 {
        seq![]
    } else if keeps_line(ls.last()) {
        kept_lines(ls.drop_last()).push(ls.last())
    } else {
        kept_lines(ls.drop_last())
    }
}

/// What `strip_list_separators` makes of `md`.
pub open spec fn strip_spec(md: Seq<char>) -> Seq<char> {
    if !contains(md, end_list_marker()) {
        md
    } else {
        let kept = kept_lines(lines(md));
        let c = collapse_blank_lines(join(kept, seq!['\n']));
        if ends_with(c, seq!['\n']) {
            c
        } else {
            c.push('\n')
        }
    }
}

/// comrak emits `<!-- end list -->` between two adjacent lists so they don't merge
/// on re-parse. It's noise that renders as literal text in the editor, so drop it
/// (and collapse the blank lines it leaves behind).
pub fn strip_list_separators(md: &str) -> (r: String)
    ensures
        r@ == strip_spec(md@),
{
    let chars = to_chars(md);
    let marker: Vec<char> = vec![
        '<',
        '!',
        '-',
        '-',
        ' ',
        'e',
        'n',
        'd',
        ' ',
        'l',
        'i',
        's',
        't',
        ' ',
        '-',
        '-',
        '>',
    ];
    proof {
        lemma_contains_find(md@, end_list_marker());
    }
    if find_from_exec(&chars, &marker, 0).is_none() {
        return string_of(&chars);
    }
    let ls = lines_exec(&chars);
    let ghost all = lines(md@);
    let mut kept: Vec<Vec<char>> = Vec::new();
    let mut i: usize = 0;
    while i < ls.len()
        invariant
            all == lines(md@),
            ls@.len() == all.len(),
            forall|j: int| 0 <= j < ls@.len() ==> #[trigger] ls@[j]@ == all[j],
            marker@ == end_list_marker(),
            i <= ls@.len(),
            views(kept@) == kept_lines(all.take(i as int)),
        decreases ls.len() - i,
    {
        let line = &ls[i];
        let (a, b) = trim_bounds(line, 0, line.len());
        assert(line@.subrange(0, line@.len() as int) =~= line@);
        assert(all.take(i + 1).drop_last() =~= all.take(i as int));
        let ghost before = views(kept@);
        if !range_eq(line, a, b, &marker) {
            kept.push(slice_of(line, 0, line.len()));
            assert(views(kept@) =~= before.push(line@));
        }
        i += 1;
    }
    assert(all.take(i as int) =~= all);
    let nl: Vec<char> = vec!['\n'];
    let three: Vec<char> = vec!['\n', '\n', '\n'];
    let two: Vec<char> = vec!['\n', '\n'];
    let joined = join_exec(&kept, &nl);
    assert(nl@ == seq!['\n']);
    let mut cur = joined;
    loop
        invariant
            three@ == nl3(),
            two@ == nl2(),
            contains(md@, end_list_marker()),
            collapse_blank_lines(cur@) == collapse_blank_lines(
                join(kept_lines(lines(md@)), seq!['\n']),
            ),
        ensures
            !contains(cur@, nl3()),
        decreases cur@.len(),
    {
        proof {
            lemma_contains_find(cur@, nl3());
            lemma_replace_from_shrinks(cur@, nl3(), nl2(), 0);
        }
        if find_from_exec(&cur, &three, 0).is_none() {
            break ;
        }
        cur = replace_exec(&cur, &three, &two);
    }
    let n = cur.len();
    if !(n > 0 && cur[n - 1] == '\n') {
        assert(!ends_with(cur@, seq!['\n'])) by {
            if n > 0 {
                assert(cur@.subrange(n - 1, n as int)[0] == cur@[n - 1]);
            }
        }
        cur.push('\n');
    } else {
        assert(cur@.subrange(n - 1, n as int) =~= seq!['\n']);
    }
    string_of(&cur)
}

// ---------------------------------------------------------------------------
// What stripping guarantees

/// `[i, j)` is a whole line of `s`: bounded by the ends of the text or by
/// `\n`, with no `\n` inside.
pub open spec fn is_line_span(s: Seq<char>, i: int, j: int) -> bool {
    &&& 0 <= i <= j <= s.len()
    &&& (i == 0 || s[i - 1] == '\n')
    &&& (j == s.len() || s[j] == '\n')
    &&& forall|k: int| i <= k < j ==> s[k] != '\n'
}

/// No line of `s` is, once trimmed, the end-list marker.
pub open spec fn no_marker_line(s: Seq<char>) -> bool {
    forall|i: int, j: int| #[trigger] is_line_span(s, i, j) ==> keeps_line(s.subrange(i, j))
}

proof fn lemma_empty_no_marker_line()
    ensures
        no_marker_line(Seq::<char>::empty()),
{
    assert forall|i: int, j: int| #[trigger] is_line_span(Seq::<char>::empty(), i, j) implies keeps_line(
        Seq::<char>::empty().subrange(i, j),
    ) by {
        assert(Seq::<char>::empty().subrange(i, j) =~= Seq::<char>::empty());
        assert(trim(Seq::<char>::empty()).len() == 0);
    }
}

/// A piece of `s` cut at line boundaries keeps the property.
proof fn lemma_no_marker_line_piece(s: Seq<char>, i: int, j: int)
    requires
        no_marker_line(s),
        0 <= i <= j <= s.len(),
        i == 0 || s[i - 1] == '\n',
        j == s.len() || s[j] == '\n',
    ensures
        no_marker_line(s.subrange(i, j)),
{
    let t = s.subrange(i, j);
    assert forall|a: int, b: int| #[trigger] is_line_span(t, a, b) implies keeps_line(t.subrange(a, b)) by {
        assert(a > 0 ==> t[a - 1] == s[i + a - 1]);
        assert(b < t.len() ==> t[b] == s[i + b]);
        assert forall|k: int| i + a <= k < i + b implies s[k] != '\n' by {
            assert(t[k - i] == s[k]);
        }
        assert(is_line_span(s, i + a, i + b));
        assert(t.subrange(a, b) =~= s.subrange(i + a, i + b));
    }
}

/// Two texts with the property, joined by a line break, have it.
proof fn lemma_no_marker_line_concat(a: Seq<char>, b: Seq<char>)
    requires
        no_marker_line(a),
        no_marker_line(b),
    ensures
        no_marker_line(a + seq!['\n'] + b),
{
    let x = a + seq!['\n'] + b;
    let n = a.len() as int;
    assert(x[n] == '\n');
    assert forall|i: int, j: int| #[trigger] is_line_span(x, i, j) implies keeps_line(x.subrange(i, j)) by {
        if j <= n {
            assert(i > 0 ==> x[i - 1] == a[i - 1]);
            assert(j < n ==> x[j] == a[j]);
            assert forall|k: int| i <= k < j implies a[k] != '\n' by {
                assert(x[k] == a[k]);
            }
            assert(is_line_span(a, i, j));
            assert(x.subrange(i, j) =~= a.subrange(i, j));
        } else {
            // the break at n lies outside the line, so it starts after it
            assert(i > n) by {
                if i <= n {
                    assert(x[n] != '\n');
                }
            }
            let (p, q) = (i - n - 1, j - n - 1);
            assert(p > 0 ==> x[i - 1] == b[p - 1]);
            assert(q < b.len() ==> x[j] == b[q]);
            assert forall|k: int| p <= k < q implies b[k] != '\n' by {
                assert(x[k + n + 1] == b[k]);
            }
            assert(is_line_span(b, p, q));
            assert(x.subrange(i, j) =~= b.subrange(p, q));
        }
    }
}

/// A single line that is not the marker has the property.
proof fn lemma_no_marker_line_single(p: Seq<char>)
    requires
        forall|k: int| 0 <= k < p.len() ==> p[k] != '\n',
        keeps_line(p),
    ensures
        no_marker_line(p),
{
    assert forall|i: int, j: int| #[trigger] is_line_span(p, i, j) implies keeps_line(p.subrange(i, j)) by {
        assert(i == 0) by {
            if i > 0 {
                assert(p[i - 1] != '\n');
            }
        }
        assert(j == p.len()) by {
            if j < p.len() {
                assert(p[j] != '\n');
            }
        }
        assert(p.subrange(i, j) =~= p);
    }
}

/// Lines without a break that are not the marker, joined by line breaks.
proof fn lemma_no_marker_line_join(parts: Seq<Seq<char>>)
    requires
        forall|m: int| 0 <= m < parts.len() ==> keeps_line(#[trigger] parts[m]),
        forall|m: int, k: int| 0 <= m < parts.len() && 0 <= k < parts[m].len() ==> #[trigger] parts[m][k] != '\n',
    ensures
        no_marker_line(join(parts, seq!['\n'])),
    decreases parts.len(),
{
    if parts.len() == 0 {
        lemma_empty_no_marker_line();
    } else if parts.len() == 1 {
        assert(keeps_line(parts[0]));
        lemma_no_marker_line_single(parts[0]);
    } else {
        let init = parts.drop_last();
        assert forall|m: int| 0 <= m < init.len() implies keeps_line(#[trigger] init[m]) by {
            assert(init[m] == parts[m]);
        }
        assert forall|m: int, k: int| 0 <= m < init.len() && 0 <= k < init[m].len() implies #[trigger] init[m][k] != '\n' by {
            assert(init[m] == parts[m]);
        }
        lemma_no_marker_line_join(init);
        let last = parts.last();
        assert(keeps_line(parts[parts.len() - 1]));
        assert forall|k: int| 0 <= k < last.len() implies last[k] != '\n' by {
            assert(parts[parts.len() - 1][k] != '\n');
        }
        lemma_no_marker_line_single(last);
        lemma_no_marker_line_concat(join(init, seq!['\n']), last);
    }
}

/// Replacing `\n\n\n` by `\n\n` from a line start on keeps the property.
proof fn lemma_no_marker_line_collapse_step(s: Seq<char>, i: nat)
    requires
        no_marker_line(s),
        i <= s.len(),
        i == 0 || s[i - 1] == '\n',
    ensures
        no_marker_line(replace_from(s, nl3(), nl2(), i)),
    decreases s.len() - i,
{
    lemma_find_from(s, nl3(), i);
    match find_from(s, nl3(), i) {
        None => {
            lemma_no_marker_line_piece(s, i as int, s.len() as int);
        },
        Some(k) => {
            assert(s.subrange(k as int, k as int + 3) == nl3());
            assert(s[k as int] == s.subrange(k as int, k as int + 3)[0]);
            assert(s[k as int + 2] == s.subrange(k as int, k as int + 3)[2]);
            lemma_no_marker_line_piece(s, i as int, k as int);
            lemma_no_marker_line_collapse_step(s, k + 3);
            let rest = replace_from(s, nl3(), nl2(), k + 3);
            lemma_empty_no_marker_line();
            lemma_no_marker_line_concat(Seq::<char>::empty(), rest);
            assert(Seq::<char>::empty() + seq!['\n'] + rest =~= seq!['\n'] + rest);
            lemma_no_marker_line_concat(s.subrange(i as int, k as int), seq!['\n'] + rest);
            assert(s.subrange(i as int, k as int) + nl2() + rest =~= s.subrange(i as int, k as int)
                + seq!['\n'] + (seq!['\n'] + rest));
        },
    }
}

proof fn lemma_no_marker_line_collapse(s: Seq<char>)
    requires
        no_marker_line(s),
    ensures
        no_marker_line(collapse_blank_lines(s)),
    decreases s.len(),
{
    if contains(s, nl3()) {
        lemma_contains_find(s, nl3());
        lemma_replace_from_shrinks(s, nl3(), nl2(), 0);
        lemma_no_marker_line_collapse_step(s, 0);
        lemma_no_marker_line_collapse(replace_all(s, nl3(), nl2()));
    }
}

/// Collapsing leaves no run of three line breaks.
proof fn lemma_collapse_no_nl3(s: Seq<char>)
    ensures
        !contains(collapse_blank_lines(s), nl3()),
    decreases s.len(),
{
    if contains(s, nl3()) {
        lemma_contains_find(s, nl3());
        lemma_replace_from_shrinks(s, nl3(), nl2(), 0);
        lemma_collapse_no_nl3(replace_all(s, nl3(), nl2()));
    }
}

/// The lines of a text hold no line break.
proof fn lemma_lines_from_no_break(s: Seq<char>, i: nat)
    ensures
        forall|m: int, k: int|
            0 <= m < lines_from(s, i).len() && 0 <= k < lines_from(s, i)[m].len() ==> #[trigger] lines_from(s, i)[m][k]
                != '\n',
    decreases s.len() - i,
{
    if i < s.len() {
        lemma_find_from(s, seq!['\n'], i);
        match find_from(s, seq!['\n'], i) {
            Some(k) => {
                lemma_lines_from_no_break(s, k + 1);
                let first = strip_cr(s.subrange(i as int, k as int));
                assert forall|q: int| 0 <= q < first.len() implies first[q] != '\n' by {
                    assert(first[q] == s.subrange(i as int, k as int)[q]);
                    assert(first[q] == s[i + q]);
                    if s[i + q] == '\n' {
                        assert(s.subrange(i + q, i + q + 1) =~= seq!['\n']);
                        assert(occurs_at(s, seq!['\n'], i + q));
                    }
                }
                let all = lines_from(s, i);
                assert(all == seq![first] + lines_from(s, k + 1));
                assert forall|m: int, q: int| 0 <= m < all.len() && 0 <= q < all[m].len() implies #[trigger] all[m][q] != '\n' by {
                    if m > 0 {
                        assert(all[m] == lines_from(s, k + 1)[m - 1]);
                    }
                }
            },
            None => {
                let last = s.subrange(i as int, s.len() as int);
                assert forall|q: int| 0 <= q < last.len() implies last[q] != '\n' by {
                    assert(last[q] == s[i + q]);
                    if last[q] == '\n' {
                        assert(s.subrange(i + q, i + q + 1) =~= seq!['\n']);
                        assert(occurs_at(s, seq!['\n'], i + q));
                    }
                }
            },
        }
    }
}

/// The lines that stripping keeps are not the marker and hold no line break.
proof fn lemma_kept_lines(ls: Seq<Seq<char>>)
    requires
        forall|m: int, k: int| 0 <= m < ls.len() && 0 <= k < ls[m].len() ==> #[trigger] ls[m][k] != '\n',
    ensures
        forall|m: int| 0 <= m < kept_lines(ls).len() ==> keeps_line(#[trigger] kept_lines(ls)[m]),
        forall|m: int, k: int|
            0 <= m < kept_lines(ls).len() && 0 <= k < kept_lines(ls)[m].len() ==> #[trigger] kept_lines(ls)[m][k] != '\n',
    decreases ls.len(),
{
    if ls.len() > 0 {
        let init = ls.drop_last();
        assert forall|m: int, k: int| 0 <= m < init.len() && 0 <= k < init[m].len() implies #[trigger] init[m][k] != '\n' by {
            assert(init[m] == ls[m]);
        }
        lemma_kept_lines(init);
        let last = ls.last();
        assert forall|k: int| 0 <= k < last.len() implies last[k] != '\n' by {
            assert(ls[ls.len() - 1][k] != '\n');
        }
        let ki = kept_lines(init);
        let kl = kept_lines(ls);
        if keeps_line(last) {
            assert(kl == ki.push(last));
            assert forall|m: int| 0 <= m < kl.len() implies keeps_line(#[trigger] kl[m]) by {
                if m < ki.len() {
                    assert(kl[m] == ki[m]);
                }
            }
            assert forall|m: int, k: int| 0 <= m < kl.len() && 0 <= k < kl[m].len() implies #[trigger] kl[m][k] != '\n' by {
                if m < ki.len() {
                    assert(kl[m] == ki[m]);
                } else {
                    assert(kl[m] == last);
                }
            }
        } else {
            assert(kl == ki);
        }
    }
}

/// A text with the property has no line that is, trimmed, the marker.
proof fn lemma_lines_keep(s: Seq<char>, i: nat)
    requires
        no_marker_line(s),
        i <= s.len(),
        i == 0 || s[i - 1] == '\n',
    ensures
        forall|m: int| 0 <= m < lines_from(s, i).len() ==> keeps_line(#[trigger] lines_from(s, i)[m]),
    decreases s.len() - i,
{
    if i < s.len() {
        lemma_find_from(s, seq!['\n'], i);
        match find_from(s, seq!['\n'], i) {
            Some(k) => {
                assert forall|q: int| i <= q < k implies s[q] != '\n' by {
                    if s[q] == '\n' {
                        assert(s.subrange(q, q + 1) =~= seq!['\n']);
                        assert(occurs_at(s, seq!['\n'], q));
                    }
                }
                assert(s[k as int] == s.subrange(k as int, k as int + 1)[0]);
                assert(is_line_span(s, i as int, k as int));
                let seg = s.subrange(i as int, k as int);
                lemma_trim_strip_cr(seg);
                lemma_lines_keep(s, k + 1);
                let all = lines_from(s, i);
                assert(all == seq![strip_cr(seg)] + lines_from(s, k + 1));
                assert forall|m: int| 0 <= m < all.len() implies keeps_line(#[trigger] all[m]) by {
                    if m > 0 {
                        assert(all[m] == lines_from(s, k + 1)[m - 1]);
                    }
                }
            },
            None => {
                assert forall|q: int| i <= q < s.len() implies s[q] != '\n' by {
                    if s[q] == '\n' {
                        assert(s.subrange(q, q + 1) =~= seq!['\n']);
                        assert(occurs_at(s, seq!['\n'], q));
                    }
                }
                assert(is_line_span(s, i as int, s.len() as int));
            },
        }
    }
}

/// A text without the marker anywhere has no marker line.
proof fn lemma_no_marker_anywhere(s: Seq<char>)
    requires
        !contains(s, end_list_marker()),
    ensures
        no_marker_line(s),
{
    assert forall|i: int, j: int| #[trigger] is_line_span(s, i, j) implies keeps_line(s.subrange(i, j)) by {
        let seg = s.subrange(i, j);
        lemma_trim_subrange(seg);
        let (a, b) = choose|a: int, b: int| 0 <= a <= b <= seg.len() && trim(seg) == seg.subrange(a, b);
        if trim(seg) == end_list_marker() {
            assert(s.subrange(i + a, i + b) =~= seg.subrange(a, b));
            assert(occurs_at(s, end_list_marker(), i + a));
        }
    }
}

/// After stripping, no line of the text is the `<!-- end list -->` marker.
pub proof fn law_strip_leaves_no_marker_line(md: Seq<char>)
    ensures
        forall|m: int| 0 <= m < lines(strip_spec(md)).len() ==> keeps_line(#[trigger] lines(strip_spec(md))[m]),
{
    if !contains(md, end_list_marker()) {
        lemma_no_marker_anywhere(md);
    } else {
        let ls = lines(md);
        lemma_lines_from_no_break(md, 0);
        lemma_kept_lines(ls);
        lemma_no_marker_line_join(kept_lines(ls));
        let c = collapse_blank_lines(join(kept_lines(ls), seq!['\n']));
        lemma_no_marker_line_collapse(join(kept_lines(ls), seq!['\n']));
        if !ends_with(c, seq!['\n']) {
            lemma_empty_no_marker_line();
            lemma_no_marker_line_concat(c, Seq::<char>::empty());
            assert(c + seq!['\n'] + Seq::<char>::empty() =~= c.push('\n'));
        }
    }
    lemma_lines_keep(strip_spec(md), 0);
}

/// Where a marker was stripped, no run of three line breaks is left behind.
pub proof fn law_strip_collapses_blank_runs(md: Seq<char>)
    requires
        contains(md, end_list_marker()),
    ensures
        !contains(strip_spec(md), nl3()),
{
    let c = collapse_blank_lines(join(kept_lines(lines(md)), seq!['\n']));
    lemma_collapse_no_nl3(join(kept_lines(lines(md)), seq!['\n']));
    if !ends_with(c, seq!['\n']) {
        let d = c.push('\n');
        assert forall|p: int| !occurs_at(d, nl3(), p) by {
            if occurs_at(d, nl3(), p) {
                if p + 3 <= c.len() {
                    assert(c.subrange(p, p + 3) =~= d.subrange(p, p + 3));
                    assert(occurs_at(c, nl3(), p));
                } else {
                    assert(p + 3 == d.len());
                    assert(c[c.len() - 1] == d.subrange(p, p + 3)[1]);
                    assert(c.subrange(c.len() - 1, c.len() as int) =~= seq!['\n']);
                }
            }
        }
    }
}

/// The single deterministic write-path: parse -> re-emit canonical CommonMark.
/// Every save (textarea now, WYSIWYG/AI later) funnels through here, so files
/// converge to one format and git diffs stay minimal.
pub fn normalize_markdown(raw: &str) -> (r: String)
    ensures
        r@ == strip_spec(base_commonmark(raw@)),
{
    let opts = base_opts();
    let out = comrak_commonmark(raw, &opts);
    strip_list_separators(&out)
}

// ---------------------------------------------------------------------------
// Link rewriting

/// The pattern of an `href` attribute: `href="..."` with no quote inside.
pub const HREF_ATTR_PATTERN: &'static str = "href=\"([^\"]*)\"";

/// `href="`
pub open spec fn href_open() -> Seq<char> {
    seq!['h', 'r', 'e', 'f', '=', '"']
}

/// The index of the closing quote of an `href="..."` that starts at `i`.
pub open spec fn href_close_at(s: Seq<char>, i: nat) -> Option<nat> {
    if occurs_at(s, href_open(), i as int) {
        find_from(s, seq!['"'], i + 6)
    } else {
        None
    }
}

/// The leftmost `href="..."` at or after `i`: (its start, its closing quote).
pub open spec fn first_href(s: Seq<char>, i: nat) -> Option<(nat, nat)>
    decreases s.len() - i,
{
    if i >= s.len() {
        None
    } else {
        match href_close_at(s, i) {
            Some(q) => Some((i, q)),
            None => first_href(s, i + 1),
        }
    }
}

pub proof fn lemma_first_href(s: Seq<char>, i: nat)
    ensures
        match first_href(s, i) {
            Some((m, q)) => i <= m && m + 6 <= q < s.len() && href_close_at(s, m) == Some(q) && (
            forall|j: nat| i <= j < m ==> href_close_at(s, j) is None),
            None => forall|j: nat| i <= j ==> href_close_at(s, j) is None,
        },
    decreases s.len() - i,
{
    if i >= s.len() {
        assert forall|j: nat| i <= j implies href_close_at(s, j) is None by {
            assert(!occurs_at(s, href_open(), j as int));
        }
    } else {
        match href_close_at(s, i) {
            Some(q) => {
                lemma_find_from(s, seq!['"'], i + 6);
            },
            None => {
                lemma_first_href(s, i + 1);
            },
        }
    }
}

/// `html` from `i` on with every `href="X"` (leftmost first, not overlapping)
/// replaced by `href="R"`, where R is the in-page route of X from `from_slug`.
pub open spec fn rewrite_from(s: Seq<char>, from_slug: Seq<char>, i: nat) -> Seq<char>
    decreases s.len() - i,
{
    if i > s.len() {
        seq![]
    } else {
        match first_href(s, i) {
            None => s.subrange(i as int, s.len() as int),
            Some((m, q)) => {
                proof {
                    lemma_first_href(s, i);
                }
                s.subrange(i as int, m as int) + href_open() + route_of(
                    from_slug,
                    s.subrange(m + 6 as int, q as int),
                ) + seq!['"'] + rewrite_from(s, from_slug, q + 1)
            },
        }
    }
}

/// One rewritten attribute: `href="` + the route of `target` + `"`.
pub fn href_attribute(from_slug: &str, target: &str) -> (r: String)
    ensures
        r@ == href_open() + route_of(from_slug@, target@) + seq!['"'],
{
    let mut out: Vec<char> = vec!['h', 'r', 'e', 'f', '=', '"'];
    let route = resolve_link(from_slug, target);
    push_str(&mut out, route.as_str());
    out.push('"');
    string_of(&out)
}

/// Calls `regex::Regex::new(pattern)` and then `Regex::replace_all` on `html`,
/// with a replacer that hands capture group 1 to the verified `href_attribute`.
/// Claimed of the regex crate: the pattern compiles, and `replace_all` replaces
/// the leftmost-first, non-overlapping matches of `href="([^"]*)"` — a match
/// starts at the first `href="` that a later `"` closes and ends at that quote.
#[verifier::external_body]
fn regex_replace_hrefs(pattern: &str, html: &str, from_slug: &str) -> (r: String)
    requires
        pattern@ == HREF_ATTR_PATTERN@,
    ensures
        r@ == rewrite_from(html@, from_slug@, 0),
{
    let re = regex::Regex::new(pattern).unwrap();
    re.replace_all(html, |c: &regex::Captures| href_attribute(from_slug, &c[1])).into_owned()
}

/// Rewrite every `href="..."` in rendered HTML through `resolve_link`.
pub fn rewrite_links(html: &str, from_slug: &str) -> (r: String)
    ensures
        r@ == rewrite_from(html@, from_slug@, 0),
{
    regex_replace_hrefs(HREF_ATTR_PATTERN, html, from_slug)
}

/// Render a full markdown file (with frontmatter) to the page HTML used by the
/// reading view and the print book — the same pipeline as `collect_pages`.
pub fn render_html(raw: &str, slug: &str) -> (r: String)
    ensures
        r@ == rewrite_from(base_html(raw@), slug@, 0),
{
    let opts = base_opts();
    let html = comrak_html(raw, &opts);
    rewrite_links(&html, slug)
}

} // verus!
