//! Page slugs and in-page link routing.

use vstd::prelude::*;
use crate::text::{
    ascii_lower_range, ascii_lower_seq, ends_with, find_from, find_from_exec, from_chars, join,
    join_exec, lemma_find_from, occurs_at_exec, push_all, slice_of, split_exec, split_on,
    starts_with, string_of, to_chars, views,
};

verus! {

/// `.md`
pub open spec fn md_ext() -> Seq<char> {
    seq!['.', 'm', 'd']
}

/// `slug_of(rel)`: backslashes become slashes, then one trailing `.md` is dropped.
pub open spec fn slug_of(rel: Seq<char>) -> Seq<char> {
    let r = rel.map_values(|c: char| if c == '\\' { '/' } else { c });
    if ends_with(r, md_ext()) {
        r.subrange(0, r.len() - 3)
    } else {
        r
    }
}

/// "guide/getting-started.md" -> "guide/getting-started"
pub fn slug_for(rel: &str) -> (slug: String)
    ensures
        slug@ == slug_of(rel@),
{
    let chars = to_chars(rel);
    let mut r: Vec<char> = Vec::new();
    let mut i: usize = 0;
    while i < chars.len()
        invariant
            chars@ == rel@,
            i <= chars@.len(),
            r@ =~= chars@.take(i as int).map_values(|c: char| if c == '\\' { '/' } else { c }),
        decreases chars.len() - i,
    {
        let c = chars[i];
        r.push(if c == '\\' { '/' } else { c });
        i += 1;
        assert(chars@.take(i as int) =~= chars@.take(i - 1).push(c));
    }
    assert(chars@.take(i as int) =~= chars@);
    let n = r.len();
    let md: Vec<char> = vec!['.', 'm', 'd'];
    if n >= 3 && occurs_at_exec(&r, &md, n - 3) {
        from_chars(&r, 0, n - 3)
    } else {
        assert(r@.subrange(0, n as int) =~= r@);
        from_chars(&r, 0, n)
    }
}

/// Slugs built from a `.md` path round-trip: the slug of `s + ".md"` is `s`
/// when `s` holds no backslash.
pub proof fn law_slug_of_md_path(s: Seq<char>)
    requires
        forall|i: int| 0 <= i < s.len() ==> s[i] != '\\',
    ensures
        slug_of(s + md_ext()) == s,
{
    let r = (s + md_ext()).map_values(|c: char| if c == '\\' { '/' } else { c });
    assert(r =~= s + md_ext());
    assert(r.subrange(r.len() - 3, r.len() as int) =~= md_ext());
    assert(r.subrange(0, r.len() - 3) =~= s);
}

// ---------------------------------------------------------------------------
// Link routing

pub open spec fn lit_http() -> Seq<char> {
    seq!['h', 't', 't', 'p', ':', '/', '/']
}

pub open spec fn lit_https() -> Seq<char> {
    seq!['h', 't', 't', 'p', 's', ':', '/', '/']
}

pub open spec fn lit_mailto() -> Seq<char> {
    seq!['m', 'a', 'i', 'l', 't', 'o', ':']
}

/// Links that leave the page tree untouched: external schemes (any case),
/// in-page anchors and absolute paths.
pub open spec fn is_passthrough(href: Seq<char>) -> bool {
    let lower = ascii_lower_seq(href);
    starts_with(lower, lit_http()) || starts_with(lower, lit_https()) || starts_with(
        lower,
        lit_mailto(),
    ) || starts_with(href, seq!['#']) || starts_with(href, seq!['/'])
}

/// The part of `s` before the first `c` (all of `s` if there is none).
pub open spec fn before_char(s: Seq<char>, c: char) -> Seq<char> {
    match find_from(s, seq![c], 0) {
        Some(k) => s.take(k as int),
        None => s,
    }
}

/// The index of the last `c` in `s`.
pub open spec fn rfind_char(s: Seq<char>, c: char) -> Option<nat>
    decreases s.len(),
{
    if s.len() == 0 {
        None
    } else if s.last() == c {
        Some((s.len() - 1) as nat)
    } else {
        rfind_char(s.drop_last(), c)
    }
}

/// One path segment applied to a directory stack: `""` and `"."` stay,
/// `".."` pops (nothing at the root), anything else is pushed.
pub open spec fn walk_step(stack: Seq<Seq<char>>, seg: Seq<char>) -> Seq<Seq<char>> {
    if seg.len() == 0 || seg == seq!['.'] {
        stack
    } else if seg == seq!['.', '.'] {
        if stack.len() > 0 {
            stack.drop_last()
        } else {
            stack
        }
    } else {
        stack.push(seg)
    }
}

/// The segments applied to the stack in turn.
pub open spec fn walk(stack: Seq<Seq<char>>, segs: Seq<Seq<char>>) -> Seq<Seq<char>>
    decreases segs.len(),
{
    if segs.len() == 0 {
        stack
    } else {
        walk_step(walk(stack, segs.drop_last()), segs.last())
    }
}

/// Walking one segment of a link: an empty or `.` segment stays in the same
/// directory, `..` leaves exactly one directory (and stays at the top), and
/// any other segment enters that directory.
pub proof fn law_walk_one_segment(stack: Seq<Seq<char>>, seg: Seq<char>)
    ensures
        (seg.len() == 0 || seg == seq!['.']) ==> walk(stack, seq![seg]) == stack,
        seg == seq!['.', '.'] && stack.len() > 0 ==> walk(stack, seq![seg]) == stack.subrange(
            0,
            stack.len() - 1,
        ),
        seg == seq!['.', '.'] && stack.len() == 0 ==> walk(stack, seq![seg]) == stack,
        !(seg.len() == 0 || seg == seq!['.'] || seg == seq!['.', '.']) ==> walk(stack, seq![seg])
            == stack + seq![seg],
{
    let one = seq![seg];
    assert(one.drop_last() =~= Seq::<Seq<char>>::empty());
    assert(one.last() == seg);
    assert(walk(stack, one.drop_last()) == stack);
    assert(walk(stack, one) == walk_step(stack, seg));
    assert(stack.push(seg) =~= stack + seq![seg]);
    assert(stack.drop_last() =~= stack.subrange(0, stack.len() - 1));
}

/// Walking a path is walking its parts in turn.
pub proof fn law_walk_concat(stack: Seq<Seq<char>>, a: Seq<Seq<char>>, b: Seq<Seq<char>>)
    ensures
        walk(stack, a + b) == walk(walk(stack, a), b),
    decreases b.len(),
{
    if b.len() == 0 {
        assert(a + b =~= a);
    } else {
        law_walk_concat(stack, a, b.drop_last());
        assert((a + b).drop_last() =~= a + b.drop_last());
        assert((a + b).last() == b.last());
    }
}

/// The directory segments of a slug: everything before its last `/`.
pub open spec fn dir_segments(from_slug: Seq<char>) -> Seq<Seq<char>> {
    match rfind_char(from_slug, '/') {
        Some(k) => split_on(from_slug.take(k as int), '/'),
        None => seq![],
    }
}

/// The in-page route for a link `href` written on page `from_slug`: external,
/// anchor and absolute links, and links to other than a `.md` file (any letter
/// case), stay as they are; a `.md` link loses its extension and any `#`
/// fragment and is resolved against the page's directory.
pub open spec fn route_of(from_slug: Seq<char>, href: Seq<char>) -> Seq<char> {
    if is_passthrough(href) {
        href
    } else {
        let pp = before_char(href, '#');
        if !ends_with(ascii_lower_seq(pp), md_ext()) {
            href
        } else {
            let target = pp.take(pp.len() - 3);
            seq!['#', '/'] + join(walk(dir_segments(from_slug), split_on(target, '/')), seq!['/'])
        }
    }
}

fn walk_exec(stack: &mut Vec<Vec<char>>, segs: &Vec<Vec<char>>)
    ensures
        views(final(stack)@) == walk(views(old(stack)@), views(segs@)),
{
    let ghost init = views(stack@);
    let ghost ss = views(segs@);
    let mut i: usize = 0;
    while i < segs.len()
        invariant
            ss == views(segs@),
            i <= segs@.len(),
            views(stack@) == walk(init, ss.take(i as int)),
        decreases segs.len() - i,
    {
        let seg = &segs[i];
        assert(ss.take(i + 1).drop_last() =~= ss.take(i as int));
        assert(ss.take(i + 1).last() == seg@);
        let ghost before = views(stack@);
        if seg.len() == 0 || (seg.len() == 1 && seg[0] == '.') {
            assert(seg@.len() == 1 ==> seg@ =~= seq!['.']);
        } else if seg.len() == 2 && seg[0] == '.' && seg[1] == '.' {
            assert(seg@ =~= seq!['.', '.']);
            if stack.len() > 0 {
                stack.pop();
                assert(views(stack@) =~= before.drop_last());
            }
        } else {
            assert(seg@ != seq!['.']) by {
                if seg@.len() == 1 {
                    assert(seg@[0] != '.');
                }
            }
            assert(seg@ != seq!['.', '.']) by {
                if seg@.len() == 2 {
                    assert(seg@[0] != '.' || seg@[1] != '.');
                }
            }
            stack.push(slice_of(seg, 0, seg.len()));
            assert(seg@.subrange(0, seg@.len() as int) =~= seg@);
            assert(views(stack@) =~= before.push(seg@));
        }
        i += 1;
    }
    assert(ss.take(i as int) =~= ss);
}

/// Resolve a relative `.md` link, as seen from `from_slug`, into an in-page
/// route like `#/guide/concepts`. External / anchor / non-md links pass through.
pub fn resolve_link(from_slug: &str, href: &str) -> (r: String)
    ensures
        r@ == route_of(from_slug@, href@),
{
    let h = to_chars(href);
    let n = h.len();
    let lower = ascii_lower_range(&h, 0, n);
    assert(h@.subrange(0, n as int) =~= h@);
    let http: Vec<char> = vec!['h', 't', 't', 'p', ':', '/', '/'];
    let https: Vec<char> = vec!['h', 't', 't', 'p', 's', ':', '/', '/'];
    let mailto: Vec<char> = vec!['m', 'a', 'i', 'l', 't', 'o', ':'];
    let hash: Vec<char> = vec!['#'];
    let slash: Vec<char> = vec!['/'];
    assert(lower@ == ascii_lower_seq(href@));
    assert(http@ == lit_http());
    assert(https@ == lit_https());
    assert(mailto@ == lit_mailto());
    assert(hash@ == seq!['#']);
    assert(slash@ == seq!['/']);
    let pass = occurs_at_exec(&lower, &http, 0) || occurs_at_exec(&lower, &https, 0)
        || occurs_at_exec(&lower, &mailto, 0) || occurs_at_exec(&h, &hash, 0) || occurs_at_exec(
        &h,
        &slash,
        0,
    );
    assert(pass == is_passthrough(href@));
    if pass {
        return string_of(&h);
    }
    // the path part, before any '#'
    proof {
        lemma_find_from(h@, hash@, 0);
    }
    let pe = match find_from_exec(&h, &hash, 0) {
        Some(k) => k,
        None => n,
    };
    let ghost pp = before_char(href@, '#');
    assert(pp =~= h@.subrange(0, pe as int));
    let lower_pp = ascii_lower_range(&h, 0, pe);
    let md: Vec<char> = vec!['.', 'm', 'd'];
    if !(pe >= 3 && occurs_at_exec(&lower_pp, &md, pe - 3)) {
        return string_of(&h);
    }
    // the extension is dropped whatever its letter case
    let target = slice_of(&h, 0, pe - 3);
    assert(target@ =~= pp.take(pp.len() - 3));
    // the directory of the page the link is on
    let f = to_chars(from_slug);
    let mut k = f.len();
    assert(f@.take(k as int) =~= f@);
    while k > 0 && f[k - 1] != '/'
        invariant
            k <= f@.len(),
            rfind_char(f@, '/') == rfind_char(f@.take(k as int), '/'),
        decreases k,
    {
        assert(f@.take(k as int).drop_last() =~= f@.take(k - 1));
        k -= 1;
    }
    let mut stack: Vec<Vec<char>> = Vec::new();
    if k > 0 {
        assert(f@.take(k as int).last() == '/');
        let dir = slice_of(&f, 0, k - 1);
        assert(dir@ =~= from_slug@.take(k - 1));
        let parts = split_exec(&dir, '/');
        assert(views(parts@) =~= split_on(dir@, '/'));
        stack = parts;
    } else {
        assert(f@.take(0) =~= seq![]);
        assert(views(stack@) =~= seq![]);
    }
    assert(views(stack@) == dir_segments(from_slug@));
    let segs = split_exec(&target, '/');
    assert(views(segs@) =~= split_on(target@, '/'));
    walk_exec(&mut stack, &segs);
    let joined = join_exec(&stack, &slash);
    let mut out: Vec<char> = vec!['#', '/'];
    push_all(&mut out, &joined);
    string_of(&out)
}

} // verus!
